//! The error types of the library and the text each one shows.
use vstd::prelude::*;
use crate::model::MailActionKind;
use crate::text::{concat2, concat3};

verus! {

/// Failures of the mail protocol layer.
#[derive(Debug, Clone, PartialEq, Eq)]
pub enum ProtocolError {
    Connection(String),
    Authentication(String),
    Fetch(String),
    Parse(String),
    Send(String),
    Unsupported(String),
}

/// The text shown for a protocol error.
pub open spec fn spec_protocol_error_message(e: ProtocolError) -> Seq<char> {
    match e {
        ProtocolError::Connection(m) => "connection failed: "@ + m@,
        ProtocolError::Authentication(m) => "authentication failed: "@ + m@,
        ProtocolError::Fetch(m) => "fetch failed: "@ + m@,
        ProtocolError::Parse(m) => "parse failed: "@ + m@,
        ProtocolError::Send(m) => "send failed: "@ + m@,
        ProtocolError::Unsupported(m) => "protocol feature not implemented: "@ + m@,
    }
}

impl ProtocolError {
    /// The text shown for this error.
    pub fn message(&self) -> (r: String)
        ensures
            r@ == spec_protocol_error_message(*self),
    {
        match self {
            ProtocolError::Connection(m) => concat2("connection failed: ", m.as_str()),
            ProtocolError::Authentication(m) => concat2("authentication failed: ", m.as_str()),
            ProtocolError::Fetch(m) => concat2("fetch failed: ", m.as_str()),
            ProtocolError::Parse(m) => concat2("parse failed: ", m.as_str()),
            ProtocolError::Send(m) => concat2("send failed: ", m.as_str()),
            ProtocolError::Unsupported(m) => concat2(
                "protocol feature not implemented: ",
                m.as_str(),
            ),
        }
    }
}

/// Failures of the remote model.
#[derive(Debug, Clone, PartialEq, Eq)]
pub enum AiRemoteError {
    Disabled,
    InvalidSettings(String),
    Request(String),
    Parse(String),
}

/// The text shown for a remote model error.
pub open spec fn spec_ai_error_message(e: AiRemoteError) -> Seq<char> {
    match e {
        AiRemoteError::Disabled => "ai settings are disabled"@,
        AiRemoteError::InvalidSettings(m) => "ai settings are incomplete: "@ + m@,
        AiRemoteError::Request(m) => "remote ai request failed: "@ + m@,
        AiRemoteError::Parse(m) => "remote ai response parse failed: "@ + m@,
    }
}

/// Two remote model errors of the same kind with the same text.
pub open spec fn same_ai_error(a: AiRemoteError, b: AiRemoteError) -> bool {
    match (a, b) {
        (AiRemoteError::Disabled, AiRemoteError::Disabled) => true,
        (AiRemoteError::InvalidSettings(x), AiRemoteError::InvalidSettings(y)) => x@ == y@,
        (AiRemoteError::Request(x), AiRemoteError::Request(y)) => x@ == y@,
        (AiRemoteError::Parse(x), AiRemoteError::Parse(y)) => x@ == y@,
        _ => false,
    }
}

impl AiRemoteError {
    /// The text shown for this error.
    pub fn message(&self) -> (r: String)
        ensures
            r@ == spec_ai_error_message(*self),
    {
        match self {
            AiRemoteError::Disabled => "ai settings are disabled".to_owned(),
            AiRemoteError::InvalidSettings(m) => concat2(
                "ai settings are incomplete: ",
                m.as_str(),
            ),
            AiRemoteError::Request(m) => concat2("remote ai request failed: ", m.as_str()),
            AiRemoteError::Parse(m) => concat2("remote ai response parse failed: ", m.as_str()),
        }
    }

    /// A copy of this error.
    pub fn duplicate(&self) -> (r: AiRemoteError)
        ensures
            same_ai_error(*self, r),
    {
        match self {
            AiRemoteError::Disabled => AiRemoteError::Disabled,
            AiRemoteError::InvalidSettings(m) => AiRemoteError::InvalidSettings(m.clone()),
            AiRemoteError::Request(m) => AiRemoteError::Request(m.clone()),
            AiRemoteError::Parse(m) => AiRemoteError::Parse(m.clone()),
        }
    }
}

/// Failures of a secret store.
#[derive(Debug, Clone, PartialEq, Eq)]
pub enum SecretError {
    NotFound(String),
    Backend(String),
}

/// The text shown for a secret store error.
pub open spec fn spec_secret_error_message(e: SecretError) -> Seq<char> {
    match e {
        SecretError::NotFound(m) => "secret not found: "@ + m@,
        SecretError::Backend(m) => "secret backend error: "@ + m@,
    }
}

impl SecretError {
    /// The text shown for this error.
    pub fn message(&self) -> (r: String)
        ensures
            r@ == spec_secret_error_message(*self),
    {
        match self {
            SecretError::NotFound(m) => concat2("secret not found: ", m.as_str()),
            SecretError::Backend(m) => concat2("secret backend error: ", m.as_str()),
        }
    }
}

/// Failures of the application layer. A failure of the database is carried
/// as its text.
#[derive(Debug, Clone, PartialEq, Eq)]
pub enum ApiError {
    Store(String),
    Protocol(ProtocolError),
    AiRemote(AiRemoteError),
    ConfirmationRequired(MailActionKind),
    SyncAlreadyRunning(String),
    SyncBackoff { account_id: String, backoff_until: String },
    InvalidRequest(String),
}

/// The name `{:?}` gives an action kind.
pub open spec fn action_debug_name(k: MailActionKind) -> Seq<char> {
    match k {
        MailActionKind::MarkRead => "MarkRead"@,
        MailActionKind::MarkUnread => "MarkUnread"@,
        MailActionKind::Star => "Star"@,
        MailActionKind::Unstar => "Unstar"@,
        MailActionKind::Move => "Move"@,
        MailActionKind::Archive => "Archive"@,
        MailActionKind::Delete => "Delete"@,
        MailActionKind::PermanentDelete => "PermanentDelete"@,
        MailActionKind::Send => "Send"@,
        MailActionKind::Forward => "Forward"@,
        MailActionKind::BatchDelete => "BatchDelete"@,
        MailActionKind::BatchMove => "BatchMove"@,
    }
}

fn action_debug_str(k: MailActionKind) -> (r: &'static str)
    ensures
        r@ == action_debug_name(k),
{
    match k {
        MailActionKind::MarkRead => "MarkRead",
        MailActionKind::MarkUnread => "MarkUnread",
        MailActionKind::Star => "Star",
        MailActionKind::Unstar => "Unstar",
        MailActionKind::Move => "Move",
        MailActionKind::Archive => "Archive",
        MailActionKind::Delete => "Delete",
        MailActionKind::PermanentDelete => "PermanentDelete",
        MailActionKind::Send => "Send",
        MailActionKind::Forward => "Forward",
        MailActionKind::BatchDelete => "BatchDelete",
        MailActionKind::BatchMove => "BatchMove",
    }
}

/// The text shown for an application error.
pub open spec fn spec_api_error_message(e: ApiError) -> Seq<char> {
    match e {
        ApiError::Store(m) => m@,
        ApiError::Protocol(p) => spec_protocol_error_message(p),
        ApiError::AiRemote(a) => spec_ai_error_message(a),
        ApiError::ConfirmationRequired(k) => "blocked action requires explicit confirmation: "@
            + action_debug_name(k),
        ApiError::SyncAlreadyRunning(id) => "sync already running for account: "@ + id@,
        ApiError::SyncBackoff { account_id, backoff_until } => "sync is in backoff until "@
            + backoff_until@ + ": "@ + account_id@,
        ApiError::InvalidRequest(m) => "invalid request: "@ + m@,
    }
}

impl ApiError {
    /// The text shown for this error.
    pub fn message(&self) -> (r: String)
        ensures
            r@ == spec_api_error_message(*self),
    {
        match self {
            ApiError::Store(m) => m.clone(),
            ApiError::Protocol(p) => p.message(),
            ApiError::AiRemote(a) => a.message(),
            ApiError::ConfirmationRequired(k) => concat2(
                "blocked action requires explicit confirmation: ",
                action_debug_str(*k),
            ),
            ApiError::SyncAlreadyRunning(id) => concat2(
                "sync already running for account: ",
                id.as_str(),
            ),
            ApiError::SyncBackoff { account_id, backoff_until } => {
                let mut m = concat3("sync is in backoff until ", backoff_until.as_str(), ": ");
                m.append(account_id.as_str());
                m
            },
            ApiError::InvalidRequest(m) => concat2("invalid request: ", m.as_str()),
        }
    }
}

/// An invalid-request error with the text `m`.
pub open spec fn is_invalid_request(e: ApiError, m: Seq<char>) -> bool {
    e matches ApiError::InvalidRequest(x) && x@ == m
}

} // verus!
