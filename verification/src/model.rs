use vstd::prelude::*;
use crate::text::{copy_opt_string, copy_string, copy_strings, views};

verus! {

/// An RFC 3339 timestamp in text form.
pub type Timestamp = String;

/// Which kind of mail service an account talks to.
#[derive(Debug, Clone, Copy, PartialEq, Eq, Structural, Default)]
pub enum MailProvider {
    #[default]
    GenericImapSmtp,
    Gmail,
}

/// How an account authenticates against its IMAP and SMTP servers.
#[derive(Debug, Clone, PartialEq, Eq)]
pub enum MailAuth {
    Password { password: String },
    GoogleOAuth { refresh_token: String, access_token: String, expires_at: Timestamp },
}

impl MailAuth {
    /// Password authentication with an empty password.
    pub fn empty_password() -> (auth: MailAuth)
        ensures
            auth matches MailAuth::Password { password } && password@.len() == 0,
    {
        MailAuth::Password { password: String::new() }
    }
}

/// A configured mail account.
#[derive(Debug, Clone, PartialEq, Eq)]
pub struct MailAccount {
    pub id: String,
    pub display_name: String,
    pub email: String,
    pub provider: MailProvider,
    pub auth: MailAuth,
    pub imap_host: String,
    pub imap_port: u16,
    pub imap_tls: bool,
    pub smtp_host: String,
    pub smtp_port: u16,
    pub smtp_tls: bool,
    pub sync_enabled: bool,
    pub created_at: Timestamp,
    pub updated_at: Timestamp,
}

impl MailAccount {
    /// Whether the account authenticates with a password.
    pub fn is_password_auth(&self) -> (r: bool)
        ensures
            r == (self.auth is Password),
    {
        match self.auth {
            MailAuth::Password { .. } => true,
            _ => false,
        }
    }

    /// Whether the account authenticates through Google OAuth.
    pub fn is_oauth_auth(&self) -> (r: bool)
        ensures
            r == (self.auth is GoogleOAuth),
    {
        match self.auth {
            MailAuth::GoogleOAuth { .. } => true,
            _ => false,
        }
    }
}

/// A folder (IMAP mailbox) of an account.
#[derive(Debug, Clone, PartialEq, Eq)]
pub struct MailFolder {
    pub id: String,
    pub account_id: String,
    pub name: String,
    pub path: String,
    pub role: FolderRole,
    pub unread_count: u32,
    pub total_count: u32,
}

/// The special purpose a folder serves, if any.
#[derive(Debug, Clone, Copy, PartialEq, Eq, Structural)]
pub enum FolderRole {
    Inbox,
    Sent,
    Archive,
    Trash,
    Drafts,
    Junk,
    Custom,
}

/// The state flags of a message.
#[derive(Debug, Clone, Copy, PartialEq, Eq, Structural, Default)]
pub struct MessageFlags {
    pub is_read: bool,
    pub is_starred: bool,
    pub is_answered: bool,
    pub is_forwarded: bool,
}

/// Metadata of one attachment of a message.
#[derive(Debug, Clone, PartialEq, Eq)]
pub struct AttachmentRef {
    pub id: String,
    pub message_id: String,
    pub filename: String,
    pub mime_type: String,
    pub size_bytes: i64,
    pub local_path: Option<String>,
}

/// Two attachment records with the same fields.
pub open spec fn same_attachment(a: AttachmentRef, b: AttachmentRef) -> bool {
    &&& a.id@ == b.id@
    &&& a.message_id@ == b.message_id@
    &&& a.filename@ == b.filename@
    &&& a.mime_type@ == b.mime_type@
    &&& a.size_bytes == b.size_bytes
    &&& a.local_path is Some == b.local_path is Some
    &&& a.local_path is Some ==> a.local_path->0@ == b.local_path->0@
}

/// Two lists of attachment records that agree item by item.
pub open spec fn same_attachments(a: Seq<AttachmentRef>, b: Seq<AttachmentRef>) -> bool {
    a.len() == b.len() && forall|i: int| 0 <= i < a.len() ==> same_attachment(#[trigger] a[i], b[i])
}

impl AttachmentRef {
    /// A copy of this record.
    pub fn duplicate(&self) -> (r: AttachmentRef)
        ensures
            same_attachment(*self, r),
    {
        AttachmentRef {
            id: copy_string(&self.id),
            message_id: copy_string(&self.message_id),
            filename: copy_string(&self.filename),
            mime_type: copy_string(&self.mime_type),
            size_bytes: self.size_bytes,
            local_path: copy_opt_string(&self.local_path),
        }
    }
}

/// A copy of a list of attachment records.
pub fn copy_attachments(v: &Vec<AttachmentRef>) -> (r: Vec<AttachmentRef>)
    ensures
        same_attachments(v@, r@),
{
    let mut r: Vec<AttachmentRef> = Vec::new();
    for i in 0..v.len()
        invariant
            r@.len() == i,
            forall|j: int| 0 <= j < i ==> same_attachment(#[trigger] v@[j], r@[j]),
    {
        r.push(v[i].duplicate());
    }
    r
}

/// A resource of a message that its HTML body refers to by `cid:`, such as
/// an embedded image.
#[derive(Debug, Clone, PartialEq, Eq)]
pub struct InlineResource {
    pub id: String,
    pub message_id: String,
    pub content_id: String,
    pub filename: Option<String>,
    pub mime_type: String,
    pub bytes: Vec<u8>,
}

/// A message as the client stores it.
#[derive(Debug, Clone, PartialEq, Eq)]
pub struct MailMessage {
    pub id: String,
    pub account_id: String,
    pub folder_id: String,
    pub uid: Option<String>,
    pub message_id_header: Option<String>,
    pub subject: String,
    pub sender: String,
    pub recipients: Vec<String>,
    pub cc: Vec<String>,
    pub received_at: Timestamp,
    pub body_preview: String,
    pub body: Option<String>,
    pub html_body: Option<String>,
    pub raw_mime: Option<Vec<u8>>,
    pub inline_resources: Vec<InlineResource>,
    pub attachments: Vec<AttachmentRef>,
    pub flags: MessageFlags,
    pub size_bytes: Option<i64>,
    pub deleted_at: Option<Timestamp>,
}

/// The state of a synchronisation run.
#[derive(Debug, Clone, Copy, PartialEq, Eq, Structural)]
pub enum SyncStateKind {
    Idle,
    Syncing,
    Watching,
    Backoff,
    Error,
    Disabled,
}

/// The synchronisation state of an account (no folder) or of one folder.
#[derive(Debug, Clone, PartialEq, Eq)]
pub struct SyncState {
    pub account_id: String,
    pub folder_id: Option<String>,
    pub state: SyncStateKind,
    pub last_uid: Option<String>,
    pub last_synced_at: Option<Timestamp>,
    pub error_message: Option<String>,
    pub backoff_until: Option<Timestamp>,
    pub failure_count: u32,
}

/// An action a user can take on messages.
#[derive(Debug, Clone, Copy, PartialEq, Eq, Structural)]
pub enum MailActionKind {
    MarkRead,
    MarkUnread,
    Star,
    Unstar,
    Move,
    Archive,
    Delete,
    PermanentDelete,
    Send,
    Forward,
    BatchDelete,
    BatchMove,
}

/// The actions that are queued until the user confirms them.
pub open spec fn spec_requires_confirmation(action: MailActionKind) -> bool {
    match action {
        MailActionKind::PermanentDelete
        | MailActionKind::Send
        | MailActionKind::Forward
        | MailActionKind::BatchDelete
        | MailActionKind::BatchMove => true,
        _ => false,
    }
}

/// The actions that take messages out of their folder into another one.
pub open spec fn spec_is_move_like(action: MailActionKind) -> bool {
    match action {
        MailActionKind::Move
        | MailActionKind::Archive
        | MailActionKind::Delete
        | MailActionKind::BatchMove
        | MailActionKind::BatchDelete => true,
        _ => false,
    }
}

/// Sending, forwarding, deleting for good and acting on several messages at
/// once wait for confirmation; moving, archiving and deleting (one message
/// or several) move messages to another folder; marking read or unread and
/// starring do neither.
pub proof fn lemma_action_classes(action: MailActionKind)
    ensures
        spec_requires_confirmation(action) <==> (action == MailActionKind::PermanentDelete || action
            == MailActionKind::Send || action == MailActionKind::Forward || action
            == MailActionKind::BatchDelete || action == MailActionKind::BatchMove),
        spec_is_move_like(action) <==> (action == MailActionKind::Move || action == MailActionKind::Archive
            || action == MailActionKind::Delete || action == MailActionKind::BatchMove || action
            == MailActionKind::BatchDelete),
        action == MailActionKind::MarkRead || action == MailActionKind::MarkUnread || action
            == MailActionKind::Star || action == MailActionKind::Unstar ==> !spec_requires_confirmation(
            action,
        ) && !spec_is_move_like(action),
{
}

impl MailActionKind {
    /// Whether the action is held back until the user confirms it.
    pub fn requires_confirmation(&self) -> (r: bool)
        ensures
            r == spec_requires_confirmation(*self),
    {
        match self {
            MailActionKind::PermanentDelete
            | MailActionKind::Send
            | MailActionKind::Forward
            | MailActionKind::BatchDelete
            | MailActionKind::BatchMove => true,
            _ => false,
        }
    }

    /// Whether the action moves messages into a target folder.
    pub fn is_move_like(&self) -> (r: bool)
        ensures
            r == spec_is_move_like(*self),
    {
        match self {
            MailActionKind::Move
            | MailActionKind::Archive
            | MailActionKind::Delete
            | MailActionKind::BatchMove
            | MailActionKind::BatchDelete => true,
            _ => false,
        }
    }
}

/// A request to act on messages of one account.
#[derive(Debug, Clone, PartialEq, Eq)]
pub struct MailActionRequest {
    pub action: MailActionKind,
    pub account_id: String,
    pub message_ids: Vec<String>,
    pub target_folder_id: Option<String>,
}

/// Whether an action ran at once or waits for confirmation.
#[derive(Debug, Clone, Copy, PartialEq, Eq, Structural)]
pub enum MailActionResultKind {
    Executed,
    Pending,
}

/// The outcome of an action request.
#[derive(Debug, Clone, PartialEq, Eq)]
pub struct MailActionResult {
    pub kind: MailActionResultKind,
    pub pending_action_id: Option<String>,
}

/// The life cycle of a queued action.
#[derive(Debug, Clone, Copy, PartialEq, Eq, Structural)]
pub enum PendingActionStatus {
    Pending,
    Accepted,
    Rejected,
    Executed,
    Failed,
}

/// An action waiting for (or past) the user's confirmation.
#[derive(Debug, Clone, PartialEq, Eq)]
pub struct PendingMailAction {
    pub id: String,
    pub account_id: String,
    pub action: MailActionKind,
    pub message_ids: Vec<String>,
    pub target_folder_id: Option<String>,
    pub local_message_id: Option<String>,
    pub draft: Option<SendMessageDraft>,
    pub status: PendingActionStatus,
    pub error_message: Option<String>,
    pub created_at: Timestamp,
    pub updated_at: Timestamp,
}

/// An action as it is sent to the IMAP server.
#[derive(Debug, Clone, PartialEq, Eq)]
pub struct RemoteMailAction {
    pub action: MailActionKind,
    pub source_folder: MailFolder,
    pub target_folder: Option<MailFolder>,
    pub uids: Vec<String>,
}

/// The status recorded in an audit entry.
#[derive(Debug, Clone, Copy, PartialEq, Eq, Structural)]
pub enum ActionAuditStatus {
    Queued,
    Accepted,
    Rejected,
    Executed,
    Failed,
}

/// One entry of the action audit log.
#[derive(Debug, Clone, PartialEq, Eq)]
pub struct MailActionAudit {
    pub id: String,
    pub account_id: String,
    pub action: MailActionKind,
    pub message_ids: Vec<String>,
    pub status: ActionAuditStatus,
    pub error_message: Option<String>,
    pub created_at: Timestamp,
}

/// A page of stored messages, optionally restricted to an account or folder.
#[derive(Debug, Clone, PartialEq, Eq)]
pub struct MessageQuery {
    pub account_id: Option<String>,
    pub folder_id: Option<String>,
    pub limit: u32,
    pub offset: u32,
}

impl MessageQuery {
    /// The first hundred messages of every account and folder.
    pub fn default_query() -> (q: MessageQuery)
        ensures
            q.account_id is None,
            q.folder_id is None,
            q.limit == 100,
            q.offset == 0,
    {
        MessageQuery { account_id: None, folder_id: None, limit: 100, offset: 0 }
    }
}

/// A message to be sent.
#[derive(Debug, Clone, PartialEq, Eq)]
pub struct SendMessageDraft {
    pub account_id: String,
    pub to: Vec<String>,
    pub cc: Vec<String>,
    pub subject: String,
    pub body: String,
    pub message_id_header: Option<String>,
}

/// The identifier given to a sent message, with an optional warning.
#[derive(Debug, Clone, PartialEq, Eq)]
pub struct SendMessageResult {
    pub message_id: String,
    pub warning: Option<String>,
}

/// What the protocol layer needs to reach an account's servers.
#[derive(Debug, Clone, PartialEq, Eq)]
pub struct ConnectionSettings {
    pub account_id: Option<String>,
    pub email: String,
    pub imap_host: String,
    pub imap_port: u16,
    pub imap_tls: bool,
    pub smtp_host: String,
    pub smtp_port: u16,
    pub smtp_tls: bool,
    pub auth: ConnectionAuth,
}

/// How a connection signs in: with a password, or with a Google OAuth
/// access token (XOAUTH2).
#[derive(Debug, Clone, PartialEq, Eq)]
pub enum ConnectionAuth {
    Password { password: String },
    GoogleOAuth { access_token: String },
}

/// Whether a sign-in carries a secret: a non-empty password or access token.
pub open spec fn spec_auth_present(auth: ConnectionAuth) -> bool {
    match auth {
        ConnectionAuth::Password { password } => password@.len() > 0,
        ConnectionAuth::GoogleOAuth { access_token } => access_token@.len() > 0,
    }
}

impl ConnectionAuth {
    /// Whether the sign-in carries a secret.
    pub fn is_present(&self) -> (r: bool)
        ensures
            r == spec_auth_present(*self),
    {
        match self {
            ConnectionAuth::Password { password } => crate::text::chars_of(password.as_str()).len() > 0,
            ConnectionAuth::GoogleOAuth { access_token } => crate::text::chars_of(
                access_token.as_str(),
            ).len() > 0,
        }
    }
}

/// The outcome of a connection test.
#[derive(Debug, Clone, PartialEq, Eq)]
pub struct ConnectionTestResult {
    pub imap_ok: bool,
    pub smtp_ok: bool,
    pub message: String,
}

/// Which messages of a folder to fetch.
#[derive(Debug, Clone, PartialEq, Eq)]
pub struct MessageFetchRequest {
    pub last_uid: Option<String>,
    pub limit: u32,
}

impl MessageFetchRequest {
    /// The hundred newest messages, with no known UID.
    pub fn default_request() -> (r: MessageFetchRequest)
        ensures
            r.last_uid is None,
            r.limit == 100,
    {
        MessageFetchRequest { last_uid: None, limit: 100 }
    }
}

/// How watching a folder ended.
#[derive(Debug, Clone, Copy, PartialEq, Eq, Structural)]
pub enum FolderWatchOutcome {
    Changed,
    Timeout,
}

/// The urgency a model gives a message.
#[derive(Debug, Clone, Copy, PartialEq, Eq, Structural, Default)]
pub enum AiPriority {
    Low,
    #[default]
    Normal,
    High,
    Urgent,
}

/// The settings of the remote model, API key included.
#[derive(Clone, PartialEq, Eq)]
pub struct AiSettings {
    pub id: String,
    pub provider_name: String,
    pub base_url: String,
    pub model: String,
    pub api_key: String,
    pub enabled: bool,
    pub created_at: Timestamp,
    pub updated_at: Timestamp,
}

/// The settings of the remote model as the user interface sees them.
#[derive(Debug, Clone, PartialEq, Eq)]
pub struct AiSettingsView {
    pub provider_name: String,
    pub base_url: String,
    pub model: String,
    pub enabled: bool,
    pub api_key_mask: Option<String>,
}

/// A request to change the settings of the remote model.
#[derive(Clone, PartialEq, Eq)]
pub struct SaveAiSettingsRequest {
    pub provider_name: String,
    pub base_url: String,
    pub model: String,
    pub api_key: Option<String>,
    pub enabled: bool,
}

/// What is sent to the model about one message.
#[derive(Debug, Clone, PartialEq, Eq)]
pub struct AiAnalysisInput {
    pub message_id: String,
    pub subject: String,
    pub sender: String,
    pub recipients: Vec<String>,
    pub cc: Vec<String>,
    pub received_at: Timestamp,
    pub body_preview: String,
    pub body: Option<String>,
    pub attachments: Vec<AttachmentRef>,
}

/// What the model answers about one message.
#[derive(Debug, Clone, PartialEq, Eq)]
pub struct AiInsightPayload {
    pub summary: String,
    pub category: String,
    pub priority: AiPriority,
    pub todos: Vec<String>,
    pub reply_draft: String,
    pub raw_json: String,
}

/// Two model answers with the same fields.
pub open spec fn same_payload(a: AiInsightPayload, b: AiInsightPayload) -> bool {
    &&& a.summary@ == b.summary@
    &&& a.category@ == b.category@
    &&& a.priority == b.priority
    &&& views(a.todos@) == views(b.todos@)
    &&& a.reply_draft@ == b.reply_draft@
    &&& a.raw_json@ == b.raw_json@
}

impl AiInsightPayload {
    /// A copy of this answer.
    pub fn duplicate(&self) -> (r: AiInsightPayload)
        ensures
            same_payload(*self, r),
    {
        AiInsightPayload {
            summary: copy_string(&self.summary),
            category: copy_string(&self.category),
            priority: self.priority,
            todos: copy_strings(&self.todos),
            reply_draft: copy_string(&self.reply_draft),
            raw_json: copy_string(&self.raw_json),
        }
    }
}

/// A stored analysis of one message.
#[derive(Debug, Clone, PartialEq, Eq)]
pub struct AiInsight {
    pub id: String,
    pub message_id: String,
    pub provider_name: String,
    pub model: String,
    pub summary: String,
    pub category: String,
    pub priority: AiPriority,
    pub todos: Vec<String>,
    pub reply_draft: String,
    pub raw_json: String,
    pub created_at: Timestamp,
}

/// A change of the read and starred flags; `None` leaves a flag as it is.
#[derive(Debug, Clone, Copy, PartialEq, Eq, Structural, Default)]
pub struct MessageFlagPatch {
    pub is_read: Option<bool>,
    pub is_starred: Option<bool>,
}

} // verus!
