//! Account configuration as the user enters it: the checks it must pass and
//! the records and connection settings made from it.
use vstd::prelude::*;
use crate::errors::{ApiError, is_invalid_request};
use crate::model::{ConnectionAuth, ConnectionSettings, MailAccount, MailAuth, MailProvider};
use crate::protocol::{mailbox_parse_result, validate_mailbox_address};
use crate::text::{chars_of, concat2, copy_string, is_blank, trim, trim_str};

verus! {

/// A request to add a new account.
#[derive(Debug, Clone, PartialEq, Eq)]
pub struct AddAccountRequest {
    pub display_name: String,
    pub email: String,
    pub password: String,
    pub imap_host: String,
    pub imap_port: u16,
    pub imap_tls: bool,
    pub smtp_host: String,
    pub smtp_port: u16,
    pub smtp_tls: bool,
}

/// An account's settings as the configuration form shows them.
#[derive(Debug, Clone, PartialEq, Eq)]
pub struct AccountConfigView {
    pub id: String,
    pub display_name: String,
    pub email: String,
    pub password: String,
    pub imap_host: String,
    pub imap_port: u16,
    pub imap_tls: bool,
    pub smtp_host: String,
    pub smtp_port: u16,
    pub smtp_tls: bool,
    pub sync_enabled: bool,
    pub created_at: String,
    pub updated_at: String,
}

/// A request to create (no `id`) or change (an `id`) an account.
#[derive(Debug, Clone, PartialEq, Eq)]
pub struct SaveAccountConfigRequest {
    pub id: Option<String>,
    pub display_name: String,
    pub email: String,
    pub password: String,
    pub imap_host: String,
    pub imap_port: u16,
    pub imap_tls: bool,
    pub smtp_host: String,
    pub smtp_port: u16,
    pub smtp_tls: bool,
    pub sync_enabled: bool,
}

/// A request to test a stored account (`account_id`) or settings typed in
/// by hand (`manual`).
#[derive(Debug, Clone, PartialEq, Eq)]
pub struct TestConnectionRequest {
    pub account_id: Option<String>,
    pub manual: Option<SaveAccountConfigRequest>,
}

/// What one synchronisation run of an account did.
#[derive(Debug, Clone, PartialEq, Eq)]
pub struct SyncSummary {
    pub account_id: String,
    pub folders: u32,
    pub messages: u32,
    pub last_uid: Option<String>,
    pub synced_at: String,
}

/// Accounts synchronise unless the request says otherwise.
pub fn default_sync_enabled() -> (r: bool)
    ensures
        r,
{
    true
}

/// The text of the error for a required field that is blank.
pub open spec fn required_message(field: Seq<char>) -> Seq<char> {
    field + " is required"@
}

/// `value` without surrounding white space; an error naming `field` if
/// nothing is left.
pub fn required_trimmed(value: String, field: &str) -> (r: Result<String, ApiError>)
    ensures
        trim(value@).len() == 0 ==> (r matches Err(e) && is_invalid_request(
            e,
            required_message(field@),
        )),
        trim(value@).len() > 0 ==> (r matches Ok(t) && t@ == trim(value@)),
{
    if is_blank(value.as_str()) {
        Err(ApiError::InvalidRequest(concat2(field, " is required")))
    } else {
        Ok(trim_str(value.as_str()))
    }
}

/// How an e-mail address field is judged: blank, not a mailbox, or the
/// trimmed address.
pub open spec fn spec_email_check(value: Seq<char>) -> Result<Seq<char>, Seq<char>> {
    if trim(value).len() == 0 {
        Err(required_message("email"@))
    } else if mailbox_parse_result(trim(value)) is Err {
        Err("email is invalid"@)
    } else {
        Ok(trim(value))
    }
}

/// The trimmed e-mail address, if it is present and reads as a mailbox.
pub fn normalize_email_address(value: &str) -> (r: Result<String, ApiError>)
    ensures
        match spec_email_check(value@) {
            Ok(t) => r matches Ok(s) && s@ == t,
            Err(m) => r matches Err(e) && is_invalid_request(e, m),
        },
{
    let email = required_trimmed(value.to_owned(), "email")?;
    match validate_mailbox_address(email.as_str()) {
        Ok(()) => Ok(email),
        Err(_) => Err(ApiError::InvalidRequest("email is invalid".to_owned())),
    }
}

/// How a configuration request is judged: the address first, then the
/// password, then the two host names.
pub open spec fn spec_config_check(req: SaveAccountConfigRequest) -> Result<(), Seq<char>> {
    match spec_email_check(req.email@) {
        Err(m) => Err(m),
        Ok(_) => if req.password@.len() == 0 {
            Err(required_message("password"@))
        } else if trim(req.imap_host@).len() == 0 || trim(req.smtp_host@).len() == 0 {
            Err("imap_host and smtp_host are required"@)
        } else {
            Ok(())
        },
    }
}

/// A configuration is judged in order: a bad address is refused with its
/// own message; then a missing password with `password is required`; then
/// a blank IMAP host or a blank SMTP host, either one, with `imap_host and
/// smtp_host are required`; a configuration that passes all of these is
/// accepted.
pub proof fn lemma_config_check_order(req: SaveAccountConfigRequest)
    ensures
        spec_email_check(req.email@) matches Err(m) ==> spec_config_check(req) == Err::<(), Seq<char>>(m),
        spec_email_check(req.email@) is Ok && req.password@.len() == 0 ==> spec_config_check(req)
            == Err::<(), Seq<char>>("password is required"@),
        spec_email_check(req.email@) is Ok && req.password@.len() > 0 && trim(req.imap_host@).len() == 0
            ==> spec_config_check(req) == Err::<(), Seq<char>>("imap_host and smtp_host are required"@),
        spec_email_check(req.email@) is Ok && req.password@.len() > 0 && trim(req.smtp_host@).len() == 0
            ==> spec_config_check(req) == Err::<(), Seq<char>>("imap_host and smtp_host are required"@),
        spec_email_check(req.email@) is Ok && req.password@.len() > 0 && trim(req.imap_host@).len() > 0
            && trim(req.smtp_host@).len() > 0 ==> spec_config_check(req) == Ok::<(), Seq<char>>(()),
{
    reveal_strlit("password");
    reveal_strlit(" is required");
    reveal_strlit("password is required");
    assert(required_message("password"@) =~= "password is required"@);
}

impl SaveAccountConfigRequest {
    /// Checks the request: a valid address, a password, and both host names.
    pub fn validate(&self) -> (r: Result<(), ApiError>)
        ensures
            match spec_config_check(*self) {
                Ok(()) => r is Ok,
                Err(m) => r matches Err(e) && is_invalid_request(e, m),
            },
    {
        normalize_email_address(self.email.as_str())?;
        if chars_of(self.password.as_str()).len() == 0 {
            return Err(ApiError::InvalidRequest(concat2("password", " is required")));
        }
        if is_blank(self.imap_host.as_str()) || is_blank(self.smtp_host.as_str()) {
            return Err(ApiError::InvalidRequest("imap_host and smtp_host are required".to_owned()));
        }
        Ok(())
    }

    /// The connection settings the request describes, the address trimmed.
    pub fn connection_settings(&self, account_id: Option<String>) -> (r: ConnectionSettings)
        ensures
            r.account_id == account_id,
            r.email@ == trim(self.email@),
            r.imap_host@ == self.imap_host@,
            r.imap_port == self.imap_port,
            r.imap_tls == self.imap_tls,
            r.smtp_host@ == self.smtp_host@,
            r.smtp_port == self.smtp_port,
            r.smtp_tls == self.smtp_tls,
            (r.auth matches ConnectionAuth::Password { password } && password@ == self.password@),
    {
        ConnectionSettings {
            account_id,
            email: trim_str(self.email.as_str()),
            imap_host: copy_string(&self.imap_host),
            imap_port: self.imap_port,
            imap_tls: self.imap_tls,
            smtp_host: copy_string(&self.smtp_host),
            smtp_port: self.smtp_port,
            smtp_tls: self.smtp_tls,
            auth: ConnectionAuth::Password { password: copy_string(&self.password) },
        }
    }
}

impl AddAccountRequest {
    /// The configuration request that adds this account, synchronising.
    pub fn into_config(self) -> (r: SaveAccountConfigRequest)
        ensures
            r.id is None,
            r.display_name == self.display_name,
            r.email == self.email,
            r.password == self.password,
            r.imap_host == self.imap_host,
            r.imap_port == self.imap_port,
            r.imap_tls == self.imap_tls,
            r.smtp_host == self.smtp_host,
            r.smtp_port == self.smtp_port,
            r.smtp_tls == self.smtp_tls,
            r.sync_enabled,
    {
        SaveAccountConfigRequest {
            id: None,
            display_name: self.display_name,
            email: self.email,
            password: self.password,
            imap_host: self.imap_host,
            imap_port: self.imap_port,
            imap_tls: self.imap_tls,
            smtp_host: self.smtp_host,
            smtp_port: self.smtp_port,
            smtp_tls: self.smtp_tls,
            sync_enabled: default_sync_enabled(),
        }
    }
}

/// The connection settings of a stored account with its password.
pub fn account_to_settings(account: &MailAccount, password: String) -> (r: ConnectionSettings)
    ensures
        r.account_id matches Some(id) && id@ == account.id@,
        r.email@ == account.email@,
        r.imap_host@ == account.imap_host@,
        r.imap_port == account.imap_port,
        r.imap_tls == account.imap_tls,
        r.smtp_host@ == account.smtp_host@,
        r.smtp_port == account.smtp_port,
        r.smtp_tls == account.smtp_tls,
        r.auth == (ConnectionAuth::Password { password }),
{
    ConnectionSettings {
        account_id: Some(copy_string(&account.id)),
        email: copy_string(&account.email),
        imap_host: copy_string(&account.imap_host),
        imap_port: account.imap_port,
        imap_tls: account.imap_tls,
        smtp_host: copy_string(&account.smtp_host),
        smtp_port: account.smtp_port,
        smtp_tls: account.smtp_tls,
        auth: ConnectionAuth::Password { password },
    }
}

/// A stored account with its password, as the configuration form shows it.
pub fn account_config_view(account: MailAccount, password: String) -> (r: AccountConfigView)
    ensures
        r.id == account.id,
        r.display_name == account.display_name,
        r.email == account.email,
        r.password == password,
        r.imap_host == account.imap_host,
        r.imap_port == account.imap_port,
        r.imap_tls == account.imap_tls,
        r.smtp_host == account.smtp_host,
        r.smtp_port == account.smtp_port,
        r.smtp_tls == account.smtp_tls,
        r.sync_enabled == account.sync_enabled,
        r.created_at == account.created_at,
        r.updated_at == account.updated_at,
{
    AccountConfigView {
        id: account.id,
        display_name: account.display_name,
        email: account.email,
        password,
        imap_host: account.imap_host,
        imap_port: account.imap_port,
        imap_tls: account.imap_tls,
        smtp_host: account.smtp_host,
        smtp_port: account.smtp_port,
        smtp_tls: account.smtp_tls,
        sync_enabled: account.sync_enabled,
        created_at: account.created_at,
        updated_at: account.updated_at,
    }
}

/// The account record a checked configuration request stands for. A changed
/// account keeps its identifier and creation time; a new one takes `new_id`
/// and `now`. The password is kept apart from the record, which gets the
/// generic provider and password authentication with no password in it.
pub fn account_from_config(
    request: SaveAccountConfigRequest,
    email: String,
    existing: Option<&MailAccount>,
    new_id: String,
    now: String,
) -> (r: MailAccount)
    ensures
        match existing {
            Some(a) => r.id@ == a.id@ && r.created_at@ == a.created_at@,
            None => r.id == new_id && r.created_at@ == now@,
        },
        r.updated_at@ == now@,
        r.display_name == request.display_name,
        r.email == email,
        r.provider == MailProvider::GenericImapSmtp,
        r.auth matches MailAuth::Password { password } && password@.len() == 0,
        r.imap_host == request.imap_host,
        r.imap_port == request.imap_port,
        r.imap_tls == request.imap_tls,
        r.smtp_host == request.smtp_host,
        r.smtp_port == request.smtp_port,
        r.smtp_tls == request.smtp_tls,
        r.sync_enabled == request.sync_enabled,
{
    let (id, created_at) = match existing {
        Some(a) => (copy_string(&a.id), copy_string(&a.created_at)),
        None => (new_id, copy_string(&now)),
    };
    MailAccount {
        id,
        display_name: request.display_name,
        email,
        provider: MailProvider::GenericImapSmtp,
        auth: MailAuth::empty_password(),
        imap_host: request.imap_host,
        imap_port: request.imap_port,
        imap_tls: request.imap_tls,
        smtp_host: request.smtp_host,
        smtp_port: request.smtp_port,
        smtp_tls: request.smtp_tls,
        sync_enabled: request.sync_enabled,
        created_at,
        updated_at: now,
    }
}

/// How the settings for a connection test without a stored account are
/// judged: they must be given and pass the configuration checks.
pub open spec fn spec_manual_check(manual: Option<SaveAccountConfigRequest>) -> Result<(), Seq<char>> {
    match manual {
        None => Err("manual settings required"@),
        Some(m) => spec_config_check(m),
    }
}

/// The connection settings to test when no stored account is named.
pub fn manual_connection_settings(manual: Option<SaveAccountConfigRequest>) -> (r: Result<
    ConnectionSettings,
    ApiError,
>)
    ensures
        match spec_manual_check(manual) {
            Ok(()) => r matches Ok(s) && s.account_id is None && s.email@ == trim(manual->0.email@)
                && s.imap_host@ == manual->0.imap_host@ && s.imap_port == manual->0.imap_port
                && s.imap_tls == manual->0.imap_tls && s.smtp_host@ == manual->0.smtp_host@
                && s.smtp_port == manual->0.smtp_port && s.smtp_tls == manual->0.smtp_tls
                && (s.auth matches ConnectionAuth::Password { password } && password@
                == manual->0.password@),
            Err(m) => r matches Err(e) && is_invalid_request(e, m),
        },
{
    match manual {
        None => Err(ApiError::InvalidRequest("manual settings required".to_owned())),
        Some(m) => {
            m.validate()?;
            Ok(m.connection_settings(None))
        },
    }
}

} // verus!
