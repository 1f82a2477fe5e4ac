//! The decisions of the IMAP and SMTP layer: queries, UID sets, mailbox
//! checks, and which server commands an action becomes.
use vstd::prelude::*;
use crate::decimal::{decimal, decimal_chars, format_u32, parse_u32, spec_parse_u32};
use crate::errors::ProtocolError;
use crate::model::{
    ConnectionAuth, ConnectionSettings, ConnectionTestResult, FolderWatchOutcome, MailAccount, MailActionKind,
    MailFolder, MailMessage, MessageFetchRequest, RemoteMailAction, SendMessageDraft,
    spec_is_move_like,
};
use crate::text::{
    append_chars, chars_of, concat2, concat3, copy_string, is_blank, literal, string_from_chars, trim,
    trim_chars, views,
};

verus! {

// ---------------------------------------------------------------------------
// The mail server
// ---------------------------------------------------------------------------

/// What the client asks of a mail server.
pub trait MailProtocol {
    fn test_connection(&self, settings: &ConnectionSettings) -> Result<
        ConnectionTestResult,
        ProtocolError,
    >;

    fn fetch_folders(&self, settings: &ConnectionSettings, account: &MailAccount) -> Result<
        Vec<MailFolder>,
        ProtocolError,
    >;

    fn fetch_messages(
        &self,
        settings: &ConnectionSettings,
        account: &MailAccount,
        folder: &MailFolder,
        request: &MessageFetchRequest,
    ) -> Result<Vec<MailMessage>, ProtocolError>;

    fn send_message(&self, settings: &ConnectionSettings, draft: &SendMessageDraft) -> Result<
        String,
        ProtocolError,
    >;

    fn apply_action(
        &self,
        settings: &ConnectionSettings,
        account: &MailAccount,
        action: &RemoteMailAction,
    ) -> Result<(), ProtocolError>;

    /// Waits until `folder` changes; a server that cannot wait answers at
    /// once with a timeout.
    fn watch_folder_until_change(
        &self,
        settings: &ConnectionSettings,
        account: &MailAccount,
        folder: &MailFolder,
    ) -> (r: Result<FolderWatchOutcome, ProtocolError>)
        default_ensures
            r == Ok::<FolderWatchOutcome, ProtocolError>(FolderWatchOutcome::Timeout),
    {
        Ok(FolderWatchOutcome::Timeout)
    }
}

// ---------------------------------------------------------------------------
// Mailboxes
// ---------------------------------------------------------------------------

/// Names what `lettre::message::Mailbox::from_str` gives for a text: whether it
/// reads as a mailbox (`Name <user@domain>` or `user@domain`), and if not, the
/// text of lettre's error.
pub uninterp spec fn mailbox_parse_result(value: Seq<char>) -> Result<(), Seq<char>>;

/// Reads `value` with `lettre::message::Mailbox::from_str` and keeps only
/// whether it succeeded and, on failure, the error's text; the contract names
/// that outcome and claims nothing else about lettre's grammar.
#[verifier::external_body]
fn lettre_parse_mailbox(value: &str) -> (r: Result<(), String>)
    ensures
        match r {
            Ok(()) => mailbox_parse_result(value@) == Ok::<(), Seq<char>>(()),
            Err(e) => mailbox_parse_result(value@) == Err::<(), Seq<char>>(e@),
        },
{
    match value.parse::<lettre::message::Mailbox>() {
        Ok(_) => Ok(()),
        Err(err) => Err(err.to_string()),
    }
}

/// Whether `value` reads as a mailbox; the error says which text did not.
pub fn parse_mailbox(value: &str) -> (r: Result<(), ProtocolError>)
    ensures
        match (r, mailbox_parse_result(value@)) {
            (Ok(()), Ok(())) => true,
            (Err(ProtocolError::Send(m)), Err(e)) => m@ == "invalid mailbox "@ + value@ + ": "@ + e,
            _ => false,
        },
{
    match lettre_parse_mailbox(value) {
        Ok(()) => Ok(()),
        Err(e) => {
            let mut m = concat3("invalid mailbox ", value, ": ");
            m.append(e.as_str());
            Err(ProtocolError::Send(m))
        },
    }
}

/// Whether `value` is a valid mailbox address; the error names the text and
/// lettre's reason.
pub fn validate_mailbox_address(value: &str) -> (r: Result<(), ProtocolError>)
    ensures
        match mailbox_parse_result(value@) {
            Ok(()) => r is Ok,
            Err(e) => r matches Err(ProtocolError::Send(m)) && m@ == "invalid mailbox "@ + value@
                + ": "@ + e,
        },
{
    parse_mailbox(value)
}

// ---------------------------------------------------------------------------
// Authentication
// ---------------------------------------------------------------------------

/// The SASL XOAUTH2 initial response for a user and an access token.
pub open spec fn spec_xoauth2_payload(email: Seq<char>, access_token: Seq<char>) -> Seq<char> {
    "user="@ + email + "\x01auth=Bearer "@ + access_token + "\x01\x01"@
}

/// The SASL XOAUTH2 initial response for a user and an access token.
pub fn build_xoauth2_payload(email: &str, access_token: &str) -> (r: String)
    ensures
        r@ == spec_xoauth2_payload(email@, access_token@),
{
    let mut s = concat3("user=", email, "\x01auth=Bearer ");
    s.append(access_token);
    s.append("\x01\x01");
    s
}

/// How an IMAP session signs in: `LOGIN` with the password, or
/// `AUTHENTICATE XOAUTH2` answering with the SASL payload.
#[derive(Debug, Clone, PartialEq, Eq)]
pub enum ImapSignIn {
    Login { password: String },
    XOAuth2 { payload: String },
}

/// How IMAP signs in with the settings' address: a password logs in; a
/// Google access token authenticates with XOAUTH2.
pub fn imap_sign_in(settings: &ConnectionSettings) -> (r: ImapSignIn)
    ensures
        match settings.auth {
            ConnectionAuth::Password { password } => r matches ImapSignIn::Login { password: p }
                && p@ == password@,
            ConnectionAuth::GoogleOAuth { access_token } => r matches ImapSignIn::XOAuth2 {
                payload,
            } && payload@ == spec_xoauth2_payload(settings.email@, access_token@),
        },
{
    match &settings.auth {
        ConnectionAuth::Password { password } => ImapSignIn::Login { password: copy_string(password) },
        ConnectionAuth::GoogleOAuth { access_token } => ImapSignIn::XOAuth2 {
            payload: build_xoauth2_payload(settings.email.as_str(), access_token.as_str()),
        },
    }
}

/// An SMTP authentication mechanism.
#[derive(Debug, Clone, Copy, PartialEq, Eq, Structural)]
pub enum SmtpMechanism {
    Plain,
    Login,
    Xoauth2,
}

/// What SMTP signs in with: the user, the secret and the mechanisms to offer.
#[derive(Debug, Clone, PartialEq, Eq)]
pub struct SmtpSignIn {
    pub user: String,
    pub secret: String,
    pub mechanisms: Vec<SmtpMechanism>,
}

/// How SMTP signs in: as the settings' address, with the password by `PLAIN`
/// or `LOGIN`, or with a Google access token by `XOAUTH2`.
pub fn smtp_sign_in(settings: &ConnectionSettings) -> (r: SmtpSignIn)
    ensures
        r.user@ == settings.email@,
        match settings.auth {
            ConnectionAuth::Password { password } => r.secret@ == password@ && r.mechanisms@ == seq![
                SmtpMechanism::Plain,
                SmtpMechanism::Login,
            ],
            ConnectionAuth::GoogleOAuth { access_token } => r.secret@ == access_token@
                && r.mechanisms@ == seq![SmtpMechanism::Xoauth2],
        },
{
    let user = copy_string(&settings.email);
    match &settings.auth {
        ConnectionAuth::Password { password } => {
            let mechanisms = vec![SmtpMechanism::Plain, SmtpMechanism::Login];
            SmtpSignIn { user, secret: copy_string(password), mechanisms }
        },
        ConnectionAuth::GoogleOAuth { access_token } => {
            let mechanisms = vec![SmtpMechanism::Xoauth2];
            SmtpSignIn { user, secret: copy_string(access_token), mechanisms }
        },
    }
}

// ---------------------------------------------------------------------------
// UIDs
// ---------------------------------------------------------------------------

/// The first UID to ask for after `last_uid`: one more than it when it reads
/// as a number below `u32::MAX`, else 1.
pub open spec fn spec_next_uid(last_uid: Option<Seq<char>>) -> nat {
    match last_uid {
        Some(s) => match spec_parse_u32(s) {
            Some(v) => if v < u32::MAX {
                (v + 1) as nat
            } else {
                1
            },
            None => 1,
        },
        None => 1,
    }
}

/// Fetching on from a stored UID starts one past it: after the decimal
/// writing of a UID below `u32::MAX` comes that UID plus one; after
/// `u32::MAX`, after a text that is no number, or with no UID yet, the
/// search starts at 1.
pub proof fn lemma_next_uid_follows(uid: u32, text: Seq<char>)
    ensures
        uid < u32::MAX ==> spec_next_uid(Some(decimal(uid as nat))) == uid + 1,
        spec_next_uid(Some(decimal(u32::MAX as nat))) == 1,
        spec_parse_u32(text) is None ==> spec_next_uid(Some(text)) == 1,
        spec_next_uid(None) == 1,
{
    crate::decimal::lemma_parse_decimal(uid);
    crate::decimal::lemma_parse_decimal(u32::MAX);
}

/// The IMAP search for messages after `last_uid`.
pub open spec fn spec_uid_search_query(last_uid: Option<Seq<char>>) -> Seq<char> {
    "UID "@ + decimal(spec_next_uid(last_uid)) + ":*"@
}

/// The IMAP search for messages after `last_uid`.
pub fn uid_search_query(last_uid: Option<&str>) -> (r: String)
    ensures
        r@ == spec_uid_search_query(
            match last_uid {
                Some(s) => Some(s@),
                None => None,
            },
        ),
{
    let next: u32 = match last_uid {
        Some(s) => match parse_u32(s) {
            Some(v) => if v < u32::MAX {
                v + 1
            } else {
                1
            },
            None => 1,
        },
        None => 1,
    };
    let digits = format_u32(next);
    concat3("UID ", digits.as_str(), ":*")
}

/// `parts` joined with `sep` between each two.
pub open spec fn join(parts: Seq<Seq<char>>, sep: Seq<char>) -> Seq<char>
    decreases parts.len(),
{
    if parts.len() == 0 {
        Seq::empty()
    } else if parts.len() == 1 {
        parts[0]
    } else {
        join(parts.drop_last(), sep) + sep + parts.last()
    }
}

/// The strings of `parts` joined with `sep` between each two (`slice::join`).
pub fn join_strings(parts: &Vec<String>, sep: &str) -> (r: String)
    ensures
        r@ == join(views(parts@), sep@),
{
    let mut out = String::new();
    for i in 0..parts.len()
        invariant
            out@ == join(views(parts@.take(i as int)), sep@),
    {
        assert(views(parts@.take(i + 1)).drop_last() =~= views(parts@.take(i as int)));
        assert(views(parts@.take(i + 1)).last() == parts@[i as int]@);
        if i > 0 {
            out.append(sep);
        }
        out.append(parts[i].as_str());
        assert(i == 0 ==> views(parts@.take(i + 1)) =~= seq![parts@[i as int]@]);
    }
    assert(parts@.take(parts@.len() as int) =~= parts@);
    out
}

/// The decimal writings of `uids`.
pub open spec fn decimal_parts(uids: Seq<u32>) -> Seq<Seq<char>> {
    uids.map_values(|u: u32| decimal(u as nat))
}

/// A UID set: the UIDs in decimal, separated by commas.
pub open spec fn spec_compact_uid_set(uids: Seq<u32>) -> Seq<char> {
    join(decimal_parts(uids), seq![','])
}

/// A UID set lists the UIDs in their order: one UID is its decimal
/// writing, and each further UID follows a comma.
pub proof fn lemma_uid_set_lists_in_order(uids: Seq<u32>, u: u32)
    ensures
        spec_compact_uid_set(seq![u]) == decimal(u as nat),
        uids.len() > 0 ==> spec_compact_uid_set(uids.push(u)) == spec_compact_uid_set(uids) + seq![',']
            + decimal(u as nat),
        spec_compact_uid_set(Seq::<u32>::empty()) == Seq::<char>::empty(),
{
    assert(decimal_parts(seq![u]) =~= seq![decimal(u as nat)]);
    assert(decimal_parts(uids.push(u)).drop_last() =~= decimal_parts(uids));
    assert(decimal_parts(Seq::<u32>::empty()) =~= Seq::<Seq<char>>::empty());
}

/// A UID set: the UIDs in decimal, separated by commas.
pub fn compact_uid_set(uids: &[u32]) -> (r: String)
    ensures
        r@ == spec_compact_uid_set(uids@),
{
    let mut out: Vec<char> = Vec::new();
    for i in 0..uids.len()
        invariant
            out@ == join(decimal_parts(uids@.take(i as int)), seq![',']),
    {
        let d = decimal_chars(uids[i] as u64);
        let ghost before = out@;
        if i > 0 {
            out.push(',');
        }
        append_chars(&mut out, d.as_slice());
        assert(decimal_parts(uids@.take(i + 1)).drop_last() =~= decimal_parts(uids@.take(i as int)));
        assert(decimal_parts(uids@.take(i + 1)).last() == d@);
        assert(i == 0 ==> decimal_parts(uids@.take(i + 1)) =~= seq![d@]);
        assert(out@ =~= join(decimal_parts(uids@.take(i + 1)), seq![',']));
    }
    assert(uids@.take(uids@.len() as int) =~= uids@);
    string_from_chars(out.as_slice())
}

/// Every UID text reads as a number.
pub open spec fn all_uids_parse(uids: Seq<Seq<char>>) -> bool {
    forall|i: int| 0 <= i < uids.len() ==> (#[trigger] spec_parse_u32(uids[i])) is Some
}

/// The numbers the UID texts read as.
pub open spec fn parsed_uids(uids: Seq<Seq<char>>) -> Seq<u32> {
    uids.map_values(|s: Seq<char>| spec_parse_u32(s)->0)
}

/// `i` is the first UID text that does not read as a number.
pub open spec fn is_first_bad_uid(uids: Seq<Seq<char>>, i: int) -> bool {
    0 <= i < uids.len() && spec_parse_u32(uids[i]) is None && forall|j: int|
        0 <= j < i ==> (#[trigger] spec_parse_u32(uids[j])) is Some
}

/// The UID set for the UIDs of an action, checked: it must not be empty and
/// every UID must read as a number; the error names the first that does not.
pub fn uid_set_from_strings(uids: &[String]) -> (r: Result<String, ProtocolError>)
    ensures
        uids@.len() == 0 ==> (r matches Err(ProtocolError::Fetch(m)) && m@
            == "message UID list is empty"@),
        uids@.len() > 0 && all_uids_parse(views(uids@)) ==> (r matches Ok(s) && s@
            == spec_compact_uid_set(parsed_uids(views(uids@)))),
        forall|i: int|
            is_first_bad_uid(views(uids@), i) ==> (r matches Err(ProtocolError::Fetch(m)) && m@
                == "invalid message UID: "@ + uids@[i]@),
{
    if uids.len() == 0 {
        return Err(ProtocolError::Fetch("message UID list is empty".to_owned()));
    }
    let ghost vs = views(uids@);
    let mut parsed: Vec<u32> = Vec::new();
    for i in 0..uids.len()
        invariant
            vs == views(uids@),
            vs.len() == uids@.len(),
            parsed@ == parsed_uids(vs.take(i as int)),
            forall|j: int| 0 <= j < i ==> (#[trigger] spec_parse_u32(vs[j])) is Some,
    {
        assert(vs[i as int] == uids@[i as int]@);
        match parse_u32(uids[i].as_str()) {
            Some(v) => {
                parsed.push(v);
                assert(parsed_uids(vs.take(i + 1)) =~= parsed_uids(vs.take(i as int)).push(v));
            },
            None => {
                let r = Err(ProtocolError::Fetch(concat2("invalid message UID: ", uids[i].as_str())));
                proof {
                    assert forall|k: int| is_first_bad_uid(vs, k) implies k == i by {
                        if k < i {
                        } else if k > i {
                            assert(spec_parse_u32(vs[i as int]) is Some);
                        }
                    }
                }
                return r;
            },
        }
    }
    assert(vs.take(vs.len() as int) =~= vs);
    assert forall|i: int| !is_first_bad_uid(vs, i) by {}
    Ok(compact_uid_set(parsed.as_slice()))
}

// ---------------------------------------------------------------------------
// Message identifiers and error texts
// ---------------------------------------------------------------------------

/// A Message-ID header value in angle brackets; nothing for a blank value.
pub open spec fn spec_normalize_message_id_header(value: Seq<char>) -> Option<Seq<char>> {
    let t = trim(value);
    if t.len() == 0 {
        None
    } else if t[0] == '<' && t.last() == '>' {
        Some(t)
    } else {
        Some(seq!['<'] + t + seq!['>'])
    }
}

/// A Message-ID header value is blank and dropped, or comes out trimmed
/// and in angle brackets, adding them only where the trimmed value lacks
/// them; a value that came out so comes out again unchanged.
pub proof fn lemma_message_id_in_brackets(value: Seq<char>)
    ensures
        trim(value).len() == 0 <==> spec_normalize_message_id_header(value) is None,
        spec_normalize_message_id_header(value) matches Some(t) ==> t.len() >= 2 && t[0] == '<' && t.last()
            == '>',
        trim(value).len() > 0 && trim(value)[0] == '<' && trim(value).last() == '>'
            ==> spec_normalize_message_id_header(value) == Some(trim(value)),
        trim(value).len() > 0 && !(trim(value)[0] == '<' && trim(value).last() == '>')
            ==> spec_normalize_message_id_header(value) == Some(seq!['<'] + trim(value) + seq!['>']),
        spec_normalize_message_id_header(value) matches Some(t) ==> spec_normalize_message_id_header(t)
            == Some(t),
{
    let t0 = trim(value);
    if t0.len() > 0 {
        let t = spec_normalize_message_id_header(value)->0;
        if t0[0] == '<' && t0.last() == '>' {
            if t0.len() == 1 {
                assert(t0[0] == '>');
            }
        } else {
            assert(t =~= seq!['<'] + t0 + seq!['>']);
            assert(t[0] == '<');
            assert(t.last() == '>');
        }
        assert(!crate::text::is_ws(t[0]));
        assert(!crate::text::is_ws(t.last()));
        assert(crate::text::trim_start(t) == t);
        assert(crate::text::trim_end(t) == t);
        assert(trim(t) == t);
    }
}

/// A Message-ID header value in angle brackets.
pub fn normalize_message_id_header(value: &str) -> (r: Option<String>)
    ensures
        match r {
            Some(s) => spec_normalize_message_id_header(value@) == Some(s@),
            None => spec_normalize_message_id_header(value@) is None,
        },
{
    let v = chars_of(value);
    let t = trim_chars(v.as_slice());
    if t.len() == 0 {
        return None;
    }
    if t[0] == '<' && t[t.len() - 1] == '>' {
        return Some(string_from_chars(t.as_slice()));
    }
    let mut out = vec!['<'];
    append_chars(&mut out, t.as_slice());
    out.push('>');
    Some(string_from_chars(out.as_slice()))
}

/// An error text on one line: line breaks become spaces.
pub open spec fn spec_sanitize_error(value: Seq<char>) -> Seq<char> {
    value.map_values(|c: char| if c == '\r' || c == '\n' { ' ' } else { c })
}

/// An error text on one line.
pub fn sanitize_error(value: &str) -> (r: String)
    ensures
        r@ == spec_sanitize_error(value@),
{
    let v = chars_of(value);
    let mut out: Vec<char> = Vec::new();
    for i in 0..v.len()
        invariant
            out@ == spec_sanitize_error(v@.take(i as int)),
    {
        let c = v[i];
        out.push(if c == '\r' || c == '\n' { ' ' } else { c });
        assert(spec_sanitize_error(v@.take(i + 1)) =~= spec_sanitize_error(v@.take(i as int)).push(
            if c == '\r' || c == '\n' { ' ' } else { c },
        ));
    }
    assert(v@.take(v@.len() as int) =~= v@);
    string_from_chars(out.as_slice())
}

// ---------------------------------------------------------------------------
// Connection tests
// ---------------------------------------------------------------------------

/// What a live connection test reports for the two outcomes.
pub open spec fn spec_connection_test_message(imap_ok: bool, smtp_ok: bool) -> Seq<char> {
    if imap_ok && smtp_ok {
        "IMAP and SMTP connection settings accepted"@
    } else if !imap_ok && smtp_ok {
        "SMTP accepted, IMAP connection or authentication failed"@
    } else if imap_ok && !smtp_ok {
        "IMAP accepted, SMTP configuration failed"@
    } else {
        "IMAP and SMTP connection settings failed"@
    }
}

/// The result of a live connection test for the two outcomes.
pub fn connection_test_result(imap_ok: bool, smtp_ok: bool) -> (r: ConnectionTestResult)
    ensures
        r.imap_ok == imap_ok,
        r.smtp_ok == smtp_ok,
        r.message@ == spec_connection_test_message(imap_ok, smtp_ok),
{
    let message = if imap_ok && smtp_ok {
        "IMAP and SMTP connection settings accepted".to_owned()
    } else if !imap_ok && smtp_ok {
        "SMTP accepted, IMAP connection or authentication failed".to_owned()
    } else if imap_ok && !smtp_ok {
        "IMAP accepted, SMTP configuration failed".to_owned()
    } else {
        "IMAP and SMTP connection settings failed".to_owned()
    };
    ConnectionTestResult { imap_ok, smtp_ok, message }
}

/// How SMTP is secured: STARTTLS on port 587 with TLS on, implicit TLS on
/// other ports with TLS on, and no TLS otherwise.
#[derive(Debug, Clone, Copy, PartialEq, Eq, Structural)]
pub enum SmtpSecurity {
    StartTls,
    ImplicitTls,
    Plain,
}

/// How SMTP is secured for these settings.
pub fn smtp_security(settings: &ConnectionSettings) -> (r: SmtpSecurity)
    ensures
        r == (if settings.smtp_tls && settings.smtp_port == 587 {
            SmtpSecurity::StartTls
        } else if settings.smtp_tls {
            SmtpSecurity::ImplicitTls
        } else {
            SmtpSecurity::Plain
        }),
{
    if settings.smtp_tls && settings.smtp_port == 587 {
        SmtpSecurity::StartTls
    } else if settings.smtp_tls {
        SmtpSecurity::ImplicitTls
    } else {
        SmtpSecurity::Plain
    }
}

/// Whether the live adapter may open IMAP with these settings: only over TLS.
pub fn check_imap_tls(settings: &ConnectionSettings) -> (r: Result<(), ProtocolError>)
    ensures
        settings.imap_tls ==> r is Ok,
        !settings.imap_tls ==> (r matches Err(ProtocolError::Unsupported(m)) && m@
            == "plain IMAP is disabled in the live adapter; enable IMAP TLS"@),
{
    if !settings.imap_tls {
        return Err(
            ProtocolError::Unsupported(
                "plain IMAP is disabled in the live adapter; enable IMAP TLS".to_owned(),
            ),
        );
    }
    Ok(())
}

// ---------------------------------------------------------------------------
// Drafts and actions
// ---------------------------------------------------------------------------

/// A draft can be sent: it has a recipient and a subject that is not blank.
pub fn check_send_draft(draft: &SendMessageDraft) -> (r: Result<(), ProtocolError>)
    ensures
        draft.to@.len() == 0 ==> (r matches Err(ProtocolError::Send(m)) && m@
            == "recipient list is empty"@),
        draft.to@.len() > 0 && trim(draft.subject@).len() == 0 ==> (r matches Err(
            ProtocolError::Send(m),
        ) && m@ == "subject is empty"@),
        draft.to@.len() > 0 && trim(draft.subject@).len() > 0 ==> r is Ok,
{
    if draft.to.len() == 0 {
        return Err(ProtocolError::Send("recipient list is empty".to_owned()));
    }
    if is_blank(draft.subject.as_str()) {
        return Err(ProtocolError::Send("subject is empty".to_owned()));
    }
    Ok(())
}

/// What an action asks of an IMAP server.
#[derive(Debug, Clone, PartialEq, Eq)]
pub enum ImapCommand {
    /// `UID STORE` with this flag change.
    StoreFlags(String),
    /// `UID MOVE` into the folder with this path.
    MoveTo(String),
    /// `UID COPY` into the folder with this path, then flag `\Deleted` and expunge.
    CopyThenExpunge(String),
    /// Flag `\Deleted` and `UID EXPUNGE` exactly these UIDs.
    DeleteAndExpungeUids,
}

/// The text of the error for a remote action the IMAP adapter does not do.
pub open spec fn unsupported_action_message(action: MailActionKind) -> Seq<char> {
    if action == MailActionKind::Send {
        "remote action Send is not supported by IMAP adapter"@
    } else {
        "remote action Forward is not supported by IMAP adapter"@
    }
}

/// The command an action becomes on a server with the given capabilities:
/// flag changes for the four flag actions; a move (or copy and expunge when
/// the server lacks `MOVE`) into the target folder for move-like actions,
/// which need one; a precise expunge for a permanent delete, which needs
/// `UIDPLUS`; sending and forwarding are no IMAP actions.
pub fn plan_imap_action(action: &RemoteMailAction, has_move: bool, has_uidplus: bool) -> (r: Result<
    ImapCommand,
    ProtocolError,
>)
    ensures
        action.action == MailActionKind::MarkRead ==> (r matches Ok(ImapCommand::StoreFlags(q)) && q@
            == "+FLAGS.SILENT (\\Seen)"@),
        action.action == MailActionKind::MarkUnread ==> (r matches Ok(ImapCommand::StoreFlags(q))
            && q@ == "-FLAGS.SILENT (\\Seen)"@),
        action.action == MailActionKind::Star ==> (r matches Ok(ImapCommand::StoreFlags(q)) && q@
            == "+FLAGS.SILENT (\\Flagged)"@),
        action.action == MailActionKind::Unstar ==> (r matches Ok(ImapCommand::StoreFlags(q)) && q@
            == "-FLAGS.SILENT (\\Flagged)"@),
        spec_is_move_like(action.action) && action.target_folder is None ==> (r matches Err(
            ProtocolError::Unsupported(m),
        ) && m@ == "target folder required for move-like action"@),
        spec_is_move_like(action.action) && action.target_folder is Some && has_move ==> (r matches Ok(
            ImapCommand::MoveTo(p),
        ) && p@ == action.target_folder->0.path@),
        spec_is_move_like(action.action) && action.target_folder is Some && !has_move ==> (r matches Ok(
            ImapCommand::CopyThenExpunge(p),
        ) && p@ == action.target_folder->0.path@),
        action.action == MailActionKind::PermanentDelete && has_uidplus ==> r matches Ok(
            ImapCommand::DeleteAndExpungeUids,
        ),
        action.action == MailActionKind::PermanentDelete && !has_uidplus ==> (r matches Err(
            ProtocolError::Unsupported(m),
        ) && m@
            == "IMAP server does not advertise UIDPLUS; precise permanent delete is unavailable"@),
        (action.action == MailActionKind::Send || action.action == MailActionKind::Forward) ==> (r matches Err(
            ProtocolError::Unsupported(m),
        ) && m@ == unsupported_action_message(action.action)),
{
    match action.action {
        MailActionKind::MarkRead => Ok(ImapCommand::StoreFlags("+FLAGS.SILENT (\\Seen)".to_owned())),
        MailActionKind::MarkUnread => Ok(
            ImapCommand::StoreFlags("-FLAGS.SILENT (\\Seen)".to_owned()),
        ),
        MailActionKind::Star => Ok(ImapCommand::StoreFlags("+FLAGS.SILENT (\\Flagged)".to_owned())),
        MailActionKind::Unstar => Ok(
            ImapCommand::StoreFlags("-FLAGS.SILENT (\\Flagged)".to_owned()),
        ),
        MailActionKind::Move
        | MailActionKind::Archive
        | MailActionKind::Delete
        | MailActionKind::BatchMove
        | MailActionKind::BatchDelete => match &action.target_folder {
            None => Err(
                ProtocolError::Unsupported(
                    "target folder required for move-like action".to_owned(),
                ),
            ),
            Some(target) => if has_move {
                Ok(ImapCommand::MoveTo(target.path.clone()))
            } else {
                Ok(ImapCommand::CopyThenExpunge(target.path.clone()))
            },
        },
        MailActionKind::PermanentDelete => if has_uidplus {
            Ok(ImapCommand::DeleteAndExpungeUids)
        } else {
            Err(
                ProtocolError::Unsupported(
                    "IMAP server does not advertise UIDPLUS; precise permanent delete is unavailable".to_owned(),
                ),
            )
        },
        MailActionKind::Send => Err(
            ProtocolError::Unsupported(
                "remote action Send is not supported by IMAP adapter".to_owned(),
            ),
        ),
        MailActionKind::Forward => Err(
            ProtocolError::Unsupported(
                "remote action Forward is not supported by IMAP adapter".to_owned(),
            ),
        ),
    }
}

} // verus!
