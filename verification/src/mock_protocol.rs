//! A mail server stand-in with fixed folders and messages, for trying the
//! client without a real account.
use vstd::prelude::*;
use crate::decimal::{decimal, format_u32, spec_parse_u32, parse_u32};
use crate::errors::ProtocolError;
use crate::model::{
    ConnectionSettings, ConnectionTestResult, FolderRole, MailAccount, MailFolder, MailMessage,
    MessageFetchRequest, MessageFlags, RemoteMailAction, SendMessageDraft, spec_auth_present,
    spec_is_move_like,
};
use crate::clock::{new_id, now_rfc3339, utc_rfc3339_shape, uuid_v4_text};
use crate::protocol::{check_send_draft, MailProtocol};
use crate::text::{chars_of, concat2, concat3, copy_string, is_blank, opt_view, owned, trim, views};

verus! {

/// The mock server.
#[derive(Debug, Clone, Copy, Default)]
pub struct MockMailProtocol;

/// One folder the mock server offers: identifier suffix, name, role and counts.
#[derive(Debug)]
pub struct MockFolder {
    pub suffix: &'static str,
    pub name: &'static str,
    pub role: FolderRole,
    pub unread_count: u32,
    pub total_count: u32,
}

/// The folders of the mock server.
pub open spec fn spec_mock_folders() -> Seq<MockFolder> {
    seq![
        MockFolder { suffix: "inbox", name: "INBOX", role: FolderRole::Inbox, unread_count: 3, total_count: 12 },
        MockFolder { suffix: "sent", name: "Sent", role: FolderRole::Sent, unread_count: 0, total_count: 4 },
        MockFolder { suffix: "archive", name: "Archive", role: FolderRole::Archive, unread_count: 0, total_count: 32 },
        MockFolder { suffix: "drafts", name: "Drafts", role: FolderRole::Drafts, unread_count: 0, total_count: 1 },
        MockFolder { suffix: "trash", name: "Trash", role: FolderRole::Trash, unread_count: 0, total_count: 0 },
    ]
}

fn mock_folders() -> (r: Vec<MockFolder>)
    ensures
        r@ == spec_mock_folders(),
{
    let r = vec![
        MockFolder { suffix: "inbox", name: "INBOX", role: FolderRole::Inbox, unread_count: 3, total_count: 12 },
        MockFolder { suffix: "sent", name: "Sent", role: FolderRole::Sent, unread_count: 0, total_count: 4 },
        MockFolder { suffix: "archive", name: "Archive", role: FolderRole::Archive, unread_count: 0, total_count: 32 },
        MockFolder { suffix: "drafts", name: "Drafts", role: FolderRole::Drafts, unread_count: 0, total_count: 1 },
        MockFolder { suffix: "trash", name: "Trash", role: FolderRole::Trash, unread_count: 0, total_count: 0 },
    ];
    assert(r@ =~= spec_mock_folders());
    r
}

/// One message the mock server holds: UID, subject, sender (none: the
/// account's own address), preview and flags.
#[derive(Debug)]
pub struct MockRow {
    pub uid: u32,
    pub subject: &'static str,
    pub sender: Option<&'static str>,
    pub preview: &'static str,
    pub is_read: bool,
    pub is_starred: bool,
}

/// The messages of the mock server's folder with a role.
pub open spec fn spec_mock_rows(role: FolderRole) -> Seq<MockRow> {
    match role {
        FolderRole::Inbox => seq![
            MockRow {
                uid: 1001,
                subject: "Security rotation window / action required",
                sender: Some("infra-watch@example.net"),
                preview: "Credential rotation window opens tonight. Confirm service owners and blackout exceptions before 18:00.",
                is_read: false,
                is_starred: true,
            },
            MockRow {
                uid: 1002,
                subject: "Vendor invoice reconciliation",
                sender: Some("finance-ops@example.com"),
                preview: "Three invoices are waiting for reconciliation. Attachment metadata is indexed but files are not downloaded yet.",
                is_read: false,
                is_starred: false,
            },
            MockRow {
                uid: 1003,
                subject: "Release train notes",
                sender: Some("release-control@example.org"),
                preview: "Build 42 passed smoke tests. Mail client telemetry remains disabled in this MVP.",
                is_read: true,
                is_starred: false,
            },
        ],
        FolderRole::Sent => seq![
            MockRow {
                uid: 2001,
                subject: "Sent: rotation confirmation",
                sender: None,
                preview: "Confirmation sent directly through SMTP.",
                is_read: true,
                is_starred: false,
            },
        ],
        FolderRole::Archive => seq![
            MockRow {
                uid: 3001,
                subject: "Archived vendor thread",
                sender: Some("finance-ops@example.com"),
                preview: "Archived reconciliation notes remain searchable outside INBOX.",
                is_read: true,
                is_starred: false,
            },
        ],
        FolderRole::Drafts => seq![
            MockRow {
                uid: 4001,
                subject: "Draft: incident summary",
                sender: None,
                preview: "Draft content is indexed for folder navigation validation.",
                is_read: true,
                is_starred: false,
            },
        ],
        FolderRole::Trash => seq![
            MockRow {
                uid: 5001,
                subject: "Deleted obsolete alert",
                sender: Some("alerts@example.net"),
                preview: "Trash folder sync proves delete-to-trash can be inspected.",
                is_read: true,
                is_starred: false,
            },
        ],
        FolderRole::Junk | FolderRole::Custom => Seq::empty(),
    }
}

fn mock_rows(role: FolderRole) -> (r: Vec<MockRow>)
    ensures
        r@ == spec_mock_rows(role),
{
    let r = match role {
        FolderRole::Inbox => vec![
            MockRow {
                uid: 1001,
                subject: "Security rotation window / action required",
                sender: Some("infra-watch@example.net"),
                preview: "Credential rotation window opens tonight. Confirm service owners and blackout exceptions before 18:00.",
                is_read: false,
                is_starred: true,
            },
            MockRow {
                uid: 1002,
                subject: "Vendor invoice reconciliation",
                sender: Some("finance-ops@example.com"),
                preview: "Three invoices are waiting for reconciliation. Attachment metadata is indexed but files are not downloaded yet.",
                is_read: false,
                is_starred: false,
            },
            MockRow {
                uid: 1003,
                subject: "Release train notes",
                sender: Some("release-control@example.org"),
                preview: "Build 42 passed smoke tests. Mail client telemetry remains disabled in this MVP.",
                is_read: true,
                is_starred: false,
            },
        ],
        FolderRole::Sent => vec![
            MockRow {
                uid: 2001,
                subject: "Sent: rotation confirmation",
                sender: None,
                preview: "Confirmation sent directly through SMTP.",
                is_read: true,
                is_starred: false,
            },
        ],
        FolderRole::Archive => vec![
            MockRow {
                uid: 3001,
                subject: "Archived vendor thread",
                sender: Some("finance-ops@example.com"),
                preview: "Archived reconciliation notes remain searchable outside INBOX.",
                is_read: true,
                is_starred: false,
            },
        ],
        FolderRole::Drafts => vec![
            MockRow {
                uid: 4001,
                subject: "Draft: incident summary",
                sender: None,
                preview: "Draft content is indexed for folder navigation validation.",
                is_read: true,
                is_starred: false,
            },
        ],
        FolderRole::Trash => vec![
            MockRow {
                uid: 5001,
                subject: "Deleted obsolete alert",
                sender: Some("alerts@example.net"),
                preview: "Trash folder sync proves delete-to-trash can be inspected.",
                is_read: true,
                is_starred: false,
            },
        ],
        FolderRole::Junk | FolderRole::Custom => Vec::new(),
    };
    assert(r@ =~= spec_mock_rows(role));
    r
}

/// What every mock message body ends with, after its preview.
pub const MOCK_BODY_FOOTER: &'static str = "\n\n--\nThis message is generated by the protocol adapter boundary. Replace MockMailProtocol with the live IMAP/SMTP adapter without changing the UI or store APIs.";

/// The folder the mock server offers for an account.
pub open spec fn mock_folder_ok(f: MailFolder, m: MockFolder, account: MailAccount) -> bool {
    &&& f.id@ == account.id@ + ":"@ + m.suffix@
    &&& f.account_id@ == account.id@
    &&& f.name@ == m.name@
    &&& f.path@ == m.name@
    &&& f.role == m.role
    &&& f.unread_count == m.unread_count
    &&& f.total_count == m.total_count
}

/// The message the mock server holds for a row, as fetched at `now`.
pub open spec fn mock_message_ok(
    msg: MailMessage,
    row: MockRow,
    account: MailAccount,
    folder: MailFolder,
    now: Seq<char>,
) -> bool {
    let uid = decimal(row.uid as nat);
    &&& msg.id@ == account.id@ + ":"@ + folder.id@ + ":"@ + uid
    &&& msg.account_id@ == account.id@
    &&& msg.folder_id@ == folder.id@
    &&& opt_view(msg.uid) == Some(uid)
    &&& opt_view(msg.message_id_header) == Some("<"@ + uid + "."@ + account.id@ + "@agentmail.local>"@)
    &&& msg.subject@ == row.subject@
    &&& msg.sender@ == match row.sender {
        Some(s) => s@,
        None => account.email@,
    }
    &&& views(msg.recipients@) == seq![account.email@]
    &&& msg.cc@.len() == 0
    &&& msg.received_at@ == now
    &&& msg.body_preview@ == row.preview@
    &&& opt_view(msg.body) == Some(row.preview@ + MOCK_BODY_FOOTER@)
    &&& msg.html_body is None
    &&& msg.raw_mime is None
    &&& msg.inline_resources@.len() == 0
    &&& msg.attachments@.len() == 0
    &&& msg.flags == (MessageFlags {
        is_read: row.is_read,
        is_starred: row.is_starred,
        is_answered: false,
        is_forwarded: false,
    })
    &&& msg.size_bytes == Some(4096i64)
    &&& msg.deleted_at is None
}

/// The rows of `rows` newer than UID `min`, in order.
pub open spec fn rows_after(rows: Seq<MockRow>, min: u32) -> Seq<MockRow>
    decreases rows.len(),
{
    if rows.len() == 0 {
        Seq::empty()
    } else if rows.last().uid > min {
        rows_after(rows.drop_last(), min).push(rows.last())
    } else {
        rows_after(rows.drop_last(), min)
    }
}

/// The UID after which messages are new: the request's last UID read as a
/// number, or zero.
pub open spec fn mock_min_uid(request: MessageFetchRequest) -> u32 {
    match request.last_uid {
        Some(u) => match spec_parse_u32(u@) {
            Some(n) => n,
            None => 0,
        },
        None => 0,
    }
}

/// Whether the settings carry a secret to sign in with.
pub open spec fn auth_present(settings: ConnectionSettings) -> bool {
    spec_auth_present(settings.auth)
}

/// The messages `v` that the mock server gives for `request` on `folder` of
/// `account` at `now`: its fixed rows newer than the request's last UID, in
/// order.
pub open spec fn mock_fetch_ok(
    v: Seq<MailMessage>,
    account: MailAccount,
    folder: MailFolder,
    request: MessageFetchRequest,
    now: Seq<char>,
) -> bool {
    let rows = rows_after(spec_mock_rows(folder.role), mock_min_uid(request));
    &&& v.len() == rows.len()
    &&& forall|i: int|
        0 <= i < v.len() ==> mock_message_ok(#[trigger] v[i], rows[i], account, folder, now)
}

impl MockMailProtocol {
    /// The folder's fixed messages newer than the request's last UID, in
    /// order, as fetched at `now`.
    pub fn fetch_messages_at(
        &self,
        account: &MailAccount,
        folder: &MailFolder,
        request: &MessageFetchRequest,
        now: &str,
    ) -> (r: Result<Vec<MailMessage>, ProtocolError>)
        ensures
            r matches Ok(v) && mock_fetch_ok(v@, *account, *folder, *request, now@),
    {
        let min: u32 = match &request.last_uid {
            Some(u) => match parse_u32(u.as_str()) {
                Some(n) => n,
                None => 0,
            },
            None => 0,
        };
        let rows = mock_rows(folder.role);
        let ghost all = rows@;
        let mut out: Vec<MailMessage> = Vec::new();
        for i in 0..rows.len()
            invariant
                rows@ == all,
                all == spec_mock_rows(folder.role),
                min == mock_min_uid(*request),
                out@.len() == rows_after(all.take(i as int), min).len(),
                forall|j: int|
                    0 <= j < out@.len() ==> mock_message_ok(
                        #[trigger] out@[j],
                        rows_after(all.take(i as int), min)[j],
                        *account,
                        *folder,
                        now@,
                    ),
        {
            let row = &rows[i];
            assert(all.take(i + 1).drop_last() =~= all.take(i as int));
            assert(all.take(i + 1).last() == all[i as int]);
            if row.uid > min {
                let msg = mock_message(account, folder, row, now);
                out.push(msg);
            }
        }
        assert(all.take(all.len() as int) =~= all);
        Ok(out)
    }

    /// Accepts a draft with a recipient and a subject; `id` becomes the sent
    /// message's identifier.
    pub fn send_message_as(&self, draft: &SendMessageDraft, id: String) -> (r: Result<String, ProtocolError>)
        ensures
            draft.to@.len() == 0 ==> (r matches Err(ProtocolError::Send(m)) && m@
                == "recipient list is empty"@),
            draft.to@.len() > 0 && trim(draft.subject@).len() == 0 ==> (r matches Err(
                ProtocolError::Send(m),
            ) && m@ == "subject is empty"@),
            draft.to@.len() > 0 && trim(draft.subject@).len() > 0 ==> r == Ok::<
                String,
                ProtocolError,
            >(id),
    {
        check_send_draft(draft)?;
        Ok(id)
    }

}

impl MailProtocol for MockMailProtocol {
    /// Accepts settings that name an address, both hosts and ports, and a
    /// password.
    fn test_connection(&self, settings: &ConnectionSettings) -> (r: Result<
        ConnectionTestResult,
        ProtocolError,
    >)
        ensures
            r matches Ok(t) && {
                &&& t.imap_ok == (trim(settings.email@).len() > 0 && trim(settings.imap_host@).len() > 0
                    && settings.imap_port > 0 && auth_present(*settings))
                &&& t.smtp_ok == (trim(settings.smtp_host@).len() > 0 && settings.smtp_port > 0
                    && auth_present(*settings))
                &&& t.message@ == if t.imap_ok && t.smtp_ok {
                    "mock protocol accepted account settings"@
                } else {
                    "missing host, port, email, or credentials"@
                }
            },
    {
        let auth = settings.auth.is_present();
        let imap_ok = !is_blank(settings.email.as_str()) && !is_blank(settings.imap_host.as_str())
            && settings.imap_port > 0 && auth;
        let smtp_ok = !is_blank(settings.smtp_host.as_str()) && settings.smtp_port > 0 && auth;
        let message = if imap_ok && smtp_ok {
            "mock protocol accepted account settings".to_owned()
        } else {
            "missing host, port, email, or credentials".to_owned()
        };
        Ok(ConnectionTestResult { imap_ok, smtp_ok, message })
    }

    /// The five fixed folders, for the account.
    fn fetch_folders(&self, settings: &ConnectionSettings, account: &MailAccount) -> (r: Result<
        Vec<MailFolder>,
        ProtocolError,
    >)
        ensures
            r matches Ok(v) && v@.len() == spec_mock_folders().len() && forall|i: int|
                0 <= i < v@.len() ==> mock_folder_ok(#[trigger] v@[i], spec_mock_folders()[i], *account),
    {
        let specs = mock_folders();
        let mut out: Vec<MailFolder> = Vec::new();
        for i in 0..specs.len()
            invariant
                specs@ == spec_mock_folders(),
                out@.len() == i,
                forall|j: int| 0 <= j < i ==> mock_folder_ok(#[trigger] out@[j], specs@[j], *account),
        {
            let m = &specs[i];
            out.push(
                MailFolder {
                    id: concat3(account.id.as_str(), ":", m.suffix),
                    account_id: copy_string(&account.id),
                    name: owned(m.name),
                    path: owned(m.name),
                    role: m.role,
                    unread_count: m.unread_count,
                    total_count: m.total_count,
                },
            );
        }
        Ok(out)
    }

    /// The folder's fixed messages newer than the request's last UID, in
    /// order, stamped with the current time.
    fn fetch_messages(
        &self,
        settings: &ConnectionSettings,
        account: &MailAccount,
        folder: &MailFolder,
        request: &MessageFetchRequest,
    ) -> (r: Result<Vec<MailMessage>, ProtocolError>)
        ensures
            r matches Ok(v) && exists|now: Seq<char>|
                utc_rfc3339_shape(now) && #[trigger] mock_fetch_ok(v@, *account, *folder, *request, now),
    {
        let now = now_rfc3339();
        let r = self.fetch_messages_at(account, folder, request, now.as_str());
        if let Ok(v) = &r {
            assert(mock_fetch_ok(v@, *account, *folder, *request, now@));
        }
        r
    }

    /// Accepts a draft with a recipient and a subject, and answers with a
    /// fresh identifier.
    fn send_message(&self, settings: &ConnectionSettings, draft: &SendMessageDraft) -> (r: Result<
        String,
        ProtocolError,
    >)
        ensures
            draft.to@.len() == 0 ==> (r matches Err(ProtocolError::Send(m)) && m@
                == "recipient list is empty"@),
            draft.to@.len() > 0 && trim(draft.subject@).len() == 0 ==> (r matches Err(
                ProtocolError::Send(m),
            ) && m@ == "subject is empty"@),
            draft.to@.len() > 0 && trim(draft.subject@).len() > 0 ==> (r matches Ok(id)
                && uuid_v4_text(id@)),
    {
        self.send_message_as(draft, new_id())
    }

    /// Accepts an action that names UIDs and, when it moves messages, a
    /// target folder.
    fn apply_action(
        &self,
        settings: &ConnectionSettings,
        account: &MailAccount,
        action: &RemoteMailAction,
    ) -> (r: Result<(), ProtocolError>)
        ensures
            action.uids@.len() == 0 ==> (r matches Err(ProtocolError::Fetch(m)) && m@
                == "message UID list is empty"@),
            action.uids@.len() > 0 && spec_is_move_like(action.action) && action.target_folder is None
                ==> (r matches Err(ProtocolError::Unsupported(m)) && m@
                == "target folder required for move-like action"@),
            action.uids@.len() > 0 && !(spec_is_move_like(action.action)
                && action.target_folder is None) ==> r is Ok,
    {
        if action.uids.len() == 0 {
            return Err(ProtocolError::Fetch("message UID list is empty".to_owned()));
        }
        if action.action.is_move_like() && action.target_folder.is_none() {
            return Err(
                ProtocolError::Unsupported("target folder required for move-like action".to_owned()),
            );
        }
        Ok(())
    }
}

/// The message for one mock row.
fn mock_message(account: &MailAccount, folder: &MailFolder, row: &MockRow, now: &str) -> (r:
    MailMessage)
    ensures
        mock_message_ok(r, *row, *account, *folder, now@),
{
    let uid = format_u32(row.uid);
    let mut id = concat3(account.id.as_str(), ":", folder.id.as_str());
    id.append(":");
    id.append(uid.as_str());
    let mut header = concat3("<", uid.as_str(), ".");
    header.append(account.id.as_str());
    header.append("@agentmail.local>");
    let sender = match row.sender {
        Some(s) => owned(s),
        None => copy_string(&account.email),
    };
    let mut recipients: Vec<String> = Vec::new();
    recipients.push(copy_string(&account.email));
    assert(views(recipients@) =~= seq![account.email@]);
    MailMessage {
        id,
        account_id: copy_string(&account.id),
        folder_id: copy_string(&folder.id),
        uid: Some(uid),
        message_id_header: Some(header),
        subject: owned(row.subject),
        sender,
        recipients,
        cc: Vec::new(),
        received_at: owned(now),
        body_preview: owned(row.preview),
        body: Some(concat2(row.preview, MOCK_BODY_FOOTER)),
        html_body: None,
        raw_mime: None,
        inline_resources: Vec::new(),
        attachments: Vec::new(),
        flags: MessageFlags {
            is_read: row.is_read,
            is_starred: row.is_starred,
            is_answered: false,
            is_forwarded: false,
        },
        size_bytes: Some(4096),
        deleted_at: None,
    }
}

} // verus!
