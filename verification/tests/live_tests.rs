use agentmail::live::{
    flags_from_fetch, folders_from_mailboxes, select_fetch_uids, sort_messages_by_uid, FetchedFlag,
    ListedMailbox,
};
use agentmail::clock::rfc3339_from_unix_timestamp;
use agentmail::mime::{
    address_list, address_text, first_text_body, header_text, message_from_mime, parse_failure,
    MimeAddress, MimeAddressField, MimeAttachment, MimeContentType,
    MimeHeader, MimePart, MimeSummary,
};
use agentmail::errors::ProtocolError;
use agentmail::model::{
    FolderRole, MailAccount, MailAuth, MailFolder, MailMessage, MailProvider, MessageFlags,
};

fn mailbox(name: &str, selectable: bool) -> ListedMailbox {
    ListedMailbox { name: name.to_string(), selectable }
}

#[test]
fn listed_mailboxes_become_folders_once() {
    let folders = folders_from_mailboxes(
        "acct",
        &vec![mailbox("[Gmail]", false), mailbox("[Gmail]/Sent Mail", true), mailbox("[Gmail]/Sent Mail", true)],
    );
    assert_eq!(folders.len(), 2);
    assert_eq!(folders[0].role, FolderRole::Sent);
    assert_eq!(folders[0].name, "Sent Mail");
    assert_eq!(folders[1].path, "INBOX");
    assert_eq!(folders[1].id, "acct:inbox");
    let with_inbox = folders_from_mailboxes("acct", &vec![mailbox("INBOX", true)]);
    assert_eq!(with_inbox.len(), 1);
}

#[test]
fn fetch_takes_newest_first_time_and_oldest_after() {
    let found = vec![9, 3, 7, 1, 5];
    assert_eq!(select_fetch_uids(&found, false, 2), vec![7, 9]);
    assert_eq!(select_fetch_uids(&found, true, 2), vec![1, 3]);
    assert_eq!(select_fetch_uids(&found, false, 0), vec![9]);
    assert_eq!(select_fetch_uids(&found, false, 10), vec![1, 3, 5, 7, 9]);
    assert!(select_fetch_uids(&Vec::new(), false, 10).is_empty());
}

#[test]
fn fetched_flags() {
    let f = flags_from_fetch(&vec![FetchedFlag::Seen, FetchedFlag::Other, FetchedFlag::Flagged]);
    assert!(f.is_read && f.is_starred && !f.is_answered && !f.is_forwarded);
}

fn addr(name: Option<&str>, address: Option<&str>) -> MimeAddress {
    MimeAddress { name: name.map(|s| s.to_string()), address: address.map(|s| s.to_string()) }
}

#[test]
fn addresses_as_text_and_lists() {
    let list = MimeAddressField::List(vec![
        addr(Some("Ops"), Some("ops@example.com")),
        addr(None, None),
        addr(None, Some("b@example.com")),
    ]);
    assert_eq!(address_text(&list), "Ops <ops@example.com>, b@example.com");
    assert_eq!(
        address_list(&Some(list)),
        vec!["Ops <ops@example.com>".to_string(), "b@example.com".to_string()]
    );
    let groups = MimeAddressField::Group(vec![vec![addr(Some("A"), None)], vec![addr(None, Some("c@x"))]]);
    assert_eq!(address_text(&groups), "A, c@x");
    assert!(address_list(&None).is_empty());
    assert_eq!(header_text(&Some(MimeHeader::TextList(vec!["a".to_string(), "b".to_string()]))).as_deref(), Some("a, b"));
    assert_eq!(
        header_text(&Some(MimeHeader::ContentType(MimeContentType { ctype: "text".to_string(), subtype: None }))).as_deref(),
        Some("text/octet-stream")
    );
    assert_eq!(header_text(&Some(MimeHeader::Empty)), None);
}

fn part(text: Option<&str>, attachment: bool, name: Option<&str>, ct: (&str, &str)) -> MimePart {
    MimePart {
        text: text.map(|s| s.to_string()),
        attachment_disposition: attachment,
        attachment_name: name.map(|s| s.to_string()),
        content_type: Some(MimeContentType { ctype: ct.0.to_string(), subtype: Some(ct.1.to_string()) }),
        content_id: None,
        binary: None,
    }
}

#[test]
fn text_body_prefers_named_parts_then_plain_parts() {
    let parts = vec![
        part(Some("<p>x</p>"), false, None, ("text", "html")),
        part(Some("Attachment text"), true, Some("note.txt"), ("text", "plain")),
        part(Some("Real plain body"), false, None, ("TEXT", "Plain")),
    ];
    assert_eq!(first_text_body(&vec![7], &parts).as_deref(), Some("Real plain body"));
    assert_eq!(first_text_body(&vec![0], &parts).as_deref(), Some("<p>x</p>"));
    assert_eq!(first_text_body(&vec![], &parts[..2].to_vec()), None);
}

fn summary() -> MimeSummary {
    MimeSummary {
        subject: Some(MimeHeader::Text("Test report".to_string())),
        from: Some(MimeAddressField::List(vec![addr(Some("Security"), Some("sec@example.com"))])),
        from_header: None,
        to: Some(MimeAddressField::List(vec![addr(Some("Ops"), Some("ops@example.com"))])),
        cc: None,
        html_body: Some("<html><body><p>HTML Body</p></body></html>".to_string()),
        text_body_ids: vec![],
        parts: vec![],
        message_id: Some("a@example.com".to_string()),
        date: Some(1708396200),
        attachments: vec![MimeAttachment { name: None, content_type: None, len: 11 }],
    }
}

#[test]
fn parsed_message_becomes_a_stored_message() {
    let account = MailAccount {
        id: "acct".to_string(),
        display_name: "Ops".to_string(),
        email: "ops@example.com".to_string(),
        provider: MailProvider::GenericImapSmtp,
        auth: MailAuth::Password { password: String::new() },
        imap_host: "h".to_string(),
        imap_port: 993,
        imap_tls: true,
        smtp_host: "s".to_string(),
        smtp_port: 465,
        smtp_tls: true,
        sync_enabled: true,
        created_at: "t".to_string(),
        updated_at: "t".to_string(),
    };
    let folder = MailFolder {
        id: "acct:inbox".to_string(),
        account_id: "acct".to_string(),
        name: "INBOX".to_string(),
        path: "INBOX".to_string(),
        role: FolderRole::Inbox,
        unread_count: 0,
        total_count: 0,
    };
    let m = message_from_mime(&account, &folder, 42, &summary(), &[7u8; 300], None, "now".to_string());
    assert_eq!(m.id, "acct:acct:inbox:42");
    assert_eq!(m.uid.as_deref(), Some("42"));
    assert_eq!(m.subject, "Test report");
    assert_eq!(m.sender, "Security <sec@example.com>");
    assert_eq!(m.recipients, vec!["Ops <ops@example.com>".to_string()]);
    assert_eq!(m.message_id_header.as_deref(), Some("<a@example.com>"));
    assert_eq!(m.body.as_deref(), Some("HTML Body"));
    assert_eq!(m.body_preview, "HTML Body");
    assert!(m.received_at.starts_with("2024-02-20T02:30:00"));
    assert_eq!(m.size_bytes, Some(300));
    assert_eq!(m.attachments.len(), 1);
    assert_eq!(m.attachments[0].filename, "attachment-0");
    assert_eq!(m.attachments[0].id, "acct:acct:inbox:42:att-0");
    assert_eq!(m.attachments[0].mime_type, "application/octet-stream");
    assert_eq!(m.raw_mime.as_deref(), Some(&[7u8; 300][..]));
    assert_eq!(m.html_body.as_deref(), Some("<html><body><p>HTML Body</p></body></html>"));
    assert!(m.inline_resources.is_empty());
    let untitled = MimeSummary { subject: None, date: None, ..summary() };
    let m2 = message_from_mime(&account, &folder, 1, &untitled, &[7u8; 10], Some(99), "now".to_string());
    assert_eq!(m2.subject, "(no subject)");
    assert_eq!(m2.received_at, "now");
    assert_eq!(m2.size_bytes, Some(99));
    assert!(matches!(parse_failure(7), ProtocolError::Parse(m) if m == "failed to parse UID 7"));
    assert_eq!(rfc3339_from_unix_timestamp(0).as_deref(), Some("1970-01-01T00:00:00Z"));
}

fn fetched(id: &str, uid: Option<&str>) -> MailMessage {
    MailMessage {
        id: id.to_string(),
        account_id: "acct".to_string(),
        folder_id: "acct:inbox".to_string(),
        uid: uid.map(|u| u.to_string()),
        message_id_header: None,
        subject: String::new(),
        sender: String::new(),
        recipients: Vec::new(),
        cc: Vec::new(),
        received_at: "t".to_string(),
        body_preview: String::new(),
        body: None,
        html_body: None,
        raw_mime: None,
        inline_resources: Vec::new(),
        attachments: Vec::new(),
        flags: MessageFlags { is_read: false, is_starred: false, is_answered: false, is_forwarded: false },
        size_bytes: None,
        deleted_at: None,
    }
}

#[test]
fn fetched_messages_are_ordered_by_uid_text() {
    let sorted = sort_messages_by_uid(vec![
        fetched("a", Some("9")),
        fetched("b", Some("10")),
        fetched("c", None),
        fetched("d", Some("10")),
        fetched("e", Some("1")),
    ]);
    let ids: Vec<&str> = sorted.iter().map(|m| m.id.as_str()).collect();
    assert_eq!(ids, vec!["c", "e", "b", "d", "a"]);
    assert!(sort_messages_by_uid(Vec::new()).is_empty());
}

#[test]
fn parts_named_by_cid_become_inline_resources() {
    let account = MailAccount {
        id: "acct".to_string(),
        display_name: "Ops".to_string(),
        email: "ops@example.com".to_string(),
        provider: MailProvider::GenericImapSmtp,
        auth: MailAuth::Password { password: String::new() },
        imap_host: "h".to_string(),
        imap_port: 993,
        imap_tls: true,
        smtp_host: "s".to_string(),
        smtp_port: 465,
        smtp_tls: true,
        sync_enabled: true,
        created_at: "t".to_string(),
        updated_at: "t".to_string(),
    };
    let folder = MailFolder {
        id: "acct:inbox".to_string(),
        account_id: "acct".to_string(),
        name: "INBOX".to_string(),
        path: "INBOX".to_string(),
        role: FolderRole::Inbox,
        unread_count: 0,
        total_count: 0,
    };
    let image = MimePart {
        content_id: Some("<Img@x>".to_string()),
        binary: Some(vec![1, 2, 3]),
        ..part(None, false, Some("img.png"), ("image", "png"))
    };
    let unused = MimePart {
        content_id: Some("<other@x>".to_string()),
        binary: Some(vec![9]),
        ..part(None, true, Some("a.pdf"), ("application", "pdf"))
    };
    let not_binary = MimePart {
        content_id: Some("<img@x>".to_string()),
        ..part(Some("text"), false, None, ("text", "plain"))
    };
    let mime = MimeSummary {
        html_body: Some("<img src=\"cid:IMG@x\">".to_string()),
        parts: vec![not_binary, unused, image],
        ..summary()
    };
    let m = message_from_mime(&account, &folder, 5, &mime, b"raw", None, "now".to_string());
    assert_eq!(m.inline_resources.len(), 1);
    let r = &m.inline_resources[0];
    assert_eq!(r.id, "acct:acct:inbox:5:inline-2");
    assert_eq!(r.message_id, "acct:acct:inbox:5");
    assert_eq!(r.content_id, "Img@x");
    assert_eq!(r.filename.as_deref(), Some("img.png"));
    assert_eq!(r.mime_type, "image/png");
    assert_eq!(r.bytes, vec![1, 2, 3]);
}
