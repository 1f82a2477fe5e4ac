use agentmail::errors::ProtocolError;
use agentmail::clock::now_rfc3339;
use agentmail::mime::parse_message;
use agentmail::model::{FolderRole, MailAccount, MailAuth, MailFolder, MailProvider};

fn test_account() -> MailAccount {
    MailAccount {
        id: "acct".to_string(),
        display_name: "Ops".to_string(),
        email: "ops@example.com".to_string(),
        provider: MailProvider::GenericImapSmtp,
        auth: MailAuth::Password {
            password: String::new(),
        },
        imap_host: "imap.example.com".to_string(),
        imap_port: 993,
        imap_tls: true,
        smtp_host: "smtp.example.com".to_string(),
        smtp_port: 465,
        smtp_tls: true,
        sync_enabled: true,
        created_at: now_rfc3339(),
        updated_at: now_rfc3339(),
    }
}

fn test_folder(account: &MailAccount) -> MailFolder {
    MailFolder {
        id: "acct:inbox".to_string(),
        account_id: account.id.clone(),
        name: "INBOX".to_string(),
        path: "INBOX".to_string(),
        role: FolderRole::Inbox,
        unread_count: 0,
        total_count: 0,
    }
}

#[test]
fn parses_plain_text_message_with_attachment_metadata() {
    let account = test_account();
    let folder = test_folder(&account);
    let raw = b"From: Security <sec@example.com>\r\nTo: Ops <ops@example.com>\r\nSubject: Test report\r\nMessage-ID: <a@example.com>\r\nMIME-Version: 1.0\r\nContent-Type: multipart/mixed; boundary=x\r\n\r\n--x\r\nContent-Type: text/plain; charset=utf-8\r\n\r\nHello from IMAP.\r\n--x\r\nContent-Type: text/plain; name=report.txt\r\nContent-Disposition: attachment; filename=report.txt\r\n\r\nreport-body\r\n--x--\r\n";

    let parsed = parse_message(&account, &folder, 42, raw, Some(raw.len() as u32)).unwrap();
    assert_eq!(parsed.uid.as_deref(), Some("42"));
    assert_eq!(parsed.message_id_header.as_deref(), Some("<a@example.com>"));
    assert_eq!(parsed.subject, "Test report");
    assert!(parsed.body.as_deref().unwrap_or_default().contains("Hello"));
    assert_eq!(parsed.attachments.len(), 1);
    assert_eq!(parsed.attachments[0].filename, "report.txt");
}

#[test]
fn parses_date_header_and_html_only_body() {
    let account = test_account();
    let folder = test_folder(&account);
    let raw = b"From: sec@example.com\r\nTo: ops@example.com\r\nDate: Tue, 20 Feb 2024 10:30:00 +0800\r\nSubject: HTML report\r\nMIME-Version: 1.0\r\nContent-Type: text/html; charset=utf-8\r\n\r\n<html><body><h1>Report&nbsp;Ready</h1><p>A&amp;B</p></body></html>\r\n";

    let parsed = parse_message(&account, &folder, 43, raw, None).unwrap();
    assert!(parsed.received_at.starts_with("2024-02-20T02:30:00"));
    let body = parsed.body.as_deref().unwrap_or_default();
    assert!(body.contains("Report Ready"));
    assert!(body.contains("A&B"));
    assert!(parsed.body_preview.contains("Report Ready"));
}

#[test]
fn parses_css_heavy_html_without_leaking_css_into_preview() {
    let account = test_account();
    let folder = test_folder(&account);
    let raw = b"From: promo@example.com\r\nTo: ops@example.com\r\nSubject: Promo\r\nMIME-Version: 1.0\r\nContent-Type: text/html; charset=utf-8\r\n\r\n<html><head><style>@media only screen and (max-width:480px){table{font-family:Arial;width:100%}}</style></head><body><p>Deal ready</p><script>undefined</script></body></html>\r\n";

    let parsed = parse_message(&account, &folder, 44, raw, None).unwrap();

    assert_eq!(parsed.body.as_deref(), Some("Deal ready"));
    assert_eq!(parsed.body_preview, "Deal ready");
    assert!(!parsed.body_preview.contains("@media"));
    assert!(!parsed.body_preview.contains("undefined"));
}

#[test]
fn parses_html_void_and_prefix_tags_without_dropping_body() {
    let account = test_account();
    let folder = test_folder(&account);
    let raw = b"From: promo@example.com\r\nTo: ops@example.com\r\nSubject: Header prefix\r\nMIME-Version: 1.0\r\nContent-Type: text/html; charset=utf-8\r\n\r\n<html><head><meta charset=\"utf-8\"><link rel=\"stylesheet\" href=\"https://cdn.example.com/mail.css\"></head><body><header>Top banner</header><p>Readable body</p></body></html>\r\n";

    let parsed = parse_message(&account, &folder, 45, raw, None).unwrap();

    assert_eq!(parsed.body.as_deref(), Some("Top banner Readable body"));
    assert_eq!(parsed.body_preview, "Top banner Readable body");
}

#[test]
fn keeps_plain_text_css_examples_in_preview() {
    let account = test_account();
    let folder = test_folder(&account);
    let raw = b"From: dev@example.com\r\nTo: ops@example.com\r\nSubject: CSS example\r\nMIME-Version: 1.0\r\nContent-Type: text/plain; charset=utf-8\r\n\r\nPlease review this CSS: @media only screen { .card { width: 320px; font-family: Arial; } }\r\n";

    let parsed = parse_message(&account, &folder, 47, raw, None).unwrap();

    assert!(parsed.body_preview.contains("@media only screen"));
    assert!(parsed.body_preview.contains("font-family"));
}

#[test]
fn keeps_undefined_token_in_full_plain_text_body() {
    let account = test_account();
    let folder = test_folder(&account);
    let raw = b"From: dev@example.com\r\nTo: ops@example.com\r\nSubject: Undefined example\r\nMIME-Version: 1.0\r\nContent-Type: text/plain; charset=utf-8\r\n\r\nThe value is undefined in this payload.\r\n";

    let parsed = parse_message(&account, &folder, 48, raw, None).unwrap();

    assert_eq!(
        parsed.body.as_deref(),
        Some("The value is undefined in this payload.")
    );
    assert_eq!(
        parsed.body_preview,
        "The value is undefined in this payload."
    );
}

#[test]
fn keeps_undefined_token_in_html_only_body() {
    let account = test_account();
    let folder = test_folder(&account);
    let raw = b"From: dev@example.com\r\nTo: ops@example.com\r\nSubject: HTML undefined example\r\nMIME-Version: 1.0\r\nContent-Type: text/html; charset=utf-8\r\n\r\n<html><body><p>The value is undefined in this payload.</p></body></html>\r\n";

    let parsed = parse_message(&account, &folder, 52, raw, None).unwrap();

    assert_eq!(
        parsed.body.as_deref(),
        Some("The value is undefined in this payload.")
    );
    assert_eq!(
        parsed.body_preview,
        "The value is undefined in this payload."
    );
}

#[test]
fn clears_preview_when_body_is_only_undefined() {
    let account = test_account();
    let folder = test_folder(&account);
    let raw = b"From: dev@example.com\r\nTo: ops@example.com\r\nSubject: Undefined placeholder\r\nMIME-Version: 1.0\r\nContent-Type: text/plain; charset=utf-8\r\n\r\nundefined\r\n";

    let parsed = parse_message(&account, &folder, 53, raw, None).unwrap();

    assert_eq!(parsed.body.as_deref(), Some("undefined"));
    assert_eq!(parsed.body_preview, "");
}

#[test]
fn prefers_later_real_text_part_over_html_text_fallback() {
    let account = test_account();
    let folder = test_folder(&account);
    let raw = b"From: dev@example.com\r\nTo: ops@example.com\r\nSubject: Mixed related\r\nMIME-Version: 1.0\r\nContent-Type: multipart/related; boundary=rel\r\n\r\n--rel\r\nContent-Type: text/html; charset=utf-8\r\n\r\n<html><body><p>HTML fallback</p></body></html>\r\n--rel\r\nContent-Type: text/plain; charset=utf-8\r\n\r\nReal plain body\r\n--rel--\r\n";

    let parsed = parse_message(&account, &folder, 49, raw, None).unwrap();

    assert_eq!(parsed.body.as_deref(), Some("Real plain body"));
    assert_eq!(parsed.body_preview, "Real plain body");
}

#[test]
fn ignores_inline_non_plain_text_parts_when_falling_back_to_html() {
    let account = test_account();
    let folder = test_folder(&account);
    let raw = b"From: dev@example.com\r\nTo: ops@example.com\r\nSubject: Related invite\r\nMIME-Version: 1.0\r\nContent-Type: multipart/related; boundary=rel\r\n\r\n--rel\r\nContent-Type: text/html; charset=utf-8\r\n\r\n<html><body><p>HTML summary</p></body></html>\r\n--rel\r\nContent-Type: text/calendar; charset=utf-8\r\nContent-Disposition: inline\r\n\r\nBEGIN:VCALENDAR\r\nSUMMARY:Calendar should not be body\r\nEND:VCALENDAR\r\n--rel\r\nContent-Type: text/css; charset=utf-8\r\nContent-Disposition: inline\r\n\r\n.invite { font-family: Arial; }\r\n--rel--\r\n";

    let parsed = parse_message(&account, &folder, 54, raw, None).unwrap();

    assert_eq!(parsed.body.as_deref(), Some("HTML summary"));
    assert_eq!(parsed.body_preview, "HTML summary");
    assert!(!parsed.body_preview.contains("VCALENDAR"));
    assert!(!parsed.body_preview.contains("font-family"));
}

#[test]
fn does_not_use_text_attachment_as_message_body() {
    let account = test_account();
    let folder = test_folder(&account);
    let raw = b"From: dev@example.com\r\nTo: ops@example.com\r\nSubject: Attachment only\r\nMIME-Version: 1.0\r\nContent-Type: multipart/mixed; boundary=mix\r\n\r\n--mix\r\nContent-Type: text/html; charset=utf-8\r\n\r\n<html><body><p>HTML body</p></body></html>\r\n--mix\r\nContent-Type: text/plain; charset=utf-8\r\nContent-Disposition: attachment; filename=\"note.txt\"\r\n\r\nAttachment text\r\n--mix--\r\n";

    let parsed = parse_message(&account, &folder, 50, raw, None).unwrap();

    assert_eq!(parsed.body.as_deref(), Some("HTML body"));
    assert_eq!(parsed.body_preview, "HTML body");
}

#[test]
fn does_not_use_named_text_part_as_message_body() {
    let account = test_account();
    let folder = test_folder(&account);
    let raw = b"From: dev@example.com\r\nTo: ops@example.com\r\nSubject: Named text attachment\r\nMIME-Version: 1.0\r\nContent-Type: multipart/mixed; boundary=mix\r\n\r\n--mix\r\nContent-Type: text/html; charset=utf-8\r\n\r\n<html><body><p>HTML body</p></body></html>\r\n--mix\r\nContent-Type: text/plain; charset=utf-8; name=\"note.txt\"\r\n\r\nAttachment text\r\n--mix--\r\n";

    let parsed = parse_message(&account, &folder, 51, raw, None).unwrap();

    assert_eq!(parsed.body.as_deref(), Some("HTML body"));
    assert_eq!(parsed.body_preview, "HTML body");
}

#[test]
fn bytes_without_headers_are_a_parse_error() {
    let account = test_account();
    let folder = test_folder(&account);
    let error = parse_message(&account, &folder, 7, b"", None).unwrap_err();
    assert_eq!(error, ProtocolError::Parse("failed to parse UID 7".to_string()));
}

#[test]
fn parsed_message_carries_addresses_ids_and_sizes() {
    let account = test_account();
    let folder = test_folder(&account);
    let raw = b"From: Security <sec@example.com>\r\nTo: Ops <ops@example.com>, dev@example.com\r\nCc: Lead <lead@example.com>\r\nDate: Tue, 20 Feb 2024 10:30:00 +0800\r\nSubject: Sizes\r\nMIME-Version: 1.0\r\nContent-Type: multipart/mixed; boundary=x\r\n\r\n--x\r\nContent-Type: text/plain; charset=utf-8\r\n\r\nBody text\r\n--x\r\nContent-Type: application/pdf\r\nContent-Disposition: attachment\r\n\r\npdfbytes\r\n--x--\r\n";

    let parsed = parse_message(&account, &folder, 9, raw, None).unwrap();
    assert_eq!(parsed.id, "acct:acct:inbox:9");
    assert_eq!(parsed.sender, "Security <sec@example.com>");
    assert_eq!(parsed.recipients, vec!["Ops <ops@example.com>".to_string(), "dev@example.com".to_string()]);
    assert_eq!(parsed.cc, vec!["Lead <lead@example.com>".to_string()]);
    assert_eq!(parsed.received_at, "2024-02-20T02:30:00Z");
    assert_eq!(parsed.size_bytes, Some(raw.len() as i64));
    assert_eq!(parsed.attachments.len(), 1);
    assert_eq!(parsed.attachments[0].id, "acct:acct:inbox:9:att-0");
    assert_eq!(parsed.attachments[0].filename, "attachment-0");
    assert_eq!(parsed.attachments[0].mime_type, "application/pdf");
    assert_eq!(parsed.attachments[0].size_bytes, 8);

    let reported = parse_message(&account, &folder, 9, raw, Some(4096)).unwrap();
    assert_eq!(reported.size_bytes, Some(4096));
}

#[test]
fn message_without_subject_or_date_gets_defaults() {
    let account = test_account();
    let folder = test_folder(&account);
    let raw = b"From: dev@example.com\r\nTo: ops@example.com\r\nMIME-Version: 1.0\r\nContent-Type: text/plain\r\n\r\nhello\r\n";

    let parsed = parse_message(&account, &folder, 3, raw, None).unwrap();
    assert_eq!(parsed.subject, "(no subject)");
    assert_eq!(parsed.message_id_header, None);
    assert!(!parsed.received_at.is_empty());
}

#[test]
fn parses_html_body_without_losing_plaintext() {
    let account = test_account();
    let folder = test_folder(&account);
    let raw = b"From: Security <sec@example.com>\r\nTo: Ops <ops@example.com>\r\nSubject: HTML alternative\r\nMessage-ID: <html-alt@example.com>\r\nMIME-Version: 1.0\r\nContent-Type: multipart/alternative; boundary=alt\r\n\r\n--alt\r\nContent-Type: text/plain; charset=utf-8\r\n\r\nPlain fallback\r\n--alt\r\nContent-Type: text/html; charset=utf-8\r\n\r\n<html><body><p>HTML Body</p><img src=\"https://example.com/logo.png\"></body></html>\r\n--alt--\r\n";

    let parsed = parse_message(&account, &folder, 44, raw, Some(raw.len() as u32)).unwrap();

    assert_eq!(parsed.body.as_deref(), Some("Plain fallback"));
    assert!(parsed
        .html_body
        .as_deref()
        .unwrap_or_default()
        .contains("HTML Body"));
    assert_eq!(parsed.raw_mime.as_deref(), Some(raw.as_slice()));
}

#[test]
fn extracts_inline_cid_image_resource() {
    let account = test_account();
    let folder = test_folder(&account);
    let raw = b"From: Security <sec@example.com>\r\nTo: Ops <ops@example.com>\r\nSubject: CID image\r\nMessage-ID: <cid-image@example.com>\r\nMIME-Version: 1.0\r\nContent-Type: multipart/related; boundary=rel\r\n\r\n--rel\r\nContent-Type: text/html; charset=utf-8\r\n\r\n<html><body><img src=\"cid:LOGO@example.com\"></body></html>\r\n--rel\r\nContent-Type: image/png\r\nContent-Transfer-Encoding: base64\r\nContent-ID: <logo@example.com>\r\nContent-Disposition: inline; filename=\"logo.png\"\r\n\r\naW1hZ2UtYnl0ZXM=\r\n--rel\r\nContent-Type: application/pdf\r\nContent-Transfer-Encoding: base64\r\nContent-ID: <unused@example.com>\r\nContent-Disposition: attachment; filename=\"unused.pdf\"\r\n\r\ndW51c2VkLWJ5dGVz\r\n--rel--\r\n";

    let parsed = parse_message(&account, &folder, 45, raw, Some(raw.len() as u32)).unwrap();

    assert_eq!(parsed.inline_resources.len(), 1);
    let resource = &parsed.inline_resources[0];
    assert_eq!(resource.content_id, "logo@example.com");
    assert_eq!(resource.mime_type, "image/png");
    assert_eq!(resource.bytes, b"image-bytes");
}
