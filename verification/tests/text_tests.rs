use agentmail::codes::{
    action_from_str, action_to_str, audit_status_from_str, audit_status_to_str,
    folder_role_from_str, folder_role_to_str, pending_status_from_str, pending_status_to_str,
    sync_state_from_str, sync_state_to_str,
};
use agentmail::decimal::{format_u32, parse_u32};
use agentmail::errors::{AiRemoteError, ApiError, ProtocolError, SecretError};
use agentmail::folders::{display_folder_name, folder_id, infer_folder_role, is_sent_folder_path};
use agentmail::html::{build_preview, extract_cid_references, html_to_text, normalize_content_id, normalize_text};
use agentmail::model::{
    ActionAuditStatus, ConnectionAuth, ConnectionSettings, FolderRole, MailActionKind, MailFolder, PendingActionStatus,
    RemoteMailAction, SyncStateKind,
};
use agentmail::protocol::{
    compact_uid_set, connection_test_result, normalize_message_id_header, plan_imap_action,
    sanitize_error, smtp_security, ImapCommand, SmtpSecurity,
};
use agentmail::search::{fts_query, sync_state_folder_key};
use agentmail::secret::{mail_password_target, MemorySecretStore, WindowsCredentialStore};

#[test]
fn memory_store_round_trips_secret() {
    let mut store = MemorySecretStore::new();
    store.set_secret("target", "secret").unwrap();
    assert_eq!(store.get_secret("target").unwrap(), "secret");
    store.set_secret("target", "newer").unwrap();
    assert_eq!(store.get_secret("target").unwrap(), "newer");
    store.delete_secret("target").unwrap();
    assert!(store.get_secret("target").is_err());
    match store.get_secret("missing") {
        Err(SecretError::NotFound(t)) => assert_eq!(t, "missing"),
        other => panic!("unexpected {other:?}"),
    }
}

#[test]
fn secret_targets_and_wide_strings() {
    assert_eq!(mail_password_target("acct"), "AgentMail/mail-password/acct");
    assert_eq!(WindowsCredentialStore::to_wide("a😀"), vec![0x61, 0xD83D, 0xDE00, 0]);
}

#[test]
fn codes_round_trip() {
    for role in [
        FolderRole::Inbox,
        FolderRole::Sent,
        FolderRole::Archive,
        FolderRole::Trash,
        FolderRole::Drafts,
        FolderRole::Junk,
        FolderRole::Custom,
    ] {
        assert_eq!(folder_role_from_str(folder_role_to_str(role)), role);
    }
    assert_eq!(folder_role_from_str("weird"), FolderRole::Custom);
    assert_eq!(sync_state_from_str(sync_state_to_str(SyncStateKind::Backoff)), SyncStateKind::Backoff);
    assert_eq!(sync_state_from_str("?"), SyncStateKind::Idle);
    assert_eq!(action_to_str(MailActionKind::PermanentDelete), "permanent_delete");
    assert_eq!(action_from_str("batch_move"), MailActionKind::BatchMove);
    assert_eq!(audit_status_from_str(audit_status_to_str(ActionAuditStatus::Failed)), ActionAuditStatus::Failed);
    assert_eq!(pending_status_to_str(PendingActionStatus::Accepted), "accepted");
    assert_eq!(pending_status_from_str("executed"), PendingActionStatus::Executed);
}

#[test]
fn decimal_round_trip() {
    assert_eq!(format_u32(0), "0");
    assert_eq!(format_u32(4294967295), "4294967295");
    assert_eq!(parse_u32("+12"), Some(12));
    assert_eq!(parse_u32("4294967296"), None);
    assert_eq!(parse_u32(""), None);
    assert_eq!(parse_u32("1a"), None);
}

#[test]
fn folder_paths() {
    assert_eq!(infer_folder_role("INBOX"), FolderRole::Inbox);
    assert_eq!(infer_folder_role("Mail.Deleted Items"), FolderRole::Trash);
    assert_eq!(infer_folder_role("Junk Email"), FolderRole::Junk);
    assert_eq!(infer_folder_role("Projects/2024"), FolderRole::Custom);
    assert!(is_sent_folder_path("[Gmail]/Sent Mail"));
    assert!(!is_sent_folder_path("Sent Archive"));
    assert_eq!(display_folder_name("[Gmail]/Sent Mail"), "Sent Mail");
    assert_eq!(folder_id("acct", "[Gmail]/Sent Mail"), "acct:gmail--sent-mail");
}

#[test]
fn html_text_and_previews() {
    assert_eq!(html_to_text("<h1>Report&nbsp;Ready</h1><p>A&amp;B</p>"), "Report Ready A&B");
    assert_eq!(
        html_to_text("<html><head><style>@media x{}</style></head><body><p>Deal ready</p><script>undefined</script></body></html>"),
        "Deal ready"
    );
    assert_eq!(
        html_to_text("<head><meta charset=\"utf-8\"><link rel=\"s\"></head><body><header>Top banner</header><p>Readable body</p></body>"),
        "Top banner Readable body"
    );
    assert_eq!(normalize_text("a\u{a0} b\n\tc"), "a b c");
    assert_eq!(build_preview("  undefined  "), "");
    assert_eq!(build_preview("The value is undefined in this payload."), "The value is undefined in this payload.");
    assert_eq!(build_preview(&"x ".repeat(300)).chars().count(), 240);
    assert_eq!(normalize_content_id(" <logo@example.com> ").as_deref(), Some("logo@example.com"));
    assert_eq!(normalize_content_id("<>"), None);
    assert_eq!(
        extract_cid_references("<img src=\"cid:LOGO@example.com\"><img src='CID:logo@example.com'>"),
        vec!["logo@example.com".to_string()]
    );
}

#[test]
fn protocol_helpers() {
    assert_eq!(compact_uid_set(&[1, 20, 300]), "1,20,300");
    assert_eq!(normalize_message_id_header(" a@b ").as_deref(), Some("<a@b>"));
    assert_eq!(normalize_message_id_header("<a@b>").as_deref(), Some("<a@b>"));
    assert_eq!(normalize_message_id_header("  "), None);
    assert_eq!(sanitize_error("a\r\nb"), "a  b");
    let r = connection_test_result(false, true);
    assert_eq!(r.message, "SMTP accepted, IMAP connection or authentication failed");
    assert_eq!(fts_query("  say \"hi\" "), Some("\"say \"\"hi\"\"\"".to_string()));
    assert_eq!(fts_query("   "), None);
    assert_eq!(sync_state_folder_key(&None), "");
    assert_eq!(sync_state_folder_key(&Some("f".to_string())), "f");
}

#[test]
fn imap_plans_and_smtp_security() {
    let settings = ConnectionSettings {
        account_id: None,
        email: "a@b".to_string(),
        imap_host: "h".to_string(),
        imap_port: 993,
        imap_tls: true,
        smtp_host: "s".to_string(),
        smtp_port: 587,
        smtp_tls: true,
        auth: ConnectionAuth::Password { password: "p".to_string() },
    };
    assert_eq!(smtp_security(&settings), SmtpSecurity::StartTls);
    let f = MailFolder {
        id: "acct:trash".to_string(),
        account_id: "acct".to_string(),
        name: "Trash".to_string(),
        path: "Trash".to_string(),
        role: FolderRole::Trash,
        unread_count: 0,
        total_count: 0,
    };
    let action = RemoteMailAction {
        action: MailActionKind::Delete,
        source_folder: f.clone(),
        target_folder: Some(f.clone()),
        uids: vec!["1".to_string()],
    };
    assert_eq!(plan_imap_action(&action, false, false).unwrap(), ImapCommand::CopyThenExpunge("Trash".to_string()));
    let pd = RemoteMailAction { action: MailActionKind::PermanentDelete, ..action.clone() };
    assert!(matches!(plan_imap_action(&pd, true, false), Err(ProtocolError::Unsupported(_))));
    let send = RemoteMailAction { action: MailActionKind::Send, ..action };
    assert!(matches!(
        plan_imap_action(&send, true, true),
        Err(ProtocolError::Unsupported(m)) if m == "remote action Send is not supported by IMAP adapter"
    ));
}

#[test]
fn error_texts() {
    assert_eq!(ProtocolError::Send("x".to_string()).message(), "send failed: x");
    assert_eq!(AiRemoteError::Disabled.message(), "ai settings are disabled");
    assert_eq!(
        ApiError::ConfirmationRequired(MailActionKind::BatchMove).message(),
        "blocked action requires explicit confirmation: BatchMove"
    );
    assert_eq!(
        ApiError::SyncBackoff { account_id: "a".to_string(), backoff_until: "t".to_string() }.message(),
        "sync is in backoff until t: a"
    );
    assert_eq!(SecretError::Backend("b".to_string()).message(), "secret backend error: b");
}
