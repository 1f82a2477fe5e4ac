use agentmail::errors::ProtocolError;
use agentmail::mock_protocol::MockMailProtocol;
use agentmail::protocol::MailProtocol;
use agentmail::model::{
    ConnectionAuth, ConnectionSettings, FolderRole, FolderWatchOutcome, MailAccount, MailActionKind, MailAuth, MailFolder,
    MailProvider, MessageFetchRequest, RemoteMailAction, SendMessageDraft,
};

fn account() -> MailAccount {
    MailAccount {
        id: "acct".to_string(),
        display_name: "Ops".to_string(),
        email: "ops@example.com".to_string(),
        provider: MailProvider::GenericImapSmtp,
        auth: MailAuth::Password { password: String::new() },
        imap_host: "imap.example.com".to_string(),
        imap_port: 993,
        imap_tls: true,
        smtp_host: "smtp.example.com".to_string(),
        smtp_port: 465,
        smtp_tls: true,
        sync_enabled: true,
        created_at: "t".to_string(),
        updated_at: "t".to_string(),
    }
}

fn settings(password: &str) -> ConnectionSettings {
    ConnectionSettings {
        account_id: None,
        email: "ops@example.com".to_string(),
        imap_host: "imap.example.com".to_string(),
        imap_port: 993,
        imap_tls: true,
        smtp_host: "smtp.example.com".to_string(),
        smtp_port: 465,
        smtp_tls: true,
        auth: ConnectionAuth::Password { password: password.to_string() },
    }
}

#[test]
fn manual_test_account_connection_uses_protocol() {
    let result = MockMailProtocol.test_connection(&settings("secret")).unwrap();
    assert!(result.imap_ok && result.smtp_ok);
    assert_eq!(result.message, "mock protocol accepted account settings");
    let result = MockMailProtocol.test_connection(&settings("")).unwrap();
    assert!(!result.imap_ok && !result.smtp_ok);
    assert_eq!(result.message, "missing host, port, email, or credentials");
}

#[test]
fn mock_folders_cover_the_standard_roles() {
    let folders = MockMailProtocol.fetch_folders(&settings("secret"), &account()).unwrap();
    assert_eq!(folders.len(), 5);
    assert_eq!(folders[0].id, "acct:inbox");
    assert_eq!(folders[0].path, "INBOX");
    assert_eq!(folders[0].unread_count, 3);
    assert_eq!(folders[4].role, FolderRole::Trash);
}

#[test]
fn mock_server_offers_folders_and_messages() {
    let folders = MockMailProtocol.fetch_folders(&settings("secret"), &account()).unwrap();
    let inbox = &folders[0];
    let all = MockMailProtocol
        .fetch_messages_at(&account(), inbox, &MessageFetchRequest { last_uid: None, limit: 100 }, "now")
        .unwrap();
    assert_eq!(all.len(), 3);
    assert_eq!(all[0].id, "acct:acct:inbox:1001");
    assert_eq!(all[0].message_id_header.as_deref(), Some("<1001.acct@agentmail.local>"));
    assert!(all[0].flags.is_starred);
    assert!(all[0].body.as_deref().unwrap().starts_with("Credential rotation window"));
    assert_eq!(all[0].recipients, vec!["ops@example.com".to_string()]);
    let newer = MockMailProtocol
        .fetch_messages_at(
            &account(),
            inbox,
            &MessageFetchRequest { last_uid: Some("1001".to_string()), limit: 100 },
            "now",
        )
        .unwrap();
    assert_eq!(newer.len(), 2);
    assert_eq!(newer[0].uid.as_deref(), Some("1002"));
    let sent = &folders[1];
    let sent_messages = MockMailProtocol
        .fetch_messages_at(&account(), sent, &MessageFetchRequest { last_uid: None, limit: 100 }, "now")
        .unwrap();
    assert_eq!(sent_messages[0].sender, "ops@example.com");
    let junk = MailFolder { role: FolderRole::Junk, ..folders[0].clone() };
    assert!(MockMailProtocol
        .fetch_messages_at(&account(), &junk, &MessageFetchRequest { last_uid: None, limit: 100 }, "now")
        .unwrap()
        .is_empty());
}

#[test]
fn mock_send_and_actions_check_their_input() {
    let draft = SendMessageDraft {
        account_id: "acct".to_string(),
        to: vec!["sec@example.com".to_string()],
        cc: Vec::new(),
        subject: "Confirm send".to_string(),
        body: "body".to_string(),
        message_id_header: None,
    };
    assert_eq!(MockMailProtocol.send_message_as(&draft, "id-1".to_string()).unwrap(), "id-1");
    let empty_subject = SendMessageDraft { subject: " ".to_string(), ..draft.clone() };
    assert!(matches!(
        MockMailProtocol.send_message_as(&empty_subject, "x".to_string()),
        Err(ProtocolError::Send(m)) if m == "subject is empty"
    ));
    let folders = MockMailProtocol.fetch_folders(&settings("secret"), &account()).unwrap();
    let action = RemoteMailAction {
        action: MailActionKind::Archive,
        source_folder: folders[0].clone(),
        target_folder: None,
        uids: vec!["1".to_string()],
    };
    assert!(matches!(
        MockMailProtocol.apply_action(&settings("secret"), &account(), &action),
        Err(ProtocolError::Unsupported(_))
    ));
    let no_uids = RemoteMailAction { uids: Vec::new(), ..action.clone() };
    assert!(matches!(MockMailProtocol.apply_action(&settings("secret"), &account(), &no_uids), Err(ProtocolError::Fetch(_))));
    let ok = RemoteMailAction { target_folder: Some(folders[2].clone()), ..action };
    assert!(MockMailProtocol.apply_action(&settings("secret"), &account(), &ok).is_ok());
}

#[test]
fn mock_server_stamps_messages_and_names_sent_mail() {
    let folders = MockMailProtocol.fetch_folders(&settings("secret"), &account()).unwrap();
    let request = MessageFetchRequest { last_uid: Some("1002".to_string()), limit: 100 };
    let messages = MockMailProtocol
        .fetch_messages(&settings("secret"), &account(), &folders[0], &request)
        .unwrap();
    assert_eq!(messages.len(), 1);
    assert_eq!(messages[0].uid.as_deref(), Some("1003"));
    assert!(!messages[0].received_at.is_empty());

    let draft = SendMessageDraft {
        account_id: "acct".to_string(),
        to: vec!["sec@example.com".to_string()],
        cc: Vec::new(),
        subject: "Confirm send".to_string(),
        body: "body".to_string(),
        message_id_header: None,
    };
    let first = MockMailProtocol.send_message(&settings("secret"), &draft).unwrap();
    let second = MockMailProtocol.send_message(&settings("secret"), &draft).unwrap();
    assert_eq!(first.len(), 36);
    assert_eq!(&first[14..15], "4");
    assert!(["8", "9", "a", "b"].contains(&&first[19..20]));
    assert_eq!(first.chars().filter(|c| *c == '-').count(), 4);
    assert_ne!(first, second);
    let no_recipients = SendMessageDraft { to: Vec::new(), ..draft };
    assert!(matches!(
        MockMailProtocol.send_message(&settings("secret"), &no_recipients),
        Err(ProtocolError::Send(m)) if m == "recipient list is empty"
    ));
}

#[test]
fn mock_server_cannot_wait_for_changes() {
    let folders = MockMailProtocol.fetch_folders(&settings("secret"), &account()).unwrap();
    assert_eq!(
        MockMailProtocol.watch_folder_until_change(&settings("secret"), &account(), &folders[0]),
        Ok(FolderWatchOutcome::Timeout)
    );
}
