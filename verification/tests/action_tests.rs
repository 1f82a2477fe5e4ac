use agentmail::actions::{
    action_route, ActionRoute,
    body_preview_from_body, check_action_message, check_first_message_owner,
    check_pending_is_open, confirmation_action, confirmation_record, confirmed_work, fallback_sent_folder_id,
    is_missing_remote_message_error, local_action_plan, messages_match_for_remote_delete,
    needs_sent_convergence, new_pending_action, placeholder_removable, placeholder_to_check,
    queued_send, remote_outcome, require_message_uids, required_role_folder,
    resolve_permanent_delete_uids, sent_folder_for_local_send, settings_with_password,
    source_folder_id, target_source, ConfirmedWork, LocalChange, RemoteOutcome, TargetSource,
};
use agentmail::errors::{ApiError, ProtocolError};
use agentmail::model::{
    ConnectionAuth, FolderRole, MailAccount, MailActionKind, MailActionRequest, MailAuth, MailFolder, MailMessage,
    MailProvider, MessageFlagPatch, MessageFlags, PendingActionStatus, RemoteMailAction,
    SendMessageDraft,
};

fn account() -> MailAccount {
    MailAccount {
        id: "acct".to_string(),
        display_name: "Ops".to_string(),
        email: "ops@example.com".to_string(),
        provider: MailProvider::GenericImapSmtp,
        auth: MailAuth::Password { password: String::new() },
        imap_host: "imap.example.com".to_string(),
        imap_port: 993,
        imap_tls: true,
        smtp_host: "smtp.example.com".to_string(),
        smtp_port: 465,
        smtp_tls: true,
        sync_enabled: true,
        created_at: "t".to_string(),
        updated_at: "t".to_string(),
    }
}

fn folder(id: &str, path: &str, role: FolderRole) -> MailFolder {
    MailFolder {
        id: id.to_string(),
        account_id: "acct".to_string(),
        name: path.to_string(),
        path: path.to_string(),
        role,
        unread_count: 0,
        total_count: 0,
    }
}

fn message(id: &str, folder_id: &str, uid: Option<&str>) -> MailMessage {
    MailMessage {
        id: id.to_string(),
        account_id: "acct".to_string(),
        folder_id: folder_id.to_string(),
        uid: uid.map(|u| u.to_string()),
        message_id_header: None,
        subject: format!("subject {id}"),
        sender: "sec@example.com".to_string(),
        recipients: Vec::new(),
        cc: Vec::new(),
        received_at: "t".to_string(),
        body_preview: String::new(),
        body: None,
        html_body: None,
        raw_mime: None,
        inline_resources: Vec::new(),
        attachments: Vec::new(),
        flags: MessageFlags::default(),
        size_bytes: None,
        deleted_at: None,
    }
}

fn request(action: MailActionKind, ids: &[&str]) -> MailActionRequest {
    MailActionRequest {
        action,
        account_id: "acct".to_string(),
        message_ids: ids.iter().map(|s| s.to_string()).collect(),
        target_folder_id: Some("acct:archive".to_string()),
    }
}

fn invalid<T: std::fmt::Debug>(r: Result<T, ApiError>) -> String {
    match r {
        Err(ApiError::InvalidRequest(m)) => m,
        other => panic!("unexpected {other:?}"),
    }
}

#[test]
fn delete_inside_trash_becomes_a_permanent_delete_that_waits() {
    let k = confirmation_action(MailActionKind::Delete, 1, Some(FolderRole::Trash));
    assert_eq!(k, MailActionKind::PermanentDelete);
    assert!(k.requires_confirmation());
    assert_eq!(
        confirmation_action(MailActionKind::Delete, 1, Some(FolderRole::Inbox)),
        MailActionKind::Delete
    );
    assert!(!MailActionKind::Delete.requires_confirmation());
    assert_eq!(
        confirmation_action(MailActionKind::Delete, 2, Some(FolderRole::Inbox)),
        MailActionKind::BatchDelete
    );
    assert_eq!(confirmation_action(MailActionKind::Move, 2, None), MailActionKind::BatchMove);
    assert_eq!(confirmation_action(MailActionKind::Move, 1, None), MailActionKind::Move);
    assert_eq!(confirmation_action(MailActionKind::Delete, 0, None), MailActionKind::Delete);
    let mut other = message("m1", "acct:inbox", Some("1"));
    other.account_id = "other".to_string();
    assert_eq!(
        invalid(check_first_message_owner(&request(MailActionKind::Delete, &["m1"]), &other)),
        "message m1 does not belong to account acct"
    );
}

#[test]
fn action_messages_must_be_owned_live_and_in_one_folder() {
    let mut deleted = message("m1", "acct:inbox", Some("1"));
    deleted.deleted_at = Some("t".to_string());
    assert_eq!(invalid(check_action_message("acct", "m1", &deleted)), "message m1 is locally deleted");
    assert!(check_action_message("acct", "m1", &message("m1", "f", None)).is_ok());
    let same = vec![message("a", "f1", Some("1")), message("b", "f1", Some("2"))];
    assert_eq!(source_folder_id(&same).unwrap(), "f1");
    let mixed = vec![message("a", "f1", Some("1")), message("b", "f2", Some("2"))];
    assert_eq!(invalid(source_folder_id(&mixed)), "all messages in one action must be in the same folder");
    assert_eq!(invalid(source_folder_id(&Vec::new())), "message_ids cannot be empty");
    assert_eq!(require_message_uids(&same).unwrap(), vec!["1".to_string(), "2".to_string()]);
    let missing = vec![message("a", "f1", Some("1")), message("b", "f1", None), message("c", "f1", None)];
    assert_eq!(invalid(require_message_uids(&missing)), "message b has no remote UID");
}

#[test]
fn permanent_delete_uids_come_from_matching_server_messages() {
    let local = vec![message("a", "f", None), message("b", "f", None), message("c", "f", None)];
    let mut by_header = message("x", "f", Some("900"));
    by_header.subject = "other".to_string();
    let mut local_b = local[1].clone();
    local_b.message_id_header = Some("<b@x>".to_string());
    by_header.message_id_header = Some("<b@x>".to_string());
    let remote = vec![message("a", "f", Some("100")), by_header];
    assert!(messages_match_for_remote_delete(&local[0], &remote[0]));
    assert!(messages_match_for_remote_delete(&local_b, &remote[1]));
    let uids = resolve_permanent_delete_uids(&vec![local[0].clone(), local_b, local[2].clone()], &remote);
    assert_eq!(uids, vec!["100".to_string(), "900".to_string()]);
}

#[test]
fn targets_come_from_the_request_or_the_role() {
    assert_eq!(target_source(MailActionKind::Move), TargetSource::Requested);
    assert_eq!(target_source(MailActionKind::Archive), TargetSource::Role(FolderRole::Archive));
    assert_eq!(target_source(MailActionKind::BatchDelete), TargetSource::Role(FolderRole::Trash));
    assert_eq!(target_source(MailActionKind::Star), TargetSource::NoTarget);
    assert_eq!(invalid(required_role_folder(FolderRole::Archive, None)), "Archive folder is not available");
    let trash = folder("acct:trash", "Trash", FolderRole::Trash);
    assert_eq!(required_role_folder(FolderRole::Trash, Some(trash.clone())).unwrap(), trash);
}

#[test]
fn remote_action_failure_does_not_mutate_local_message() {
    match remote_outcome(MailActionKind::Archive, Err(ProtocolError::Fetch("boom".to_string()))) {
        RemoteOutcome::Fail { error } => assert_eq!(error, ProtocolError::Fetch("boom".to_string())),
        _ => panic!("expected failure"),
    }
    let missing = ProtocolError::Fetch("Message does NOT EXIST".to_string());
    assert!(is_missing_remote_message_error(&missing));
    assert!(!is_missing_remote_message_error(&ProtocolError::Send("not found".to_string())));
    match remote_outcome(MailActionKind::PermanentDelete, Err(missing)) {
        RemoteOutcome::ApplyLocally { note } => {
            assert_eq!(note.as_deref(), Some("fetch failed: Message does NOT EXIST"))
        }
        _ => panic!("expected local application"),
    }
    assert!(matches!(
        remote_outcome(MailActionKind::MarkRead, Ok(())),
        RemoteOutcome::ApplyLocally { note: None }
    ));
}

#[test]
fn low_risk_action_calls_protocol_then_updates_local_state() {
    let inbox = folder("acct:inbox", "INBOX", FolderRole::Inbox);
    let archive = folder("acct:archive", "Archive", FolderRole::Archive);
    let read = RemoteMailAction {
        action: MailActionKind::MarkRead,
        source_folder: inbox.clone(),
        target_folder: None,
        uids: vec!["1".to_string()],
    };
    let plan = local_action_plan(MailActionKind::MarkRead, &read).unwrap();
    assert!(matches!(
        plan.change,
        LocalChange::SetFlags(MessageFlagPatch { is_read: Some(true), is_starred: None })
    ));
    assert_eq!(plan.refresh_folder_ids, vec!["acct:inbox".to_string()]);
    let archive_action = RemoteMailAction {
        action: MailActionKind::Archive,
        target_folder: Some(archive),
        ..read.clone()
    };
    let plan = local_action_plan(MailActionKind::Archive, &archive_action).unwrap();
    assert!(matches!(plan.change, LocalChange::MoveAndClearUids(ref id) if id == "acct:archive"));
    assert_eq!(plan.refresh_folder_ids, vec!["acct:inbox".to_string(), "acct:archive".to_string()]);
    assert_eq!(invalid(local_action_plan(MailActionKind::Delete, &read)), "target folder required");
    assert_eq!(
        invalid(local_action_plan(MailActionKind::Send, &read)),
        "unsupported confirmed mail action: Send"
    );
    assert!(matches!(
        local_action_plan(MailActionKind::PermanentDelete, &read).unwrap().change,
        LocalChange::SoftDelete
    ));
}

#[test]
fn queued_send_records_a_pending_action_and_a_placeholder() {
    let draft = SendMessageDraft {
        account_id: "acct".to_string(),
        to: vec!["sec@example.com".to_string()],
        cc: vec!["ops-lead@example.com".to_string()],
        subject: "Confirm send".to_string(),
        body: "body\nwith local visibility".to_string(),
        message_id_header: None,
    };
    let sent = folder("acct:sent", "Sent", FolderRole::Sent);
    let q = queued_send(
        draft.clone(),
        &account(),
        &sent,
        "local-1".to_string(),
        "pending-1".to_string(),
        "audit-1".to_string(),
        "now".to_string(),
    )
    .unwrap();
    assert_eq!(q.pending.action, MailActionKind::Send);
    assert_eq!(q.pending.status, PendingActionStatus::Pending);
    assert_eq!(q.pending.local_message_id.as_deref(), Some("local-1"));
    assert_eq!(
        q.pending.draft.as_ref().unwrap().message_id_header.as_deref(),
        Some("<local-1@agentmail.local>")
    );
    assert_eq!(q.placeholder.folder_id, "acct:sent");
    assert_eq!(q.placeholder.sender, "ops@example.com");
    assert_eq!(q.placeholder.body_preview, "body\nwith local visibility");
    assert!(q.placeholder.flags.is_read && q.placeholder.flags.is_answered);
    assert!(q.placeholder.uid.is_none());
    let no_to = SendMessageDraft { to: Vec::new(), ..draft };
    assert_eq!(
        invalid(queued_send(
            no_to,
            &account(),
            &sent,
            "l".to_string(),
            "p".to_string(),
            "a".to_string(),
            "n".to_string()
        )
        .map(|_| ())),
        "recipient list is empty"
    );
}

#[test]
fn send_message_creates_fallback_sent_folder_for_local_placeholder() {
    let chosen = sent_folder_for_local_send("acct", None, Vec::new());
    assert_eq!(chosen.id, "acct:sent");
    assert_eq!(chosen.name, "Sent");
    assert_eq!(chosen.role, FolderRole::Sent);
    let by_path = sent_folder_for_local_send(
        "acct",
        None,
        vec![
            folder("acct:inbox", "INBOX", FolderRole::Inbox),
            folder("acct:gmail--sent-mail", "[Gmail]/Sent Mail", FolderRole::Custom),
        ],
    );
    assert_eq!(by_path.id, "acct:gmail--sent-mail");
    assert_eq!(by_path.role, FolderRole::Sent);
    let by_role = folder("acct:s", "Outbox", FolderRole::Sent);
    assert_eq!(sent_folder_for_local_send("acct", Some(by_role.clone()), Vec::new()), by_role);
    assert_eq!(fallback_sent_folder_id("acct"), "acct:sent");
    assert!(needs_sent_convergence("acct", &by_path));
    assert!(!needs_sent_convergence("acct", &chosen));
}

#[test]
fn reject_pending_send_keeps_wrongly_linked_non_sent_message_visible() {
    let draft = SendMessageDraft {
        account_id: "acct".to_string(),
        to: vec!["sec@example.com".to_string()],
        cc: Vec::new(),
        subject: "Wrong link send".to_string(),
        body: "body".to_string(),
        message_id_header: Some("<h@x>".to_string()),
    };
    let pending = new_pending_action(
        "p".to_string(),
        "acct".to_string(),
        MailActionKind::Send,
        Vec::new(),
        None,
        Some(draft),
        "now".to_string(),
    )
    .unwrap();
    assert!(placeholder_to_check(&pending).is_none());
    let mut linked = pending.clone();
    linked.local_message_id = Some("local".to_string());
    let (id, header) = placeholder_to_check(&linked).unwrap();
    assert_eq!(id, "local");
    let mut placeholder = message("local", "acct:sent", None);
    placeholder.message_id_header = Some(header.clone());
    assert!(placeholder_removable(&linked, &placeholder, FolderRole::Sent, &header));
    assert!(!placeholder_removable(&linked, &placeholder, FolderRole::Inbox, &header));
    let hydrated = MailMessage { uid: Some("777".to_string()), ..placeholder };
    assert!(!placeholder_removable(&linked, &hydrated, FolderRole::Sent, &header));
    assert_eq!(
        invalid(new_pending_action(
            "p".to_string(),
            "acct".to_string(),
            MailActionKind::Send,
            Vec::new(),
            None,
            None,
            "now".to_string()
        )),
        "send pending action requires a draft"
    );
}

#[test]
fn confirm_maps_batches_and_refuses_closed_actions() {
    let mut pending = new_pending_action(
        "p".to_string(),
        "acct".to_string(),
        MailActionKind::BatchDelete,
        vec!["a".to_string(), "b".to_string()],
        Some("t".to_string()),
        None,
        "now".to_string(),
    )
    .unwrap();
    assert!(check_pending_is_open("p", &pending).is_ok());
    match confirmed_work(&pending).unwrap() {
        ConfirmedWork::Run(r) => {
            assert_eq!(r.action, MailActionKind::Delete);
            assert_eq!(r.target_folder_id, None);
            assert_eq!(r.message_ids.len(), 2);
        }
        ConfirmedWork::Send(_) => panic!("expected a run"),
    }
    pending.action = MailActionKind::BatchMove;
    match confirmed_work(&pending).unwrap() {
        ConfirmedWork::Run(r) => {
            assert_eq!(r.action, MailActionKind::Move);
            assert_eq!(r.target_folder_id.as_deref(), Some("t"));
        }
        ConfirmedWork::Send(_) => panic!("expected a run"),
    }
    pending.action = MailActionKind::Forward;
    assert_eq!(invalid(confirmed_work(&pending).map(|_| ())), "forward confirmation is not implemented yet");
    pending.status = PendingActionStatus::Rejected;
    assert_eq!(invalid(check_pending_is_open("p", &pending)), "pending action p is already Rejected");
}

#[test]
fn previews_and_passwords() {
    assert_eq!(body_preview_from_body("   "), "(empty message)");
    assert_eq!(body_preview_from_body(&"x".repeat(200)).len(), 180);
    assert_eq!(
        invalid(settings_with_password(&account(), String::new())),
        "account password is required; save it in configuration"
    );
    let s = settings_with_password(&account(), "pw".to_string()).unwrap();
    assert_eq!(s.account_id.as_deref(), Some("acct"));
    assert_eq!(s.auth, ConnectionAuth::Password { password: "pw".to_string() });
}

#[test]
fn confirmation_records_the_outcome_once() {
    let done = confirmation_record(MailActionKind::Archive, &Ok(()));
    assert_eq!(done.status, PendingActionStatus::Executed);
    assert_eq!(done.audit, agentmail::model::ActionAuditStatus::Executed);
    assert_eq!(done.error_message, None);
    assert!(!done.remove_placeholder);

    let failed_send = confirmation_record(
        MailActionKind::Send,
        &Err(ApiError::InvalidRequest("recipient list is empty".to_string())),
    );
    assert_eq!(failed_send.status, PendingActionStatus::Failed);
    assert_eq!(failed_send.audit, agentmail::model::ActionAuditStatus::Failed);
    assert_eq!(failed_send.error_message.as_deref(), Some("invalid request: recipient list is empty"));
    assert!(failed_send.remove_placeholder);

    let failed_move = confirmation_record(MailActionKind::Move, &Err(ApiError::InvalidRequest("x".to_string())));
    assert!(!failed_move.remove_placeholder);
}

#[test]
fn risky_actions_are_queued_and_others_run() {
    assert_eq!(action_route(MailActionKind::Delete, 1, Some(FolderRole::Trash)), ActionRoute::Queue(MailActionKind::PermanentDelete));
    assert_eq!(action_route(MailActionKind::Delete, 2, Some(FolderRole::Inbox)), ActionRoute::Queue(MailActionKind::BatchDelete));
    assert_eq!(action_route(MailActionKind::Move, 3, None), ActionRoute::Queue(MailActionKind::BatchMove));
    assert_eq!(action_route(MailActionKind::Delete, 1, Some(FolderRole::Inbox)), ActionRoute::RunNow);
    assert_eq!(action_route(MailActionKind::MarkRead, 5, None), ActionRoute::RunNow);
}
