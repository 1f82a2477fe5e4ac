use agentmail::account::SyncSummary;
use agentmail::errors::{ApiError, ProtocolError};
use agentmail::model::{MailMessage, MessageFlags, SyncState, SyncStateKind};
use agentmail::sync::{backoff_seconds, SyncLocks};
use agentmail::sync_state::{
    backoff_error, failed_state, folder_last_uid, idle_state, next_failure_count, summary_message,
    syncing_state, watch_failed_state, watch_failure_count, watching_state, SyncTally,
};

fn state(kind: SyncStateKind, failures: u32, until: Option<&str>) -> SyncState {
    SyncState {
        account_id: "acct".to_string(),
        folder_id: None,
        state: kind,
        last_uid: Some("42".to_string()),
        last_synced_at: Some("2026-01-01T00:00:00Z".to_string()),
        error_message: None,
        backoff_until: until.map(|u| u.to_string()),
        failure_count: failures,
    }
}

fn message(uid: Option<&str>) -> MailMessage {
    MailMessage {
        id: "m".to_string(),
        account_id: "acct".to_string(),
        folder_id: "f".to_string(),
        uid: uid.map(|u| u.to_string()),
        message_id_header: None,
        subject: String::new(),
        sender: String::new(),
        recipients: Vec::new(),
        cc: Vec::new(),
        received_at: String::new(),
        body_preview: String::new(),
        body: None,
        html_body: None,
        raw_mime: None,
        inline_resources: Vec::new(),
        attachments: Vec::new(),
        flags: MessageFlags::default(),
        size_bytes: None,
        deleted_at: None,
    }
}

#[test]
fn sync_lock_blocks_duplicate_account_sync() {
    let mut locks = SyncLocks::new();

    let guard = locks.acquire_sync_lock("acct").unwrap();
    match locks.acquire_sync_lock("acct") {
        Err(ApiError::SyncAlreadyRunning(account_id)) => assert_eq!(account_id, "acct"),
        _ => panic!("expected duplicate sync lock error"),
    }
    locks.release(guard);
    assert!(locks.acquire_sync_lock("acct").is_ok());
}

#[test]
fn backoff_blocks_only_while_it_lasts() {
    let previous = Some(state(SyncStateKind::Backoff, 2, Some("2030-01-01T00:00:00Z")));
    match backoff_error("acct".to_string(), &previous, true) {
        Some(ApiError::SyncBackoff { account_id, backoff_until }) => {
            assert_eq!(account_id, "acct");
            assert_eq!(backoff_until, "2030-01-01T00:00:00Z");
        }
        other => panic!("unexpected {other:?}"),
    }
    assert!(backoff_error("acct".to_string(), &previous, false).is_none());
    let idle = Some(state(SyncStateKind::Idle, 0, Some("2030-01-01T00:00:00Z")));
    assert!(backoff_error("acct".to_string(), &idle, true).is_none());
}

#[test]
fn sync_failure_enters_backoff_and_success_resets() {
    let previous = Some(state(SyncStateKind::Idle, 2, None));
    let syncing = syncing_state("acct", None, &previous);
    assert_eq!(syncing.state, SyncStateKind::Syncing);
    assert_eq!(syncing.failure_count, 2);
    assert_eq!(syncing.last_uid.as_deref(), Some("42"));
    assert_eq!(syncing.last_synced_at, None);

    let failures = next_failure_count(&previous);
    assert_eq!(failures, 3);
    assert_eq!(backoff_seconds(failures), 240);
    let failed = failed_state(
        "acct",
        None,
        Some("42".to_string()),
        failures,
        "fetch failed: boom".to_string(),
        "2030-01-01T00:04:00Z".to_string(),
    );
    assert_eq!(failed.state, SyncStateKind::Backoff);
    assert_eq!(failed.failure_count, 3);

    let idle = idle_state("acct", None, Some("50".to_string()), "now".to_string());
    assert_eq!(idle.failure_count, 0);
    assert_eq!(idle.last_synced_at.as_deref(), Some("now"));
    assert_eq!(next_failure_count(&Some(state(SyncStateKind::Backoff, u32::MAX, None))), u32::MAX);
    assert_eq!(next_failure_count(&None), 1);
}

#[test]
fn backoff_grows_to_half_an_hour() {
    assert_eq!(backoff_seconds(0), 60);
    assert_eq!(backoff_seconds(1), 60);
    assert_eq!(backoff_seconds(2), 120);
    assert_eq!(backoff_seconds(6), 1800);
    assert_eq!(backoff_seconds(60), 1800);
}

#[test]
fn watch_error_enters_folder_backoff() {
    let previous = Some(state(SyncStateKind::Idle, 1, None));
    let watching = watching_state("acct", "acct:inbox", &previous);
    assert_eq!(watching.state, SyncStateKind::Watching);
    assert_eq!(watching.last_synced_at.as_deref(), Some("2026-01-01T00:00:00Z"));
    let mut current = state(SyncStateKind::Watching, 4, None);
    current.last_uid = None;
    let current = Some(current);
    let count = watch_failure_count(&current, &previous);
    assert_eq!(count, 5);
    let failed = watch_failed_state(
        "acct".to_string(),
        "acct:inbox".to_string(),
        &current,
        &previous,
        count,
        "idle unavailable".to_string(),
        "later".to_string(),
    );
    assert_eq!(failed.state, SyncStateKind::Backoff);
    assert_eq!(failed.last_uid.as_deref(), Some("42"));
    assert_eq!(failed.error_message.as_deref(), Some("idle unavailable"));
    assert_eq!(watch_failure_count(&None, &None), 1);
}

#[test]
fn folder_last_uid_is_that_of_the_last_message_with_one() {
    let msgs = vec![message(Some("10")), message(Some("11")), message(None)];
    assert_eq!(folder_last_uid(Some("5".to_string()), &msgs).as_deref(), Some("11"));
    assert_eq!(folder_last_uid(Some("5".to_string()), &Vec::new()).as_deref(), Some("5"));
    assert_eq!(folder_last_uid(None, &vec![message(None)]), None);
}

#[test]
fn tally_goes_on_after_one_folder_fails() {
    let mut tally = SyncTally::new();
    tally.record_attempt();
    tally.record_failure(ApiError::Protocol(ProtocolError::Fetch("inbox down".to_string())));
    tally.record_attempt();
    tally.record_success(Some("3001".to_string()), 2);
    let summary = tally.finish("acct".to_string(), 2, "now".to_string()).unwrap();
    assert_eq!(summary.messages, 2);
    assert_eq!(summary.last_uid.as_deref(), Some("3001"));
    assert_eq!(summary.folders, 2);
    assert_eq!(summary_message(&summary), "2 folders / 2 messages");

    let mut all_failed = SyncTally::new();
    all_failed.record_attempt();
    all_failed.record_failure(ApiError::Protocol(ProtocolError::Fetch("a".to_string())));
    all_failed.record_failure(ApiError::Protocol(ProtocolError::Fetch("b".to_string())));
    match all_failed.finish("acct".to_string(), 1, "now".to_string()) {
        Err(ApiError::Protocol(ProtocolError::Fetch(m))) => assert_eq!(m, "a"),
        other => panic!("unexpected {other:?}"),
    }
    let none_tried = SyncTally::new().finish("acct".to_string(), 0, "now".to_string()).unwrap();
    assert_eq!(
        none_tried,
        SyncSummary {
            account_id: "acct".to_string(),
            folders: 0,
            messages: 0,
            last_uid: None,
            synced_at: "now".to_string()
        }
    );
}
