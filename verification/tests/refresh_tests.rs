use agentmail::clock::{
    instant_is_after, now_plus_seconds_rfc3339, seconds_after, timestamp_is_future,
};
use agentmail::model::{MailMessage, MessageFlags, SyncState, SyncStateKind};
use agentmail::refresh::{
    indexed_after_upsert, placeholder_lookup, stored_message_id, uid_row_lookup, upsert_write,
    UpsertWrite,
};
use agentmail::sync::{resume_sync, ResumeSync};
use agentmail::sync_state::backoff_error_now;
use agentmail::errors::ApiError;

fn fetched(uid: Option<&str>, header: Option<&str>, deleted: bool) -> MailMessage {
    MailMessage {
        id: "acct:acct:inbox:7".to_string(),
        account_id: "acct".to_string(),
        folder_id: "acct:inbox".to_string(),
        uid: uid.map(|u| u.to_string()),
        message_id_header: header.map(|h| h.to_string()),
        subject: String::new(),
        sender: String::new(),
        recipients: Vec::new(),
        cc: Vec::new(),
        received_at: "t".to_string(),
        body_preview: String::new(),
        body: None,
        html_body: None,
        raw_mime: None,
        inline_resources: Vec::new(),
        attachments: Vec::new(),
        flags: MessageFlags { is_read: false, is_starred: false, is_answered: false, is_forwarded: false },
        size_bytes: None,
        deleted_at: if deleted { Some("t".to_string()) } else { None },
    }
}

#[test]
fn placeholders_are_looked_up_only_with_uid_and_header() {
    assert_eq!(placeholder_lookup(&fetched(Some("7"), Some("<a@x>"), false)).as_deref(), Some("<a@x>"));
    assert_eq!(placeholder_lookup(&fetched(None, Some("<a@x>"), false)), None);
    assert_eq!(placeholder_lookup(&fetched(Some("7"), None, false)), None);
}

#[test]
fn refreshed_message_lands_in_one_row() {
    let m = fetched(Some("7"), Some("<a@x>"), false);
    assert_eq!(
        upsert_write(&m, Some("local-1".to_string())),
        UpsertWrite::UpdatePlaceholder { id: "local-1".to_string(), duplicate_uid: Some("7".to_string()) }
    );
    assert_eq!(upsert_write(&m, None), UpsertWrite::InsertOrUpdateByUid);
    assert_eq!(uid_row_lookup(&m).as_deref(), Some("7"));
    assert_eq!(uid_row_lookup(&fetched(None, None, false)), None);
    assert_eq!(stored_message_id(&m, Some("local-1".to_string()), Some("row".to_string())), "local-1");
    assert_eq!(stored_message_id(&m, None, Some("row".to_string())), "row");
    assert_eq!(stored_message_id(&m, None, None), "acct:acct:inbox:7");
    assert!(indexed_after_upsert(&m));
    assert!(!indexed_after_upsert(&fetched(Some("7"), None, true)));
}

#[test]
fn instants_and_waits() {
    assert!(instant_is_after(Some(5), 4));
    assert!(!instant_is_after(Some(4), 4));
    assert!(!instant_is_after(None, 4));
    assert_eq!(seconds_after(100, 60), 160);
    assert_eq!(seconds_after(100, -5), 100);
    assert!(timestamp_is_future("9999-01-01T00:00:00Z"));
    assert!(!timestamp_is_future("2000-01-01T00:00:00Z"));
    assert!(!timestamp_is_future("not a time"));
    let later = now_plus_seconds_rfc3339(3600);
    assert_eq!(later.len(), 20);
    assert!(later.ends_with('Z'));
    assert!(timestamp_is_future(&later));
}

fn backoff(until: &str) -> Option<SyncState> {
    Some(SyncState {
        account_id: "acct".to_string(),
        folder_id: None,
        state: SyncStateKind::Backoff,
        last_uid: None,
        last_synced_at: None,
        error_message: Some("fetch failed".to_string()),
        backoff_until: Some(until.to_string()),
        failure_count: 1,
    })
}

#[test]
fn failed_run_refuses_the_next_until_its_backoff_ends() {
    match backoff_error_now("acct".to_string(), &backoff("9999-01-01T00:00:00Z")) {
        Some(ApiError::SyncBackoff { account_id, backoff_until }) => {
            assert_eq!(account_id, "acct");
            assert_eq!(backoff_until, "9999-01-01T00:00:00Z");
        }
        other => panic!("unexpected {other:?}"),
    }
    assert!(backoff_error_now("acct".to_string(), &backoff("2000-01-01T00:00:00Z")).is_none());
    assert!(backoff_error_now("acct".to_string(), &backoff("soon")).is_none());
    assert!(backoff_error_now("acct".to_string(), &None).is_none());
}

#[test]
fn foreground_resume_syncs_selected_or_all() {
    assert_eq!(resume_sync(Some("a".to_string()), true), ResumeSync::Account("a".to_string()));
    assert_eq!(resume_sync(Some("a".to_string()), false), ResumeSync::Nothing);
    assert_eq!(resume_sync(None, false), ResumeSync::AllEnabled);
}
