use agentmail::account::SyncSummary;
use agentmail::errors::{ApiError, ProtocolError};
use agentmail::model::FolderWatchOutcome;
use agentmail::watch::{
    diagnostic, sync_error_is_retryable, sync_event_for_summary, watch_plan_message,
    watch_start_after_check, watch_step, WatchEvent, WatchPhase, WatchStage, WatchStartDecision,
};

fn summary() -> SyncSummary {
    SyncSummary {
        account_id: "acct".to_string(),
        folders: 3,
        messages: 7,
        last_uid: None,
        synced_at: "now".to_string(),
    }
}

#[test]
fn watcher_waits_after_a_check_and_stops_when_sync_is_off() {
    let step = watch_step(WatchPhase::CheckBeforeIdle, WatchEvent::SyncCheck(Ok(true)));
    assert_eq!(step.next, WatchPhase::Idling);
    assert_eq!(step.stage.map(|s| s.name()), Some("watch_idle_begin"));
    assert!(!step.remove_watcher);

    let step = watch_step(WatchPhase::CheckBeforeIdle, WatchEvent::SyncCheck(Ok(false)));
    assert_eq!(step.next, WatchPhase::Stopped);
    assert_eq!(step.stage, Some(WatchStage::StopSyncDisabled));
    assert!(step.remove_watcher);

    let step = watch_step(
        WatchPhase::CheckBeforeIdle,
        WatchEvent::SyncCheck(Err("db locked".to_string())),
    );
    assert_eq!(step.stage.map(|s| s.name()), Some("watch_stop_sync_check_failed"));
    assert_eq!(step.message.as_deref(), Some("db locked"));
}

#[test]
fn watch_folder_changed_leads_to_a_sync() {
    let step = watch_step(
        WatchPhase::Idling,
        WatchEvent::IdleEnded(Ok(FolderWatchOutcome::Changed)),
    );
    assert_eq!(step.next, WatchPhase::CheckAfterChange);
    assert_eq!(step.stage, Some(WatchStage::IdleChanged));
    let step = watch_step(WatchPhase::CheckAfterChange, WatchEvent::SyncCheck(Ok(true)));
    assert_eq!(step.next, WatchPhase::CheckBeforeSync);
    assert_eq!(step.stage, None);
    let step = watch_step(WatchPhase::CheckBeforeSync, WatchEvent::SyncCheck(Ok(true)));
    assert_eq!(step.next, WatchPhase::Syncing);
    assert_eq!(step.stage, Some(WatchStage::SyncBegin));
    let step = watch_step(WatchPhase::Syncing, WatchEvent::SyncEnded(Ok(summary())));
    assert_eq!(step.next, WatchPhase::CheckBeforeIdle);
    assert_eq!(step.message.as_deref(), Some("3 folders / 7 messages"));
    assert_eq!(step.sync_event_message.as_deref(), Some("3 folders / 7 messages"));
}

#[test]
fn timeouts_and_errors_go_back_to_checking() {
    let step = watch_step(
        WatchPhase::Idling,
        WatchEvent::IdleEnded(Ok(FolderWatchOutcome::Timeout)),
    );
    assert_eq!(step.next, WatchPhase::CheckBeforeIdle);
    assert!(!step.wait_retry_delay);
    let step = watch_step(WatchPhase::Idling, WatchEvent::IdleEnded(Err("idle unavailable".to_string())));
    assert_eq!(step.next, WatchPhase::CheckBeforeIdle);
    assert_eq!(step.stage.map(|s| s.name()), Some("watch_idle_error"));
    assert!(step.wait_retry_delay);
}

#[test]
fn failed_syncs_retry_or_stop_by_kind() {
    let busy = ApiError::SyncAlreadyRunning("acct".to_string());
    assert!(sync_error_is_retryable(&busy));
    let step = watch_step(WatchPhase::Syncing, WatchEvent::SyncEnded(Err(busy)));
    assert_eq!(step.next, WatchPhase::CheckBeforeSync);
    assert_eq!(step.message.as_deref(), Some("sync already running for account: acct"));
    assert!(step.wait_retry_delay);

    let bad = ApiError::InvalidRequest("nope".to_string());
    assert!(!sync_error_is_retryable(&bad));
    let step = watch_step(WatchPhase::Syncing, WatchEvent::SyncEnded(Err(bad)));
    assert_eq!(step.next, WatchPhase::CheckBeforeIdle);
    assert_eq!(step.stage.map(|s| s.name()), Some("watch_sync_stop"));
    assert!(!step.wait_retry_delay);
    assert!(sync_error_is_retryable(&ApiError::Protocol(ProtocolError::Fetch("x".to_string()))));
    assert!(sync_error_is_retryable(&ApiError::Store("x".to_string())));
}

#[test]
fn unexpected_events_stop_the_watcher() {
    let step = watch_step(WatchPhase::Idling, WatchEvent::SyncCheck(Ok(true)));
    assert_eq!(step.next, WatchPhase::Stopped);
    assert!(step.remove_watcher);
    let step = watch_step(WatchPhase::Stopped, WatchEvent::SyncCheck(Ok(true)));
    assert_eq!(step.next, WatchPhase::Stopped);
}

#[test]
fn starting_watchers_depends_on_the_sync_check() {
    assert!(matches!(watch_start_after_check(Ok(true)), WatchStartDecision::ListFolders));
    assert!(matches!(
        watch_start_after_check(Ok(false)),
        WatchStartDecision::Skip { stage: WatchStage::StartSkippedSyncDisabled }
    ));
    match watch_start_after_check(Err("x".to_string())) {
        WatchStartDecision::Fail { stage, message } => {
            assert_eq!(stage.name(), "watch_start_sync_check_failed");
            assert_eq!(message, "x");
        }
        _ => panic!("expected failure"),
    }
    assert_eq!(watch_plan_message(5), "5 folders");
    let d = diagnostic("acct", Some("acct:inbox"), WatchStage::SpawnRequested, None);
    assert_eq!(d.stage, "watch_spawn_requested");
    assert_eq!(d.folder_id.as_deref(), Some("acct:inbox"));
    let e = sync_event_for_summary(&summary(), None, "manual_sync");
    assert_eq!(e.message.as_deref(), Some("3 folders / 7 messages"));
    assert_eq!(e.reason, "manual_sync");
}
