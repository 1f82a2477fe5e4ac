//! The decisions of a folder watcher: a state machine that the application
//! drives. The application performs what the current phase asks (a check
//! whether the account still synchronises, an IDLE wait, or a folder sync),
//! hands the outcome back as an event, and carries out the step: the
//! diagnostic to emit, the watcher to drop, the delay to wait.
use vstd::prelude::*;
use crate::account::SyncSummary;
use crate::decimal::{decimal, format_usize};
use crate::errors::{ApiError, spec_api_error_message};
use crate::model::FolderWatchOutcome;
use crate::sync_state::{spec_summary_message, summary_message};
use crate::text::{concat2, copy_string};

verus! {

/// The name of the event that reports synchronised mail.
pub const MAIL_SYNC_EVENT: &'static str = "agentmail-mail-sync";

/// The name of the event that reports what a watcher does.
pub const WATCH_DIAGNOSTIC_EVENT: &'static str = "agentmail-watch-diagnostic";

/// How many seconds a watcher waits after an error before it goes on.
pub const WATCHER_RETRY_DELAY_SECS: u64 = 30;

/// How many seconds pass between two background synchronisations.
pub const CONSISTENCY_SYNC_INTERVAL_SECS: u64 = 120;

/// What the user interface is told when mail was synchronised.
#[derive(Debug, Clone, PartialEq, Eq)]
pub struct MailSyncEventPayload {
    pub account_id: String,
    pub folder_id: Option<String>,
    pub reason: &'static str,
    pub message: Option<String>,
}

/// What the user interface is told about a watcher.
#[derive(Debug, Clone, PartialEq, Eq)]
pub struct WatchDiagnosticEventPayload {
    pub account_id: String,
    pub folder_id: Option<String>,
    pub stage: &'static str,
    pub message: Option<String>,
}

/// The stages a watcher reports.
#[derive(Debug, Clone, Copy, PartialEq, Eq, Structural)]
pub enum WatchStage {
    StartRequested,
    StartSyncCheckFailed,
    StartSkippedSyncDisabled,
    StartListFoldersFailed,
    Plan,
    SpawnRequested,
    AlreadyActive,
    LoopStarted,
    StopSyncDisabled,
    StopSyncCheckFailed,
    IdleBegin,
    IdleChanged,
    SkipSyncDisabled,
    SkipSyncCheckFailed,
    IdleTimeout,
    IdleError,
    SyncStopDisabled,
    SyncStopCheckFailed,
    SyncBegin,
    SyncComplete,
    SyncRetry,
    SyncStop,
}

/// The name a stage is reported under.
pub open spec fn spec_stage_name(s: WatchStage) -> Seq<char> {
    match s {
        WatchStage::StartRequested => "watch_start_requested"@,
        WatchStage::StartSyncCheckFailed => "watch_start_sync_check_failed"@,
        WatchStage::StartSkippedSyncDisabled => "watch_start_skipped_sync_disabled"@,
        WatchStage::StartListFoldersFailed => "watch_start_list_folders_failed"@,
        WatchStage::Plan => "watch_plan"@,
        WatchStage::SpawnRequested => "watch_spawn_requested"@,
        WatchStage::AlreadyActive => "watch_already_active"@,
        WatchStage::LoopStarted => "watch_loop_started"@,
        WatchStage::StopSyncDisabled => "watch_stop_sync_disabled"@,
        WatchStage::StopSyncCheckFailed => "watch_stop_sync_check_failed"@,
        WatchStage::IdleBegin => "watch_idle_begin"@,
        WatchStage::IdleChanged => "watch_idle_changed"@,
        WatchStage::SkipSyncDisabled => "watch_skip_sync_disabled"@,
        WatchStage::SkipSyncCheckFailed => "watch_skip_sync_check_failed"@,
        WatchStage::IdleTimeout => "watch_idle_timeout"@,
        WatchStage::IdleError => "watch_idle_error"@,
        WatchStage::SyncStopDisabled => "watch_sync_stop_disabled"@,
        WatchStage::SyncStopCheckFailed => "watch_sync_stop_check_failed"@,
        WatchStage::SyncBegin => "watch_sync_begin"@,
        WatchStage::SyncComplete => "watch_sync_complete"@,
        WatchStage::SyncRetry => "watch_sync_retry"@,
        WatchStage::SyncStop => "watch_sync_stop"@,
    }
}

impl WatchStage {
    /// The name this stage is reported under.
    pub fn name(&self) -> (r: &'static str)
        ensures
            r@ == spec_stage_name(*self),
    {
        match self {
            WatchStage::StartRequested => "watch_start_requested",
            WatchStage::StartSyncCheckFailed => "watch_start_sync_check_failed",
            WatchStage::StartSkippedSyncDisabled => "watch_start_skipped_sync_disabled",
            WatchStage::StartListFoldersFailed => "watch_start_list_folders_failed",
            WatchStage::Plan => "watch_plan",
            WatchStage::SpawnRequested => "watch_spawn_requested",
            WatchStage::AlreadyActive => "watch_already_active",
            WatchStage::LoopStarted => "watch_loop_started",
            WatchStage::StopSyncDisabled => "watch_stop_sync_disabled",
            WatchStage::StopSyncCheckFailed => "watch_stop_sync_check_failed",
            WatchStage::IdleBegin => "watch_idle_begin",
            WatchStage::IdleChanged => "watch_idle_changed",
            WatchStage::SkipSyncDisabled => "watch_skip_sync_disabled",
            WatchStage::SkipSyncCheckFailed => "watch_skip_sync_check_failed",
            WatchStage::IdleTimeout => "watch_idle_timeout",
            WatchStage::IdleError => "watch_idle_error",
            WatchStage::SyncStopDisabled => "watch_sync_stop_disabled",
            WatchStage::SyncStopCheckFailed => "watch_sync_stop_check_failed",
            WatchStage::SyncBegin => "watch_sync_begin",
            WatchStage::SyncComplete => "watch_sync_complete",
            WatchStage::SyncRetry => "watch_sync_retry",
            WatchStage::SyncStop => "watch_sync_stop",
        }
    }
}

/// A diagnostic about a folder's watcher (or the account's, without folder).
pub fn diagnostic(
    account_id: &str,
    folder_id: Option<&str>,
    stage: WatchStage,
    message: Option<String>,
) -> (r: WatchDiagnosticEventPayload)
    ensures
        r.account_id@ == account_id@,
        match folder_id {
            Some(f) => r.folder_id matches Some(x) && x@ == f@,
            None => r.folder_id is None,
        },
        r.stage@ == spec_stage_name(stage),
        r.message == message,
{
    WatchDiagnosticEventPayload {
        account_id: account_id.to_owned(),
        folder_id: match folder_id {
            Some(f) => Some(f.to_owned()),
            None => None,
        },
        stage: stage.name(),
        message,
    }
}

// ---------------------------------------------------------------------------
// Starting the watchers of an account
// ---------------------------------------------------------------------------

/// What starting an account's watchers does after asking whether the account
/// synchronises: stop with an error, stop quietly, or go on to its folders.
#[derive(Debug)]
pub enum WatchStartDecision {
    Fail { stage: WatchStage, message: String },
    Skip { stage: WatchStage },
    ListFolders,
}

/// Decides how starting an account's watchers goes on after the check.
pub fn watch_start_after_check(check: Result<bool, String>) -> (r: WatchStartDecision)
    ensures
        match check {
            Err(m) => r matches WatchStartDecision::Fail { stage, message } && stage
                == WatchStage::StartSyncCheckFailed && message == m,
            Ok(false) => r matches WatchStartDecision::Skip { stage } && stage
                == WatchStage::StartSkippedSyncDisabled,
            Ok(true) => r is ListFolders,
        },
{
    match check {
        Err(m) => WatchStartDecision::Fail { stage: WatchStage::StartSyncCheckFailed, message: m },
        Ok(false) => WatchStartDecision::Skip { stage: WatchStage::StartSkippedSyncDisabled },
        Ok(true) => WatchStartDecision::ListFolders,
    }
}

/// The message of the plan: `{n} folders`.
pub fn watch_plan_message(folder_count: usize) -> (r: String)
    ensures
        r@ == decimal(folder_count as nat) + " folders"@,
{
    let mut s = format_usize(folder_count);
    s.append(" folders");
    s
}

// ---------------------------------------------------------------------------
// The loop of one folder's watcher
// ---------------------------------------------------------------------------

/// Where a folder watcher stands, and so what it asks for next.
#[derive(Debug, Clone, Copy, PartialEq, Eq, Structural)]
pub enum WatchPhase {
    /// Asks whether the account still synchronises before waiting.
    CheckBeforeIdle,
    /// Waits (IMAP IDLE) for the folder to change.
    Idling,
    /// Asks whether the account still synchronises after a change.
    CheckAfterChange,
    /// Asks whether the account still synchronises before a folder sync.
    CheckBeforeSync,
    /// Synchronises the folder.
    Syncing,
    /// Has ended.
    Stopped,
}

/// What the watcher learned from what its phase asked for.
#[derive(Debug)]
pub enum WatchEvent {
    /// Whether the account synchronises, or why that could not be read.
    SyncCheck(Result<bool, String>),
    /// How the wait for a change ended.
    IdleEnded(Result<FolderWatchOutcome, String>),
    /// How the folder sync ended.
    SyncEnded(Result<SyncSummary, ApiError>),
}

/// What the watcher does on one step.
#[derive(Debug)]
pub struct WatchStep {
    /// The phase to be in afterwards.
    pub next: WatchPhase,
    /// The diagnostic stage to report, if any, with its message.
    pub stage: Option<WatchStage>,
    pub message: Option<String>,
    /// The message of a mail sync event to report, if any.
    pub sync_event_message: Option<String>,
    /// Whether the watcher gives up its place in the registry.
    pub remove_watcher: bool,
    /// Whether to wait the retry delay before the next phase.
    pub wait_retry_delay: bool,
}

/// Whether a failed folder sync is worth another try: the run was busy, in
/// backoff, or the server or database failed; a bad request or anything else
/// ends the sync.
pub open spec fn spec_sync_error_is_retryable(e: ApiError) -> bool {
    match e {
        ApiError::SyncAlreadyRunning(_) | ApiError::SyncBackoff { .. } | ApiError::Protocol(_)
        | ApiError::Store(_) => true,
        _ => false,
    }
}

/// A folder sync that failed for a running sync, a backoff, the server or
/// the store is worth another try; a refused request, a required
/// confirmation or an error of the AI service is not.
pub proof fn lemma_retryable_errors(e: ApiError)
    ensures
        spec_sync_error_is_retryable(e) <==> (e is SyncAlreadyRunning || e is SyncBackoff || e is Protocol
            || e is Store),
        e is InvalidRequest || e is ConfirmationRequired || e is AiRemote ==> !spec_sync_error_is_retryable(e),
{
}

/// Whether a failed folder sync is worth another try.
pub fn sync_error_is_retryable(e: &ApiError) -> (r: bool)
    ensures
        r == spec_sync_error_is_retryable(*e),
{
    match e {
        ApiError::SyncAlreadyRunning(_) | ApiError::SyncBackoff { .. } | ApiError::Protocol(_)
        | ApiError::Store(_) => true,
        _ => false,
    }
}

/// The phase a watcher goes to, the stage it reports, and whether it drops
/// out of the registry, for an event in a phase. An event that a phase does
/// not ask for stops the watcher.
pub open spec fn spec_watch_transition(phase: WatchPhase, event: WatchEvent) -> (
    WatchPhase,
    Option<WatchStage>,
    bool,
) {
    match (phase, event) {
        (WatchPhase::CheckBeforeIdle, WatchEvent::SyncCheck(Ok(true))) => (
            WatchPhase::Idling,
            Some(WatchStage::IdleBegin),
            false,
        ),
        (WatchPhase::CheckBeforeIdle, WatchEvent::SyncCheck(Ok(false))) => (
            WatchPhase::Stopped,
            Some(WatchStage::StopSyncDisabled),
            true,
        ),
        (WatchPhase::CheckBeforeIdle, WatchEvent::SyncCheck(Err(_))) => (
            WatchPhase::Stopped,
            Some(WatchStage::StopSyncCheckFailed),
            true,
        ),
        (WatchPhase::Idling, WatchEvent::IdleEnded(Ok(FolderWatchOutcome::Changed))) => (
            WatchPhase::CheckAfterChange,
            Some(WatchStage::IdleChanged),
            false,
        ),
        (WatchPhase::Idling, WatchEvent::IdleEnded(Ok(FolderWatchOutcome::Timeout))) => (
            WatchPhase::CheckBeforeIdle,
            Some(WatchStage::IdleTimeout),
            false,
        ),
        (WatchPhase::Idling, WatchEvent::IdleEnded(Err(_))) => (
            WatchPhase::CheckBeforeIdle,
            Some(WatchStage::IdleError),
            false,
        ),
        (WatchPhase::CheckAfterChange, WatchEvent::SyncCheck(Ok(true))) => (
            WatchPhase::CheckBeforeSync,
            None,
            false,
        ),
        (WatchPhase::CheckAfterChange, WatchEvent::SyncCheck(Ok(false))) => (
            WatchPhase::Stopped,
            Some(WatchStage::SkipSyncDisabled),
            true,
        ),
        (WatchPhase::CheckAfterChange, WatchEvent::SyncCheck(Err(_))) => (
            WatchPhase::Stopped,
            Some(WatchStage::SkipSyncCheckFailed),
            true,
        ),
        (WatchPhase::CheckBeforeSync, WatchEvent::SyncCheck(Ok(true))) => (
            WatchPhase::Syncing,
            Some(WatchStage::SyncBegin),
            false,
        ),
        (WatchPhase::CheckBeforeSync, WatchEvent::SyncCheck(Ok(false))) => (
            WatchPhase::CheckBeforeIdle,
            Some(WatchStage::SyncStopDisabled),
            false,
        ),
        (WatchPhase::CheckBeforeSync, WatchEvent::SyncCheck(Err(_))) => (
            WatchPhase::CheckBeforeIdle,
            Some(WatchStage::SyncStopCheckFailed),
            false,
        ),
        (WatchPhase::Syncing, WatchEvent::SyncEnded(Ok(_))) => (
            WatchPhase::CheckBeforeIdle,
            Some(WatchStage::SyncComplete),
            false,
        ),
        (WatchPhase::Syncing, WatchEvent::SyncEnded(Err(e))) => if spec_sync_error_is_retryable(e) {
            (WatchPhase::CheckBeforeSync, Some(WatchStage::SyncRetry), false)
        } else {
            (WatchPhase::CheckBeforeIdle, Some(WatchStage::SyncStop), false)
        },
        _ => (WatchPhase::Stopped, None, true),
    }
}

/// The text that goes with an event's stage: the error's text for a failure,
/// the summary for a completed sync, nothing otherwise.
pub open spec fn spec_watch_message(event: WatchEvent) -> Option<Seq<char>> {
    match event {
        WatchEvent::SyncCheck(Err(m)) => Some(m@),
        WatchEvent::IdleEnded(Err(m)) => Some(m@),
        WatchEvent::SyncEnded(Ok(s)) => Some(spec_summary_message(s.folders, s.messages)),
        WatchEvent::SyncEnded(Err(e)) => Some(spec_api_error_message(e)),
        _ => None,
    }
}

/// One step of a folder watcher: where it goes for an event in a phase, what
/// it reports, and what it does on the way. A completed sync is also
/// reported as a mail sync event; an IDLE error and a retried sync wait the
/// retry delay first.
pub fn watch_step(phase: WatchPhase, event: WatchEvent) -> (r: WatchStep)
    ensures
        (r.next, r.stage, r.remove_watcher) == spec_watch_transition(phase, event),
        r.stage is Some ==> match (r.message, spec_watch_message(event)) {
            (Some(m), Some(x)) => m@ == x,
            (None, None) => true,
            _ => false,
        },
        r.stage is None ==> r.message is None,
        match (phase, event) {
            (WatchPhase::Syncing, WatchEvent::SyncEnded(Ok(s))) => r.sync_event_message matches Some(
                m,
            ) && m@ == spec_summary_message(s.folders, s.messages),
            _ => r.sync_event_message is None,
        },
        r.wait_retry_delay == match (phase, event) {
            (WatchPhase::Idling, WatchEvent::IdleEnded(Err(_))) => true,
            (WatchPhase::Syncing, WatchEvent::SyncEnded(Err(e))) => spec_sync_error_is_retryable(e),
            _ => false,
        },
{
    let stop = WatchStep {
        next: WatchPhase::Stopped,
        stage: None,
        message: None,
        sync_event_message: None,
        remove_watcher: true,
        wait_retry_delay: false,
    };
    match phase {
        WatchPhase::CheckBeforeIdle => match event {
            WatchEvent::SyncCheck(Ok(true)) => step(WatchPhase::Idling, WatchStage::IdleBegin, None),
            WatchEvent::SyncCheck(Ok(false)) => WatchStep {
                next: WatchPhase::Stopped,
                stage: Some(WatchStage::StopSyncDisabled),
                message: None,
                sync_event_message: None,
                remove_watcher: true,
                wait_retry_delay: false,
            },
            WatchEvent::SyncCheck(Err(m)) => WatchStep {
                next: WatchPhase::Stopped,
                stage: Some(WatchStage::StopSyncCheckFailed),
                message: Some(m),
                sync_event_message: None,
                remove_watcher: true,
                wait_retry_delay: false,
            },
            _ => stop,
        },
        WatchPhase::Idling => match event {
            WatchEvent::IdleEnded(Ok(FolderWatchOutcome::Changed)) => step(
                WatchPhase::CheckAfterChange,
                WatchStage::IdleChanged,
                None,
            ),
            WatchEvent::IdleEnded(Ok(FolderWatchOutcome::Timeout)) => step(
                WatchPhase::CheckBeforeIdle,
                WatchStage::IdleTimeout,
                None,
            ),
            WatchEvent::IdleEnded(Err(m)) => WatchStep {
                next: WatchPhase::CheckBeforeIdle,
                stage: Some(WatchStage::IdleError),
                message: Some(m),
                sync_event_message: None,
                remove_watcher: false,
                wait_retry_delay: true,
            },
            _ => stop,
        },
        WatchPhase::CheckAfterChange => match event {
            WatchEvent::SyncCheck(Ok(true)) => WatchStep {
                next: WatchPhase::CheckBeforeSync,
                stage: None,
                message: None,
                sync_event_message: None,
                remove_watcher: false,
                wait_retry_delay: false,
            },
            WatchEvent::SyncCheck(Ok(false)) => WatchStep {
                next: WatchPhase::Stopped,
                stage: Some(WatchStage::SkipSyncDisabled),
                message: None,
                sync_event_message: None,
                remove_watcher: true,
                wait_retry_delay: false,
            },
            WatchEvent::SyncCheck(Err(m)) => WatchStep {
                next: WatchPhase::Stopped,
                stage: Some(WatchStage::SkipSyncCheckFailed),
                message: Some(m),
                sync_event_message: None,
                remove_watcher: true,
                wait_retry_delay: false,
            },
            _ => stop,
        },
        WatchPhase::CheckBeforeSync => match event {
            WatchEvent::SyncCheck(Ok(true)) => step(WatchPhase::Syncing, WatchStage::SyncBegin, None),
            WatchEvent::SyncCheck(Ok(false)) => step(
                WatchPhase::CheckBeforeIdle,
                WatchStage::SyncStopDisabled,
                None,
            ),
            WatchEvent::SyncCheck(Err(m)) => step(
                WatchPhase::CheckBeforeIdle,
                WatchStage::SyncStopCheckFailed,
                Some(m),
            ),
            _ => stop,
        },
        WatchPhase::Syncing => match event {
            WatchEvent::SyncEnded(Ok(summary)) => {
                let m = summary_message(&summary);
                let m2 = copy_string(&m);
                WatchStep {
                    next: WatchPhase::CheckBeforeIdle,
                    stage: Some(WatchStage::SyncComplete),
                    message: Some(m),
                    sync_event_message: Some(m2),
                    remove_watcher: false,
                    wait_retry_delay: false,
                }
            },
            WatchEvent::SyncEnded(Err(e)) => {
                let m = e.message();
                if sync_error_is_retryable(&e) {
                    WatchStep {
                        next: WatchPhase::CheckBeforeSync,
                        stage: Some(WatchStage::SyncRetry),
                        message: Some(m),
                        sync_event_message: None,
                        remove_watcher: false,
                        wait_retry_delay: true,
                    }
                } else {
                    step(WatchPhase::CheckBeforeIdle, WatchStage::SyncStop, Some(m))
                }
            },
            _ => stop,
        },
        WatchPhase::Stopped => stop,
    }
}

/// A step that reports `stage` and goes to `next`, doing nothing else.
fn step(next: WatchPhase, stage: WatchStage, message: Option<String>) -> (r: WatchStep)
    ensures
        r.next == next,
        r.stage == Some(stage),
        r.message == message,
        r.sync_event_message is None,
        !r.remove_watcher,
        !r.wait_retry_delay,
{
    WatchStep {
        next,
        stage: Some(stage),
        message,
        sync_event_message: None,
        remove_watcher: false,
        wait_retry_delay: false,
    }
}

/// The watcher's cycle: while the account synchronises it waits for a
/// change; a change leads, through two checks, to a folder sync; a timeout
/// or a failed wait goes back to checking before the next wait, as does a
/// finished sync; a failed sync is retried when the failure is worth another
/// try and otherwise given up until the next change; an account that stops
/// synchronising before a sync skips that sync without stopping the watcher.
pub proof fn lemma_watch_cycle(summary: SyncSummary, e: ApiError, m: String)
    ensures
        spec_watch_transition(WatchPhase::CheckBeforeIdle, WatchEvent::SyncCheck(Ok(true))).0
            == WatchPhase::Idling,
        spec_watch_transition(WatchPhase::Idling, WatchEvent::IdleEnded(Ok(FolderWatchOutcome::Changed))).0
            == WatchPhase::CheckAfterChange,
        spec_watch_transition(WatchPhase::CheckAfterChange, WatchEvent::SyncCheck(Ok(true))).0
            == WatchPhase::CheckBeforeSync,
        spec_watch_transition(WatchPhase::CheckBeforeSync, WatchEvent::SyncCheck(Ok(true))).0
            == WatchPhase::Syncing,
        spec_watch_transition(WatchPhase::Idling, WatchEvent::IdleEnded(Ok(FolderWatchOutcome::Timeout))).0
            == WatchPhase::CheckBeforeIdle,
        spec_watch_transition(WatchPhase::Idling, WatchEvent::IdleEnded(Err(m))).0
            == WatchPhase::CheckBeforeIdle,
        spec_watch_transition(WatchPhase::Syncing, WatchEvent::SyncEnded(Ok(summary))).0
            == WatchPhase::CheckBeforeIdle,
        spec_sync_error_is_retryable(e) ==> spec_watch_transition(
            WatchPhase::Syncing,
            WatchEvent::SyncEnded(Err(e)),
        ).0 == WatchPhase::CheckBeforeSync,
        !spec_sync_error_is_retryable(e) ==> spec_watch_transition(
            WatchPhase::Syncing,
            WatchEvent::SyncEnded(Err(e)),
        ).0 == WatchPhase::CheckBeforeIdle,
        spec_watch_transition(WatchPhase::CheckBeforeSync, WatchEvent::SyncCheck(Ok(false))).0
            == WatchPhase::CheckBeforeIdle,
        !spec_watch_transition(WatchPhase::CheckBeforeSync, WatchEvent::SyncCheck(Ok(false))).2,
{
}

/// A watcher that has stopped stays stopped, whatever happens.
pub proof fn lemma_stopped_is_final(event: WatchEvent)
    ensures
        spec_watch_transition(WatchPhase::Stopped, event).0 == WatchPhase::Stopped,
{
}

/// A watcher leaves the registry exactly when it stops.
pub proof fn lemma_removed_iff_stopped(phase: WatchPhase, event: WatchEvent)
    requires
        phase != WatchPhase::Stopped,
    ensures
        spec_watch_transition(phase, event).2 <==> spec_watch_transition(phase, event).0
            == WatchPhase::Stopped,
{
}

/// An account that no longer synchronises stops its watcher at the next
/// check before waiting or after a change.
pub proof fn lemma_disabled_account_stops(phase: WatchPhase)
    requires
        phase == WatchPhase::CheckBeforeIdle || phase == WatchPhase::CheckAfterChange,
    ensures
        spec_watch_transition(phase, WatchEvent::SyncCheck(Ok(false))).0 == WatchPhase::Stopped,
        spec_watch_transition(phase, WatchEvent::SyncCheck(Ok(false))).2,
{
}

// ---------------------------------------------------------------------------
// The sync service's reports
// ---------------------------------------------------------------------------

/// The mail sync event for a completed run.
pub fn sync_event_for_summary(
    summary: &SyncSummary,
    folder_id: Option<String>,
    reason: &'static str,
) -> (r: MailSyncEventPayload)
    ensures
        r.account_id@ == summary.account_id@,
        r.folder_id == folder_id,
        r.reason == reason,
        r.message matches Some(m) && m@ == spec_summary_message(summary.folders, summary.messages),
{
    MailSyncEventPayload {
        account_id: copy_string(&summary.account_id),
        folder_id,
        reason,
        message: Some(summary_message(summary)),
    }
}

/// The error text of a sync the service could not start: it was running.
pub fn sync_already_running_message(account_id: &str) -> (r: String)
    ensures
        r@ == "sync already running: "@ + account_id@,
{
    concat2("sync already running: ", account_id)
}

} // verus!
