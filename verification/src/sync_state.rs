//! How the synchronisation state of an account or folder moves: starting a
//! run, succeeding, failing into backoff, watching, and what one account
//! run adds up to over its folders.
use vstd::prelude::*;
use crate::account::SyncSummary;
use crate::clock::{rfc3339_unix_nanos, timestamp_is_future};
use crate::decimal::{decimal, format_u32};
use crate::errors::ApiError;
use crate::model::{MailMessage, SyncState, SyncStateKind};
use crate::text::{concat2, copy_opt_string, copy_string, opt_view, owned};

verus! {

/// A previous state keeps a new run from starting: it is in backoff, names
/// the time the backoff ends, and (as the caller found) that time lies ahead.
pub open spec fn spec_backoff_blocks(previous: Option<SyncState>, until_in_future: bool) -> bool {
    previous matches Some(s) && s.state == SyncStateKind::Backoff && s.backoff_until is Some
        && until_in_future
}

/// Whether the previous state's backoff end, read as RFC 3339, lies after
/// `now` (nanoseconds since the epoch); an end that does not read does not.
pub open spec fn backoff_ahead(previous: Option<SyncState>, now: int) -> bool {
    match previous {
        Some(s) => match s.backoff_until {
            Some(b) => match rfc3339_unix_nanos(b@) {
                Some(t) => t > now,
                None => false,
            },
            None => false,
        },
        None => false,
    }
}

/// Whether a run is refused at `now` after the previous state.
pub open spec fn refused_at(previous: Option<SyncState>, now: int) -> bool {
    spec_backoff_blocks(previous, backoff_ahead(previous, now))
}

/// After a failed run, the next run is refused exactly while the backoff end
/// of the state it left lies ahead: a state in backoff with an end time
/// refuses a run at `now` just when that end reads as a time after `now`.
pub proof fn lemma_failed_run_refuses_until(s: SyncState, now: int)
    requires
        s.state == SyncStateKind::Backoff,
        s.backoff_until is Some,
    ensures
        refused_at(Some(s), now) <==> (rfc3339_unix_nanos(s.backoff_until->0@) matches Some(t)
            && t > now),
{
}

/// The error that refuses a run now, while the previous state's backoff
/// lasts: its end time is read as RFC 3339 and compared with the clock.
pub fn backoff_error_now(account_id: String, previous: &Option<SyncState>) -> (r: Option<ApiError>)
    ensures
        r is Some ==> spec_backoff_blocks(*previous, true),
        r is Some ==> rfc3339_unix_nanos(previous->0.backoff_until->0@) is Some,
        r matches Some(e) ==> (e matches ApiError::SyncBackoff { account_id: a, backoff_until: b }
            && a == account_id && b@ == previous->0.backoff_until->0@),
        !spec_backoff_blocks(*previous, true) ==> r is None,
{
    let ahead = match previous {
        Some(s) => match &s.backoff_until {
            Some(until) => timestamp_is_future(until.as_str()),
            None => false,
        },
        None => false,
    };
    backoff_error(account_id, previous, ahead)
}

/// A failed run blocks the next one while its backoff lies ahead: a state in
/// backoff with an end time refuses a run exactly when that time is ahead.
pub proof fn lemma_backoff_state_blocks(s: SyncState, until_in_future: bool)
    requires
        s.state == SyncStateKind::Backoff,
        s.backoff_until is Some,
    ensures
        spec_backoff_blocks(Some(s), until_in_future) == until_in_future,
{
}

/// The error that refuses a run while the previous state's backoff lasts.
/// `until_in_future` says whether the backoff's end time lies ahead.
pub fn backoff_error(account_id: String, previous: &Option<SyncState>, until_in_future: bool) -> (r:
    Option<ApiError>)
    ensures
        r is Some == spec_backoff_blocks(*previous, until_in_future),
        r matches Some(e) ==> (e matches ApiError::SyncBackoff { account_id: a, backoff_until: b }
            && a == account_id && b@ == previous->0.backoff_until->0@),
{
    match previous {
        Some(s) => {
            if s.state == SyncStateKind::Backoff && until_in_future {
                match &s.backoff_until {
                    Some(until) => Some(
                        ApiError::SyncBackoff { account_id, backoff_until: copy_string(until) },
                    ),
                    None => None,
                }
            } else {
                None
            }
        },
        None => None,
    }
}

/// The failure count a previous state carries (none: zero).
pub open spec fn previous_failures(previous: Option<SyncState>) -> u32 {
    match previous {
        Some(s) => s.failure_count,
        None => 0,
    }
}

/// The last UID a previous state carries.
pub open spec fn previous_last_uid(previous: Option<SyncState>) -> Option<Seq<char>> {
    match previous {
        Some(s) => opt_view(s.last_uid),
        None => None,
    }
}

/// `n + 1`, staying at the largest `u32`.
pub open spec fn saturating_inc(n: u32) -> u32 {
    if n == u32::MAX {
        n
    } else {
        (n + 1) as u32
    }
}

fn last_uid_of(previous: &Option<SyncState>) -> (r: Option<String>)
    ensures
        opt_view(r) == previous_last_uid(*previous),
{
    match previous {
        Some(s) => copy_opt_string(&s.last_uid),
        None => None,
    }
}

/// The state of a run that starts: `Syncing`, keeping the last UID and the
/// failure count of the previous state and clearing the rest.
pub fn syncing_state(account_id: &str, folder_id: Option<String>, previous: &Option<SyncState>) -> (r:
    SyncState)
    ensures
        r.account_id@ == account_id@,
        r.folder_id == folder_id,
        r.state == SyncStateKind::Syncing,
        opt_view(r.last_uid) == previous_last_uid(*previous),
        r.last_synced_at is None,
        r.error_message is None,
        r.backoff_until is None,
        r.failure_count == previous_failures(*previous),
{
    SyncState {
        account_id: owned(account_id),
        folder_id,
        state: SyncStateKind::Syncing,
        last_uid: last_uid_of(previous),
        last_synced_at: None,
        error_message: None,
        backoff_until: None,
        failure_count: match previous {
            Some(s) => s.failure_count,
            None => 0,
        },
    }
}

/// The state after a run succeeded at `now`: `Idle`, no failures left.
pub fn idle_state(account_id: &str, folder_id: Option<String>, last_uid: Option<String>, now: String) -> (r:
    SyncState)
    ensures
        r.account_id@ == account_id@,
        r.folder_id == folder_id,
        r.state == SyncStateKind::Idle,
        r.last_uid == last_uid,
        r.last_synced_at == Some(now),
        r.error_message is None,
        r.backoff_until is None,
        r.failure_count == 0,
{
    SyncState {
        account_id: owned(account_id),
        folder_id,
        state: SyncStateKind::Idle,
        last_uid,
        last_synced_at: Some(now),
        error_message: None,
        backoff_until: None,
        failure_count: 0,
    }
}

/// The failure count after one more failure.
pub fn next_failure_count(previous: &Option<SyncState>) -> (r: u32)
    ensures
        r == saturating_inc(previous_failures(*previous)),
{
    let n = match previous {
        Some(s) => s.failure_count,
        None => 0,
    };
    if n == u32::MAX {
        n
    } else {
        n + 1
    }
}

/// The state after a run failed: `Backoff` until `backoff_until`, with the
/// error's text, the given failure count and the last UID kept.
pub fn failed_state(
    account_id: &str,
    folder_id: Option<String>,
    last_uid: Option<String>,
    failure_count: u32,
    error_message: String,
    backoff_until: String,
) -> (r: SyncState)
    ensures
        r.account_id@ == account_id@,
        r.folder_id == folder_id,
        r.state == SyncStateKind::Backoff,
        r.last_uid == last_uid,
        r.last_synced_at is None,
        r.error_message == Some(error_message),
        r.backoff_until == Some(backoff_until),
        r.failure_count == failure_count,
{
    SyncState {
        account_id: owned(account_id),
        folder_id,
        state: SyncStateKind::Backoff,
        last_uid,
        last_synced_at: None,
        error_message: Some(error_message),
        backoff_until: Some(backoff_until),
        failure_count,
    }
}

/// The state of a folder being watched: `Watching`, keeping the last UID,
/// the last sync time and the failure count of the previous state.
pub fn watching_state(account_id: &str, folder_id: &str, previous: &Option<SyncState>) -> (r:
    SyncState)
    ensures
        r.account_id@ == account_id@,
        r.folder_id matches Some(f) && f@ == folder_id@,
        r.state == SyncStateKind::Watching,
        opt_view(r.last_uid) == previous_last_uid(*previous),
        opt_view(r.last_synced_at) == match *previous {
            Some(s) => opt_view(s.last_synced_at),
            None => None,
        },
        r.error_message is None,
        r.backoff_until is None,
        r.failure_count == previous_failures(*previous),
{
    SyncState {
        account_id: owned(account_id),
        folder_id: Some(owned(folder_id)),
        state: SyncStateKind::Watching,
        last_uid: last_uid_of(previous),
        last_synced_at: match previous {
            Some(s) => copy_opt_string(&s.last_synced_at),
            None => None,
        },
        error_message: None,
        backoff_until: None,
        failure_count: match previous {
            Some(s) => s.failure_count,
            None => 0,
        },
    }
}

/// The failure count after watching failed: one more than the current
/// state's, or else the previous state's, or else zero.
pub open spec fn spec_watch_failure_count(current: Option<SyncState>, previous: Option<SyncState>) -> u32 {
    saturating_inc(
        match current {
            Some(c) => c.failure_count,
            None => previous_failures(previous),
        },
    )
}

/// The failure count after watching failed.
pub fn watch_failure_count(current: &Option<SyncState>, previous: &Option<SyncState>) -> (r: u32)
    ensures
        r == spec_watch_failure_count(*current, *previous),
{
    match current {
        Some(_) => next_failure_count(current),
        None => next_failure_count(previous),
    }
}

/// A field of the current state where it has one, else the previous state's.
pub open spec fn current_or_previous(
    current: Option<SyncState>,
    previous: Option<SyncState>,
    field: spec_fn(SyncState) -> Option<String>,
) -> Option<Seq<char>> {
    let c = match current {
        Some(s) => opt_view(field(s)),
        None => None,
    };
    if c is Some {
        c
    } else {
        match previous {
            Some(s) => opt_view(field(s)),
            None => None,
        }
    }
}

fn first_of(a: Option<String>, b: Option<String>) -> (r: Option<String>)
    ensures
        r == if a is Some { a } else { b },
{
    match a {
        Some(x) => Some(x),
        None => b,
    }
}

/// The state after watching a folder failed: `Backoff`, with the last UID
/// and last sync time of the current state (or else the previous one).
pub fn watch_failed_state(
    account_id: String,
    folder_id: String,
    current: &Option<SyncState>,
    previous: &Option<SyncState>,
    failure_count: u32,
    error_message: String,
    backoff_until: String,
) -> (r: SyncState)
    ensures
        r.account_id == account_id,
        r.folder_id == Some(folder_id),
        r.state == SyncStateKind::Backoff,
        opt_view(r.last_uid) == current_or_previous(*current, *previous, |s: SyncState| s.last_uid),
        opt_view(r.last_synced_at) == current_or_previous(
            *current,
            *previous,
            |s: SyncState| s.last_synced_at,
        ),
        r.error_message == Some(error_message),
        r.backoff_until == Some(backoff_until),
        r.failure_count == failure_count,
{
    let cur_uid = match current {
        Some(s) => copy_opt_string(&s.last_uid),
        None => None,
    };
    let prev_uid = last_uid_of(previous);
    let cur_at = match current {
        Some(s) => copy_opt_string(&s.last_synced_at),
        None => None,
    };
    let prev_at = match previous {
        Some(s) => copy_opt_string(&s.last_synced_at),
        None => None,
    };
    SyncState {
        account_id,
        folder_id: Some(folder_id),
        state: SyncStateKind::Backoff,
        last_uid: first_of(cur_uid, prev_uid),
        last_synced_at: first_of(cur_at, prev_at),
        error_message: Some(error_message),
        backoff_until: Some(backoff_until),
        failure_count,
    }
}

// ---------------------------------------------------------------------------
// One account run over its folders
// ---------------------------------------------------------------------------

/// The last UID after a folder's fetched messages, oldest first: the UID of
/// the last message that has one, else `previous`.
pub open spec fn fold_last_uid(previous: Option<Seq<char>>, uids: Seq<Option<Seq<char>>>) -> Option<
    Seq<char>,
>
    decreases uids.len(),
{
    if uids.len() == 0 {
        previous
    } else {
        match uids.last() {
            Some(u) => Some(u),
            None => fold_last_uid(previous, uids.drop_last()),
        }
    }
}

/// The UIDs of messages.
pub open spec fn message_uids(messages: Seq<MailMessage>) -> Seq<Option<Seq<char>>> {
    messages.map_values(|m: MailMessage| opt_view(m.uid))
}

/// The last UID a folder reaches after storing `messages`.
pub fn folder_last_uid(previous: Option<String>, messages: &Vec<MailMessage>) -> (r: Option<String>)
    ensures
        opt_view(r) == fold_last_uid(opt_view(previous), message_uids(messages@)),
{
    let mut cur = previous;
    for i in 0..messages.len()
        invariant
            opt_view(cur) == fold_last_uid(opt_view(previous), message_uids(messages@.take(i as int))),
    {
        assert(message_uids(messages@.take(i + 1)).drop_last() =~= message_uids(
            messages@.take(i as int),
        ));
        assert(message_uids(messages@.take(i + 1)).last() == opt_view(messages@[i as int].uid));
        match &messages[i].uid {
            Some(u) => {
                cur = Some(copy_string(u));
            },
            None => {},
        }
    }
    assert(messages@.take(messages@.len() as int) =~= messages@);
    cur
}

/// What one account run has done so far over its folders.
#[derive(Debug)]
pub struct SyncTally {
    pub attempted: u32,
    pub successful: u32,
    pub messages: u32,
    pub last_uid: Option<String>,
    pub first_error: Option<ApiError>,
}

impl SyncTally {
    /// Nothing done yet.
    pub fn new() -> (r: SyncTally)
        ensures
            r.attempted == 0,
            r.successful == 0,
            r.messages == 0,
            r.last_uid is None,
            r.first_error is None,
    {
        SyncTally { attempted: 0, successful: 0, messages: 0, last_uid: None, first_error: None }
    }

    /// A folder (not in backoff) is tried.
    pub fn record_attempt(&mut self)
        requires
            old(self).attempted < u32::MAX,
        ensures
            final(self).attempted == old(self).attempted + 1,
            final(self).successful == old(self).successful,
            final(self).messages == old(self).messages,
            final(self).last_uid == old(self).last_uid,
            final(self).first_error == old(self).first_error,
    {
        self.attempted = self.attempted + 1;
    }

    /// A folder's fetch failed; the first such error is kept.
    pub fn record_failure(&mut self, error: ApiError)
        ensures
            final(self).attempted == old(self).attempted,
            final(self).successful == old(self).successful,
            final(self).messages == old(self).messages,
            final(self).last_uid == old(self).last_uid,
            final(self).first_error == if old(self).first_error is Some {
                old(self).first_error
            } else {
                Some(error)
            },
    {
        if self.first_error.is_none() {
            self.first_error = Some(error);
        }
    }

    /// A folder was synchronised: `count` messages stored, reaching
    /// `folder_last_uid`, which (where present) becomes the run's last UID.
    pub fn record_success(&mut self, folder_last_uid: Option<String>, count: u32)
        requires
            old(self).successful < u32::MAX,
            old(self).messages + count <= u32::MAX,
        ensures
            final(self).attempted == old(self).attempted,
            final(self).successful == old(self).successful + 1,
            final(self).messages == old(self).messages + count,
            final(self).last_uid == if folder_last_uid is Some {
                folder_last_uid
            } else {
                old(self).last_uid
            },
            final(self).first_error == old(self).first_error,
    {
        self.successful = self.successful + 1;
        self.messages = self.messages + count;
        if folder_last_uid.is_some() {
            self.last_uid = folder_last_uid;
        }
    }

    /// The outcome of the run over `folders` folders, finished at `now`: the
    /// first folder error when folders were tried and none succeeded, else
    /// the summary.
    pub fn finish(self, account_id: String, folders: u32, now: String) -> (r: Result<
        SyncSummary,
        ApiError,
    >)
        ensures
            run_fails(tally_record(self)) ==> r == Err::<SyncSummary, ApiError>(self.first_error->0),
            !run_fails(tally_record(self)) ==> (r matches Ok(
                s,
            ) && s.account_id == account_id && s.folders == folders && s.messages
                == self.messages && s.last_uid == self.last_uid && s.synced_at == now),
    {
        if self.attempted > 0 && self.successful == 0 {
            if let Some(err) = self.first_error {
                return Err(err);
            }
        }
        Ok(
            SyncSummary {
                account_id,
                folders,
                messages: self.messages,
                last_uid: self.last_uid,
                synced_at: now,
            },
        )
    }
}

// ---------------------------------------------------------------------------
// A run over the folders of an account
// ---------------------------------------------------------------------------

/// How one folder of a run went: skipped while its backoff lasts, failed
/// with an error (its state then goes into backoff), or synchronised (its
/// state then goes idle).
pub enum FolderRunOutcome {
    Skipped,
    Failed(ApiError),
    Synced,
}

/// What a run's tally holds after folders with `outcomes`, as
/// `record_attempt`, `record_failure` and `record_success` keep it: the
/// folders tried, the folders synchronised, and the first folder error.
pub open spec fn run_record(outcomes: Seq<FolderRunOutcome>) -> (nat, nat, Option<ApiError>)
    decreases outcomes.len(),
{
    if outcomes.len() == 0 {
        (0, 0, None)
    } else {
        let before = run_record(outcomes.drop_last());
        match outcomes.last() {
            FolderRunOutcome::Skipped => before,
            FolderRunOutcome::Failed(e) => (
                before.0 + 1,
                before.1,
                if before.2 is Some {
                    before.2
                } else {
                    Some(e)
                },
            ),
            FolderRunOutcome::Synced => (before.0 + 1, before.1 + 1, before.2),
        }
    }
}

/// Whether the folder at `i` is the first that failed.
pub open spec fn first_failure(outcomes: Seq<FolderRunOutcome>, i: int) -> bool {
    &&& 0 <= i < outcomes.len()
    &&& outcomes[i] is Failed
    &&& forall|j: int| 0 <= j < i ==> !((#[trigger] outcomes[j]) is Failed)
}

/// What a tally holds of its run: the folders tried, the folders
/// synchronised, and the first folder error.
pub open spec fn tally_record(t: SyncTally) -> (nat, nat, Option<ApiError>) {
    (t.attempted as nat, t.successful as nat, t.first_error)
}

/// Whether `finish` ends a run with that record in an error.
pub open spec fn run_fails(record: (nat, nat, Option<ApiError>)) -> bool {
    record.0 > 0 && record.1 == 0 && record.2 is Some
}

proof fn lemma_run_record_counts(outcomes: Seq<FolderRunOutcome>)
    ensures
        run_record(outcomes).0 > 0 <==> (exists|i: int|
            0 <= i < outcomes.len() && !(#[trigger] outcomes[i] is Skipped)),
        run_record(outcomes).1 > 0 <==> (exists|i: int|
            0 <= i < outcomes.len() && #[trigger] outcomes[i] is Synced),
        run_record(outcomes).2 is Some <==> (exists|i: int|
            0 <= i < outcomes.len() && #[trigger] outcomes[i] is Failed),
        run_record(outcomes).2 is Some ==> (exists|i: int|
            #[trigger] first_failure(outcomes, i) && run_record(outcomes).2 == Some(outcomes[i]->0)),
    decreases outcomes.len(),
{
    if outcomes.len() > 0 {
        let p = outcomes.drop_last();
        let n = outcomes.len() - 1;
        lemma_run_record_counts(p);
        assert forall|i: int| 0 <= i < p.len() implies p[i] == outcomes[i] by {}
        assert(outcomes[n] == outcomes.last());
        if exists|i: int| 0 <= i < p.len() && !(#[trigger] p[i] is Skipped) {
            let i = choose|i: int| 0 <= i < p.len() && !(#[trigger] p[i] is Skipped);
            assert(outcomes[i] == p[i]);
        }
        if exists|i: int| 0 <= i < p.len() && #[trigger] p[i] is Synced {
            let i = choose|i: int| 0 <= i < p.len() && #[trigger] p[i] is Synced;
            assert(outcomes[i] == p[i]);
        }
        if exists|i: int| 0 <= i < p.len() && #[trigger] p[i] is Failed {
            let i = choose|i: int| 0 <= i < p.len() && #[trigger] p[i] is Failed;
            assert(outcomes[i] == p[i]);
        }
        if exists|i: int| 0 <= i < outcomes.len() && !(#[trigger] outcomes[i] is Skipped) {
            let i = choose|i: int| 0 <= i < outcomes.len() && !(#[trigger] outcomes[i] is Skipped);
            if i < n {
                assert(p[i] == outcomes[i]);
            }
        }
        if exists|i: int| 0 <= i < outcomes.len() && #[trigger] outcomes[i] is Synced {
            let i = choose|i: int| 0 <= i < outcomes.len() && #[trigger] outcomes[i] is Synced;
            if i < n {
                assert(p[i] == outcomes[i]);
            }
        }
        if exists|i: int| 0 <= i < outcomes.len() && #[trigger] outcomes[i] is Failed {
            let i = choose|i: int| 0 <= i < outcomes.len() && #[trigger] outcomes[i] is Failed;
            if i < n {
                assert(p[i] == outcomes[i]);
            }
        }
        if run_record(p).2 is Some {
            let i = choose|i: int| #[trigger] first_failure(p, i) && run_record(p).2 == Some(p[i]->0);
            assert forall|j: int| 0 <= j < i implies !((#[trigger] outcomes[j]) is Failed) by {
                assert(outcomes[j] == p[j]);
            }
            assert(first_failure(outcomes, i));
        } else if outcomes.last() is Failed {
            assert forall|j: int| 0 <= j < n implies !((#[trigger] outcomes[j]) is Failed) by {
                assert(outcomes[j] == p[j]);
                if p[j] is Failed {
                    assert(exists|i: int| 0 <= i < p.len() && #[trigger] p[i] is Failed);
                }
            }
            assert(first_failure(outcomes, n));
        }
    }
}

/// A run ends in an error exactly when some folder was tried and every
/// folder tried failed; the error is then that of the first folder that
/// failed. (Each folder tried leaves its state in backoff or idle, by
/// `failed_state` and `idle_state`, and a state in backoff refuses the next
/// run while its end lies ahead, by `lemma_backoff_state_blocks`.)
pub proof fn lemma_run_fails_iff_all_tried_failed(outcomes: Seq<FolderRunOutcome>)
    ensures
        run_fails(run_record(outcomes)) <==> ((exists|i: int|
            0 <= i < outcomes.len() && !(#[trigger] outcomes[i] is Skipped)) && (forall|i: int|
            0 <= i < outcomes.len() && !(#[trigger] outcomes[i] is Skipped) ==> outcomes[i] is Failed)),
        run_fails(run_record(outcomes)) ==> (exists|i: int|
            #[trigger] first_failure(outcomes, i) && run_record(outcomes).2 == Some(outcomes[i]->0)),
{
    lemma_run_record_counts(outcomes);
    if (exists|i: int| 0 <= i < outcomes.len() && !(#[trigger] outcomes[i] is Skipped)) && (forall|i: int|
        0 <= i < outcomes.len() && !(#[trigger] outcomes[i] is Skipped) ==> outcomes[i] is Failed) {
        let i = choose|i: int| 0 <= i < outcomes.len() && !(#[trigger] outcomes[i] is Skipped);
        assert(outcomes[i] is Failed);
        assert(!(exists|k: int| 0 <= k < outcomes.len() && #[trigger] outcomes[k] is Synced));
    }
    if run_fails(run_record(outcomes)) {
        assert forall|i: int| 0 <= i < outcomes.len() && !(#[trigger] outcomes[i] is Skipped) implies outcomes[i] is Failed by {
            if outcomes[i] is Synced {
                assert(exists|k: int| 0 <= k < outcomes.len() && #[trigger] outcomes[k] is Synced);
            }
        }
    }
}

/// The text that reports a run: `{folders} folders / {messages} messages`.
pub open spec fn spec_summary_message(folders: u32, messages: u32) -> Seq<char> {
    decimal(folders as nat) + " folders / "@ + decimal(messages as nat) + " messages"@
}

/// The text that reports a run.
pub fn summary_message(summary: &SyncSummary) -> (r: String)
    ensures
        r@ == spec_summary_message(summary.folders, summary.messages),
{
    let mut out = format_u32(summary.folders);
    out.append(" folders / ");
    out.append(format_u32(summary.messages).as_str());
    out.append(" messages");
    out
}

} // verus!
