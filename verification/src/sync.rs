//! Which synchronisation runs and folder watchers are active, and how long a
//! failing account or folder waits before it is tried again.
use vstd::prelude::*;
use crate::errors::ApiError;
use crate::model::MailAccount;
use crate::text::{concat2, concat3, contains_string, copy_string, owned, string_set, str_is};

verus! {

// ---------------------------------------------------------------------------
// A set of active keys
// ---------------------------------------------------------------------------

/// No two strings of `v` are equal.
pub open spec fn distinct_strings(v: Seq<String>) -> bool {
    forall|i: int, j: int| 0 <= i < j < v.len() ==> v[i]@ != v[j]@
}

/// A set of text keys: the runs or watchers that are active.
pub struct ActiveKeys {
    keys: Vec<String>,
}

impl ActiveKeys {
    #[verifier::type_invariant]
    spec fn keys_distinct(self) -> bool {
        distinct_strings(self.keys@)
    }

    /// The active keys.
    pub closed spec fn view(&self) -> Set<Seq<char>> {
        string_set(self.keys@)
    }

    /// No key is active.
    pub fn new() -> (r: ActiveKeys)
        ensures
            r.view() == Set::<Seq<char>>::empty(),
    {
        let r = ActiveKeys { keys: Vec::new() };
        assert(r.view() =~= Set::<Seq<char>>::empty());
        r
    }

    /// Whether `key` is active.
    pub fn contains(&self, key: &String) -> (r: bool)
        ensures
            r == self.view().contains(key@),
    {
        contains_string(&self.keys, key)
    }

    /// Makes `key` active; answers whether it was not active before.
    pub fn insert(&mut self, key: String) -> (r: bool)
        ensures
            r == !old(self).view().contains(key@),
            final(self).view() == old(self).view().insert(key@),
    {
        proof {
            use_type_invariant(&*self);
        }
        if contains_string(&self.keys, &key) {
            assert(old(self).view().insert(key@) =~= old(self).view());
            return false;
        }
        let ghost before = self.keys@;
        let ghost k = key@;
        let mut keys = Vec::new();
        std::mem::swap(&mut keys, &mut self.keys);
        keys.push(key);
        assert(distinct_strings(keys@)) by {
            assert forall|i: int, j: int| 0 <= i < j < keys@.len() implies keys@[i]@ != keys@[j]@ by {
                if j == before.len() {
                    assert(before[i]@ != k);
                }
            }
        }
        assert forall|x: Seq<char>| string_set(keys@).contains(x) <==> string_set(before).insert(k).contains(x) by {
            if string_set(keys@).contains(x) {
                let j = choose|j: int| 0 <= j < keys@.len() && keys@[j]@ == x;
                if j < before.len() {
                    assert(before[j]@ == x);
                }
            }
            if string_set(before).contains(x) {
                let j = choose|j: int| 0 <= j < before.len() && before[j]@ == x;
                assert(keys@[j]@ == x);
            }
            if x == k {
                assert(keys@[before.len() as int]@ == x);
            }
        }
        self.keys = keys;
        assert(self.view() =~= string_set(before).insert(k));
        true
    }

    /// Makes `key` inactive.
    pub fn remove(&mut self, key: &String)
        ensures
            final(self).view() == old(self).view().remove(key@),
    {
        proof {
            use_type_invariant(&*self);
        }
        let ghost before = self.keys@;
        let mut i: usize = 0;
        while i < self.keys.len()
            invariant
                self.keys@ == before,
                string_set(before) == old(self).view(),
                distinct_strings(before),
                i <= before.len(),
                forall|j: int| 0 <= j < i ==> before[j]@ != key@,
            decreases before.len() - i,
        {
            if self.keys[i].eq(key) {
                let mut keys = Vec::new();
                std::mem::swap(&mut keys, &mut self.keys);
                keys.remove(i);
                assert(distinct_strings(keys@)) by {
                    assert forall|a: int, b: int| 0 <= a < b < keys@.len() implies keys@[a]@ != keys@[b]@ by {
                        let a0 = if a < i { a } else { a + 1 };
                        let b0 = if b < i { b } else { b + 1 };
                        assert(keys@[a] == before[a0]);
                        assert(keys@[b] == before[b0]);
                    }
                }
                assert forall|x: Seq<char>| string_set(keys@).contains(x) <==> string_set(before).remove(key@).contains(x) by {
                    if string_set(keys@).contains(x) {
                        let j = choose|j: int| 0 <= j < keys@.len() && keys@[j]@ == x;
                        let j0 = if j < i { j } else { j + 1 };
                        assert(keys@[j] == before[j0]);
                        assert(before[j0]@ != before[i as int]@);
                    }
                    if string_set(before).remove(key@).contains(x) {
                        let j = choose|j: int| 0 <= j < before.len() && before[j]@ == x;
                        assert(j != i);
                        if j < i {
                            assert(keys@[j] == before[j]);
                        } else {
                            assert(keys@[j - 1] == before[j]);
                        }
                    }
                }
                self.keys = keys;
                assert(self.view() =~= string_set(before).remove(key@));
                return;
            }
            i = i + 1;
        }
        assert(string_set(before).remove(key@) =~= string_set(before));
    }
}

// ---------------------------------------------------------------------------
// Synchronisation runs
// ---------------------------------------------------------------------------

/// The accounts whose synchronisation is running.
pub struct SyncRunRegistry {
    active: ActiveKeys,
}

/// Proof that a synchronisation run of one account was started; handing it
/// back to the registry ends the run.
pub struct SyncRunGuard {
    account_id: String,
}

impl SyncRunGuard {
    /// The account whose run this is.
    pub closed spec fn spec_account_id(&self) -> Seq<char> {
        self.account_id@
    }

    /// The account whose run this is.
    pub fn account_id(&self) -> (r: &String)
        ensures
            r@ == self.spec_account_id(),
    {
        &self.account_id
    }
}

impl SyncRunRegistry {
    /// The accounts whose synchronisation is running.
    pub closed spec fn view(&self) -> Set<Seq<char>> {
        self.active.view()
    }

    /// No run is active.
    pub fn new() -> (r: SyncRunRegistry)
        ensures
            r.view() == Set::<Seq<char>>::empty(),
    {
        SyncRunRegistry { active: ActiveKeys::new() }
    }

    /// Starts a run for `account_id` unless one is running already.
    pub fn try_start(&mut self, account_id: &str) -> (r: Option<SyncRunGuard>)
        ensures
            r is Some == !old(self).view().contains(account_id@),
            r matches Some(g) ==> g.spec_account_id() == account_id@,
            final(self).view() == old(self).view().insert(account_id@),
    {
        let key = owned(account_id);
        if self.active.insert(key) {
            Some(SyncRunGuard { account_id: owned(account_id) })
        } else {
            None
        }
    }

    /// Whether a run of `account_id` is active.
    pub fn is_active(&self, account_id: &str) -> (r: bool)
        ensures
            r == self.view().contains(account_id@),
    {
        let key = owned(account_id);
        self.active.contains(&key)
    }

    /// Ends the run that `guard` stands for.
    pub fn finish(&mut self, guard: SyncRunGuard)
        ensures
            final(self).view() == old(self).view().remove(guard.spec_account_id()),
    {
        self.active.remove(&guard.account_id);
    }
}

/// A run of an account can be started exactly when none is active; once it
/// is finished, it can be started again, and runs of other accounts are not
/// affected.
pub proof fn lemma_sync_runs_exclusive(active: Set<Seq<char>>, a: Seq<char>, b: Seq<char>)
    requires
        !active.contains(a),
        a != b,
    ensures
        active.insert(a).contains(a),
        active.insert(a).remove(a) == active,
        active.insert(a).contains(b) == active.contains(b),
{
    assert(active.insert(a).remove(a) =~= active);
}

/// The accounts to synchronise: those with synchronisation enabled, in order.
pub open spec fn spec_sync_enabled_ids(accounts: Seq<MailAccount>) -> Seq<Seq<char>>
    decreases accounts.len(),
{
    if accounts.len() == 0 {
        Seq::empty()
    } else {
        let rest = spec_sync_enabled_ids(accounts.drop_last());
        if accounts.last().sync_enabled {
            rest.push(accounts.last().id@)
        } else {
            rest
        }
    }
}

/// The identifiers of the accounts whose synchronisation is enabled.
pub fn sync_enabled_account_ids(accounts: &[MailAccount]) -> (r: Vec<String>)
    ensures
        crate::text::views(r@) == spec_sync_enabled_ids(accounts@),
{
    let mut out: Vec<String> = Vec::new();
    for i in 0..accounts.len()
        invariant
            crate::text::views(out@) == spec_sync_enabled_ids(accounts@.take(i as int)),
    {
        assert(accounts@.take(i + 1).drop_last() =~= accounts@.take(i as int));
        if accounts[i].sync_enabled {
            out.push(copy_string(&accounts[i].id));
        }
        assert(crate::text::views(out@) =~= spec_sync_enabled_ids(accounts@.take(i + 1)));
    }
    assert(accounts@.take(accounts@.len() as int) =~= accounts@);
    out
}

/// An identifier is listed exactly when some account with that identifier
/// has synchronisation enabled, and the list is no longer than the accounts.
pub proof fn lemma_sync_enabled_ids_members(accounts: Seq<MailAccount>, id: Seq<char>)
    ensures
        spec_sync_enabled_ids(accounts).contains(id) <==> exists|k: int|
            0 <= k < accounts.len() && (#[trigger] accounts[k]).sync_enabled && accounts[k].id@ == id,
        spec_sync_enabled_ids(accounts).len() <= accounts.len(),
    decreases accounts.len(),
{
    if accounts.len() > 0 {
        let init = accounts.drop_last();
        lemma_sync_enabled_ids_members(init, id);
        let rest = spec_sync_enabled_ids(init);
        let last = accounts.last();
        if exists|k: int| 0 <= k < init.len() && (#[trigger] init[k]).sync_enabled && init[k].id@ == id {
            let k = choose|k: int| 0 <= k < init.len() && (#[trigger] init[k]).sync_enabled && init[k].id@ == id;
            assert(accounts[k] == init[k]);
        }
        if exists|k: int| 0 <= k < accounts.len() && (#[trigger] accounts[k]).sync_enabled && accounts[k].id@ == id {
            let k = choose|k: int|
                0 <= k < accounts.len() && (#[trigger] accounts[k]).sync_enabled && accounts[k].id@ == id;
            if k < accounts.len() - 1 {
                assert(init[k] == accounts[k]);
            }
        }
        if last.sync_enabled {
            assert(rest.push(last.id@)[rest.len() as int] == last.id@);
            if rest.push(last.id@).contains(id) && !rest.contains(id) {
                let j = choose|j: int| 0 <= j < rest.len() + 1 && rest.push(last.id@)[j] == id;
                if j < rest.len() {
                    assert(rest[j] == id);
                }
            }
            if rest.contains(id) {
                let j = choose|j: int| 0 <= j < rest.len() && rest[j] == id;
                assert(rest.push(last.id@)[j] == id);
            }
        }
    }
}

/// Every recorded reason is one of the known reasons: a known reason is kept
/// as it is, anything else or nothing becomes `manual_sync`.
pub proof fn lemma_sync_reason_known(reason: Option<Seq<char>>)
    ensures
        spec_sync_reason(reason) == "startup_sync"@ || spec_sync_reason(reason) == "account_saved_sync"@
            || spec_sync_reason(reason) == "manual_sync"@ || spec_sync_reason(reason)
            == "foreground_sync"@ || spec_sync_reason(reason) == "interval_sync"@,
        forall|r: Seq<char>|
            r == "startup_sync"@ || r == "account_saved_sync"@ || r == "manual_sync"@ || r
                == "foreground_sync"@ || r == "interval_sync"@ ==> #[trigger] spec_sync_reason(Some(r))
                == r,
        reason is None ==> spec_sync_reason(reason) == "manual_sync"@,
{
}

/// The reason recorded for a synchronisation request: one of the known
/// reasons, and `manual_sync` for anything else.
pub open spec fn spec_sync_reason(reason: Option<Seq<char>>) -> Seq<char> {
    match reason {
        Some(r) => if r == "startup_sync"@ || r == "account_saved_sync"@ || r == "manual_sync"@ || r
            == "foreground_sync"@ || r == "interval_sync"@ {
            r
        } else {
            "manual_sync"@
        },
        None => "manual_sync"@,
    }
}

/// The reason recorded for a synchronisation request.
pub fn sync_reason_from_request(reason: Option<String>) -> (r: &'static str)
    ensures
        r@ == spec_sync_reason(
            match reason {
                Some(s) => Some(s@),
                None => None,
            },
        ),
{
    match reason {
        Some(r) => {
            if str_is(r.as_str(), "startup_sync") {
                "startup_sync"
            } else if str_is(r.as_str(), "account_saved_sync") {
                "account_saved_sync"
            } else if str_is(r.as_str(), "manual_sync") {
                "manual_sync"
            } else if str_is(r.as_str(), "foreground_sync") {
                "foreground_sync"
            } else if str_is(r.as_str(), "interval_sync") {
                "interval_sync"
            } else {
                "manual_sync"
            }
        },
        None => "manual_sync",
    }
}

// ---------------------------------------------------------------------------
// Folder watchers
// ---------------------------------------------------------------------------

/// The folders that are being watched, by watcher key.
pub struct WatcherRegistry {
    active: ActiveKeys,
}

impl WatcherRegistry {
    /// The watcher keys of the folders being watched.
    pub closed spec fn view(&self) -> Set<Seq<char>> {
        self.active.view()
    }

    /// No folder is watched.
    pub fn new() -> (r: WatcherRegistry)
        ensures
            r.view() == Set::<Seq<char>>::empty(),
    {
        WatcherRegistry { active: ActiveKeys::new() }
    }
}

/// The key under which a folder's watcher is registered: account, NUL, folder.
pub open spec fn spec_watcher_key(account_id: Seq<char>, folder_id: Seq<char>) -> Seq<char> {
    account_id + seq!['\0'] + folder_id
}

/// The key under which a folder's watcher is registered.
pub fn watcher_key(account_id: &str, folder_id: &str) -> (r: String)
    ensures
        r@ == spec_watcher_key(account_id@, folder_id@),
{
    let r = concat3(account_id, "\0", folder_id);
    proof {
        reveal_strlit("\0");
    }
    r
}

/// Watcher keys tell folders apart: two folders of accounts whose
/// identifiers hold no NUL have the same key only when they are the same
/// folder of the same account.
pub proof fn lemma_watcher_key_injective(a1: Seq<char>, f1: Seq<char>, a2: Seq<char>, f2: Seq<char>)
    requires
        !a1.contains('\0'),
        !a2.contains('\0'),
    ensures
        spec_watcher_key(a1, f1) == spec_watcher_key(a2, f2) <==> a1 == a2 && f1 == f2,
{
    let k1 = spec_watcher_key(a1, f1);
    let k2 = spec_watcher_key(a2, f2);
    if k1 == k2 {
        assert(k1[a1.len() as int] == '\0');
        assert(k2[a2.len() as int] == '\0');
        if a1.len() < a2.len() {
            assert(k2[a1.len() as int] == a2[a1.len() as int]);
            assert(a2.contains(a2[a1.len() as int]));
        } else if a2.len() < a1.len() {
            assert(k1[a2.len() as int] == a1[a2.len() as int]);
            assert(a1.contains(a1[a2.len() as int]));
        }
        assert(a1 =~= k1.take(a1.len() as int));
        assert(a2 =~= k2.take(a2.len() as int));
        assert(f1 =~= k1.skip(a1.len() + 1int));
        assert(f2 =~= k2.skip(a2.len() + 1int));
    }
}

/// Registers a watcher for a folder; answers whether none was registered.
pub fn register_watcher(registry: &mut WatcherRegistry, account_id: &str, folder_id: &str) -> (r:
    bool)
    ensures
        r == !old(registry).view().contains(spec_watcher_key(account_id@, folder_id@)),
        final(registry).view() == old(registry).view().insert(
            spec_watcher_key(account_id@, folder_id@),
        ),
{
    let key = watcher_key(account_id, folder_id);
    registry.active.insert(key)
}

/// Removes the watcher of a folder.
pub fn remove_watcher(registry: &mut WatcherRegistry, account_id: &str, folder_id: &str)
    ensures
        final(registry).view() == old(registry).view().remove(
            spec_watcher_key(account_id@, folder_id@),
        ),
{
    let key = watcher_key(account_id, folder_id);
    registry.active.remove(&key);
}

// ---------------------------------------------------------------------------
// Account synchronisation locks
// ---------------------------------------------------------------------------

/// The accounts whose synchronisation holds the lock, by lock key.
pub struct SyncLocks {
    active: ActiveKeys,
}

/// Proof that the lock of an account is held.
pub struct SyncLockGuard {
    key: String,
}

impl SyncLockGuard {
    /// The lock key this guard holds.
    pub closed spec fn spec_key(&self) -> Seq<char> {
        self.key@
    }
}

/// The lock key of an account.
pub open spec fn spec_sync_lock_key(account_id: Seq<char>) -> Seq<char> {
    "account:"@ + account_id
}

impl SyncLocks {
    /// The lock keys held.
    pub closed spec fn view(&self) -> Set<Seq<char>> {
        self.active.view()
    }

    /// No lock is held.
    pub fn new() -> (r: SyncLocks)
        ensures
            r.view() == Set::<Seq<char>>::empty(),
    {
        SyncLocks { active: ActiveKeys::new() }
    }

    /// Takes the lock of an account, or fails because it is held.
    pub fn acquire_sync_lock(&mut self, account_id: &str) -> (r: Result<SyncLockGuard, ApiError>)
        ensures
            r is Ok == !old(self).view().contains(spec_sync_lock_key(account_id@)),
            r matches Ok(g) ==> g.spec_key() == spec_sync_lock_key(account_id@),
            r matches Err(e) ==> (e matches ApiError::SyncAlreadyRunning(id) && id@ == account_id@),
            final(self).view() == old(self).view().insert(spec_sync_lock_key(account_id@)),
    {
        let key = concat2("account:", account_id);
        let kept = copy_string(&key);
        if self.active.insert(key) {
            Ok(SyncLockGuard { key: kept })
        } else {
            Err(ApiError::SyncAlreadyRunning(owned(account_id)))
        }
    }

    /// Gives a lock back.
    pub fn release(&mut self, guard: SyncLockGuard)
        ensures
            final(self).view() == old(self).view().remove(guard.spec_key()),
    {
        self.active.remove(&guard.key);
    }
}

// ---------------------------------------------------------------------------
// Backoff
// ---------------------------------------------------------------------------

/// Two to the power `e`.
pub open spec fn pow2(e: nat) -> nat
    decreases e,
{
    if e == 0 {
        1
    } else {
        2 * pow2((e - 1) as nat)
    }
}

/// How many seconds a failing account or folder waits after its
/// `failure_count`-th failure: a minute, doubled for each failure after the
/// first, never more than half an hour.
pub open spec fn spec_backoff_seconds(failure_count: u32) -> int {
    let exponent: nat = if failure_count == 0 {
        0
    } else if failure_count - 1 > 5 {
        5
    } else {
        (failure_count - 1) as nat
    };
    let s: int = 60 * (pow2(exponent) as int);
    if s > 1800 {
        1800
    } else {
        s
    }
}

/// The sync lock of an account is held by one run at a time: once taken,
/// taking it again is refused (the lock is in the held set); given back, the
/// held set is as before and it can be taken again; the locks of other
/// accounts are not affected.
pub proof fn lemma_sync_lock_exclusive(held: Set<Seq<char>>, a: Seq<char>, b: Seq<char>)
    requires
        !held.contains(spec_sync_lock_key(a)),
        a != b,
    ensures
        held.insert(spec_sync_lock_key(a)).contains(spec_sync_lock_key(a)),
        held.insert(spec_sync_lock_key(a)).remove(spec_sync_lock_key(a)) == held,
        held.insert(spec_sync_lock_key(a)).contains(spec_sync_lock_key(b)) == held.contains(
            spec_sync_lock_key(b),
        ),
{
    let n = "account:"@.len();
    assert(spec_sync_lock_key(a).skip(n as int) =~= a);
    assert(spec_sync_lock_key(b).skip(n as int) =~= b);
    assert(spec_sync_lock_key(a) != spec_sync_lock_key(b));
    assert(held.insert(spec_sync_lock_key(a)).remove(spec_sync_lock_key(a)) =~= held);
}

/// What a return of the application to the foreground synchronises.
#[derive(Debug, PartialEq, Eq)]
pub enum ResumeSync {
    /// The selected account, which synchronises.
    Account(String),
    /// Nothing: the selected account does not synchronise.
    Nothing,
    /// Every account that synchronises.
    AllEnabled,
}

/// What a return to the foreground synchronises: the selected account, if
/// one is selected and it synchronises (`selected_enabled`), nothing if it
/// does not, and every enabled account when none is selected.
pub fn resume_sync(selected: Option<String>, selected_enabled: bool) -> (r: ResumeSync)
    ensures
        match selected {
            Some(a) => if selected_enabled {
                r == ResumeSync::Account(a)
            } else {
                r == ResumeSync::Nothing
            },
            None => r == ResumeSync::AllEnabled,
        },
{
    match selected {
        Some(a) => if selected_enabled {
            ResumeSync::Account(a)
        } else {
            ResumeSync::Nothing
        },
        None => ResumeSync::AllEnabled,
    }
}

/// How many seconds a failing account or folder waits.
pub fn backoff_seconds(failure_count: u32) -> (r: i64)
    ensures
        r == spec_backoff_seconds(failure_count),
        60 <= r <= 1800,
{
    let exponent: u32 = if failure_count == 0 {
        0
    } else if failure_count - 1 > 5 {
        5
    } else {
        failure_count - 1
    };
    let mut p: i64 = 1;
    let mut k: u32 = 0;
    while k < exponent
        invariant
            k <= exponent <= 5,
            p == pow2(k as nat),
            p <= 32,
        decreases exponent - k,
    {
        assert(pow2((k + 1) as nat) == 2 * pow2(k as nat));
        p = p * 2;
        k = k + 1;
        assert(p <= 32) by {
            assert(k <= 5);
            lemma_pow2_bound(k as nat);
        }
    }
    let s = 60 * p;
    proof {
        lemma_pow2_bound(exponent as nat);
    }
    if s > 1800 {
        1800
    } else {
        s
    }
}

/// Powers of two up to the fifth.
proof fn lemma_pow2_bound(e: nat)
    requires
        e <= 5,
    ensures
        1 <= pow2(e) <= 32,
{
    reveal_with_fuel(pow2, 6);
}

/// The wait never shrinks as failures add up.
pub proof fn lemma_backoff_monotone(a: u32, b: u32)
    requires
        a <= b,
    ensures
        spec_backoff_seconds(a) <= spec_backoff_seconds(b),
{
    reveal_with_fuel(pow2, 6);
}


/// The waits after each failure: a minute after the first (and before any),
/// then two, four, eight and sixteen minutes, and half an hour from the
/// sixth failure on.
pub proof fn lemma_backoff_schedule(failure_count: u32)
    ensures
        spec_backoff_seconds(0) == 60,
        spec_backoff_seconds(1) == 60,
        spec_backoff_seconds(2) == 120,
        spec_backoff_seconds(3) == 240,
        spec_backoff_seconds(4) == 480,
        spec_backoff_seconds(5) == 960,
        failure_count >= 6 ==> spec_backoff_seconds(failure_count) == 1800,
{
    reveal_with_fuel(pow2, 6);
}

} // verus!
