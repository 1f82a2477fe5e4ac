//! The decisions of the live IMAP adapter that do not need the network:
//! which listed mailboxes become folders, which UIDs one fetch takes, and
//! how a message's flags are read.
use vstd::prelude::*;
use vstd::relations::{sorted_by, total_ordering};
use crate::folders::{
    display_folder_name, folder_id, infer_folder_role, last_segment, spec_folder_id,
    spec_infer_folder_role,
};
use crate::model::{FolderRole, MailFolder, MailMessage, MessageFlags};
use crate::text::{chars_of, contains_string, copy_string, opt_view, owned, string_set};

verus! {

/// The adapter that talks to real IMAP and SMTP servers.
#[derive(Debug, Clone, Copy, Default)]
pub struct LiveMailProtocol;

/// How long one IMAP IDLE wait lasts, in seconds: 29 minutes.
pub const IMAP_IDLE_TIMEOUT_SECS: u64 = 1740;

// ---------------------------------------------------------------------------
// Folders from a mailbox listing
// ---------------------------------------------------------------------------

/// A mailbox as the server lists it: its name, and whether it can be
/// selected (it has no `\Noselect` attribute).
#[derive(Debug, Clone, PartialEq, Eq)]
pub struct ListedMailbox {
    pub name: String,
    pub selectable: bool,
}

/// The paths that become folders: the selectable mailboxes, each name once,
/// in the order of the listing.
pub open spec fn kept_paths(listing: Seq<ListedMailbox>) -> Seq<Seq<char>>
    decreases listing.len(),
{
    if listing.len() == 0 {
        Seq::empty()
    } else {
        let before = kept_paths(listing.drop_last());
        let last = listing.last();
        if !last.selectable || before.contains(last.name@) {
            before
        } else {
            before.push(last.name@)
        }
    }
}

/// A listing refreshed again gives each path once: no two kept paths are
/// equal.
pub proof fn lemma_kept_paths_distinct(listing: Seq<ListedMailbox>)
    ensures
        forall|i: int, j: int|
            0 <= i < j < kept_paths(listing).len() ==> kept_paths(listing)[i] != kept_paths(listing)[j],
    decreases listing.len(),
{
    if listing.len() > 0 {
        lemma_kept_paths_distinct(listing.drop_last());
        let before = kept_paths(listing.drop_last());
        let last = listing.last();
        if !(!last.selectable || before.contains(last.name@)) {
            assert forall|i: int, j: int|
                0 <= i < j < kept_paths(listing).len() implies kept_paths(listing)[i] != kept_paths(listing)[j] by {
                if j == before.len() {
                    assert(kept_paths(listing)[i] == before[i]);
                    if before[i] == last.name@ {
                        assert(before.contains(last.name@));
                    }
                }
            }
        }
    }
}

/// A path is kept exactly when some selectable mailbox of the listing has
/// that name; mailboxes that cannot be selected never become folders.
pub proof fn lemma_kept_paths_members(listing: Seq<ListedMailbox>, name: Seq<char>)
    ensures
        kept_paths(listing).contains(name) <==> exists|k: int|
            0 <= k < listing.len() && (#[trigger] listing[k]).selectable && listing[k].name@ == name,
    decreases listing.len(),
{
    if listing.len() > 0 {
        let init = listing.drop_last();
        lemma_kept_paths_members(init, name);
        let before = kept_paths(init);
        let last = listing.last();
        if exists|k: int| 0 <= k < init.len() && (#[trigger] init[k]).selectable && init[k].name@ == name {
            let k = choose|k: int| 0 <= k < init.len() && (#[trigger] init[k]).selectable && init[k].name@ == name;
            assert(listing[k] == init[k]);
        }
        if exists|k: int| 0 <= k < listing.len() && (#[trigger] listing[k]).selectable && listing[k].name@ == name {
            let k = choose|k: int|
                0 <= k < listing.len() && (#[trigger] listing[k]).selectable && listing[k].name@ == name;
            if k < listing.len() - 1 {
                assert(init[k] == listing[k]);
            }
        }
        if last.selectable && !before.contains(last.name@) {
            let after = before.push(last.name@);
            assert(after[before.len() as int] == last.name@);
            if after.contains(name) && !before.contains(name) {
                let j = choose|j: int| 0 <= j < after.len() && after[j] == name;
                if j < before.len() {
                    assert(before[j] == name);
                }
            }
            if before.contains(name) {
                let j = choose|j: int| 0 <= j < before.len() && before[j] == name;
                assert(after[j] == name);
            }
        }
    }
}

/// The folder a path of an account becomes.
pub open spec fn folder_for_path(f: MailFolder, account_id: Seq<char>, path: Seq<char>) -> bool {
    &&& f.id@ == spec_folder_id(account_id, path)
    &&& f.account_id@ == account_id
    &&& f.name@ == last_segment(path)
    &&& f.path@ == path
    &&& f.role == spec_infer_folder_role(path)
    &&& f.unread_count == 0
    &&& f.total_count == 0
}

/// Some kept path is an inbox.
pub open spec fn has_inbox(paths: Seq<Seq<char>>) -> bool {
    exists|i: int| 0 <= i < paths.len() && spec_infer_folder_role(#[trigger] paths[i]) == FolderRole::Inbox
}

fn folder_from_path(account_id: &str, path: String) -> (r: MailFolder)
    ensures
        folder_for_path(r, account_id@, path@),
{
    MailFolder {
        id: folder_id(account_id, path.as_str()),
        account_id: owned(account_id),
        name: display_folder_name(path.as_str()),
        role: infer_folder_role(path.as_str()),
        path,
        unread_count: 0,
        total_count: 0,
    }
}

/// The folders of an account from the server's listing: one per kept path,
/// in order, and an `INBOX` folder at the end when none of them is an inbox.
pub fn folders_from_mailboxes(account_id: &str, listing: &Vec<ListedMailbox>) -> (r: Vec<MailFolder>)
    ensures
        ({
            let paths = kept_paths(listing@);
            &&& r@.len() == paths.len() + if has_inbox(paths) { 0int } else { 1int }
            &&& forall|i: int| 0 <= i < paths.len() ==> folder_for_path(#[trigger] r@[i], account_id@, paths[i])
            &&& !has_inbox(paths) ==> folder_for_path(r@[paths.len() as int], account_id@, "INBOX"@)
        }),
        exists|i: int| 0 <= i < r@.len() && (#[trigger] r@[i]).role == FolderRole::Inbox,
{
    let mut folders: Vec<MailFolder> = Vec::new();
    let mut seen: Vec<String> = Vec::new();
    for i in 0..listing.len()
        invariant
            views_eq(seen@, kept_paths(listing@.take(i as int))),
            folders@.len() == seen@.len(),
            forall|j: int| 0 <= j < folders@.len() ==> folder_for_path(#[trigger] folders@[j], account_id@, seen@[j]@),
    {
        let ghost before = kept_paths(listing@.take(i as int));
        assert(listing@.take(i + 1).drop_last() =~= listing@.take(i as int));
        assert(listing@.take(i + 1).last() == listing@[i as int]);
        let m = &listing[i];
        if m.selectable {
            let known = contains_string(&seen, &m.name);
            proof {
                assert(string_set(seen@).contains(m.name@) == before.contains(m.name@)) by {
                    if before.contains(m.name@) {
                        let k = choose|k: int| 0 <= k < before.len() && before[k] == m.name@;
                        assert(seen@[k]@ == m.name@);
                    }
                    if string_set(seen@).contains(m.name@) {
                        let k = choose|k: int| 0 <= k < seen@.len() && seen@[k]@ == m.name@;
                        assert(before[k] == m.name@);
                    }
                }
            }
            if !known {
                seen.push(copy_string(&m.name));
                folders.push(folder_from_path(account_id, copy_string(&m.name)));
            }
        }
    }
    assert(listing@.take(listing@.len() as int) =~= listing@);
    let ghost paths = kept_paths(listing@);
    let mut found_inbox = false;
    for j in 0..folders.len()
        invariant
            views_eq(seen@, paths),
            folders@.len() == seen@.len(),
            forall|k: int| 0 <= k < folders@.len() ==> folder_for_path(#[trigger] folders@[k], account_id@, seen@[k]@),
            found_inbox == exists|k: int| 0 <= k < j && spec_infer_folder_role(#[trigger] paths[k]) == FolderRole::Inbox,
    {
        assert(folder_for_path(folders@[j as int], account_id@, seen@[j as int]@));
        if folders[j].role == FolderRole::Inbox {
            found_inbox = true;
        }
    }
    if !found_inbox {
        folders.push(folder_from_path(account_id, "INBOX".to_owned()));
        proof {
            lemma_inbox_path_is_inbox();
            assert(folders@[folders@.len() - 1].role == FolderRole::Inbox);
        }
    } else {
        proof {
            let k = choose|k: int| 0 <= k < folders@.len() && spec_infer_folder_role(#[trigger] paths[k])
                == FolderRole::Inbox;
            assert(folders@[k].role == FolderRole::Inbox);
        }
    }
    folders
}

/// The mailbox `INBOX` has the role of an inbox.
proof fn lemma_inbox_path_is_inbox()
    ensures
        spec_infer_folder_role("INBOX"@) == FolderRole::Inbox,
{
    reveal_strlit("INBOX");
    reveal_strlit("inbox");
    let low = crate::text::lower_seq("INBOX"@);
    assert(low =~= "inbox"@);
    reveal_with_fuel(last_segment, 6);
    assert(last_segment(low) =~= "inbox"@);
    crate::folders::lemma_folder_role_by_name("INBOX"@);
}

/// A sequence of strings whose views are `paths`.
pub open spec fn views_eq(v: Seq<String>, paths: Seq<Seq<char>>) -> bool {
    v.len() == paths.len() && forall|i: int| 0 <= i < v.len() ==> (#[trigger] v[i])@ == paths[i]
}

// ---------------------------------------------------------------------------
// Which UIDs one fetch takes
// ---------------------------------------------------------------------------

/// The order of UIDs.
pub open spec fn uid_leq() -> spec_fn(u32, u32) -> bool {
    |a: u32, b: u32| a <= b
}

/// The UIDs one fetch takes from those the search found, sorted: at most
/// `limit` of them (at least one), the newest on a first fetch, the oldest
/// when fetching on from a known UID.
pub open spec fn spec_select_fetch_uids(found: Seq<u32>, incremental: bool, limit: u32) -> Seq<u32> {
    let s = found.sort_by(uid_leq());
    let l: int = if limit == 0 {
        1
    } else {
        limit as int
    };
    if !incremental && s.len() > l {
        s.skip(s.len() - l)
    } else if s.len() > l {
        s.take(l)
    } else {
        s
    }
}

proof fn lemma_uid_leq_total()
    ensures
        total_ordering(uid_leq()),
{
}

/// One fetch takes as many UIDs as were found, but never more than the
/// limit (at least one), each a UID that was found, in ascending order; a
/// first fetch ends with the newest UID found, and fetching on from a known
/// UID starts with the oldest found.
pub proof fn lemma_select_fetch_uids_picks(found: Seq<u32>, incremental: bool, limit: u32)
    ensures
        spec_select_fetch_uids(found, incremental, limit).len() == if found.len() < (if limit == 0 {
            1
        } else {
            limit as int
        }) {
            found.len() as int
        } else if limit == 0 {
            1
        } else {
            limit as int
        },
        forall|i: int, j: int|
            0 <= i < j < spec_select_fetch_uids(found, incremental, limit).len() ==> spec_select_fetch_uids(
                found,
                incremental,
                limit,
            )[i] <= spec_select_fetch_uids(found, incremental, limit)[j],
        forall|i: int|
            0 <= i < spec_select_fetch_uids(found, incremental, limit).len() ==> found.contains(
                #[trigger] spec_select_fetch_uids(found, incremental, limit)[i],
            ),
        !incremental && found.len() > 0 ==> forall|k: int|
            0 <= k < found.len() ==> #[trigger] found[k] <= spec_select_fetch_uids(
                found,
                incremental,
                limit,
            ).last(),
        incremental && found.len() > 0 ==> forall|k: int|
            0 <= k < found.len() ==> spec_select_fetch_uids(found, incremental, limit)[0]
                <= #[trigger] found[k],
{
    let s = found.sort_by(uid_leq());
    let r = spec_select_fetch_uids(found, incremental, limit);
    lemma_uid_leq_total();
    found.lemma_sort_by_ensures(uid_leq());
    broadcast use vstd::seq_lib::to_multiset_contains, vstd::seq_lib::to_multiset_len;
    assert(s.len() == found.len()) by {
        assert(s.to_multiset().len() == found.to_multiset().len());
    }
    let l: int = if limit == 0 {
        1
    } else {
        limit as int
    };
    assert(forall|i: int, j: int| 0 <= i < j < s.len() ==> (uid_leq())(#[trigger] s[i], #[trigger] s[j]));
    assert forall|i: int| 0 <= i < s.len() implies found.contains(#[trigger] s[i]) by {
        assert(s.contains(s[i]));
        assert(s.to_multiset().count(s[i]) > 0);
    }
    assert forall|k: int| 0 <= k < found.len() implies s.contains(#[trigger] found[k]) by {
        assert(found.contains(found[k]));
        assert(found.to_multiset().count(found[k]) > 0);
    }
    if !incremental && s.len() > l {
        assert(r =~= s.skip(s.len() - l));
    } else if s.len() > l {
        assert(r =~= s.take(l));
    } else {
        assert(r =~= s);
    }
    assert forall|i: int| 0 <= i < r.len() implies found.contains(#[trigger] r[i]) by {
        if !incremental && s.len() > l {
            assert(r[i] == s[s.len() - l + i]);
        } else {
            assert(r[i] == s[i]);
        }
    }
    assert forall|i: int, j: int| 0 <= i < j < r.len() implies r[i] <= r[j] by {
        if !incremental && s.len() > l {
            assert(r[i] == s[s.len() - l + i] && r[j] == s[s.len() - l + j]);
            assert((uid_leq())(s[s.len() - l + i], s[s.len() - l + j]));
        } else {
            assert(r[i] == s[i] && r[j] == s[j]);
            assert((uid_leq())(s[i], s[j]));
        }
    }
    if found.len() > 0 {
        assert forall|k: int| 0 <= k < found.len() implies #[trigger] found[k] <= s.last() && s[0] <= found[k] by {
            assert(s.contains(found[k]));
            let m = choose|m: int| 0 <= m < s.len() && s[m] == found[k];
            if m < s.len() - 1 {
                assert((uid_leq())(s[m], s[s.len() - 1]));
            }
            if m > 0 {
                assert((uid_leq())(s[0], s[m]));
            }
        }
        if !incremental {
            assert(r.last() == s.last());
        } else {
            assert(r[0] == s[0]);
        }
    }
}

/// `found` sorted, by insertion.
fn sort_uids(found: &Vec<u32>) -> (r: Vec<u32>)
    ensures
        r@ == found@.sort_by(uid_leq()),
{
    broadcast use vstd::seq_lib::group_to_multiset_ensures, vstd::multiset::group_multiset_axioms;

    let mut out: Vec<u32> = Vec::new();
    for i in 0..found.len()
        invariant
            sorted_by(out@, uid_leq()),
            out@.to_multiset() == found@.take(i as int).to_multiset(),
    {
        let x = found[i];
        let mut pos: usize = 0;
        while pos < out.len() && out[pos] <= x
            invariant
                pos <= out@.len(),
                forall|k: int| 0 <= k < pos ==> out@[k] <= x,
            decreases out@.len() - pos,
        {
            pos = pos + 1;
        }
        let ghost before = out@;
        out.insert(pos, x);
        proof {
            assert(pos < before.len() ==> before[pos as int] > x);
            assert forall|a: int, b: int| 0 <= a < b < out@.len() implies (uid_leq())(out@[a], out@[b]) by {
                assert(sorted_by(before, uid_leq()));
                if b < pos {
                    assert(out@[a] == before[a] && out@[b] == before[b]);
                } else if b == pos {
                    assert(out@[a] == before[a]);
                } else if a < pos {
                    assert(out@[b] == before[b - 1]);
                    assert(out@[a] == before[a]);
                } else if a == pos {
                    assert(out@[b] == before[b - 1]);
                    if pos < b - 1 {
                        assert((uid_leq())(before[pos as int], before[b - 1]));
                    }
                    assert(before[pos as int] <= before[b - 1]);
                } else {
                    assert(out@[a] == before[a - 1] && out@[b] == before[b - 1]);
                }
            }
            assert(out@ == before.insert(pos as int, x));
            vstd::seq_lib::to_multiset_insert(before, pos as int, x);
            assert(found@.take(i + 1) =~= found@.take(i as int).push(x));
            vstd::seq_lib::to_multiset_build(found@.take(i as int), x);
            assert(out@.to_multiset() =~= found@.take(i + 1).to_multiset());
        }
    }
    proof {
        assert(found@.take(found@.len() as int) =~= found@);
        found@.lemma_sort_by_ensures(uid_leq());
        lemma_uid_leq_total();
        vstd::seq_lib::lemma_sorted_unique(out@, found@.sort_by(uid_leq()), uid_leq());
    }
    out
}

/// The UIDs one fetch takes.
pub fn select_fetch_uids(found: &Vec<u32>, incremental: bool, limit: u32) -> (r: Vec<u32>)
    ensures
        r@ == spec_select_fetch_uids(found@, incremental, limit),
{
    let sorted = sort_uids(found);
    let l: usize = if limit == 0 {
        1
    } else {
        limit as usize
    };
    let n = sorted.len();
    let mut out: Vec<u32> = Vec::new();
    let (from, to) = if !incremental && n > l {
        (n - l, n)
    } else if n > l {
        (0, l)
    } else {
        (0, n)
    };
    let mut k = from;
    while k < to
        invariant
            from <= k <= to <= n,
            n == sorted@.len(),
            out@ == sorted@.subrange(from as int, k as int),
        decreases to - k,
    {
        out.push(sorted[k]);
        assert(sorted@.subrange(from as int, k + 1) =~= sorted@.subrange(from as int, k as int).push(
            sorted@[k as int],
        ));
        k = k + 1;
    }
    assert(!incremental && n > l ==> out@ =~= sorted@.skip(n - l));
    assert(!(!incremental && n > l) && n > l ==> out@ =~= sorted@.take(l as int));
    assert(n <= l ==> out@ =~= sorted@);
    out
}

// ---------------------------------------------------------------------------
// Flags
// ---------------------------------------------------------------------------

/// A flag of a fetched message.
#[derive(Debug, Clone, Copy, PartialEq, Eq, Structural)]
pub enum FetchedFlag {
    Seen,
    Answered,
    Flagged,
    Other,
}

/// The message flags a list of fetched flags sets: read for `\Seen`,
/// answered for `\Answered`, starred for `\Flagged`.
pub open spec fn spec_flags_from_fetch(flags: Seq<FetchedFlag>) -> MessageFlags {
    MessageFlags {
        is_read: flags.contains(FetchedFlag::Seen),
        is_starred: flags.contains(FetchedFlag::Flagged),
        is_answered: flags.contains(FetchedFlag::Answered),
        is_forwarded: false,
    }
}

/// The message flags a list of fetched flags sets.
pub fn flags_from_fetch(flags: &Vec<FetchedFlag>) -> (r: MessageFlags)
    ensures
        r == spec_flags_from_fetch(flags@),
{
    let mut out = MessageFlags { is_read: false, is_starred: false, is_answered: false, is_forwarded: false };
    for i in 0..flags.len()
        invariant
            out == spec_flags_from_fetch(flags@.take(i as int)),
    {
        assert(flags@.take(i + 1) =~= flags@.take(i as int).push(flags@[i as int]));
        match flags[i] {
            FetchedFlag::Seen => out.is_read = true,
            FetchedFlag::Answered => out.is_answered = true,
            FetchedFlag::Flagged => out.is_starred = true,
            FetchedFlag::Other => {},
        }
        proof {
            let t = flags@.take(i + 1);
            assert(t.contains(FetchedFlag::Seen) == (flags@.take(i as int).contains(FetchedFlag::Seen) || flags@[i as int] == FetchedFlag::Seen)) by {
                if t.contains(FetchedFlag::Seen) {
                    let k = choose|k: int| 0 <= k < t.len() && t[k] == FetchedFlag::Seen;
                    if k < i {
                        assert(flags@.take(i as int)[k] == FetchedFlag::Seen);
                    }
                }
                if flags@.take(i as int).contains(FetchedFlag::Seen) {
                    let k = choose|k: int| 0 <= k < i && flags@.take(i as int)[k] == FetchedFlag::Seen;
                    assert(t[k] == FetchedFlag::Seen);
                }
                if flags@[i as int] == FetchedFlag::Seen {
                    assert(t[i as int] == FetchedFlag::Seen);
                }
            }
            assert(t.contains(FetchedFlag::Flagged) == (flags@.take(i as int).contains(FetchedFlag::Flagged) || flags@[i as int] == FetchedFlag::Flagged)) by {
                if t.contains(FetchedFlag::Flagged) {
                    let k = choose|k: int| 0 <= k < t.len() && t[k] == FetchedFlag::Flagged;
                    if k < i {
                        assert(flags@.take(i as int)[k] == FetchedFlag::Flagged);
                    }
                }
                if flags@.take(i as int).contains(FetchedFlag::Flagged) {
                    let k = choose|k: int| 0 <= k < i && flags@.take(i as int)[k] == FetchedFlag::Flagged;
                    assert(t[k] == FetchedFlag::Flagged);
                }
                if flags@[i as int] == FetchedFlag::Flagged {
                    assert(t[i as int] == FetchedFlag::Flagged);
                }
            }
            assert(t.contains(FetchedFlag::Answered) == (flags@.take(i as int).contains(FetchedFlag::Answered) || flags@[i as int] == FetchedFlag::Answered)) by {
                if t.contains(FetchedFlag::Answered) {
                    let k = choose|k: int| 0 <= k < t.len() && t[k] == FetchedFlag::Answered;
                    if k < i {
                        assert(flags@.take(i as int)[k] == FetchedFlag::Answered);
                    }
                }
                if flags@.take(i as int).contains(FetchedFlag::Answered) {
                    let k = choose|k: int| 0 <= k < i && flags@.take(i as int)[k] == FetchedFlag::Answered;
                    assert(t[k] == FetchedFlag::Answered);
                }
                if flags@[i as int] == FetchedFlag::Answered {
                    assert(t[i as int] == FetchedFlag::Answered);
                }
            }
        }
    }
    assert(flags@.take(flags@.len() as int) =~= flags@);
    out
}

// ---------------------------------------------------------------------------
// The order of fetched messages
// ---------------------------------------------------------------------------

/// Text order: character by character by code point, a text before any
/// longer text that it begins.
pub open spec fn text_le(a: Seq<char>, b: Seq<char>) -> bool
    decreases a.len(),
{
    if a.len() == 0 {
        true
    } else if b.len() == 0 {
        false
    } else if a[0] != b[0] {
        (a[0] as u32) < (b[0] as u32)
    } else {
        text_le(a.drop_first(), b.drop_first())
    }
}

/// The order of fetched messages: one without UID first, then by the text
/// order of their UIDs.
pub open spec fn uid_order_le(a: MailMessage, b: MailMessage) -> bool {
    match opt_view(a.uid) {
        None => true,
        Some(x) => match opt_view(b.uid) {
            None => false,
            Some(y) => text_le(x, y),
        },
    }
}

/// `s` with `m` put after the last message that does not come after it (at
/// the front where there is none).
pub open spec fn insert_by_uid(s: Seq<MailMessage>, m: MailMessage) -> Seq<MailMessage>
    decreases s.len(),
{
    if s.len() == 0 {
        seq![m]
    } else if uid_order_le(s.last(), m) {
        s.push(m)
    } else {
        insert_by_uid(s.drop_last(), m).push(s.last())
    }
}

/// Messages in the order of their UIDs, those that tie in the order given.
pub open spec fn sort_by_uid(s: Seq<MailMessage>) -> Seq<MailMessage>
    decreases s.len(),
{
    if s.len() == 0 {
        s
    } else {
        insert_by_uid(sort_by_uid(s.drop_last()), s.last())
    }
}

/// Whether text `a` does not come after text `b`.
fn text_le_exec(a: &str, b: &str) -> (r: bool)
    ensures
        r == text_le(a@, b@),
{
    let x = chars_of(a);
    let y = chars_of(b);
    let mut i: usize = 0;
    assert(a@.skip(0) =~= a@);
    assert(b@.skip(0) =~= b@);
    while i < x.len() && i < y.len()
        invariant
            i <= x@.len(),
            i <= y@.len(),
            x@ == a@,
            y@ == b@,
            text_le(a@, b@) == text_le(a@.skip(i as int), b@.skip(i as int)),
        decreases x@.len() - i,
    {
        assert(a@.skip(i as int).drop_first() =~= a@.skip(i + 1));
        assert(b@.skip(i as int).drop_first() =~= b@.skip(i + 1));
        if x[i] != y[i] {
            return (x[i] as u32) < (y[i] as u32);
        }
        i = i + 1;
    }
    i == x.len()
}

/// Whether message `a` does not come after message `b`.
fn uid_order_le_exec(a: &MailMessage, b: &MailMessage) -> (r: bool)
    ensures
        r == uid_order_le(*a, *b),
{
    match &a.uid {
        None => true,
        Some(x) => match &b.uid {
            None => false,
            Some(y) => text_le_exec(x.as_str(), y.as_str()),
        },
    }
}

proof fn lemma_insert_at(s: Seq<MailMessage>, m: MailMessage, j: int)
    requires
        0 <= j <= s.len(),
        forall|k: int| j <= k < s.len() ==> !uid_order_le(#[trigger] s[k], m),
        j == 0 || uid_order_le(s[j - 1], m),
    ensures
        insert_by_uid(s, m) == s.insert(j, m),
    decreases s.len(),
{
    if s.len() == j {
        if s.len() == 0 {
            assert(s.insert(j, m) =~= seq![m]);
        } else {
            assert(s.insert(j, m) =~= s.push(m));
        }
    } else {
        assert(!uid_order_le(s[s.len() - 1], m));
        let t = s.drop_last();
        assert forall|k: int| j <= k < t.len() implies !uid_order_le(#[trigger] t[k], m) by {
            assert(t[k] == s[k]);
        }
        lemma_insert_at(t, m, j);
        assert(s.insert(j, m) =~= t.insert(j, m).push(s.last()));
    }
}

/// Fetched messages in the order of their UIDs, as text (one without UID
/// first); messages that tie keep the order in which they came.
pub fn sort_messages_by_uid(messages: Vec<MailMessage>) -> (r: Vec<MailMessage>)
    ensures
        r@ == sort_by_uid(messages@),
{
    let ghost all = messages@;
    let mut rest = messages;
    let mut out: Vec<MailMessage> = Vec::new();
    let n = rest.len();
    let mut i: usize = 0;
    assert(all.take(0) =~= Seq::<MailMessage>::empty());
    assert(all.skip(0) =~= all);
    while i < n
        invariant
            n == all.len(),
            i <= n,
            rest@ == all.skip(i as int),
            out@ == sort_by_uid(all.take(i as int)),
        decreases n - i,
    {
        let m = rest.remove(0);
        assert(m == all[i as int]);
        assert(rest@ =~= all.skip(i + 1));
        let mut j = out.len();
        while j > 0 && !uid_order_le_exec(&out[j - 1], &m)
            invariant
                j <= out@.len(),
                forall|k: int| j <= k < out@.len() ==> !uid_order_le(#[trigger] out@[k], m),
            decreases j,
        {
            j = j - 1;
        }
        proof {
            lemma_insert_at(out@, m, j as int);
            assert(all.take(i + 1).drop_last() =~= all.take(i as int));
            assert(all.take(i + 1).last() == all[i as int]);
        }
        out.insert(j, m);
        i = i + 1;
    }
    assert(all.take(n as int) =~= all);
    out
}

proof fn lemma_text_le_total(a: Seq<char>, b: Seq<char>)
    ensures
        text_le(a, b) || text_le(b, a),
    decreases a.len(),
{
    if a.len() > 0 && b.len() > 0 {
        if a[0] == b[0] {
            lemma_text_le_total(a.drop_first(), b.drop_first());
        } else {
            vstd::utf8::char_u32_cast(a[0], a[0] as u32);
            vstd::utf8::char_u32_cast(b[0], b[0] as u32);
        }
    }
}

proof fn lemma_text_le_transitive(a: Seq<char>, b: Seq<char>, c: Seq<char>)
    requires
        text_le(a, b),
        text_le(b, c),
    ensures
        text_le(a, c),
    decreases a.len(),
{
    if a.len() > 0 && a[0] == b[0] && b[0] == c[0] {
        lemma_text_le_transitive(a.drop_first(), b.drop_first(), c.drop_first());
    }
}

proof fn lemma_uid_order_total(a: MailMessage, b: MailMessage)
    ensures
        uid_order_le(a, b) || uid_order_le(b, a),
{
    if a.uid is Some && b.uid is Some {
        lemma_text_le_total(a.uid->0@, b.uid->0@);
    }
}

proof fn lemma_uid_order_transitive(a: MailMessage, b: MailMessage, c: MailMessage)
    requires
        uid_order_le(a, b),
        uid_order_le(b, c),
    ensures
        uid_order_le(a, c),
{
    if a.uid is Some && b.uid is Some && c.uid is Some {
        lemma_text_le_transitive(a.uid->0@, b.uid->0@, c.uid->0@);
    }
}

/// Whether messages are in the order of their UIDs.
pub open spec fn in_uid_order(s: Seq<MailMessage>) -> bool {
    forall|i: int, j: int| 0 <= i < j < s.len() ==> uid_order_le(#[trigger] s[i], #[trigger] s[j])
}

proof fn lemma_insert_below(t: Seq<MailMessage>, m: MailMessage, bound: MailMessage)
    requires
        forall|i: int| 0 <= i < t.len() ==> uid_order_le(#[trigger] t[i], bound),
        uid_order_le(m, bound),
    ensures
        forall|k: int|
            0 <= k < insert_by_uid(t, m).len() ==> uid_order_le(#[trigger] insert_by_uid(t, m)[k], bound),
    decreases t.len(),
{
    if t.len() == 0 {
        assert(insert_by_uid(t, m) =~= seq![m]);
    } else if uid_order_le(t.last(), m) {
        let r = t.push(m);
        assert forall|k: int| 0 <= k < r.len() implies uid_order_le(#[trigger] r[k], bound) by {
            if k < t.len() {
                assert(r[k] == t[k]);
            }
        }
    } else {
        let u = t.drop_last();
        assert forall|i: int| 0 <= i < u.len() implies uid_order_le(#[trigger] u[i], bound) by {
            assert(u[i] == t[i]);
        }
        lemma_insert_below(u, m, bound);
        let v = insert_by_uid(u, m);
        let r = v.push(t.last());
        assert(uid_order_le(t[t.len() - 1], bound));
        assert forall|k: int| 0 <= k < r.len() implies uid_order_le(#[trigger] r[k], bound) by {
            if k < v.len() {
                assert(r[k] == v[k]);
            }
        }
    }
}

proof fn lemma_insert_by_uid(t: Seq<MailMessage>, m: MailMessage)
    requires
        in_uid_order(t),
    ensures
        in_uid_order(insert_by_uid(t, m)),
        insert_by_uid(t, m).to_multiset() =~= t.to_multiset().insert(m),
        insert_by_uid(t, m).len() == t.len() + 1,
    decreases t.len(),
{
    broadcast use vstd::multiset::group_multiset_axioms;

    if t.len() == 0 {
        assert(seq![m] =~= Seq::<MailMessage>::empty().push(m));
        vstd::seq_lib::to_multiset_build(Seq::<MailMessage>::empty(), m);
        assert(t =~= Seq::<MailMessage>::empty());
    } else if uid_order_le(t.last(), m) {
        let r = t.push(m);
        assert forall|i: int, j: int| 0 <= i < j < r.len() implies uid_order_le(
            #[trigger] r[i],
            #[trigger] r[j],
        ) by {
            if j == t.len() && i < t.len() - 1 {
                lemma_uid_order_transitive(t[i], t.last(), m);
            }
        }
        vstd::seq_lib::to_multiset_build(t, m);
    } else {
        let u = t.drop_last();
        let last = t.last();
        assert(in_uid_order(u)) by {
            assert forall|i: int, j: int| 0 <= i < j < u.len() implies uid_order_le(
                #[trigger] u[i],
                #[trigger] u[j],
            ) by {
                assert(u[i] == t[i] && u[j] == t[j]);
            }
        }
        lemma_insert_by_uid(u, m);
        lemma_uid_order_total(last, m);
        assert forall|i: int| 0 <= i < u.len() implies uid_order_le(#[trigger] u[i], last) by {
            assert(u[i] == t[i]);
            assert(t[t.len() - 1] == last);
        }
        lemma_insert_below(u, m, last);
        let v = insert_by_uid(u, m);
        let r = v.push(last);
        assert forall|i: int, j: int| 0 <= i < j < r.len() implies uid_order_le(
            #[trigger] r[i],
            #[trigger] r[j],
        ) by {
            if j == v.len() {
                assert(r[i] == v[i]);
            } else {
                assert(r[i] == v[i] && r[j] == v[j]);
            }
        }
        vstd::seq_lib::to_multiset_build(v, last);
        vstd::seq_lib::to_multiset_build(u, last);
        assert(u.push(last) =~= t);
    }
}

/// Sorting by UID loses and adds no message and leaves them in the order of
/// their UIDs.
pub proof fn lemma_sort_by_uid_orders(s: Seq<MailMessage>)
    ensures
        sort_by_uid(s).to_multiset() =~= s.to_multiset(),
        in_uid_order(sort_by_uid(s)),
    decreases s.len(),
{
    if s.len() > 0 {
        let u = s.drop_last();
        lemma_sort_by_uid_orders(u);
        lemma_insert_by_uid(sort_by_uid(u), s.last());
        vstd::seq_lib::to_multiset_build(u, s.last());
        assert(u.push(s.last()) =~= s);
    }
}

} // verus!
