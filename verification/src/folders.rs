//! Folder names, roles and identifiers derived from IMAP mailbox paths.
use vstd::prelude::*;
use vstd::slice::slice_subrange;
use crate::model::FolderRole;
use crate::text::{
    chars_eq, chars_of, is_ascii_alnum, is_ascii_alnum_char, literal, lower_chars, lower_seq,
    slice_range, string_from_chars, append_chars,
};

verus! {

/// The separators of mailbox path segments.
pub open spec fn is_path_sep(c: char) -> bool {
    c == '/' || c == '.'
}

/// The last segment of a path: what follows its last `/` or `.`, or the
/// whole path when it has neither.
pub open spec fn last_segment(s: Seq<char>) -> Seq<char>
    decreases s.len(),
{
    if s.len() == 0 || is_path_sep(s.last()) {
        Seq::empty()
    } else {
        last_segment(s.drop_last()).push(s.last())
    }
}

/// The index where the last segment of `s` starts.
fn last_segment_start(s: &[char]) -> (i: usize)
    ensures
        i <= s@.len(),
        last_segment(s@) == s@.subrange(i as int, s@.len() as int),
{
    let mut i: usize = s.len();
    assert(s@.take(i as int) =~= s@);
    assert(s@.subrange(i as int, s@.len() as int) =~= Seq::<char>::empty());
    assert(last_segment(s@) == last_segment(s@.take(i as int)) + s@.subrange(i as int, s@.len() as int));
    while i > 0 && !(s[i - 1] == '/' || s[i - 1] == '.')
        invariant
            i <= s@.len(),
            last_segment(s@) == last_segment(s@.take(i as int)) + s@.subrange(
                i as int,
                s@.len() as int,
            ),
        decreases i,
    {
        assert(s@.take(i as int).drop_last() =~= s@.take(i - 1));
        assert(s@.subrange(i - 1, s@.len() as int) =~= seq![s@[i - 1]] + s@.subrange(
            i as int,
            s@.len() as int,
        ));
        assert(last_segment(s@.take(i - 1)).push(s@[i - 1]) + s@.subrange(i as int, s@.len() as int)
            =~= last_segment(s@.take(i - 1)) + s@.subrange(i - 1, s@.len() as int));
        i = i - 1;
    }
    assert(last_segment(s@.take(i as int)).len() == 0);
    assert(last_segment(s@) =~= s@.subrange(i as int, s@.len() as int));
    i
}

/// The role a mailbox path suggests, from the lower-case name of its last segment.
pub open spec fn spec_infer_folder_role(path: Seq<char>) -> FolderRole {
    let name = last_segment(lower_seq(path));
    if name == "inbox"@ {
        FolderRole::Inbox
    } else if name == "sent"@ || name == "sent mail"@ || name == "sent messages"@ || name
        == "sent items"@ {
        FolderRole::Sent
    } else if name == "archive"@ || name == "archives"@ {
        FolderRole::Archive
    } else if name == "trash"@ || name == "deleted"@ || name == "deleted messages"@ || name
        == "deleted items"@ {
        FolderRole::Trash
    } else if name == "drafts"@ || name == "draft"@ {
        FolderRole::Drafts
    } else if name == "spam"@ || name == "junk"@ || name == "junk email"@ {
        FolderRole::Junk
    } else {
        FolderRole::Custom
    }
}

/// Whether `v` spells the literal `lit`.
fn is_literal(v: &[char], lit: &str) -> (r: bool)
    ensures
        r == (v@ == lit@),
{
    let l = literal(lit);
    chars_eq(v, l.as_slice())
}

/// The lower-case last segment of a path.
fn lower_last_segment(path: &str) -> (out: Vec<char>)
    ensures
        out@ == last_segment(lower_seq(path@)),
{
    let v = chars_of(path);
    let l = lower_chars(v.as_slice());
    let i = last_segment_start(l.as_slice());
    slice_range(l.as_slice(), i, l.len())
}

/// The role a mailbox path suggests.
pub fn infer_folder_role(path: &str) -> (r: FolderRole)
    ensures
        r == spec_infer_folder_role(path@),
{
    let n = lower_last_segment(path);
    let name = n.as_slice();
    if is_literal(name, "inbox") {
        FolderRole::Inbox
    } else if is_literal(name, "sent") || is_literal(name, "sent mail") || is_literal(
        name,
        "sent messages",
    ) || is_literal(name, "sent items") {
        FolderRole::Sent
    } else if is_literal(name, "archive") || is_literal(name, "archives") {
        FolderRole::Archive
    } else if is_literal(name, "trash") || is_literal(name, "deleted") || is_literal(
        name,
        "deleted messages",
    ) || is_literal(name, "deleted items") {
        FolderRole::Trash
    } else if is_literal(name, "drafts") || is_literal(name, "draft") {
        FolderRole::Drafts
    } else if is_literal(name, "spam") || is_literal(name, "junk") || is_literal(
        name,
        "junk email",
    ) {
        FolderRole::Junk
    } else {
        FolderRole::Custom
    }
}

/// Whether the last segment of a path names a folder of sent mail.
pub open spec fn spec_is_sent_folder_path(path: Seq<char>) -> bool {
    let name = last_segment(lower_seq(path));
    name == "sent"@ || name == "sent mail"@ || name == "sent messages"@ || name == "sent items"@
}

/// Whether the last segment of a path names a folder of sent mail.
pub fn is_sent_folder_path(path: &str) -> (r: bool)
    ensures
        r == spec_is_sent_folder_path(path@),
{
    let n = lower_last_segment(path);
    let name = n.as_slice();
    is_literal(name, "sent") || is_literal(name, "sent mail") || is_literal(name, "sent messages")
        || is_literal(name, "sent items")
}

/// A path whose last segment names sent mail has the role `Sent`.
pub proof fn lemma_sent_path_has_sent_role(path: Seq<char>)
    requires
        spec_is_sent_folder_path(path),
    ensures
        spec_infer_folder_role(path) == FolderRole::Sent,
{
    let name = last_segment(lower_seq(path));
    reveal_strlit("inbox");
    reveal_strlit("sent");
    reveal_strlit("sent mail");
    reveal_strlit("sent messages");
    reveal_strlit("sent items");
    if name == "inbox"@ {
        assert(name.len() == 5);
        if name == "sent"@ {
        } else if name == "sent mail"@ {
        } else if name == "sent messages"@ {
        } else {
            assert(name[0] == 's');
        }
    }
}

/// The role of a mailbox follows from the lower-case name of the last
/// segment of its path: `inbox` is the inbox; `sent`, `sent mail`, `sent
/// messages` and `sent items` hold sent mail; `archive` and `archives` the
/// archive; `trash`, `deleted`, `deleted messages` and `deleted items` the
/// trash; `drafts` and `draft` the drafts; `spam`, `junk` and `junk email`
/// junk mail; any other name is a folder of the user's own.
pub proof fn lemma_folder_role_by_name(path: Seq<char>)
    ensures
        last_segment(lower_seq(path)) == "inbox"@ ==> spec_infer_folder_role(path) == FolderRole::Inbox,
        last_segment(lower_seq(path)) == "sent"@ || last_segment(lower_seq(path)) == "sent mail"@
            || last_segment(lower_seq(path)) == "sent messages"@ || last_segment(lower_seq(path))
            == "sent items"@ ==> spec_infer_folder_role(path) == FolderRole::Sent,
        last_segment(lower_seq(path)) == "archive"@ || last_segment(lower_seq(path)) == "archives"@
            ==> spec_infer_folder_role(path) == FolderRole::Archive,
        last_segment(lower_seq(path)) == "trash"@ || last_segment(lower_seq(path)) == "deleted"@
            || last_segment(lower_seq(path)) == "deleted messages"@ || last_segment(lower_seq(path))
            == "deleted items"@ ==> spec_infer_folder_role(path) == FolderRole::Trash,
        last_segment(lower_seq(path)) == "drafts"@ || last_segment(lower_seq(path)) == "draft"@
            ==> spec_infer_folder_role(path) == FolderRole::Drafts,
        last_segment(lower_seq(path)) == "spam"@ || last_segment(lower_seq(path)) == "junk"@
            || last_segment(lower_seq(path)) == "junk email"@ ==> spec_infer_folder_role(path)
            == FolderRole::Junk,
{
    let name = last_segment(lower_seq(path));
    reveal_strlit("inbox");
    reveal_strlit("sent");
    reveal_strlit("sent mail");
    reveal_strlit("sent messages");
    reveal_strlit("sent items");
    reveal_strlit("archive");
    reveal_strlit("archives");
    reveal_strlit("trash");
    reveal_strlit("deleted");
    reveal_strlit("deleted messages");
    reveal_strlit("deleted items");
    reveal_strlit("drafts");
    reveal_strlit("draft");
    reveal_strlit("spam");
    reveal_strlit("junk");
    reveal_strlit("junk email");
    // The names of each role differ from those of the roles tested before
    // it in their first or second letter.
    assert(name == "inbox"@ ==> name[0] == 'i');
    assert(name == "sent"@ || name == "sent mail"@ || name == "sent messages"@ || name
        == "sent items"@ ==> name[0] == 's' && name[1] == 'e');
    assert(name == "archive"@ || name == "archives"@ ==> name[0] == 'a');
    assert(name == "trash"@ || name == "deleted"@ || name == "deleted messages"@ || name
        == "deleted items"@ ==> name[0] == 't' || name[0] == 'd' && name[1] == 'e');
    assert(name == "drafts"@ || name == "draft"@ ==> name[0] == 'd' && name[1] == 'r');
    assert(name == "spam"@ || name == "junk"@ || name == "junk email"@ ==> name[0] == 'j' || name[0]
        == 's' && name[1] == 'p');
}

/// A path names a folder of sent mail exactly when its role is `Sent`.
pub proof fn lemma_sent_path_iff_sent_role(path: Seq<char>)
    ensures
        spec_is_sent_folder_path(path) <==> spec_infer_folder_role(path) == FolderRole::Sent,
{
    lemma_folder_role_by_name(path);
}

/// The name shown for a folder: the last segment of its path.
pub fn display_folder_name(path: &str) -> (r: String)
    ensures
        r@ == last_segment(path@),
{
    let v = chars_of(path);
    let i = last_segment_start(v.as_slice());
    let seg = slice_subrange(v.as_slice(), i, v.len());
    string_from_chars(seg)
}

/// A path character as it appears in a folder identifier.
pub open spec fn safe_char(c: char) -> char {
    if is_ascii_alnum(c) {
        c
    } else {
        '-'
    }
}

/// `s` without leading and trailing `-`.
pub open spec fn trim_dashes(s: Seq<char>) -> Seq<char>
    decreases s.len(),
{
    if s.len() > 0 && s[0] == '-' {
        trim_dashes(s.drop_first())
    } else if s.len() > 0 && s.last() == '-' {
        trim_dashes(s.drop_last())
    } else {
        s
    }
}

/// The identifier of the folder with `path` in account `account_id`: the
/// account, `:`, and the path with every character that is not an ASCII
/// letter or digit turned into `-`, outer dashes removed, in lower case.
pub open spec fn spec_folder_id(account_id: Seq<char>, path: Seq<char>) -> Seq<char> {
    account_id + seq![':'] + lower_seq(trim_dashes(path.map_values(|c: char| safe_char(c))))
}

/// Trimming dashes from letters, digits and dashes leaves letters, digits
/// and dashes, with no dash at either end.
proof fn lemma_trim_dashes_shape(s: Seq<char>)
    requires
        forall|i: int| 0 <= i < s.len() ==> is_ascii_alnum(#[trigger] s[i]) || s[i] == '-',
    ensures
        forall|i: int|
            0 <= i < trim_dashes(s).len() ==> is_ascii_alnum(#[trigger] trim_dashes(s)[i])
                || trim_dashes(s)[i] == '-',
        trim_dashes(s).len() > 0 ==> trim_dashes(s)[0] != '-' && trim_dashes(s).last() != '-',
    decreases s.len(),
{
    if s.len() > 0 && s[0] == '-' {
        let t = s.drop_first();
        assert forall|i: int| 0 <= i < t.len() implies is_ascii_alnum(#[trigger] t[i]) || t[i] == '-' by {
            assert(t[i] == s[i + 1]);
        }
        lemma_trim_dashes_shape(t);
    } else if s.len() > 0 && s.last() == '-' {
        let t = s.drop_last();
        assert forall|i: int| 0 <= i < t.len() implies is_ascii_alnum(#[trigger] t[i]) || t[i] == '-' by {
            assert(t[i] == s[i]);
        }
        lemma_trim_dashes_shape(t);
    }
}

/// A folder identifier is the account, `:`, and then only lower-case ASCII
/// letters, digits and dashes, with no dash at either end of that part.
pub proof fn lemma_folder_id_shape(account_id: Seq<char>, path: Seq<char>)
    ensures
        spec_folder_id(account_id, path).take(account_id.len() as int) == account_id,
        spec_folder_id(account_id, path)[account_id.len() as int] == ':',
        forall|i: int|
            account_id.len() < i < spec_folder_id(account_id, path).len() ==> {
                let c = #[trigger] spec_folder_id(account_id, path)[i];
                ('a' <= c && c <= 'z') || ('0' <= c && c <= '9') || c == '-'
            },
        spec_folder_id(account_id, path).len() > account_id.len() + 1 ==> spec_folder_id(
            account_id,
            path,
        )[account_id.len() + 1int] != '-' && spec_folder_id(account_id, path).last() != '-',
{
    let m = path.map_values(|c: char| safe_char(c));
    assert forall|i: int| 0 <= i < m.len() implies is_ascii_alnum(#[trigger] m[i]) || m[i] == '-' by {}
    lemma_trim_dashes_shape(m);
    let t = trim_dashes(m);
    let low = lower_seq(t);
    let id = spec_folder_id(account_id, path);
    let n = account_id.len() as int;
    assert(id =~= account_id + seq![':'] + low);
    assert(id.take(n) =~= account_id);
    assert forall|i: int| n < i < id.len() implies {
        let c = #[trigger] id[i];
        ('a' <= c && c <= 'z') || ('0' <= c && c <= '9') || c == '-'
    } by {
        assert(id[i] == low[i - n - 1]);
        assert(low[i - n - 1] == crate::text::lower(t[i - n - 1]));
    }
    if id.len() > n + 1 {
        assert(id[n + 1] == crate::text::lower(t[0]));
        assert(id.last() == crate::text::lower(t.last()));
    }
}

/// The identifier of the folder with `path` in account `account_id`.
pub fn folder_id(account_id: &str, path: &str) -> (r: String)
    ensures
        r@ == spec_folder_id(account_id@, path@),
{
    let v = chars_of(path);
    let mut mapped: Vec<char> = Vec::new();
    for i in 0..v.len()
        invariant
            mapped@ == v@.take(i as int).map_values(|c: char| safe_char(c)),
    {
        let c = v[i];
        mapped.push(if is_ascii_alnum_char(c) { c } else { '-' });
        assert(v@.take(i + 1).map_values(|c: char| safe_char(c)) =~= v@.take(i as int).map_values(
            |c: char| safe_char(c),
        ).push(safe_char(c)));
    }
    assert(v@.take(v@.len() as int) =~= v@);
    // trim dashes from both ends
    let mut a: usize = 0;
    let mut b: usize = mapped.len();
    assert(mapped@.subrange(0, mapped@.len() as int) =~= mapped@);
    while a < b && mapped[a] == '-'
        invariant
            a <= b <= mapped@.len(),
            b == mapped@.len(),
            trim_dashes(mapped@) == trim_dashes(mapped@.subrange(a as int, b as int)),
        decreases b - a,
    {
        assert(mapped@.subrange(a as int, b as int).drop_first() =~= mapped@.subrange(
            a + 1,
            b as int,
        ));
        a = a + 1;
    }
    while a < b && mapped[b - 1] == '-'
        invariant
            a <= b <= mapped@.len(),
            a < b ==> mapped@[a as int] != '-',
            trim_dashes(mapped@) == trim_dashes(mapped@.subrange(a as int, b as int)),
        decreases b - a,
    {
        let ghost w = mapped@.subrange(a as int, b as int);
        assert(w.drop_last() =~= mapped@.subrange(a as int, b - 1));
        assert(w[0] != '-');
        b = b - 1;
    }
    let core = slice_subrange(mapped.as_slice(), a, b);
    assert(trim_dashes(core@) == core@) by {
        if core@.len() > 0 {
            assert(core@[0] == mapped@[a as int]);
            assert(core@.last() == mapped@[b - 1]);
        }
    }
    let lowered = lower_chars(core);
    let mut out = chars_of(account_id);
    out.push(':');
    append_chars(&mut out, lowered.as_slice());
    string_from_chars(out.as_slice())
}

} // verus!
