//! Where mail passwords are kept outside the database.
use vstd::prelude::*;
use crate::errors::SecretError;
use crate::text::{chars_of, concat2};

verus! {

/// A store of secrets by target name.
pub trait SecretStore {
    fn set_secret(&self, target: &str, secret: &str) -> Result<(), SecretError>;

    fn get_secret(&self, target: &str) -> Result<String, SecretError>;

    fn delete_secret(&self, target: &str) -> Result<(), SecretError>;
}

/// The target name under which an account's mail password is stored.
pub open spec fn spec_mail_password_target(account_id: Seq<char>) -> Seq<char> {
    "AgentMail/mail-password/"@ + account_id
}

/// The target name under which an account's mail password is stored.
pub fn mail_password_target(account_id: &str) -> (r: String)
    ensures
        r@ == spec_mail_password_target(account_id@),
{
    concat2("AgentMail/mail-password/", account_id)
}

/// The credential store of Windows.
#[derive(Debug, Clone, Copy, Default)]
pub struct WindowsCredentialStore;

/// The UTF-16 code units of one character.
pub open spec fn utf16_units(c: char) -> Seq<u16> {
    let u = c as u32;
    if u < 0x10000 {
        seq![u as u16]
    } else {
        let v = (u - 0x10000) as u32;
        seq![(0xD800 + v / 1024) as u16, (0xDC00 + v % 1024) as u16]
    }
}

/// The UTF-16 code units of a sequence of characters.
pub open spec fn utf16_seq(s: Seq<char>) -> Seq<u16>
    decreases s.len(),
{
    if s.len() == 0 {
        Seq::empty()
    } else {
        utf16_seq(s.drop_last()) + utf16_units(s.last())
    }
}

impl WindowsCredentialStore {
    /// `value` in UTF-16, ended by a zero unit, as Windows wants text.
    pub fn to_wide(value: &str) -> (r: Vec<u16>)
        ensures
            r@ == utf16_seq(value@).push(0u16),
    {
        let chars = chars_of(value);
        let mut out: Vec<u16> = Vec::new();
        for i in 0..chars.len()
            invariant
                out@ == utf16_seq(chars@.take(i as int)),
        {
            let c = chars[i];
            let u = c as u32;
            proof {
                vstd::utf8::char_is_scalar(c);
            }
            assert(chars@.take(i + 1).drop_last() =~= chars@.take(i as int));
            if u < 0x10000 {
                out.push(u as u16);
                assert(out@ =~= utf16_seq(chars@.take(i as int)) + utf16_units(c));
            } else {
                assert(u <= 0x10FFFF);
                let v = u - 0x10000;
                out.push((0xD800 + v / 1024) as u16);
                out.push((0xDC00 + v % 1024) as u16);
                assert(out@ =~= utf16_seq(chars@.take(i as int)) + utf16_units(c));
            }
        }
        assert(chars@.take(chars@.len() as int) =~= chars@);
        out.push(0);
        out
    }
}

// ---------------------------------------------------------------------------
// A store kept in memory
// ---------------------------------------------------------------------------

/// The text of each (target, secret) entry.
pub open spec fn entry_views(s: Seq<(String, String)>) -> Seq<(Seq<char>, Seq<char>)> {
    s.map_values(|e: (String, String)| (e.0@, e.1@))
}

/// The secrets that a list of (target, secret) entries holds: a later entry
/// for a target replaces an earlier one.
pub open spec fn entries_map(s: Seq<(Seq<char>, Seq<char>)>) -> Map<Seq<char>, Seq<char>>
    decreases s.len(),
{
    if s.len() == 0 {
        Map::empty()
    } else {
        entries_map(s.drop_last()).insert(s.last().0, s.last().1)
    }
}

/// The entries of `s` whose target is not `k`, in order.
pub open spec fn without_target(s: Seq<(Seq<char>, Seq<char>)>, k: Seq<char>) -> Seq<(Seq<char>, Seq<char>)>
    decreases s.len(),
{
    if s.len() == 0 {
        s
    } else if s.last().0 == k {
        without_target(s.drop_last(), k)
    } else {
        without_target(s.drop_last(), k).push(s.last())
    }
}

proof fn lemma_without_target(s: Seq<(Seq<char>, Seq<char>)>, k: Seq<char>)
    ensures
        entries_map(without_target(s, k)) =~= entries_map(s).remove(k),
    decreases s.len(),
{
    if s.len() > 0 {
        lemma_without_target(s.drop_last(), k);
        let w = without_target(s.drop_last(), k);
        if s.last().0 != k {
            assert(without_target(s, k).drop_last() == w);
            assert(without_target(s, k).last() == s.last());
        }
    }
}

/// Secrets kept in memory for the life of the process.
#[derive(Debug)]
pub struct MemorySecretStore {
    entries: Vec<(String, String)>,
}

impl MemorySecretStore {
    /// The secrets held, by target.
    pub closed spec fn view(&self) -> Map<Seq<char>, Seq<char>> {
        entries_map(entry_views(self.entries@))
    }

    /// A store with no secrets.
    pub fn new() -> (r: MemorySecretStore)
        ensures
            r.view() == Map::<Seq<char>, Seq<char>>::empty(),
    {
        let r = MemorySecretStore { entries: Vec::new() };
        assert(entry_views(r.entries@) =~= Seq::<(Seq<char>, Seq<char>)>::empty());
        r
    }

    /// Stores `secret` under `target`, replacing what was there.
    pub fn set_secret(&mut self, target: &str, secret: &str) -> (r: Result<(), SecretError>)
        ensures
            r is Ok,
            final(self).view() == old(self).view().insert(target@, secret@),
    {
        self.delete_secret(target)?;
        let ghost before = self.entries@;
        self.entries.push((target.to_owned(), secret.to_owned()));
        assert(entry_views(self.entries@) =~= entry_views(before).push((target@, secret@)));
        assert(entry_views(self.entries@).drop_last() =~= entry_views(before));
        assert(old(self).view().remove(target@).insert(target@, secret@) =~= old(self).view().insert(
            target@,
            secret@,
        ));
        Ok(())
    }

    /// The secret stored under `target`, or `NotFound` naming the target.
    pub fn get_secret(&self, target: &str) -> (r: Result<String, SecretError>)
        ensures
            self.view().contains_key(target@) ==> (r matches Ok(s) && s@ == self.view()[target@]),
            !self.view().contains_key(target@) ==> (r matches Err(SecretError::NotFound(t)) && t@
                == target@),
    {
        let ghost all = entry_views(self.entries@);
        let n = self.entries.len();
        let mut i = n;
        assert(all.take(n as int) =~= all);
        while i > 0
            invariant
                i <= n,
                n == self.entries@.len(),
                all == entry_views(self.entries@),
                entries_map(all).contains_key(target@) == entries_map(all.take(i as int)).contains_key(
                    target@,
                ),
                entries_map(all).contains_key(target@) ==> entries_map(all)[target@] == entries_map(
                    all.take(i as int),
                )[target@],
            decreases i,
        {
            assert(all.take(i as int).drop_last() =~= all.take(i - 1));
            assert(all.take(i as int).last() == all[i - 1]);
            let (k, v) = &self.entries[i - 1];
            if crate::text::str_is(k.as_str(), target) {
                return Ok(v.clone());
            }
            i = i - 1;
        }
        assert(all.take(0) =~= Seq::<(Seq<char>, Seq<char>)>::empty());
        Err(SecretError::NotFound(target.to_owned()))
    }

    /// Forgets the secret stored under `target`, if any.
    pub fn delete_secret(&mut self, target: &str) -> (r: Result<(), SecretError>)
        ensures
            r is Ok,
            final(self).view() == old(self).view().remove(target@),
    {
        let ghost k = target@;
        let ghost all = entry_views(self.entries@);
        let mut kept: Vec<(String, String)> = Vec::new();
        let n = self.entries.len();
        for i in 0..n
            invariant
                k == target@,
                n == self.entries@.len(),
                all == entry_views(self.entries@),
                entry_views(kept@) == without_target(all.take(i as int), k),
        {
            assert(all.take(i + 1).drop_last() =~= all.take(i as int));
            assert(all.take(i + 1).last() == all[i as int]);
            let (t, s) = &self.entries[i];
            assert(all[i as int] == (t@, s@));
            if !crate::text::str_is(t.as_str(), target) {
                let ghost before = kept@;
                kept.push((t.clone(), s.clone()));
                assert(entry_views(kept@) =~= entry_views(before).push(all[i as int]));
                assert(without_target(all.take(i + 1), k) == without_target(all.take(i as int), k).push(
                    all[i as int],
                ));
            } else {
                assert(without_target(all.take(i + 1), k) == without_target(all.take(i as int), k));
            }
        }
        assert(all.take(n as int) =~= all);
        proof {
            lemma_without_target(all, k);
        }
        self.entries = kept;
        Ok(())
    }
}

/// What the store gives back for a target after a write and after a delete:
/// the written secret, then nothing.
pub proof fn lemma_secret_round_trip(
    store: Map<Seq<char>, Seq<char>>,
    target: Seq<char>,
    secret: Seq<char>,
)
    ensures
        store.insert(target, secret).contains_key(target),
        store.insert(target, secret)[target] == secret,
        !store.insert(target, secret).remove(target).contains_key(target),
{
}

} // verus!
