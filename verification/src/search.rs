//! The text the message store indexes for search, and the full-text query a
//! search term becomes.
use vstd::prelude::*;
use crate::model::MailMessage;
use crate::protocol::{join, join_strings};
use crate::text::{
    chars_of, copy_string, literal, opt_view, replace_all, replace_chars, string_from_chars, trim,
    trim_chars, views,
};

verus! {

/// The full-text query for a search term: the trimmed term as one phrase in
/// double quotes, each quote inside doubled; nothing for a blank term, which
/// lists messages instead.
pub open spec fn spec_fts_query(term: Seq<char>) -> Option<Seq<char>> {
    let t = trim(term);
    if t.len() == 0 {
        None
    } else {
        Some(seq!['"'] + replace_all(t, seq!['"'], seq!['"', '"']) + seq!['"'])
    }
}

/// Doubling quotes changes nothing in a text without quotes.
proof fn lemma_no_quote_unchanged(s: Seq<char>)
    requires
        !s.contains('"'),
    ensures
        replace_all(s, seq!['"'], seq!['"', '"']) == s,
    decreases s.len(),
{
    if s.len() > 0 {
        assert(s.take(1)[0] == s[0]);
        assert(s.take(1) != seq!['"']);
        assert(!s.drop_first().contains('"')) by {
            if s.drop_first().contains('"') {
                let k = choose|k: int| 0 <= k < s.drop_first().len() && s.drop_first()[k] == '"';
                assert(s[k + 1] == '"');
            }
        }
        lemma_no_quote_unchanged(s.drop_first());
        assert(seq![s[0]] + s.drop_first() =~= s);
    }
}

/// A term's query: a blank term gives none; otherwise the trimmed term is
/// one phrase in double quotes, its own text kept where it has no quote,
/// and each quote at its start doubled.
pub proof fn lemma_fts_query_phrase(term: Seq<char>, rest: Seq<char>)
    ensures
        trim(term).len() == 0 ==> spec_fts_query(term) is None,
        trim(term).len() > 0 && !trim(term).contains('"') ==> spec_fts_query(term) == Some(
            seq!['"'] + trim(term) + seq!['"'],
        ),
        replace_all(seq!['"'] + rest, seq!['"'], seq!['"', '"']) == seq!['"', '"'] + replace_all(
            rest,
            seq!['"'],
            seq!['"', '"'],
        ),
{
    if trim(term).len() > 0 && !trim(term).contains('"') {
        lemma_no_quote_unchanged(trim(term));
    }
    let q = seq!['"'] + rest;
    assert(q.take(1) =~= seq!['"']);
    assert(q.skip(1) =~= rest);
}

/// The full-text query for a search term.
pub fn fts_query(term: &str) -> (r: Option<String>)
    ensures
        opt_view(r) == spec_fts_query(term@),
{
    let t = trim_chars(chars_of(term).as_slice());
    if t.len() == 0 {
        return None;
    }
    let quote = vec!['"'];
    let doubled = vec!['"', '"'];
    let escaped = replace_chars(t.as_slice(), quote.as_slice(), doubled.as_slice());
    let mut out = vec!['"'];
    crate::text::append_chars(&mut out, escaped.as_slice());
    out.push('"');
    assert(quote@ =~= seq!['"']);
    assert(doubled@ =~= seq!['"', '"']);
    assert(out@ =~= seq!['"'] + escaped@ + seq!['"']);
    Some(string_from_chars(out.as_slice()))
}

/// What the search index holds for a message.
#[derive(Debug, Clone, PartialEq, Eq)]
pub struct FtsDocument {
    pub subject: String,
    pub sender: String,
    pub recipients: String,
    pub body: String,
    pub summary: String,
}

/// What the search index holds for a message: its subject, sender, the
/// recipients separated by spaces, its body (or, without one, its preview),
/// and its preview as summary.
pub fn fts_document(message: &MailMessage) -> (r: FtsDocument)
    ensures
        r.subject@ == message.subject@,
        r.sender@ == message.sender@,
        r.recipients@ == join(views(message.recipients@), seq![' ']),
        r.body@ == match message.body {
            Some(b) => b@,
            None => message.body_preview@,
        },
        r.summary@ == message.body_preview@,
{
    let body = match &message.body {
        Some(b) => copy_string(b),
        None => copy_string(&message.body_preview),
    };
    let recipients = join_strings(&message.recipients, " ");
    assert(" "@ =~= seq![' ']) by {
        reveal_strlit(" ");
    }
    FtsDocument {
        subject: copy_string(&message.subject),
        sender: copy_string(&message.sender),
        recipients,
        body,
        summary: copy_string(&message.body_preview),
    }
}

/// The folder key a sync state is stored under: its folder, or the empty
/// text for the account's own state.
pub fn sync_state_folder_key(folder_id: &Option<String>) -> (r: String)
    ensures
        r@ == match folder_id {
            Some(f) => f@,
            None => Seq::<char>::empty(),
        },
{
    match folder_id {
        Some(f) => copy_string(f),
        None => String::new(),
    }
}

} // verus!
