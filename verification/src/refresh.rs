//! How a fetched message is merged into the store without making a second
//! row: a local placeholder for the same message is filled in, a row that
//! already holds the message's UID is updated, and only messages that are not
//! deleted are indexed for search.
use vstd::prelude::*;
use crate::model::MailMessage;
use crate::text::{copy_string, opt_view};

verus! {

/// The Message-ID header under which a local placeholder of `m` is looked
/// for: only a message with both a UID and a Message-ID header can fill one.
pub open spec fn spec_placeholder_lookup(m: MailMessage) -> Option<Seq<char>> {
    if m.uid is Some {
        opt_view(m.message_id_header)
    } else {
        None
    }
}

/// The Message-ID header under which a local placeholder of `m` is looked
/// for, if any.
pub fn placeholder_lookup(m: &MailMessage) -> (r: Option<String>)
    ensures
        opt_view(r) == spec_placeholder_lookup(*m),
{
    match &m.uid {
        Some(_) => match &m.message_id_header {
            Some(h) => Some(copy_string(h)),
            None => None,
        },
        None => None,
    }
}

/// How a fetched message is written.
#[derive(Debug, PartialEq, Eq)]
pub enum UpsertWrite {
    /// Fill in the placeholder row `id`; first remove any other row of the
    /// folder that holds the message's UID `duplicate_uid` under the same
    /// Message-ID header.
    UpdatePlaceholder { id: String, duplicate_uid: Option<String> },
    /// Insert the message, or update the row that already holds its UID.
    InsertOrUpdateByUid,
}

/// How a fetched message is written, given the placeholder found for it.
pub fn upsert_write(m: &MailMessage, placeholder: Option<String>) -> (r: UpsertWrite)
    ensures
        match placeholder {
            Some(p) => r matches UpsertWrite::UpdatePlaceholder { id, duplicate_uid } && id == p
                && opt_view(duplicate_uid) == opt_view(m.uid),
            None => r is InsertOrUpdateByUid,
        },
{
    match placeholder {
        Some(p) => UpsertWrite::UpdatePlaceholder {
            id: p,
            duplicate_uid: match &m.uid {
                Some(u) => Some(copy_string(u)),
                None => None,
            },
        },
        None => UpsertWrite::InsertOrUpdateByUid,
    }
}

/// Whether, after an insert, the stored row is looked up by the message's
/// UID (it may be an older row that the insert updated).
pub fn uid_row_lookup(m: &MailMessage) -> (r: Option<String>)
    ensures
        opt_view(r) == opt_view(m.uid),
{
    match &m.uid {
        Some(u) => Some(copy_string(u)),
        None => None,
    }
}

/// The identifier of the row that holds a fetched message: the placeholder
/// it filled, else the row that holds its UID, else its own.
pub open spec fn spec_stored_message_id(
    m: MailMessage,
    placeholder: Option<Seq<char>>,
    uid_row: Option<Seq<char>>,
) -> Seq<char> {
    match placeholder {
        Some(p) => p,
        None => match uid_row {
            Some(u) => u,
            None => m.id@,
        },
    }
}

/// The identifier of the row that holds a fetched message.
pub fn stored_message_id(m: &MailMessage, placeholder: Option<String>, uid_row: Option<String>) -> (r:
    String)
    ensures
        r@ == spec_stored_message_id(*m, opt_view(placeholder), opt_view(uid_row)),
{
    match placeholder {
        Some(p) => p,
        None => match uid_row {
            Some(u) => u,
            None => copy_string(&m.id),
        },
    }
}

/// Whether a message is indexed for search once stored: only when it is not
/// deleted.
pub fn indexed_after_upsert(m: &MailMessage) -> (r: bool)
    ensures
        r == (m.deleted_at is None),
{
    m.deleted_at.is_none()
}

/// Refreshes are duplicate-safe: a message fetched again under a UID that a
/// row already holds is stored in that row, whatever identifier the new
/// copy carries; a message that fills a placeholder is stored in the
/// placeholder's row; and only a message with a UID and a Message-ID header
/// is matched with a placeholder.
pub proof fn lemma_refresh_keeps_one_row(
    a: MailMessage,
    b: MailMessage,
    p: Option<Seq<char>>,
    u: Seq<char>,
)
    requires
        a.uid == b.uid,
        a.uid is Some,
    ensures
        spec_stored_message_id(a, None, Some(u)) == spec_stored_message_id(b, None, Some(u)),
        p matches Some(x) ==> spec_stored_message_id(a, p, Some(u)) == x,
        spec_placeholder_lookup(a) is Some ==> a.uid is Some && a.message_id_header is Some,
{
}

} // verus!
