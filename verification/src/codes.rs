//! The text codes under which enumerations are stored, and back.
use vstd::prelude::*;
use crate::model::{ActionAuditStatus, FolderRole, MailActionKind, PendingActionStatus, SyncStateKind};
use crate::text::str_is;

verus! {

/// The stored code of a folder role.
pub open spec fn spec_folder_role_code(v: FolderRole) -> Seq<char> {
    match v {
        FolderRole::Inbox => "inbox"@,
        FolderRole::Sent => "sent"@,
        FolderRole::Archive => "archive"@,
        FolderRole::Trash => "trash"@,
        FolderRole::Drafts => "drafts"@,
        FolderRole::Junk => "junk"@,
        FolderRole::Custom => "custom"@,
    }
}

/// The folder role a stored code names; an unknown code reads as `Custom`.
pub open spec fn spec_folder_role_from_code(s: Seq<char>) -> FolderRole {
    if s == "inbox"@ {
        FolderRole::Inbox
    } else if s == "sent"@ {
        FolderRole::Sent
    } else if s == "archive"@ {
        FolderRole::Archive
    } else if s == "trash"@ {
        FolderRole::Trash
    } else if s == "drafts"@ {
        FolderRole::Drafts
    } else if s == "junk"@ {
        FolderRole::Junk
    } else {
        FolderRole::Custom
    }
}

/// The stored code of a folder role.
pub fn folder_role_to_str(v: FolderRole) -> (r: &'static str)
    ensures
        r@ == spec_folder_role_code(v),
{
    match v {
        FolderRole::Inbox => "inbox",
        FolderRole::Sent => "sent",
        FolderRole::Archive => "archive",
        FolderRole::Trash => "trash",
        FolderRole::Drafts => "drafts",
        FolderRole::Junk => "junk",
        FolderRole::Custom => "custom",
    }
}

/// The folder role a stored code names.
pub fn folder_role_from_str(s: &str) -> (r: FolderRole)
    ensures
        r == spec_folder_role_from_code(s@),
{
    if str_is(s, "inbox") {
        FolderRole::Inbox
    } else if str_is(s, "sent") {
        FolderRole::Sent
    } else if str_is(s, "archive") {
        FolderRole::Archive
    } else if str_is(s, "trash") {
        FolderRole::Trash
    } else if str_is(s, "drafts") {
        FolderRole::Drafts
    } else if str_is(s, "junk") {
        FolderRole::Junk
    } else {
        FolderRole::Custom
    }
}

/// Reading back the stored code of a folder role gives it back.
pub proof fn lemma_folder_role_code_round_trip(v: FolderRole)
    ensures
        spec_folder_role_from_code(spec_folder_role_code(v)) == v,
{
    match v {
        FolderRole::Inbox => {
            reveal_strlit("inbox");
        },
        FolderRole::Sent => {
            reveal_strlit("sent");
            reveal_strlit("inbox");
            assert("sent"@.len() != "inbox"@.len());
        },
        FolderRole::Archive => {
            reveal_strlit("archive");
            reveal_strlit("inbox");
            assert("archive"@.len() != "inbox"@.len());
            reveal_strlit("sent");
            assert("archive"@.len() != "sent"@.len());
        },
        FolderRole::Trash => {
            reveal_strlit("trash");
            reveal_strlit("inbox");
            assert("trash"@[0] != "inbox"@[0]);
            reveal_strlit("sent");
            assert("trash"@.len() != "sent"@.len());
            reveal_strlit("archive");
            assert("trash"@.len() != "archive"@.len());
        },
        FolderRole::Drafts => {
            reveal_strlit("drafts");
            reveal_strlit("inbox");
            assert("drafts"@.len() != "inbox"@.len());
            reveal_strlit("sent");
            assert("drafts"@.len() != "sent"@.len());
            reveal_strlit("archive");
            assert("drafts"@.len() != "archive"@.len());
            reveal_strlit("trash");
            assert("drafts"@.len() != "trash"@.len());
        },
        FolderRole::Junk => {
            reveal_strlit("junk");
            reveal_strlit("inbox");
            assert("junk"@.len() != "inbox"@.len());
            reveal_strlit("sent");
            assert("junk"@[0] != "sent"@[0]);
            reveal_strlit("archive");
            assert("junk"@.len() != "archive"@.len());
            reveal_strlit("trash");
            assert("junk"@.len() != "trash"@.len());
            reveal_strlit("drafts");
            assert("junk"@.len() != "drafts"@.len());
        },
        FolderRole::Custom => {
            reveal_strlit("custom");
            reveal_strlit("inbox");
            assert("custom"@.len() != "inbox"@.len());
            reveal_strlit("sent");
            assert("custom"@.len() != "sent"@.len());
            reveal_strlit("archive");
            assert("custom"@.len() != "archive"@.len());
            reveal_strlit("trash");
            assert("custom"@.len() != "trash"@.len());
            reveal_strlit("drafts");
            assert("custom"@[0] != "drafts"@[0]);
            reveal_strlit("junk");
            assert("custom"@.len() != "junk"@.len());
        },
    }
}

/// The stored code of a synchronisation state.
pub open spec fn spec_sync_state_code(v: SyncStateKind) -> Seq<char> {
    match v {
        SyncStateKind::Idle => "idle"@,
        SyncStateKind::Syncing => "syncing"@,
        SyncStateKind::Watching => "watching"@,
        SyncStateKind::Backoff => "backoff"@,
        SyncStateKind::Error => "error"@,
        SyncStateKind::Disabled => "disabled"@,
    }
}

/// The synchronisation state a stored code names; an unknown code reads as `Idle`.
pub open spec fn spec_sync_state_from_code(s: Seq<char>) -> SyncStateKind {
    if s == "syncing"@ {
        SyncStateKind::Syncing
    } else if s == "watching"@ {
        SyncStateKind::Watching
    } else if s == "backoff"@ {
        SyncStateKind::Backoff
    } else if s == "error"@ {
        SyncStateKind::Error
    } else if s == "disabled"@ {
        SyncStateKind::Disabled
    } else {
        SyncStateKind::Idle
    }
}

/// The stored code of a synchronisation state.
pub fn sync_state_to_str(v: SyncStateKind) -> (r: &'static str)
    ensures
        r@ == spec_sync_state_code(v),
{
    match v {
        SyncStateKind::Idle => "idle",
        SyncStateKind::Syncing => "syncing",
        SyncStateKind::Watching => "watching",
        SyncStateKind::Backoff => "backoff",
        SyncStateKind::Error => "error",
        SyncStateKind::Disabled => "disabled",
    }
}

/// The synchronisation state a stored code names.
pub fn sync_state_from_str(s: &str) -> (r: SyncStateKind)
    ensures
        r == spec_sync_state_from_code(s@),
{
    if str_is(s, "syncing") {
        SyncStateKind::Syncing
    } else if str_is(s, "watching") {
        SyncStateKind::Watching
    } else if str_is(s, "backoff") {
        SyncStateKind::Backoff
    } else if str_is(s, "error") {
        SyncStateKind::Error
    } else if str_is(s, "disabled") {
        SyncStateKind::Disabled
    } else {
        SyncStateKind::Idle
    }
}

/// Reading back the stored code of a synchronisation state gives it back.
pub proof fn lemma_sync_state_code_round_trip(v: SyncStateKind)
    ensures
        spec_sync_state_from_code(spec_sync_state_code(v)) == v,
{
    match v {
        SyncStateKind::Idle => {
            reveal_strlit("idle");
            reveal_strlit("syncing");
            assert("idle"@.len() != "syncing"@.len());
            reveal_strlit("watching");
            assert("idle"@.len() != "watching"@.len());
            reveal_strlit("backoff");
            assert("idle"@.len() != "backoff"@.len());
            reveal_strlit("error");
            assert("idle"@.len() != "error"@.len());
            reveal_strlit("disabled");
            assert("idle"@.len() != "disabled"@.len());
        },
        SyncStateKind::Syncing => {
            reveal_strlit("syncing");
        },
        SyncStateKind::Watching => {
            reveal_strlit("watching");
            reveal_strlit("syncing");
            assert("watching"@.len() != "syncing"@.len());
        },
        SyncStateKind::Backoff => {
            reveal_strlit("backoff");
            reveal_strlit("syncing");
            assert("backoff"@[0] != "syncing"@[0]);
            reveal_strlit("watching");
            assert("backoff"@.len() != "watching"@.len());
        },
        SyncStateKind::Error => {
            reveal_strlit("error");
            reveal_strlit("syncing");
            assert("error"@.len() != "syncing"@.len());
            reveal_strlit("watching");
            assert("error"@.len() != "watching"@.len());
            reveal_strlit("backoff");
            assert("error"@.len() != "backoff"@.len());
        },
        SyncStateKind::Disabled => {
            reveal_strlit("disabled");
            reveal_strlit("syncing");
            assert("disabled"@.len() != "syncing"@.len());
            reveal_strlit("watching");
            assert("disabled"@[0] != "watching"@[0]);
            reveal_strlit("backoff");
            assert("disabled"@.len() != "backoff"@.len());
            reveal_strlit("error");
            assert("disabled"@.len() != "error"@.len());
        },
    }
}

/// The stored code of a action.
pub open spec fn spec_action_code(v: MailActionKind) -> Seq<char> {
    match v {
        MailActionKind::MarkRead => "mark_read"@,
        MailActionKind::MarkUnread => "mark_unread"@,
        MailActionKind::Star => "star"@,
        MailActionKind::Unstar => "unstar"@,
        MailActionKind::Move => "move"@,
        MailActionKind::Archive => "archive"@,
        MailActionKind::Delete => "delete"@,
        MailActionKind::PermanentDelete => "permanent_delete"@,
        MailActionKind::Send => "send"@,
        MailActionKind::Forward => "forward"@,
        MailActionKind::BatchDelete => "batch_delete"@,
        MailActionKind::BatchMove => "batch_move"@,
    }
}

/// The action a stored code names; an unknown code reads as `MarkRead`.
pub open spec fn spec_action_from_code(s: Seq<char>) -> MailActionKind {
    if s == "mark_unread"@ {
        MailActionKind::MarkUnread
    } else if s == "star"@ {
        MailActionKind::Star
    } else if s == "unstar"@ {
        MailActionKind::Unstar
    } else if s == "move"@ {
        MailActionKind::Move
    } else if s == "archive"@ {
        MailActionKind::Archive
    } else if s == "delete"@ {
        MailActionKind::Delete
    } else if s == "permanent_delete"@ {
        MailActionKind::PermanentDelete
    } else if s == "send"@ {
        MailActionKind::Send
    } else if s == "forward"@ {
        MailActionKind::Forward
    } else if s == "batch_delete"@ {
        MailActionKind::BatchDelete
    } else if s == "batch_move"@ {
        MailActionKind::BatchMove
    } else {
        MailActionKind::MarkRead
    }
}

/// The stored code of a action.
pub fn action_to_str(v: MailActionKind) -> (r: &'static str)
    ensures
        r@ == spec_action_code(v),
{
    match v {
        MailActionKind::MarkRead => "mark_read",
        MailActionKind::MarkUnread => "mark_unread",
        MailActionKind::Star => "star",
        MailActionKind::Unstar => "unstar",
        MailActionKind::Move => "move",
        MailActionKind::Archive => "archive",
        MailActionKind::Delete => "delete",
        MailActionKind::PermanentDelete => "permanent_delete",
        MailActionKind::Send => "send",
        MailActionKind::Forward => "forward",
        MailActionKind::BatchDelete => "batch_delete",
        MailActionKind::BatchMove => "batch_move",
    }
}

/// The action a stored code names.
pub fn action_from_str(s: &str) -> (r: MailActionKind)
    ensures
        r == spec_action_from_code(s@),
{
    if str_is(s, "mark_unread") {
        MailActionKind::MarkUnread
    } else if str_is(s, "star") {
        MailActionKind::Star
    } else if str_is(s, "unstar") {
        MailActionKind::Unstar
    } else if str_is(s, "move") {
        MailActionKind::Move
    } else if str_is(s, "archive") {
        MailActionKind::Archive
    } else if str_is(s, "delete") {
        MailActionKind::Delete
    } else if str_is(s, "permanent_delete") {
        MailActionKind::PermanentDelete
    } else if str_is(s, "send") {
        MailActionKind::Send
    } else if str_is(s, "forward") {
        MailActionKind::Forward
    } else if str_is(s, "batch_delete") {
        MailActionKind::BatchDelete
    } else if str_is(s, "batch_move") {
        MailActionKind::BatchMove
    } else {
        MailActionKind::MarkRead
    }
}

/// Reading back the stored code of an action gives it back.
pub proof fn lemma_action_code_round_trip(v: MailActionKind)
    ensures
        spec_action_from_code(spec_action_code(v)) == v,
{
    match v {
        MailActionKind::MarkRead => {
            reveal_strlit("mark_read");
            reveal_strlit("mark_unread");
            assert("mark_read"@.len() != "mark_unread"@.len());
            reveal_strlit("star");
            assert("mark_read"@.len() != "star"@.len());
            reveal_strlit("unstar");
            assert("mark_read"@.len() != "unstar"@.len());
            reveal_strlit("move");
            assert("mark_read"@.len() != "move"@.len());
            reveal_strlit("archive");
            assert("mark_read"@.len() != "archive"@.len());
            reveal_strlit("delete");
            assert("mark_read"@.len() != "delete"@.len());
            reveal_strlit("permanent_delete");
            assert("mark_read"@.len() != "permanent_delete"@.len());
            reveal_strlit("send");
            assert("mark_read"@.len() != "send"@.len());
            reveal_strlit("forward");
            assert("mark_read"@.len() != "forward"@.len());
            reveal_strlit("batch_delete");
            assert("mark_read"@.len() != "batch_delete"@.len());
            reveal_strlit("batch_move");
            assert("mark_read"@.len() != "batch_move"@.len());
        },
        MailActionKind::MarkUnread => {
            reveal_strlit("mark_unread");
        },
        MailActionKind::Star => {
            reveal_strlit("star");
            reveal_strlit("mark_unread");
            assert("star"@.len() != "mark_unread"@.len());
        },
        MailActionKind::Unstar => {
            reveal_strlit("unstar");
            reveal_strlit("mark_unread");
            assert("unstar"@.len() != "mark_unread"@.len());
            reveal_strlit("star");
            assert("unstar"@.len() != "star"@.len());
        },
        MailActionKind::Move => {
            reveal_strlit("move");
            reveal_strlit("mark_unread");
            assert("move"@.len() != "mark_unread"@.len());
            reveal_strlit("star");
            assert("move"@[0] != "star"@[0]);
            reveal_strlit("unstar");
            assert("move"@.len() != "unstar"@.len());
        },
        MailActionKind::Archive => {
            reveal_strlit("archive");
            reveal_strlit("mark_unread");
            assert("archive"@.len() != "mark_unread"@.len());
            reveal_strlit("star");
            assert("archive"@.len() != "star"@.len());
            reveal_strlit("unstar");
            assert("archive"@.len() != "unstar"@.len());
            reveal_strlit("move");
            assert("archive"@.len() != "move"@.len());
        },
        MailActionKind::Delete => {
            reveal_strlit("delete");
            reveal_strlit("mark_unread");
            assert("delete"@.len() != "mark_unread"@.len());
            reveal_strlit("star");
            assert("delete"@.len() != "star"@.len());
            reveal_strlit("unstar");
            assert("delete"@[0] != "unstar"@[0]);
            reveal_strlit("move");
            assert("delete"@.len() != "move"@.len());
            reveal_strlit("archive");
            assert("delete"@.len() != "archive"@.len());
        },
        MailActionKind::PermanentDelete => {
            reveal_strlit("permanent_delete");
            reveal_strlit("mark_unread");
            assert("permanent_delete"@.len() != "mark_unread"@.len());
            reveal_strlit("star");
            assert("permanent_delete"@.len() != "star"@.len());
            reveal_strlit("unstar");
            assert("permanent_delete"@.len() != "unstar"@.len());
            reveal_strlit("move");
            assert("permanent_delete"@.len() != "move"@.len());
            reveal_strlit("archive");
            assert("permanent_delete"@.len() != "archive"@.len());
            reveal_strlit("delete");
            assert("permanent_delete"@.len() != "delete"@.len());
        },
        MailActionKind::Send => {
            reveal_strlit("send");
            reveal_strlit("mark_unread");
            assert("send"@.len() != "mark_unread"@.len());
            reveal_strlit("star");
            assert("send"@[1] != "star"@[1]);
            reveal_strlit("unstar");
            assert("send"@.len() != "unstar"@.len());
            reveal_strlit("move");
            assert("send"@[0] != "move"@[0]);
            reveal_strlit("archive");
            assert("send"@.len() != "archive"@.len());
            reveal_strlit("delete");
            assert("send"@.len() != "delete"@.len());
            reveal_strlit("permanent_delete");
            assert("send"@.len() != "permanent_delete"@.len());
        },
        MailActionKind::Forward => {
            reveal_strlit("forward");
            reveal_strlit("mark_unread");
            assert("forward"@.len() != "mark_unread"@.len());
            reveal_strlit("star");
            assert("forward"@.len() != "star"@.len());
            reveal_strlit("unstar");
            assert("forward"@.len() != "unstar"@.len());
            reveal_strlit("move");
            assert("forward"@.len() != "move"@.len());
            reveal_strlit("archive");
            assert("forward"@[0] != "archive"@[0]);
            reveal_strlit("delete");
            assert("forward"@.len() != "delete"@.len());
            reveal_strlit("permanent_delete");
            assert("forward"@.len() != "permanent_delete"@.len());
            reveal_strlit("send");
            assert("forward"@.len() != "send"@.len());
        },
        MailActionKind::BatchDelete => {
            reveal_strlit("batch_delete");
            reveal_strlit("mark_unread");
            assert("batch_delete"@.len() != "mark_unread"@.len());
            reveal_strlit("star");
            assert("batch_delete"@.len() != "star"@.len());
            reveal_strlit("unstar");
            assert("batch_delete"@.len() != "unstar"@.len());
            reveal_strlit("move");
            assert("batch_delete"@.len() != "move"@.len());
            reveal_strlit("archive");
            assert("batch_delete"@.len() != "archive"@.len());
            reveal_strlit("delete");
            assert("batch_delete"@.len() != "delete"@.len());
            reveal_strlit("permanent_delete");
            assert("batch_delete"@.len() != "permanent_delete"@.len());
            reveal_strlit("send");
            assert("batch_delete"@.len() != "send"@.len());
            reveal_strlit("forward");
            assert("batch_delete"@.len() != "forward"@.len());
        },
        MailActionKind::BatchMove => {
            reveal_strlit("batch_move");
            reveal_strlit("mark_unread");
            assert("batch_move"@.len() != "mark_unread"@.len());
            reveal_strlit("star");
            assert("batch_move"@.len() != "star"@.len());
            reveal_strlit("unstar");
            assert("batch_move"@.len() != "unstar"@.len());
            reveal_strlit("move");
            assert("batch_move"@.len() != "move"@.len());
            reveal_strlit("archive");
            assert("batch_move"@.len() != "archive"@.len());
            reveal_strlit("delete");
            assert("batch_move"@.len() != "delete"@.len());
            reveal_strlit("permanent_delete");
            assert("batch_move"@.len() != "permanent_delete"@.len());
            reveal_strlit("send");
            assert("batch_move"@.len() != "send"@.len());
            reveal_strlit("forward");
            assert("batch_move"@.len() != "forward"@.len());
            reveal_strlit("batch_delete");
            assert("batch_move"@.len() != "batch_delete"@.len());
        },
    }
}

/// The stored code of a audit status.
pub open spec fn spec_audit_status_code(v: ActionAuditStatus) -> Seq<char> {
    match v {
        ActionAuditStatus::Queued => "queued"@,
        ActionAuditStatus::Accepted => "accepted"@,
        ActionAuditStatus::Rejected => "rejected"@,
        ActionAuditStatus::Executed => "executed"@,
        ActionAuditStatus::Failed => "failed"@,
    }
}

/// The audit status a stored code names; an unknown code reads as `Executed`.
pub open spec fn spec_audit_status_from_code(s: Seq<char>) -> ActionAuditStatus {
    if s == "queued"@ {
        ActionAuditStatus::Queued
    } else if s == "accepted"@ {
        ActionAuditStatus::Accepted
    } else if s == "rejected"@ {
        ActionAuditStatus::Rejected
    } else if s == "failed"@ {
        ActionAuditStatus::Failed
    } else {
        ActionAuditStatus::Executed
    }
}

/// The stored code of a audit status.
pub fn audit_status_to_str(v: ActionAuditStatus) -> (r: &'static str)
    ensures
        r@ == spec_audit_status_code(v),
{
    match v {
        ActionAuditStatus::Queued => "queued",
        ActionAuditStatus::Accepted => "accepted",
        ActionAuditStatus::Rejected => "rejected",
        ActionAuditStatus::Executed => "executed",
        ActionAuditStatus::Failed => "failed",
    }
}

/// The audit status a stored code names.
pub fn audit_status_from_str(s: &str) -> (r: ActionAuditStatus)
    ensures
        r == spec_audit_status_from_code(s@),
{
    if str_is(s, "queued") {
        ActionAuditStatus::Queued
    } else if str_is(s, "accepted") {
        ActionAuditStatus::Accepted
    } else if str_is(s, "rejected") {
        ActionAuditStatus::Rejected
    } else if str_is(s, "failed") {
        ActionAuditStatus::Failed
    } else {
        ActionAuditStatus::Executed
    }
}

/// Reading back the stored code of an audit status gives it back.
pub proof fn lemma_audit_status_code_round_trip(v: ActionAuditStatus)
    ensures
        spec_audit_status_from_code(spec_audit_status_code(v)) == v,
{
    match v {
        ActionAuditStatus::Queued => {
            reveal_strlit("queued");
        },
        ActionAuditStatus::Accepted => {
            reveal_strlit("accepted");
            reveal_strlit("queued");
            assert("accepted"@.len() != "queued"@.len());
        },
        ActionAuditStatus::Rejected => {
            reveal_strlit("rejected");
            reveal_strlit("queued");
            assert("rejected"@.len() != "queued"@.len());
            reveal_strlit("accepted");
            assert("rejected"@[0] != "accepted"@[0]);
        },
        ActionAuditStatus::Executed => {
            reveal_strlit("executed");
            reveal_strlit("queued");
            assert("executed"@.len() != "queued"@.len());
            reveal_strlit("accepted");
            assert("executed"@[0] != "accepted"@[0]);
            reveal_strlit("rejected");
            assert("executed"@[0] != "rejected"@[0]);
            reveal_strlit("failed");
            assert("executed"@.len() != "failed"@.len());
        },
        ActionAuditStatus::Failed => {
            reveal_strlit("failed");
            reveal_strlit("queued");
            assert("failed"@[0] != "queued"@[0]);
            reveal_strlit("accepted");
            assert("failed"@.len() != "accepted"@.len());
            reveal_strlit("rejected");
            assert("failed"@.len() != "rejected"@.len());
        },
    }
}

/// The stored code of a pending action status.
pub open spec fn spec_pending_status_code(v: PendingActionStatus) -> Seq<char> {
    match v {
        PendingActionStatus::Pending => "pending"@,
        PendingActionStatus::Accepted => "accepted"@,
        PendingActionStatus::Rejected => "rejected"@,
        PendingActionStatus::Executed => "executed"@,
        PendingActionStatus::Failed => "failed"@,
    }
}

/// The pending action status a stored code names; an unknown code reads as `Pending`.
pub open spec fn spec_pending_status_from_code(s: Seq<char>) -> PendingActionStatus {
    if s == "accepted"@ {
        PendingActionStatus::Accepted
    } else if s == "rejected"@ {
        PendingActionStatus::Rejected
    } else if s == "executed"@ {
        PendingActionStatus::Executed
    } else if s == "failed"@ {
        PendingActionStatus::Failed
    } else {
        PendingActionStatus::Pending
    }
}

/// The stored code of a pending action status.
pub fn pending_status_to_str(v: PendingActionStatus) -> (r: &'static str)
    ensures
        r@ == spec_pending_status_code(v),
{
    match v {
        PendingActionStatus::Pending => "pending",
        PendingActionStatus::Accepted => "accepted",
        PendingActionStatus::Rejected => "rejected",
        PendingActionStatus::Executed => "executed",
        PendingActionStatus::Failed => "failed",
    }
}

/// The pending action status a stored code names.
pub fn pending_status_from_str(s: &str) -> (r: PendingActionStatus)
    ensures
        r == spec_pending_status_from_code(s@),
{
    if str_is(s, "accepted") {
        PendingActionStatus::Accepted
    } else if str_is(s, "rejected") {
        PendingActionStatus::Rejected
    } else if str_is(s, "executed") {
        PendingActionStatus::Executed
    } else if str_is(s, "failed") {
        PendingActionStatus::Failed
    } else {
        PendingActionStatus::Pending
    }
}

/// Reading back the stored code of a pending action status gives it back.
pub proof fn lemma_pending_status_code_round_trip(v: PendingActionStatus)
    ensures
        spec_pending_status_from_code(spec_pending_status_code(v)) == v,
{
    match v {
        PendingActionStatus::Pending => {
            reveal_strlit("pending");
            reveal_strlit("accepted");
            assert("pending"@.len() != "accepted"@.len());
            reveal_strlit("rejected");
            assert("pending"@.len() != "rejected"@.len());
            reveal_strlit("executed");
            assert("pending"@.len() != "executed"@.len());
            reveal_strlit("failed");
            assert("pending"@.len() != "failed"@.len());
        },
        PendingActionStatus::Accepted => {
            reveal_strlit("accepted");
        },
        PendingActionStatus::Rejected => {
            reveal_strlit("rejected");
            reveal_strlit("accepted");
            assert("rejected"@[0] != "accepted"@[0]);
        },
        PendingActionStatus::Executed => {
            reveal_strlit("executed");
            reveal_strlit("accepted");
            assert("executed"@[0] != "accepted"@[0]);
            reveal_strlit("rejected");
            assert("executed"@[0] != "rejected"@[0]);
        },
        PendingActionStatus::Failed => {
            reveal_strlit("failed");
            reveal_strlit("accepted");
            assert("failed"@.len() != "accepted"@.len());
            reveal_strlit("rejected");
            assert("failed"@.len() != "rejected"@.len());
            reveal_strlit("executed");
            assert("failed"@.len() != "executed"@.len());
        },
    }
}

} // verus!
