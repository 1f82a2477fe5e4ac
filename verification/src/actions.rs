//! The rules for acting on messages: which actions wait for the user's
//! confirmation, which messages and folders an action may touch, what the
//! server is asked, and what changes locally afterwards.
use vstd::prelude::*;
use crate::account::account_to_settings;
use crate::errors::{ApiError, ProtocolError, action_debug_name, is_invalid_request};
use crate::folders::spec_is_sent_folder_path;
use crate::folders::is_sent_folder_path;
use crate::model::{
    ActionAuditStatus, ConnectionAuth, ConnectionSettings, FolderRole, MailAccount, MailActionAudit, MailActionKind,
    MailActionRequest, MailActionResult, MailActionResultKind, MailFolder, MailMessage, MessageFlags,
    MessageFetchRequest, MessageFlagPatch, PendingActionStatus, PendingMailAction, RemoteMailAction, SendMessageDraft,
    spec_is_move_like,
};
use crate::text::{
    chars_eq, chars_of, concat2, concat3, copy_opt_string, copy_string, copy_strings, find_ignore_case, first_occurrence_ignore_case,
    opt_view, str_is, trim, trim_chars, string_from_chars, slice_range, views,
};

verus! {

// ---------------------------------------------------------------------------
// Which action a request stands for
// ---------------------------------------------------------------------------

/// The text of the error for a message of another account.
pub open spec fn foreign_message_message(message_id: Seq<char>, account_id: Seq<char>) -> Seq<char> {
    "message "@ + message_id + " does not belong to account "@ + account_id
}

fn foreign_message_error(message_id: &str, account_id: &str) -> (e: ApiError)
    ensures
        is_invalid_request(e, foreign_message_message(message_id@, account_id@)),
{
    let mut m = concat3("message ", message_id, " does not belong to account ");
    m.append(account_id);
    ApiError::InvalidRequest(m)
}

/// A delete request names messages of its own account: the first message,
/// as stored, must belong to the requesting account.
pub fn check_first_message_owner(request: &MailActionRequest, first: &MailMessage) -> (r: Result<
    (),
    ApiError,
>)
    ensures
        first.account_id@ == request.account_id@ ==> r is Ok,
        first.account_id@ != request.account_id@ ==> (r matches Err(e) && is_invalid_request(
            e,
            foreign_message_message(first.id@, request.account_id@),
        )),
{
    if str_is(first.account_id.as_str(), request.account_id.as_str()) {
        Ok(())
    } else {
        Err(foreign_message_error(first.id.as_str(), request.account_id.as_str()))
    }
}

/// The action a request really is: a delete inside the trash is a permanent
/// delete, a delete or move of several messages is a batch; anything else is
/// itself. `first_source_role` is the role of the folder of the first
/// message, which a delete of some messages needs.
pub open spec fn spec_confirmation_action(
    action: MailActionKind,
    count: nat,
    first_source_role: Option<FolderRole>,
) -> MailActionKind {
    if action == MailActionKind::Delete {
        if count == 0 {
            MailActionKind::Delete
        } else if first_source_role == Some(FolderRole::Trash) {
            MailActionKind::PermanentDelete
        } else if count > 1 {
            MailActionKind::BatchDelete
        } else {
            MailActionKind::Delete
        }
    } else if action == MailActionKind::Move && count > 1 {
        MailActionKind::BatchMove
    } else {
        action
    }
}

/// The action a request really is.
pub fn confirmation_action(
    action: MailActionKind,
    count: usize,
    first_source_role: Option<FolderRole>,
) -> (r: MailActionKind)
    ensures
        r == spec_confirmation_action(action, count as nat, first_source_role),
{
    match action {
        MailActionKind::Delete => {
            if count == 0 {
                MailActionKind::Delete
            } else if first_source_role == Some(FolderRole::Trash) {
                MailActionKind::PermanentDelete
            } else if count > 1 {
                MailActionKind::BatchDelete
            } else {
                MailActionKind::Delete
            }
        },
        MailActionKind::Move => if count > 1 {
            MailActionKind::BatchMove
        } else {
            MailActionKind::Move
        },
        other => other,
    }
}

/// Deleting inside the trash is never done without confirmation, and
/// neither is deleting or moving several messages at once.
pub proof fn lemma_risky_actions_wait(action: MailActionKind, count: nat, role: Option<FolderRole>)
    requires
        count > 0,
        action == MailActionKind::Delete && (role == Some(FolderRole::Trash) || count > 1)
            || action == MailActionKind::Move && count > 1,
    ensures
        crate::model::spec_requires_confirmation(spec_confirmation_action(action, count, role)),
{
}

/// How a request is routed by its kind, its count and the role of the
/// first message's folder: a delete of one or more messages viewed in the
/// trash is a permanent delete whatever their number; elsewhere a delete of
/// several messages is a batch delete and of one a delete; a move of
/// several messages is a batch move; a delete of nothing stays a delete,
/// and every other action is itself.
pub proof fn lemma_confirmation_action_cases(action: MailActionKind, count: nat, role: Option<FolderRole>)
    ensures
        count > 0 ==> spec_confirmation_action(MailActionKind::Delete, count, Some(FolderRole::Trash))
            == MailActionKind::PermanentDelete,
        count > 1 && role != Some(FolderRole::Trash) ==> spec_confirmation_action(
            MailActionKind::Delete,
            count,
            role,
        ) == MailActionKind::BatchDelete,
        count == 1 && role != Some(FolderRole::Trash) ==> spec_confirmation_action(
            MailActionKind::Delete,
            count,
            role,
        ) == MailActionKind::Delete,
        spec_confirmation_action(MailActionKind::Delete, 0, role) == MailActionKind::Delete,
        count > 1 ==> spec_confirmation_action(MailActionKind::Move, count, role)
            == MailActionKind::BatchMove,
        count <= 1 ==> spec_confirmation_action(MailActionKind::Move, count, role) == MailActionKind::Move,
        action != MailActionKind::Delete && action != MailActionKind::Move ==> spec_confirmation_action(
            action,
            count,
            role,
        ) == action,
{
}

/// What a requested action becomes.
#[derive(Debug, PartialEq, Eq)]
pub enum ActionRoute {
    /// Queue it, as this action, until it is confirmed.
    Queue(MailActionKind),
    /// Carry it out now.
    RunNow,
}

/// What a requested action becomes: queued as the action it really is when
/// that needs confirmation, else carried out now.
pub open spec fn spec_action_route(
    action: MailActionKind,
    count: nat,
    first_source_role: Option<FolderRole>,
) -> ActionRoute {
    let k = spec_confirmation_action(action, count, first_source_role);
    if crate::model::spec_requires_confirmation(k) {
        ActionRoute::Queue(k)
    } else {
        ActionRoute::RunNow
    }
}

/// What a requested action on `count` messages becomes, the first of them
/// lying in a folder with `first_source_role`.
pub fn action_route(action: MailActionKind, count: usize, first_source_role: Option<FolderRole>) -> (r:
    ActionRoute)
    ensures
        r == spec_action_route(action, count as nat, first_source_role),
{
    let k = confirmation_action(action, count, first_source_role);
    if k.requires_confirmation() {
        ActionRoute::Queue(k)
    } else {
        ActionRoute::RunNow
    }
}

/// Risky actions are queued, not run: deleting inside the trash, deleting
/// or moving several messages at once, and every action that needs
/// confirmation in itself (sending, forwarding, permanent and batch deletes
/// and moves) wait in the queue; what is run at once needs no confirmation.
pub proof fn lemma_risky_actions_are_queued(action: MailActionKind, count: nat, role: Option<FolderRole>)
    ensures
        count > 0 && (action == MailActionKind::Delete && (role == Some(FolderRole::Trash) || count
            > 1) || action == MailActionKind::Move && count > 1) ==> spec_action_route(
            action,
            count,
            role,
        ) is Queue,
        crate::model::spec_requires_confirmation(action) ==> spec_action_route(action, count, role) is Queue,
        spec_action_route(action, count, role) is RunNow ==> !crate::model::spec_requires_confirmation(
            spec_confirmation_action(action, count, role),
        ),
{
}

// ---------------------------------------------------------------------------
// Which messages an action may touch
// ---------------------------------------------------------------------------

/// The text of the error for a message that was deleted locally.
pub open spec fn locally_deleted_message(message_id: Seq<char>) -> Seq<char> {
    "message "@ + message_id + " is locally deleted"@
}

/// A message an action names must belong to the account and must not be
/// deleted locally.
pub fn check_action_message(account_id: &str, message_id: &str, message: &MailMessage) -> (r: Result<
    (),
    ApiError,
>)
    ensures
        message.account_id@ != account_id@ ==> (r matches Err(e) && is_invalid_request(
            e,
            foreign_message_message(message_id@, account_id@),
        )),
        message.account_id@ == account_id@ && message.deleted_at is Some ==> (r matches Err(e)
            && is_invalid_request(e, locally_deleted_message(message_id@))),
        message.account_id@ == account_id@ && message.deleted_at is None ==> r is Ok,
{
    if !str_is(message.account_id.as_str(), account_id) {
        return Err(foreign_message_error(message_id, account_id));
    }
    if message.deleted_at.is_some() {
        return Err(ApiError::InvalidRequest(concat3("message ", message_id, " is locally deleted")));
    }
    Ok(())
}

/// All messages lie in the folder of the first one.
pub open spec fn same_folder(messages: Seq<MailMessage>) -> bool {
    forall|i: int| 0 <= i < messages.len() ==> (#[trigger] messages[i]).folder_id@ == messages[0].folder_id@
}

/// The folder all the messages of an action lie in.
pub fn source_folder_id(messages: &Vec<MailMessage>) -> (r: Result<String, ApiError>)
    ensures
        messages@.len() == 0 ==> (r matches Err(e) && is_invalid_request(
            e,
            "message_ids cannot be empty"@,
        )),
        messages@.len() > 0 && !same_folder(messages@) ==> (r matches Err(e) && is_invalid_request(
            e,
            "all messages in one action must be in the same folder"@,
        )),
        messages@.len() > 0 && same_folder(messages@) ==> (r matches Ok(f) && f@
            == messages@[0].folder_id@),
{
    if messages.len() == 0 {
        return Err(ApiError::InvalidRequest("message_ids cannot be empty".to_owned()));
    }
    let first = chars_of(messages[0].folder_id.as_str());
    for i in 0..messages.len()
        invariant
            first@ == messages@[0].folder_id@,
            messages@.len() > 0,
            forall|j: int| 0 <= j < i ==> (#[trigger] messages@[j]).folder_id@ == messages@[0].folder_id@,
    {
        let f = chars_of(messages[i].folder_id.as_str());
        if !chars_eq(f.as_slice(), first.as_slice()) {
            return Err(
                ApiError::InvalidRequest(
                    "all messages in one action must be in the same folder".to_owned(),
                ),
            );
        }
    }
    Ok(copy_string(&messages[0].folder_id))
}

/// The first message of `messages` without a remote UID.
pub open spec fn is_first_without_uid(messages: Seq<MailMessage>, i: int) -> bool {
    0 <= i < messages.len() && messages[i].uid is None && forall|j: int|
        0 <= j < i ==> (#[trigger] messages[j]).uid is Some
}

/// The remote UIDs of messages, in order; an error names the first message
/// that has none.
pub fn require_message_uids(messages: &Vec<MailMessage>) -> (r: Result<Vec<String>, ApiError>)
    ensures
        (forall|i: int| 0 <= i < messages@.len() ==> (#[trigger] messages@[i]).uid is Some) ==> (r matches Ok(
            u,
        ) && u@.len() == messages@.len() && forall|i: int|
            0 <= i < messages@.len() ==> (#[trigger] u@[i])@ == messages@[i].uid->0@),
        forall|i: int|
            is_first_without_uid(messages@, i) ==> (r matches Err(e) && is_invalid_request(
                e,
                "message "@ + messages@[i].id@ + " has no remote UID"@,
            )),
{
    let mut uids: Vec<String> = Vec::new();
    for i in 0..messages.len()
        invariant
            uids@.len() == i,
            forall|j: int| 0 <= j < i ==> (#[trigger] messages@[j]).uid is Some,
            forall|j: int| 0 <= j < i ==> (#[trigger] uids@[j])@ == messages@[j].uid->0@,
    {
        match &messages[i].uid {
            Some(u) => {
                uids.push(copy_string(u));
            },
            None => {
                let e = ApiError::InvalidRequest(
                    concat3("message ", messages[i].id.as_str(), " has no remote UID"),
                );
                proof {
                    assert forall|k: int| is_first_without_uid(messages@, k) implies k == i by {
                        if k < i {
                        } else if k > i {
                            assert(messages@[i as int].uid is Some);
                        }
                    }
                }
                return Err(e);
            },
        }
    }
    Ok(uids)
}

/// A stored message and a message on the server are the same one: the same
/// identifier, or the same Message-ID header, or the same subject, sender
/// and time.
pub open spec fn spec_messages_match(local: MailMessage, remote: MailMessage) -> bool {
    ||| local.id@ == remote.id@
    ||| (local.message_id_header is Some && remote.message_id_header is Some
        && local.message_id_header->0@ == remote.message_id_header->0@)
    ||| (local.subject@ == remote.subject@ && local.sender@ == remote.sender@ && local.received_at@
        == remote.received_at@)
}

fn strings_eq(a: &String, b: &String) -> (r: bool)
    ensures
        r == (a@ == b@),
{
    str_is(a.as_str(), b.as_str())
}

/// Whether a stored message and a message on the server are the same one.
pub fn messages_match_for_remote_delete(local: &MailMessage, remote: &MailMessage) -> (r: bool)
    ensures
        r == spec_messages_match(*local, *remote),
{
    if strings_eq(&local.id, &remote.id) {
        return true;
    }
    let headers = match (&local.message_id_header, &remote.message_id_header) {
        (Some(a), Some(b)) => strings_eq(a, b),
        _ => false,
    };
    headers || (strings_eq(&local.subject, &remote.subject) && strings_eq(
        &local.sender,
        &remote.sender,
    ) && strings_eq(&local.received_at, &remote.received_at))
}

/// The index of the first message on the server that matches a stored one.
pub open spec fn is_first_match(local: MailMessage, remote: Seq<MailMessage>, k: int) -> bool {
    0 <= k < remote.len() && spec_messages_match(local, remote[k]) && forall|j: int|
        0 <= j < k ==> !spec_messages_match(local, #[trigger] remote[j])
}

/// The UID a stored message has on the server: that of the first server
/// message that matches it, if that one has a UID.
pub open spec fn remote_uid_for(local: MailMessage, remote: Seq<MailMessage>) -> Option<Seq<char>> {
    if exists|k: int| is_first_match(local, remote, k) {
        opt_view(remote[choose|k: int| is_first_match(local, remote, k)].uid)
    } else {
        None
    }
}

/// The UIDs of the stored messages found on the server, in order; a message
/// not found (or found without a UID) is left out.
pub open spec fn spec_permanent_delete_uids(local: Seq<MailMessage>, remote: Seq<MailMessage>) -> Seq<
    Seq<char>,
>
    decreases local.len(),
{
    if local.len() == 0 {
        Seq::empty()
    } else {
        let rest = spec_permanent_delete_uids(local.drop_last(), remote);
        match remote_uid_for(local.last(), remote) {
            Some(u) => rest.push(u),
            None => rest,
        }
    }
}

fn first_match_uid(local: &MailMessage, remote: &Vec<MailMessage>) -> (r: Option<String>)
    ensures
        opt_view(r) == remote_uid_for(*local, remote@),
{
    for k in 0..remote.len()
        invariant
            forall|j: int| 0 <= j < k ==> !spec_messages_match(*local, #[trigger] remote@[j]),
    {
        if messages_match_for_remote_delete(local, &remote[k]) {
            proof {
                assert(is_first_match(*local, remote@, k as int));
                let c = choose|c: int| is_first_match(*local, remote@, c);
                if c < k {
                    assert(!spec_messages_match(*local, remote@[c]));
                } else if c > k {
                    assert(!spec_messages_match(*local, remote@[k as int]));
                }
            }
            return match &remote[k].uid {
                Some(u) => Some(copy_string(u)),
                None => None,
            };
        }
    }
    None
}

/// The UIDs to delete for good: each stored message looked up among the
/// messages now on the server.
pub fn resolve_permanent_delete_uids(messages: &Vec<MailMessage>, remote: &Vec<MailMessage>) -> (r:
    Vec<String>)
    ensures
        views(r@) == spec_permanent_delete_uids(messages@, remote@),
{
    let mut uids: Vec<String> = Vec::new();
    for i in 0..messages.len()
        invariant
            views(uids@) == spec_permanent_delete_uids(messages@.take(i as int), remote@),
    {
        assert(messages@.take(i + 1).drop_last() =~= messages@.take(i as int));
        assert(messages@.take(i + 1).last() == messages@[i as int]);
        match first_match_uid(&messages[i], remote) {
            Some(u) => {
                uids.push(u);
                assert(views(uids@) =~= spec_permanent_delete_uids(messages@.take(i as int), remote@).push(
                    uids@.last()@,
                ));
            },
            None => {},
        }
    }
    assert(messages@.take(messages@.len() as int) =~= messages@);
    uids
}

/// Two messages carry the same Message-ID header.
pub open spec fn share_message_id_header(a: MailMessage, b: MailMessage) -> bool {
    a.message_id_header is Some && b.message_id_header is Some && a.message_id_header->0@
        == b.message_id_header->0@
}

/// A stored and a server message are the same one when they have the same
/// identifier or share a Message-ID header; with neither, only when
/// subject, sender and time all agree: an equal subject with another sender
/// or another time is no match.
pub proof fn lemma_match_for_remote_delete(local: MailMessage, remote: MailMessage)
    ensures
        local.id@ == remote.id@ ==> spec_messages_match(local, remote),
        share_message_id_header(local, remote) ==> spec_messages_match(local, remote),
        local.id@ != remote.id@ && !share_message_id_header(local, remote) ==> (spec_messages_match(
            local,
            remote,
        ) <==> (local.subject@ == remote.subject@ && local.sender@ == remote.sender@
            && local.received_at@ == remote.received_at@)),
        local.id@ != remote.id@ && !share_message_id_header(local, remote) && (local.sender@
            != remote.sender@ || local.received_at@ != remote.received_at@) ==> !spec_messages_match(
            local,
            remote,
        ),
{
}

/// A stored message that no server message resembles (each has another
/// identifier, no shared Message-ID header, and another subject, sender or
/// time) gets no UID, so nothing is expunged for it; one whose identifier
/// the first server message has gets that message's UID, if it has one.
pub proof fn lemma_permanent_delete_uid_of_one(local: MailMessage, remote: Seq<MailMessage>)
    ensures
        (forall|k: int|
            0 <= k < remote.len() ==> #[trigger] remote[k].id@ != local.id@ && !share_message_id_header(
                local,
                remote[k],
            ) && !(local.subject@ == remote[k].subject@ && local.sender@ == remote[k].sender@
                && local.received_at@ == remote[k].received_at@)) ==> spec_permanent_delete_uids(
            seq![local],
            remote,
        ) == Seq::<Seq<char>>::empty(),
        remote.len() > 0 && remote[0].id@ == local.id@ ==> spec_permanent_delete_uids(seq![local], remote)
            == (match remote[0].uid {
            Some(u) => seq![u@],
            None => Seq::<Seq<char>>::empty(),
        }),
{
    let one = seq![local];
    assert(one.drop_last() =~= Seq::<MailMessage>::empty());
    assert(one.last() == local);
    assert(spec_permanent_delete_uids(one.drop_last(), remote) == Seq::<Seq<char>>::empty());
    if forall|k: int|
        0 <= k < remote.len() ==> #[trigger] remote[k].id@ != local.id@ && !share_message_id_header(
            local,
            remote[k],
        ) && !(local.subject@ == remote[k].subject@ && local.sender@ == remote[k].sender@
            && local.received_at@ == remote[k].received_at@) {
        assert forall|k: int| !is_first_match(local, remote, k) by {
            if 0 <= k < remote.len() {
                assert(remote[k].id@ != local.id@);
            }
        }
        assert(remote_uid_for(local, remote) is None);
    }
    if remote.len() > 0 && remote[0].id@ == local.id@ {
        assert(is_first_match(local, remote, 0));
        let c = choose|c: int| is_first_match(local, remote, c);
        assert(is_first_match(local, remote, c));
        if c > 0 {
            assert(!spec_messages_match(local, remote[0]));
        }
        assert(c == 0);
        assert(remote_uid_for(local, remote) == opt_view(remote[0].uid));
        match remote[0].uid {
            Some(u) => {
                assert(spec_permanent_delete_uids(one, remote) =~= seq![u@]);
            },
            None => {},
        }
    }
}

// ---------------------------------------------------------------------------
// Target folders
// ---------------------------------------------------------------------------

/// Where an action's target folder comes from.
#[derive(Debug, Clone, Copy, PartialEq, Eq, Structural)]
pub enum TargetSource {
    /// The folder the request names.
    Requested,
    /// The account's folder with this role.
    Role(FolderRole),
    /// The action has no target.
    NoTarget,
}

/// Where an action's target folder comes from: moves go where the request
/// says, archiving to the archive, deleting to the trash.
pub open spec fn spec_target_source(action: MailActionKind) -> TargetSource {
    match action {
        MailActionKind::Move | MailActionKind::BatchMove => TargetSource::Requested,
        MailActionKind::Archive => TargetSource::Role(FolderRole::Archive),
        MailActionKind::Delete | MailActionKind::BatchDelete => TargetSource::Role(FolderRole::Trash),
        _ => TargetSource::NoTarget,
    }
}

/// Where an action's target folder comes from.
pub fn target_source(action: MailActionKind) -> (r: TargetSource)
    ensures
        r == spec_target_source(action),
{
    match action {
        MailActionKind::Move | MailActionKind::BatchMove => TargetSource::Requested,
        MailActionKind::Archive => TargetSource::Role(FolderRole::Archive),
        MailActionKind::Delete | MailActionKind::BatchDelete => TargetSource::Role(FolderRole::Trash),
        _ => TargetSource::NoTarget,
    }
}

/// Every action that moves messages has a target, and only those do.
pub proof fn lemma_move_like_has_target(action: MailActionKind)
    ensures
        spec_is_move_like(action) <==> spec_target_source(action) != TargetSource::NoTarget,
{
}

/// The requested target folder's identifier, which a move needs.
pub fn requested_target_id(request: &MailActionRequest) -> (r: Result<String, ApiError>)
    ensures
        match request.target_folder_id {
            Some(t) => r matches Ok(x) && x@ == t@,
            None => r matches Err(e) && is_invalid_request(e, "target_folder_id required"@),
        },
{
    match &request.target_folder_id {
        Some(t) => Ok(copy_string(t)),
        None => Err(ApiError::InvalidRequest("target_folder_id required".to_owned())),
    }
}

/// A requested target folder must belong to the account.
pub fn check_target_folder(account_id: &str, folder: &MailFolder) -> (r: Result<(), ApiError>)
    ensures
        folder.account_id@ == account_id@ ==> r is Ok,
        folder.account_id@ != account_id@ ==> (r matches Err(e) && is_invalid_request(
            e,
            "target folder belongs to a different account"@,
        )),
{
    if str_is(folder.account_id.as_str(), account_id) {
        Ok(())
    } else {
        Err(ApiError::InvalidRequest("target folder belongs to a different account".to_owned()))
    }
}

/// The name `{:?}` gives a folder role.
pub open spec fn role_debug_name(role: FolderRole) -> Seq<char> {
    match role {
        FolderRole::Inbox => "Inbox"@,
        FolderRole::Sent => "Sent"@,
        FolderRole::Archive => "Archive"@,
        FolderRole::Trash => "Trash"@,
        FolderRole::Drafts => "Drafts"@,
        FolderRole::Junk => "Junk"@,
        FolderRole::Custom => "Custom"@,
    }
}

fn role_debug_str(role: FolderRole) -> (r: &'static str)
    ensures
        r@ == role_debug_name(role),
{
    match role {
        FolderRole::Inbox => "Inbox",
        FolderRole::Sent => "Sent",
        FolderRole::Archive => "Archive",
        FolderRole::Trash => "Trash",
        FolderRole::Drafts => "Drafts",
        FolderRole::Junk => "Junk",
        FolderRole::Custom => "Custom",
    }
}

/// The account's folder with a role, which must exist.
pub fn required_role_folder(role: FolderRole, found: Option<MailFolder>) -> (r: Result<
    MailFolder,
    ApiError,
>)
    ensures
        match found {
            Some(f) => r == Ok::<MailFolder, ApiError>(f),
            None => r matches Err(e) && is_invalid_request(
                e,
                role_debug_name(role) + " folder is not available"@,
            ),
        },
{
    match found {
        Some(f) => Ok(f),
        None => Err(ApiError::InvalidRequest(concat2(role_debug_str(role), " folder is not available"))),
    }
}

// ---------------------------------------------------------------------------
// Running a confirmed action
// ---------------------------------------------------------------------------

/// An action must name at least one message.
pub fn check_message_ids(request: &MailActionRequest) -> (r: Result<(), ApiError>)
    ensures
        request.message_ids@.len() == 0 ==> (r matches Err(e) && is_invalid_request(
            e,
            "message_ids cannot be empty"@,
        )),
        request.message_ids@.len() > 0 ==> r is Ok,
{
    if request.message_ids.len() == 0 {
        Err(ApiError::InvalidRequest("message_ids cannot be empty".to_owned()))
    } else {
        Ok(())
    }
}

/// A permanent delete of messages that the server no longer has is done
/// locally only.
pub fn local_only(action: MailActionKind, remote: &RemoteMailAction) -> (r: bool)
    ensures
        r == (action == MailActionKind::PermanentDelete && remote.uids@.len() == 0),
{
    action == MailActionKind::PermanentDelete && remote.uids.len() == 0
}

/// A failure that says the messages are not on the server (any more): a
/// fetch failure whose text contains `not exist` or `not found`, in any case.
pub open spec fn spec_is_missing_remote_message_error(err: ProtocolError) -> bool {
    match err {
        ProtocolError::Fetch(m) => first_occurrence_ignore_case(m@, 0, "not exist"@) is Some
            || first_occurrence_ignore_case(m@, 0, "not found"@) is Some,
        _ => false,
    }
}

/// Whether a failure says the messages are not on the server.
pub fn is_missing_remote_message_error(err: &ProtocolError) -> (r: bool)
    ensures
        r == spec_is_missing_remote_message_error(*err),
{
    match err {
        ProtocolError::Fetch(m) => {
            let text = chars_of(m.as_str());
            let a = crate::text::literal("not exist");
            let b = crate::text::literal("not found");
            find_ignore_case(text.as_slice(), 0, a.as_slice()).is_some() || find_ignore_case(
                text.as_slice(),
                0,
                b.as_slice(),
            ).is_some()
        },
        _ => false,
    }
}

/// What follows the server's answer to an action.
#[derive(Debug)]
pub enum RemoteOutcome {
    /// Apply the action locally and record it as done, with a note.
    ApplyLocally { note: Option<String> },
    /// Record the failure and report it.
    Fail { error: ProtocolError },
}

/// What follows the server's answer: success is applied locally; a
/// permanent delete of messages the server no longer has is applied locally
/// too, noting the server's text; any other failure fails the action.
pub fn remote_outcome(action: MailActionKind, result: Result<(), ProtocolError>) -> (r: RemoteOutcome)
    ensures
        r is ApplyLocally == spec_applies_locally(action, result),
        match result {
            Ok(()) => r matches RemoteOutcome::ApplyLocally { note } && note is None,
            Err(e) => if action == MailActionKind::PermanentDelete
                && spec_is_missing_remote_message_error(e) {
                r matches RemoteOutcome::ApplyLocally { note } && note matches Some(n) && n@
                    == crate::errors::spec_protocol_error_message(e)
            } else {
                r matches RemoteOutcome::Fail { error } && error == e
            },
        },
{
    match result {
        Ok(()) => RemoteOutcome::ApplyLocally { note: None },
        Err(e) => {
            if action == MailActionKind::PermanentDelete && is_missing_remote_message_error(&e) {
                RemoteOutcome::ApplyLocally { note: Some(e.message()) }
            } else {
                RemoteOutcome::Fail { error: e }
            }
        },
    }
}

/// Whether an action's local change follows the server's answer: on
/// success, and for a permanent delete of messages the server no longer has.
pub open spec fn spec_applies_locally(action: MailActionKind, result: Result<(), ProtocolError>) -> bool {
    match result {
        Ok(()) => true,
        Err(e) => action == MailActionKind::PermanentDelete && spec_is_missing_remote_message_error(e),
    }
}

/// A failed server call leaves the local store unchanged: the local change
/// of an action follows only a successful answer, or a permanent delete
/// that the server answers by no longer having the messages; any other
/// failure is reported as it is.
pub proof fn lemma_failed_call_changes_nothing_locally(action: MailActionKind, e: ProtocolError)
    ensures
        spec_applies_locally(action, Ok(())),
        action != MailActionKind::PermanentDelete ==> !spec_applies_locally(action, Err(e)),
        !spec_is_missing_remote_message_error(e) ==> !spec_applies_locally(action, Err(e)),
{
}

/// What an action changes in the local store.
#[derive(Debug)]
pub enum LocalChange {
    /// Change the read or starred flags.
    SetFlags(MessageFlagPatch),
    /// Move into the folder with this identifier, forgetting the UIDs.
    MoveAndClearUids(String),
    /// Mark the messages deleted.
    SoftDelete,
}

/// What an action changes locally, and which folders' counts to refresh
/// afterwards: the source, and the target when it is another folder.
#[derive(Debug)]
pub struct LocalPlan {
    pub change: LocalChange,
    pub refresh_folder_ids: Vec<String>,
}

/// The flag change a flag action makes.
pub open spec fn flag_patch(action: MailActionKind) -> MessageFlagPatch {
    match action {
        MailActionKind::MarkRead => MessageFlagPatch { is_read: Some(true), is_starred: None },
        MailActionKind::MarkUnread => MessageFlagPatch { is_read: Some(false), is_starred: None },
        MailActionKind::Star => MessageFlagPatch { is_read: None, is_starred: Some(true) },
        _ => MessageFlagPatch { is_read: None, is_starred: Some(false) },
    }
}

/// The folders whose counts change: the source, and a different target.
pub open spec fn refreshed_folders(remote: RemoteMailAction) -> Seq<Seq<char>> {
    match remote.target_folder {
        Some(t) => if t.id@ != remote.source_folder.id@ {
            seq![remote.source_folder.id@, t.id@]
        } else {
            seq![remote.source_folder.id@]
        },
        None => seq![remote.source_folder.id@],
    }
}

/// What an action changes locally once the server has done it.
pub fn local_action_plan(action: MailActionKind, remote: &RemoteMailAction) -> (r: Result<
    LocalPlan,
    ApiError,
>)
    ensures
        match action {
            MailActionKind::MarkRead | MailActionKind::MarkUnread | MailActionKind::Star
            | MailActionKind::Unstar => r matches Ok(p) && p.change == LocalChange::SetFlags(
                flag_patch(action),
            ) && views(p.refresh_folder_ids@) == refreshed_folders(*remote),
            MailActionKind::PermanentDelete => r matches Ok(p) && p.change is SoftDelete && views(
                p.refresh_folder_ids@,
            ) == refreshed_folders(*remote),
            MailActionKind::Send | MailActionKind::Forward => r matches Err(e) && is_invalid_request(
                e,
                "unsupported confirmed mail action: "@ + action_debug_name(action),
            ),
            _ => match remote.target_folder {
                Some(t) => r matches Ok(p) && p.change matches LocalChange::MoveAndClearUids(id)
                    && id@ == t.id@ && views(p.refresh_folder_ids@) == refreshed_folders(*remote),
                None => r matches Err(e) && is_invalid_request(e, "target folder required"@),
            },
        },
{
    let change = match action {
        MailActionKind::MarkRead => LocalChange::SetFlags(
            MessageFlagPatch { is_read: Some(true), is_starred: None },
        ),
        MailActionKind::MarkUnread => LocalChange::SetFlags(
            MessageFlagPatch { is_read: Some(false), is_starred: None },
        ),
        MailActionKind::Star => LocalChange::SetFlags(
            MessageFlagPatch { is_read: None, is_starred: Some(true) },
        ),
        MailActionKind::Unstar => LocalChange::SetFlags(
            MessageFlagPatch { is_read: None, is_starred: Some(false) },
        ),
        MailActionKind::Move
        | MailActionKind::Archive
        | MailActionKind::Delete
        | MailActionKind::BatchMove
        | MailActionKind::BatchDelete => match &remote.target_folder {
            Some(t) => LocalChange::MoveAndClearUids(copy_string(&t.id)),
            None => {
                return Err(ApiError::InvalidRequest("target folder required".to_owned()));
            },
        },
        MailActionKind::PermanentDelete => LocalChange::SoftDelete,
        MailActionKind::Send => {
            return Err(
                ApiError::InvalidRequest(
                    concat2("unsupported confirmed mail action: ", "Send"),
                ),
            );
        },
        MailActionKind::Forward => {
            return Err(
                ApiError::InvalidRequest(
                    concat2("unsupported confirmed mail action: ", "Forward"),
                ),
            );
        },
    };
    let mut refresh: Vec<String> = Vec::new();
    refresh.push(copy_string(&remote.source_folder.id));
    match &remote.target_folder {
        Some(t) => {
            if !strings_eq(&t.id, &remote.source_folder.id) {
                refresh.push(copy_string(&t.id));
            }
        },
        None => {},
    }
    assert(views(refresh@) =~= refreshed_folders(*remote));
    Ok(LocalPlan { change, refresh_folder_ids: refresh })
}

// ---------------------------------------------------------------------------
// Connections and previews
// ---------------------------------------------------------------------------

/// The connection settings of an account with its stored password, which
/// must not be empty.
pub fn settings_with_password(account: &MailAccount, password: String) -> (r: Result<
    ConnectionSettings,
    ApiError,
>)
    ensures
        password@.len() == 0 ==> (r matches Err(e) && is_invalid_request(
            e,
            "account password is required; save it in configuration"@,
        )),
        password@.len() > 0 ==> (r matches Ok(s) && s.account_id matches Some(id) && id@
            == account.id@ && s.email@ == account.email@ && s.auth == (ConnectionAuth::Password { password })),
{
    if chars_of(password.as_str()).len() == 0 {
        return Err(
            ApiError::InvalidRequest(
                "account password is required; save it in configuration".to_owned(),
            ),
        );
    }
    Ok(account_to_settings(account, password))
}

/// A folder can only be watched for its own account.
pub fn check_watch_folder(account: &MailAccount, folder: &MailFolder) -> (r: Result<(), ApiError>)
    ensures
        folder.account_id@ == account.id@ ==> r is Ok,
        folder.account_id@ != account.id@ ==> (r matches Err(e) && is_invalid_request(
            e,
            "folder belongs to a different account"@,
        )),
{
    if strings_eq(&folder.account_id, &account.id) {
        Ok(())
    } else {
        Err(ApiError::InvalidRequest("folder belongs to a different account".to_owned()))
    }
}

/// The preview of a message being sent: its trimmed body cut to 180
/// characters, or `(empty message)`.
pub open spec fn spec_body_preview_from_body(body: Seq<char>) -> Seq<char> {
    let t = trim(body);
    if t.len() == 0 {
        "(empty message)"@
    } else if t.len() > 180 {
        t.take(180)
    } else {
        t
    }
}

/// The preview of a message being sent.
pub fn body_preview_from_body(body: &str) -> (r: String)
    ensures
        r@ == spec_body_preview_from_body(body@),
{
    let t = trim_chars(chars_of(body).as_slice());
    if t.len() == 0 {
        return "(empty message)".to_owned();
    }
    if t.len() > 180 {
        let cut = slice_range(t.as_slice(), 0, 180);
        assert(t@.subrange(0, 180) =~= t@.take(180));
        string_from_chars(cut.as_slice())
    } else {
        string_from_chars(t.as_slice())
    }
}

// ---------------------------------------------------------------------------
// Queued actions and sending
// ---------------------------------------------------------------------------

/// Two drafts with the same fields.
pub open spec fn same_draft(a: SendMessageDraft, b: SendMessageDraft) -> bool {
    &&& a.account_id@ == b.account_id@
    &&& views(a.to@) == views(b.to@)
    &&& views(a.cc@) == views(b.cc@)
    &&& a.subject@ == b.subject@
    &&& a.body@ == b.body@
    &&& opt_view(a.message_id_header) == opt_view(b.message_id_header)
}

impl SendMessageDraft {
    /// A copy of this draft.
    pub fn duplicate(&self) -> (r: SendMessageDraft)
        ensures
            same_draft(*self, r),
    {
        SendMessageDraft {
            account_id: copy_string(&self.account_id),
            to: copy_strings(&self.to),
            cc: copy_strings(&self.cc),
            subject: copy_string(&self.subject),
            body: copy_string(&self.body),
            message_id_header: copy_opt_string(&self.message_id_header),
        }
    }
}

/// A message needs a recipient before it is queued.
pub fn check_send_recipients(draft: &SendMessageDraft) -> (r: Result<(), ApiError>)
    ensures
        draft.to@.len() == 0 ==> (r matches Err(e) && is_invalid_request(
            e,
            "recipient list is empty"@,
        )),
        draft.to@.len() > 0 ==> r is Ok,
{
    if draft.to.len() == 0 {
        Err(ApiError::InvalidRequest("recipient list is empty".to_owned()))
    } else {
        Ok(())
    }
}

/// The Message-ID header a sent message carries: the draft's own, or one
/// made from the local message identifier.
pub open spec fn spec_send_header(draft_header: Option<Seq<char>>, message_id: Seq<char>) -> Seq<char> {
    match draft_header {
        Some(h) => h,
        None => "<"@ + message_id + "@agentmail.local>"@,
    }
}

/// What queueing a message for sending stores: the pending action, its
/// audit entry, and a placeholder in the sent folder.
#[derive(Debug)]
pub struct QueuedSend {
    pub pending: PendingMailAction,
    pub audit: MailActionAudit,
    pub placeholder: MailMessage,
}

/// The records that queue `draft` for sending from `account`, with the
/// placeholder in `sent`, made at `now` under the given identifiers.
pub fn queued_send(
    draft: SendMessageDraft,
    account: &MailAccount,
    sent: &MailFolder,
    message_id: String,
    pending_id: String,
    audit_id: String,
    now: String,
) -> (r: Result<QueuedSend, ApiError>)
    ensures
        draft.to@.len() == 0 ==> (r matches Err(e) && is_invalid_request(
            e,
            "recipient list is empty"@,
        )),
        draft.to@.len() > 0 ==> (r matches Ok(q) && {
            let header = spec_send_header(opt_view(draft.message_id_header), message_id@);
            &&& q.pending.id == pending_id
            &&& q.pending.account_id@ == account.id@
            &&& q.pending.action == MailActionKind::Send
            &&& q.pending.message_ids@.len() == 0
            &&& q.pending.target_folder_id is None
            &&& opt_view(q.pending.local_message_id) == Some(message_id@)
            &&& q.pending.draft matches Some(d) && d.account_id@ == draft.account_id@ && views(d.to@)
                == views(draft.to@) && views(d.cc@) == views(draft.cc@) && d.subject@
                == draft.subject@ && d.body@ == draft.body@ && opt_view(d.message_id_header)
                == Some(header)
            &&& q.pending.status == PendingActionStatus::Pending
            &&& q.pending.error_message is None
            &&& q.pending.created_at@ == now@ && q.pending.updated_at@ == now@
            &&& q.audit.id == audit_id
            &&& q.audit.account_id@ == account.id@
            &&& q.audit.action == MailActionKind::Send
            &&& q.audit.message_ids@.len() == 0
            &&& q.audit.status == ActionAuditStatus::Queued
            &&& q.audit.error_message is None
            &&& q.audit.created_at@ == now@
            &&& q.placeholder.id@ == message_id@
            &&& q.placeholder.account_id@ == account.id@
            &&& q.placeholder.folder_id@ == sent.id@
            &&& q.placeholder.uid is None
            &&& opt_view(q.placeholder.message_id_header) == Some(header)
            &&& q.placeholder.subject@ == draft.subject@
            &&& q.placeholder.sender@ == account.email@
            &&& views(q.placeholder.recipients@) == views(draft.to@)
            &&& views(q.placeholder.cc@) == views(draft.cc@)
            &&& q.placeholder.received_at@ == now@
            &&& q.placeholder.body_preview@ == spec_body_preview_from_body(draft.body@)
            &&& opt_view(q.placeholder.body) == Some(draft.body@)
            &&& q.placeholder.html_body is None
            &&& q.placeholder.raw_mime is None
            &&& q.placeholder.inline_resources@.len() == 0
            &&& q.placeholder.attachments@.len() == 0
            &&& q.placeholder.flags == (MessageFlags {
                is_read: true,
                is_starred: false,
                is_answered: true,
                is_forwarded: false,
            })
            &&& q.placeholder.size_bytes is None
            &&& q.placeholder.deleted_at is None
        }),
{
    check_send_recipients(&draft)?;
    let header = match &draft.message_id_header {
        Some(h) => copy_string(h),
        None => {
            let mut h = concat2("<", message_id.as_str());
            h.append("@agentmail.local>");
            h
        },
    };
    let preview = body_preview_from_body(draft.body.as_str());
    let placeholder = MailMessage {
        id: copy_string(&message_id),
        account_id: copy_string(&account.id),
        folder_id: copy_string(&sent.id),
        uid: None,
        message_id_header: Some(copy_string(&header)),
        subject: copy_string(&draft.subject),
        sender: copy_string(&account.email),
        recipients: copy_strings(&draft.to),
        cc: copy_strings(&draft.cc),
        received_at: copy_string(&now),
        body_preview: preview,
        body: Some(copy_string(&draft.body)),
        html_body: None,
        raw_mime: None,
        inline_resources: Vec::new(),
        attachments: Vec::new(),
        flags: MessageFlags { is_read: true, is_starred: false, is_answered: true, is_forwarded: false },
        size_bytes: None,
        deleted_at: None,
    };
    let stored_draft = SendMessageDraft {
        account_id: draft.account_id,
        to: draft.to,
        cc: draft.cc,
        subject: draft.subject,
        body: draft.body,
        message_id_header: Some(header),
    };
    let pending = PendingMailAction {
        id: pending_id,
        account_id: copy_string(&account.id),
        action: MailActionKind::Send,
        message_ids: Vec::new(),
        target_folder_id: None,
        local_message_id: Some(message_id),
        draft: Some(stored_draft),
        status: PendingActionStatus::Pending,
        error_message: None,
        created_at: copy_string(&now),
        updated_at: copy_string(&now),
    };
    let audit = MailActionAudit {
        id: audit_id,
        account_id: copy_string(&account.id),
        action: MailActionKind::Send,
        message_ids: Vec::new(),
        status: ActionAuditStatus::Queued,
        error_message: None,
        created_at: now,
    };
    Ok(QueuedSend { pending, audit, placeholder })
}

/// An entry of the audit log.
pub fn audit_entry(
    id: String,
    account_id: &str,
    action: MailActionKind,
    message_ids: Vec<String>,
    status: ActionAuditStatus,
    error_message: Option<String>,
    now: String,
) -> (r: MailActionAudit)
    ensures
        r.id == id,
        r.account_id@ == account_id@,
        r.action == action,
        r.message_ids == message_ids,
        r.status == status,
        r.error_message == error_message,
        r.created_at == now,
{
    MailActionAudit {
        id,
        account_id: account_id.to_owned(),
        action,
        message_ids,
        status,
        error_message,
        created_at: now,
    }
}

/// A new action waiting for confirmation. Sending needs a draft.
pub fn new_pending_action(
    id: String,
    account_id: String,
    action: MailActionKind,
    message_ids: Vec<String>,
    target_folder_id: Option<String>,
    draft: Option<SendMessageDraft>,
    now: String,
) -> (r: Result<PendingMailAction, ApiError>)
    ensures
        action == MailActionKind::Send && draft is None ==> (r matches Err(e) && is_invalid_request(
            e,
            "send pending action requires a draft"@,
        )),
        !(action == MailActionKind::Send && draft is None) ==> (r matches Ok(p) && p.id == id
            && p.account_id == account_id && p.action == action && p.message_ids == message_ids
            && p.target_folder_id == target_folder_id && p.local_message_id is None && p.draft
            == draft && p.status == PendingActionStatus::Pending && p.error_message is None
            && p.created_at@ == now@ && p.updated_at == now),
{
    if action == MailActionKind::Send && draft.is_none() {
        return Err(ApiError::InvalidRequest("send pending action requires a draft".to_owned()));
    }
    Ok(
        PendingMailAction {
            id,
            account_id,
            action,
            message_ids,
            target_folder_id,
            local_message_id: None,
            draft,
            status: PendingActionStatus::Pending,
            error_message: None,
            created_at: copy_string(&now),
            updated_at: now,
        },
    )
}

/// The result of an action that waits for confirmation.
pub fn pending_result(pending_id: String) -> (r: MailActionResult)
    ensures
        r.kind == MailActionResultKind::Pending,
        r.pending_action_id == Some(pending_id),
{
    MailActionResult { kind: MailActionResultKind::Pending, pending_action_id: Some(pending_id) }
}

/// The result of an action that was carried out.
pub fn executed_result() -> (r: MailActionResult)
    ensures
        r.kind == MailActionResultKind::Executed,
        r.pending_action_id is None,
{
    MailActionResult { kind: MailActionResultKind::Executed, pending_action_id: None }
}

/// The name `{:?}` gives a pending action's status.
pub open spec fn status_debug_name(s: PendingActionStatus) -> Seq<char> {
    match s {
        PendingActionStatus::Pending => "Pending"@,
        PendingActionStatus::Accepted => "Accepted"@,
        PendingActionStatus::Rejected => "Rejected"@,
        PendingActionStatus::Executed => "Executed"@,
        PendingActionStatus::Failed => "Failed"@,
    }
}

fn status_debug_str(s: PendingActionStatus) -> (r: &'static str)
    ensures
        r@ == status_debug_name(s),
{
    match s {
        PendingActionStatus::Pending => "Pending",
        PendingActionStatus::Accepted => "Accepted",
        PendingActionStatus::Rejected => "Rejected",
        PendingActionStatus::Executed => "Executed",
        PendingActionStatus::Failed => "Failed",
    }
}

/// Whether an action in this state can still be confirmed or rejected.
pub open spec fn spec_pending_open(status: PendingActionStatus) -> bool {
    status == PendingActionStatus::Pending
}

/// Only a pending action can be confirmed or rejected.
pub fn check_pending_is_open(action_id: &str, pending: &PendingMailAction) -> (r: Result<
    (),
    ApiError,
>)
    ensures
        spec_pending_open(pending.status) ==> r is Ok,
        !spec_pending_open(pending.status) ==> (r matches Err(e) && is_invalid_request(
            e,
            "pending action "@ + action_id@ + " is already "@ + status_debug_name(pending.status),
        )),
{
    if pending.status == PendingActionStatus::Pending {
        return Ok(());
    }
    let mut m = concat3("pending action ", action_id, " is already ");
    m.append(status_debug_str(pending.status));
    Err(ApiError::InvalidRequest(m))
}

/// The state a confirmed action ends in once its work has run.
pub open spec fn spec_confirmed_status(succeeded: bool) -> PendingActionStatus {
    if succeeded {
        PendingActionStatus::Executed
    } else {
        PendingActionStatus::Failed
    }
}

/// What is recorded of a confirmed action once its work has run.
#[derive(Debug)]
pub struct ConfirmationRecord {
    /// The action's new state.
    pub status: PendingActionStatus,
    /// The status of the audit entry written.
    pub audit: ActionAuditStatus,
    /// The error's text, for a failure.
    pub error_message: Option<String>,
    /// Whether the placeholder of a failed send is given up.
    pub remove_placeholder: bool,
}

/// What is recorded of a confirmed action once its work has run: executed,
/// or failed with the error's text, a failed send also giving up its
/// placeholder.
pub fn confirmation_record(action: MailActionKind, outcome: &Result<(), ApiError>) -> (r:
    ConfirmationRecord)
    ensures
        r.status == spec_confirmed_status(outcome is Ok),
        r.audit == (if outcome is Ok {
            ActionAuditStatus::Executed
        } else {
            ActionAuditStatus::Failed
        }),
        match outcome {
            Ok(()) => r.error_message is None && !r.remove_placeholder,
            Err(e) => (r.error_message matches Some(m) && m@ == crate::errors::spec_api_error_message(
                *e,
            )) && r.remove_placeholder == (action == MailActionKind::Send),
        },
{
    match outcome {
        Ok(()) => ConfirmationRecord {
            status: PendingActionStatus::Executed,
            audit: ActionAuditStatus::Executed,
            error_message: None,
            remove_placeholder: false,
        },
        Err(e) => ConfirmationRecord {
            status: PendingActionStatus::Failed,
            audit: ActionAuditStatus::Failed,
            error_message: Some(e.message()),
            remove_placeholder: action == MailActionKind::Send,
        },
    }
}

/// A pending action is carried out at most once, and only once confirmed:
/// only an action still pending passes the check before its work runs;
/// confirming marks it accepted before the work and executed or failed
/// after it, rejecting marks it rejected, and an action in any of these
/// states never passes the check again.
pub proof fn lemma_pending_action_runs_once(succeeded: bool)
    ensures
        spec_pending_open(PendingActionStatus::Pending),
        !spec_pending_open(PendingActionStatus::Accepted),
        !spec_pending_open(PendingActionStatus::Rejected),
        !spec_pending_open(spec_confirmed_status(succeeded)),
{
}

/// What a confirmed action does.
#[derive(Debug)]
pub enum ConfirmedWork {
    /// Send this draft.
    Send(SendMessageDraft),
    /// Carry out this request.
    Run(MailActionRequest),
}

/// The action a confirmed one carries out: a batch delete deletes, a batch
/// move moves, a permanent delete has no target, others keep theirs.
pub open spec fn spec_confirmed_action(action: MailActionKind) -> MailActionKind {
    match action {
        MailActionKind::BatchDelete => MailActionKind::Delete,
        MailActionKind::BatchMove => MailActionKind::Move,
        _ => action,
    }
}

/// What a confirmed action does. Sending needs the stored draft; forwarding
/// cannot be confirmed yet.
pub fn confirmed_work(pending: &PendingMailAction) -> (r: Result<ConfirmedWork, ApiError>)
    ensures
        pending.action == MailActionKind::Send ==> match pending.draft {
            Some(d) => r matches Ok(ConfirmedWork::Send(x)) && same_draft(d, x),
            None => r matches Err(e) && is_invalid_request(e, "send pending action is missing draft"@),
        },
        pending.action == MailActionKind::Forward ==> (r matches Err(e) && is_invalid_request(
            e,
            "forward confirmation is not implemented yet"@,
        )),
        pending.action != MailActionKind::Send && pending.action != MailActionKind::Forward ==> (r matches Ok(
            ConfirmedWork::Run(q),
        ) && q.action == spec_confirmed_action(pending.action) && q.account_id@
            == pending.account_id@ && views(q.message_ids@) == views(pending.message_ids@) && opt_view(
            q.target_folder_id,
        ) == if pending.action == MailActionKind::BatchDelete || pending.action
            == MailActionKind::PermanentDelete {
            None
        } else {
            opt_view(pending.target_folder_id)
        }),
{
    match pending.action {
        MailActionKind::Send => match &pending.draft {
            Some(d) => Ok(ConfirmedWork::Send(d.duplicate())),
            None => Err(ApiError::InvalidRequest("send pending action is missing draft".to_owned())),
        },
        MailActionKind::Forward => Err(
            ApiError::InvalidRequest("forward confirmation is not implemented yet".to_owned()),
        ),
        action => {
            let confirmed = match action {
                MailActionKind::BatchDelete => MailActionKind::Delete,
                MailActionKind::BatchMove => MailActionKind::Move,
                other => other,
            };
            let target = if action == MailActionKind::BatchDelete || action
                == MailActionKind::PermanentDelete {
                None
            } else {
                copy_opt_string(&pending.target_folder_id)
            };
            Ok(
                ConfirmedWork::Run(
                    MailActionRequest {
                        action: confirmed,
                        account_id: copy_string(&pending.account_id),
                        message_ids: copy_strings(&pending.message_ids),
                        target_folder_id: target,
                    },
                ),
            )
        },
    }
}

/// The placeholder a pending send left, and the header it must carry: only
/// when the pending action names a local message and its draft a header.
pub fn placeholder_to_check(pending: &PendingMailAction) -> (r: Option<(String, String)>)
    ensures
        match (pending.local_message_id, pending.draft) {
            (Some(m), Some(d)) => match d.message_id_header {
                Some(h) => r matches Some((a, b)) && a@ == m@ && b@ == h@,
                None => r is None,
            },
            _ => r is None,
        },
{
    match (&pending.local_message_id, &pending.draft) {
        (Some(m), Some(d)) => match &d.message_id_header {
            Some(h) => Some((copy_string(m), copy_string(h))),
            None => None,
        },
        _ => None,
    }
}

/// A placeholder is removed when its send is given up only if it is still
/// the one the send made: the same account, no UID yet, in a sent folder,
/// with the expected header.
pub open spec fn spec_placeholder_removable(
    pending: PendingMailAction,
    message: MailMessage,
    folder_role: FolderRole,
    expected_header: Seq<char>,
) -> bool {
    &&& message.account_id@ == pending.account_id@
    &&& message.uid is None
    &&& folder_role == FolderRole::Sent
    &&& opt_view(message.message_id_header) == Some(expected_header)
}

/// Whether a placeholder is removed when its send is given up.
pub fn placeholder_removable(
    pending: &PendingMailAction,
    message: &MailMessage,
    folder_role: FolderRole,
    expected_header: &str,
) -> (r: bool)
    ensures
        r == spec_placeholder_removable(*pending, *message, folder_role, expected_header@),
{
    let header_ok = match &message.message_id_header {
        Some(h) => str_is(h.as_str(), expected_header),
        None => false,
    };
    strings_eq(&message.account_id, &pending.account_id) && message.uid.is_none() && folder_role
        == FolderRole::Sent && header_ok
}

// ---------------------------------------------------------------------------
// The sent folder
// ---------------------------------------------------------------------------

/// The identifier of the sent folder made up for an account that has none.
pub open spec fn spec_fallback_sent_folder_id(account_id: Seq<char>) -> Seq<char> {
    account_id + ":sent"@
}

/// The identifier of the sent folder made up for an account that has none.
pub fn fallback_sent_folder_id(account_id: &str) -> (r: String)
    ensures
        r@ == spec_fallback_sent_folder_id(account_id@),
{
    concat2(account_id, ":sent")
}

/// The first folder whose path looks like a sent folder.
pub open spec fn is_first_sent_path(folders: Seq<MailFolder>, k: int) -> bool {
    0 <= k < folders.len() && spec_is_sent_folder_path(folders[k].path@) && forall|j: int|
        0 <= j < k ==> !spec_is_sent_folder_path(#[trigger] folders[j].path@)
}

/// The folder a message being sent is kept in until the server has it: the
/// folder with the sent role; else the first folder whose path looks like a
/// sent folder, given the sent role; else a made-up `Sent` folder.
pub fn sent_folder_for_local_send(
    account_id: &str,
    by_role: Option<MailFolder>,
    listed: Vec<MailFolder>,
) -> (r: MailFolder)
    ensures
        by_role is Some ==> r == by_role->0,
        by_role is None && (exists|k: int| is_first_sent_path(listed@, k)) ==> r == (MailFolder {
            role: FolderRole::Sent,
            ..listed@[choose|k: int| is_first_sent_path(listed@, k)]
        }),
        by_role is None && !(exists|k: int| is_first_sent_path(listed@, k)) ==> {
            &&& r.id@ == spec_fallback_sent_folder_id(account_id@)
            &&& r.account_id@ == account_id@
            &&& r.name@ == "Sent"@
            &&& r.path@ == "Sent"@
            &&& r.role == FolderRole::Sent
            &&& r.unread_count == 0
            &&& r.total_count == 0
        },
{
    if by_role.is_some() {
        return by_role.unwrap();
    }
    let mut work = listed;
    let n = work.len();
    let mut k: usize = 0;
    while k < n
        invariant
            by_role is None,
            n == listed@.len(),
            work@ == listed@,
            k <= n,
            forall|j: int| 0 <= j < k ==> !spec_is_sent_folder_path(#[trigger] listed@[j].path@),
        decreases n - k,
    {
        if is_sent_folder_path(work[k].path.as_str()) {
            proof {
                assert(is_first_sent_path(listed@, k as int));
                let c = choose|c: int| is_first_sent_path(listed@, c);
                if c < k {
                    assert(!spec_is_sent_folder_path(listed@[c].path@));
                } else if c > k {
                    assert(!spec_is_sent_folder_path(listed@[k as int].path@));
                }
            }
            let f = work.swap_remove(k);
            return MailFolder { role: FolderRole::Sent, ..f };
        }
        k = k + 1;
    }
    MailFolder {
        id: fallback_sent_folder_id(account_id),
        account_id: account_id.to_owned(),
        name: "Sent".to_owned(),
        path: "Sent".to_owned(),
        role: FolderRole::Sent,
        unread_count: 0,
        total_count: 0,
    }
}

/// Placeholders in the made-up sent folder move to a real sent folder once
/// the account has one (and it is not the made-up folder itself).
pub fn needs_sent_convergence(account_id: &str, real_sent_folder: &MailFolder) -> (r: bool)
    ensures
        r == (real_sent_folder.id@ != spec_fallback_sent_folder_id(account_id@)),
{
    let fallback = fallback_sent_folder_id(account_id);
    !str_is(real_sent_folder.id.as_str(), fallback.as_str())
}

/// The folders of `s` with the sent role, in order.
pub open spec fn sent_only(s: Seq<MailFolder>) -> Seq<MailFolder>
    decreases s.len(),
{
    if s.len() == 0 {
        s
    } else if s.last().role == FolderRole::Sent {
        sent_only(s.drop_last()).push(s.last())
    } else {
        sent_only(s.drop_last())
    }
}

/// The sent folders among those the server lists, in order: after a send,
/// these are fetched again so the sent copy shows without waiting.
pub fn sent_role_folders(folders: Vec<MailFolder>) -> (r: Vec<MailFolder>)
    ensures
        r@ == sent_only(folders@),
{
    let ghost all = folders@;
    let mut out: Vec<MailFolder> = Vec::new();
    let mut rest = folders;
    let n = rest.len();
    let mut i: usize = 0;
    assert(all.take(0) =~= Seq::<MailFolder>::empty());
    while i < n
        invariant
            n == all.len(),
            i <= n,
            rest@ == all.skip(i as int),
            out@ == sent_only(all.take(i as int)),
        decreases n - i,
    {
        let f = rest.remove(0);
        assert(f == all[i as int]);
        assert(all.skip(i as int).drop_first() =~= all.skip(i + 1));
        assert(all.take(i + 1).drop_last() =~= all.take(i as int));
        assert(all.take(i + 1).last() == all[i as int]);
        if f.role == FolderRole::Sent {
            out.push(f);
        }
        i = i + 1;
    }
    assert(all.take(n as int) =~= all);
    out
}

/// What a fetch of recent sent messages asks for after a send: the latest 25.
pub fn sent_reconcile_request() -> (r: MessageFetchRequest)
    ensures
        r.last_uid is None,
        r.limit == 25,
{
    MessageFetchRequest { last_uid: None, limit: 25 }
}

/// What a fetch of a folder asks for before a permanent delete: the latest 500.
pub fn permanent_delete_lookup_request() -> (r: MessageFetchRequest)
    ensures
        r.last_uid is None,
        r.limit == 500,
{
    MessageFetchRequest { last_uid: None, limit: 500 }
}

/// What a folder sync asks for: up to 100 messages after the last UID seen.
pub fn folder_sync_request(last_uid: Option<String>) -> (r: MessageFetchRequest)
    ensures
        r.last_uid == last_uid,
        r.limit == 100,
{
    MessageFetchRequest { last_uid, limit: 100 }
}

} // verus!
