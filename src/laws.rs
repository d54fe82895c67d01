use crate::models::{RoomView, UserView};
use crate::protocol::{ClientMessage, RoomError, ServerMessage, ServerMessageView};
use crate::registry::{fresh_for, handled};
use crate::session::broadcast_for;
use vstd::prelude::*;

verus! {

/// A `Join` gives its new participant an identifier that no participant of
/// the room had; it adds exactly one participant, under that identifier,
/// with no vote, leaves every other participant as it was, and replies with
/// that identifier.
pub proof fn law_join_adds_one_participant(
    before: Map<Seq<char>, RoomView>,
    after: Map<Seq<char>, RoomView>,
    msg: ClientMessage,
    uid: Seq<char>,
    r: Result<ServerMessage, RoomError>,
)
    requires
        handled(before, after, msg, uid, r),
        msg matches ClientMessage::Join { .. },
        before.contains_key(msg.room_id_spec()),
        before[msg.room_id_spec()].users.dom().finite(),
        fresh_for(before, msg, uid),
    ensures
        ({
            let old_users = before[msg.room_id_spec()].users;
            let new_users = after[msg.room_id_spec()].users;
            &&& !old_users.contains_key(uid)
            &&& new_users.contains_key(uid)
            &&& new_users[uid].estimate is None
            &&& new_users.dom().len() == old_users.dom().len() + 1
            &&& forall|k: Seq<char>| #[trigger]
                old_users.contains_key(k) ==> new_users.contains_key(k) && new_users[k]
                    == old_users[k]
            &&& r matches Ok(m) && m@ == ServerMessageView::Joined {
                user_id: uid,
                room_id: msg.room_id_spec(),
            }
        }),
{
    let old_users = before[msg.room_id_spec()].users;
    let new_users = after[msg.room_id_spec()].users;
    assert(new_users.dom() =~= old_users.dom().insert(uid));
}

/// Rejoining under an identifier already in the room renames that
/// participant and keeps its vote.
pub proof fn law_rejoin_keeps_vote(
    before: Map<Seq<char>, RoomView>,
    after: Map<Seq<char>, RoomView>,
    msg: ClientMessage,
    uid: Seq<char>,
    r: Result<ServerMessage, RoomError>,
)
    requires
        handled(before, after, msg, uid, r),
        before.contains_key(msg.room_id_spec()),
        msg matches ClientMessage::Rejoin { user_id, .. } && before[msg.room_id_spec()].users.contains_key(user_id@),
    ensures
        after[msg.room_id_spec()].users[msg->Rejoin_user_id@] == (UserView {
            name: msg->Rejoin_name@,
            estimate: before[msg.room_id_spec()].users[msg->Rejoin_user_id@].estimate,
        }),
{
}

/// Rejoining under an identifier that the room does not know adds that
/// identifier as a new participant with no vote, rather than failing.
pub proof fn law_rejoin_unknown_adds(
    before: Map<Seq<char>, RoomView>,
    after: Map<Seq<char>, RoomView>,
    msg: ClientMessage,
    uid: Seq<char>,
    r: Result<ServerMessage, RoomError>,
)
    requires
        handled(before, after, msg, uid, r),
        before.contains_key(msg.room_id_spec()),
        msg matches ClientMessage::Rejoin { user_id, .. } && !before[msg.room_id_spec()].users.contains_key(user_id@),
    ensures
        after[msg.room_id_spec()].users == before[msg.room_id_spec()].users.insert(
            msg->Rejoin_user_id@,
            UserView { name: msg->Rejoin_name@, estimate: None },
        ),
        r matches Ok(m) && m@ == (ServerMessageView::Joined {
            user_id: msg->Rejoin_user_id@,
            room_id: msg.room_id_spec(),
        }),
{
}

/// A command that names a room that does not exist fails with
/// `RoomNotFound` and changes no room.
pub proof fn law_missing_room_changes_nothing(
    before: Map<Seq<char>, RoomView>,
    after: Map<Seq<char>, RoomView>,
    msg: ClientMessage,
    uid: Seq<char>,
    r: Result<ServerMessage, RoomError>,
)
    requires
        handled(before, after, msg, uid, r),
        !before.contains_key(msg.room_id_spec()),
    ensures
        r == Err::<ServerMessage, RoomError>(RoomError::RoomNotFound),
        after == before,
{
}

/// After a `Clear`, whatever came before, the room has the same
/// participants, none of them with a vote, and the votes are hidden.
pub proof fn law_clear_resets_votes(
    before: Map<Seq<char>, RoomView>,
    after: Map<Seq<char>, RoomView>,
    msg: ClientMessage,
    uid: Seq<char>,
    r: Result<ServerMessage, RoomError>,
)
    requires
        handled(before, after, msg, uid, r),
        msg matches ClientMessage::Clear { .. },
        before.contains_key(msg.room_id_spec()),
    ensures
        ({
            let room = after[msg.room_id_spec()];
            &&& !room.revealed
            &&& room.users.dom() == before[msg.room_id_spec()].users.dom()
            &&& forall|k: Seq<char>| #[trigger]
                room.users.contains_key(k) ==> room.users[k].estimate is None
                    && room.users[k].name == before[msg.room_id_spec()].users[k].name
            &&& r matches Ok(m) && m@ == ServerMessageView::RoomState { room }
        }),
{
    let room = after[msg.room_id_spec()];
    assert(room.users.dom() =~= before[msg.room_id_spec()].users.dom());
}

/// A vote by an identifier that the room does not know changes nothing and
/// replies with the room's unchanged state.
pub proof fn law_unknown_voter_changes_nothing(
    before: Map<Seq<char>, RoomView>,
    after: Map<Seq<char>, RoomView>,
    msg: ClientMessage,
    uid: Seq<char>,
    r: Result<ServerMessage, RoomError>,
)
    requires
        handled(before, after, msg, uid, r),
        before.contains_key(msg.room_id_spec()),
        msg matches ClientMessage::Vote { user_id, .. } && !before[msg.room_id_spec()].users.contains_key(user_id@),
    ensures
        after == before,
        r matches Ok(m) && m@ == (ServerMessageView::RoomState { room: before[msg.room_id_spec()] }),
{
    assert(after =~= before);
}

/// What a session broadcasts after any command is a room state, and it goes
/// to the room the command names: join notices and errors go to the
/// originating connection only.
pub proof fn law_only_room_states_are_broadcast(
    before: Map<Seq<char>, RoomView>,
    after: Map<Seq<char>, RoomView>,
    msg: ClientMessage,
    uid: Seq<char>,
    r: Result<ServerMessage, RoomError>,
)
    requires
        handled(before, after, msg, uid, r),
    ensures
        broadcast_for(msg.room_id_spec(), r, after) matches Some((room_id, m)) ==> room_id
            == msg.room_id_spec() && m is RoomState,
        before.contains_key(msg.room_id_spec()) ==> broadcast_for(msg.room_id_spec(), r, after)
            == Some((
            msg.room_id_spec(),
            ServerMessageView::RoomState { room: after[msg.room_id_spec()] },
        )),
{
}

/// No command removes a room or a participant: the same rooms exist
/// afterwards, and each keeps every participant it had.
pub proof fn law_participants_stay(
    before: Map<Seq<char>, RoomView>,
    after: Map<Seq<char>, RoomView>,
    msg: ClientMessage,
    uid: Seq<char>,
    r: Result<ServerMessage, RoomError>,
)
    requires
        handled(before, after, msg, uid, r),
    ensures
        after.dom() == before.dom(),
        forall|id: Seq<char>, k: Seq<char>|
            #[trigger] before.contains_key(id) && #[trigger] before[id].users.contains_key(k)
                ==> after[id].users.contains_key(k),
{
    assert(after.dom() =~= before.dom());
}

} // verus!
