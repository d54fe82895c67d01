use crate::models::RoomView;
use crate::protocol::{ClientMessage, RoomError, ServerMessage, ServerMessageView};
use crate::registry::{fresh_for, handled, Registry};
use tokio::sync::broadcast::Receiver;
use vstd::prelude::*;

verus! {

/// The state of one connection: the room it is in, if any, and its
/// subscription to that room's broadcast channel.
pub struct Session {
    pub current_room_id: Option<String>,
    pub broadcast_rx: Option<Receiver<String>>,
}

/// What a connection sends after a command: `reply` to itself, and
/// `broadcast`, if any, to every subscriber of the named room.
pub struct Dispatch {
    pub reply: ServerMessage,
    pub broadcast: Option<(String, ServerMessage)>,
}

/// The reply to the connection for the result of its command.
pub open spec fn reply_for(result: Result<ServerMessage, RoomError>) -> ServerMessageView {
    match result {
        Ok(m) => m@,
        Err(e) => ServerMessageView::Error { message: e.message_spec() },
    }
}

/// What is broadcast, after a command on room `room_id`, to that room's
/// subscribers, `rooms` being the rooms afterwards: nothing after an error;
/// the room's fresh state after a join; else the reply, itself a room state.
pub open spec fn broadcast_for(
    room_id: Seq<char>,
    result: Result<ServerMessage, RoomError>,
    rooms: Map<Seq<char>, RoomView>,
) -> Option<(Seq<char>, ServerMessageView)> {
    match result {
        Ok(m) => if m is Joined {
            if rooms.contains_key(room_id) {
                Some((room_id, ServerMessageView::RoomState { room: rooms[room_id] }))
            } else {
                None
            }
        } else {
            Some((room_id, m@))
        },
        Err(_) => None,
    }
}

impl Dispatch {
    pub open spec fn broadcast_view(&self) -> Option<(Seq<char>, ServerMessageView)> {
        match self.broadcast {
            Some((rid, m)) => Some((rid@, m@)),
            None => None,
        }
    }
}

/// How a command moves a session: a `Join` or `Rejoin` puts it in the room
/// it names, subscribed to that room's channel when the room exists; any
/// other command leaves it as it was.
pub open spec fn entered(
    before: Session,
    after: Session,
    msg: ClientMessage,
    rooms: Map<Seq<char>, RoomView>,
) -> bool {
    if msg.enters_room() {
        &&& after.current_room_id matches Some(rid) && rid@ == msg.room_id_spec()
        &&& if rooms.contains_key(msg.room_id_spec()) {
            after.broadcast_rx is Some
        } else {
            after.broadcast_rx == before.broadcast_rx
        }
    } else {
        after == before
    }
}

/// What to send for the result of a command on room `room_id`, `rooms`
/// being the rooms after it.
pub fn dispatch(room_id: &String, result: Result<ServerMessage, RoomError>, rooms: &Registry) -> (d:
    Dispatch)
    requires
        rooms.wf(),
    ensures
        d.reply@ == reply_for(result),
        d.broadcast_view() == broadcast_for(room_id@, result, rooms@),
{
    match result {
        Ok(m) => {
            let broadcast = match &m {
                ServerMessage::Joined { .. } => match rooms.room_state(room_id) {
                    Some(room) => Some((room_id.clone(), ServerMessage::RoomState { room })),
                    None => None,
                },
                _ => Some((room_id.clone(), m.duplicate())),
            };
            Dispatch { reply: m, broadcast }
        },
        Err(e) => Dispatch { reply: ServerMessage::Error { message: e.message() }, broadcast: None },
    }
}

impl Session {
    /// A connection that is in no room yet.
    pub fn new() -> (r: Session)
        ensures
            r.current_room_id is None,
            r.broadcast_rx is None,
    {
        Session { current_room_id: None, broadcast_rx: None }
    }

    /// Moves the session into the room that a `Join` or `Rejoin` names,
    /// replacing its subscription by one to that room's channel.
    pub fn enter(&mut self, msg: &ClientMessage, rooms: &Registry)
        requires
            rooms.wf(),
        ensures
            entered(*old(self), *final(self), *msg, rooms@),
    {
        match msg {
            ClientMessage::Join { room_id, .. } | ClientMessage::Rejoin { room_id, .. } => {
                self.current_room_id = Some(room_id.clone());
                match rooms.subscribe(room_id) {
                    Some(rx) => {
                        self.broadcast_rx = Some(rx);
                    },
                    None => {},
                }
            },
            _ => {},
        }
    }

    /// Handles one decoded command: enters the room it names if it is a
    /// `Join` or `Rejoin`, applies it to the rooms, and says what to send.
    pub fn on_command(&mut self, msg: ClientMessage, rooms: &mut Registry) -> (d: Dispatch)
        requires
            old(rooms).wf(),
        ensures
            final(rooms).wf(),
            final(rooms).channels() == old(rooms).channels(),
            entered(*old(self), *final(self), msg, old(rooms)@),
            exists|uid: Seq<char>, r: Result<ServerMessage, RoomError>|
                #![trigger handled(old(rooms)@, final(rooms)@, msg, uid, r)]
                handled(old(rooms)@, final(rooms)@, msg, uid, r) && fresh_for(old(rooms)@, msg, uid)
                    && d.reply@ == reply_for(r) && d.broadcast_view() == broadcast_for(
                    msg.room_id_spec(),
                    r,
                    final(rooms)@,
                ),
    {
        self.enter(&msg, rooms);
        let room_id = msg.room_id().clone();
        let ghost m = msg;
        let r = rooms.handle_message(msg);
        let d = dispatch(&room_id, r, rooms);
        proof {
            let uid = choose|uid: Seq<char>|
                handled(old(rooms)@, rooms@, m, uid, r) && fresh_for(old(rooms)@, m, uid);
            assert(handled(old(rooms)@, rooms@, m, uid, r));
        }
        d
    }
}

} // verus!
