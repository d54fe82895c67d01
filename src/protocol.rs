use crate::models::{Room, RoomView};
use vstd::prelude::*;
use vstd::string::*;

verus! {

/// A command from a client; each names the room it is about.
#[derive(Debug, Clone)]
pub enum ClientMessage {
    Join { room_id: String, name: String },
    Rejoin { room_id: String, user_id: String, name: String },
    Vote { room_id: String, user_id: String, estimate: String },
    Show { room_id: String },
    Clear { room_id: String },
}

/// A message to a client: a room's full state, an error, or the identity
/// under which a connection has joined a room.
#[derive(Debug, Clone)]
pub enum ServerMessage {
    RoomState { room: Room },
    Error { message: String },
    Joined { user_id: String, room_id: String },
}

/// A server message as a value.
pub enum ServerMessageView {
    RoomState { room: RoomView },
    Error { message: Seq<char> },
    Joined { user_id: Seq<char>, room_id: Seq<char> },
}

impl View for ServerMessage {
    type V = ServerMessageView;

    open spec fn view(&self) -> ServerMessageView {
        match self {
            ServerMessage::RoomState { room } => ServerMessageView::RoomState { room: room@ },
            ServerMessage::Error { message } => ServerMessageView::Error { message: message@ },
            ServerMessage::Joined { user_id, room_id } => ServerMessageView::Joined {
                user_id: user_id@,
                room_id: room_id@,
            },
        }
    }
}

/// Why a command failed.
#[derive(Debug, Clone, Copy, PartialEq, Eq, Structural)]
pub enum RoomError {
    /// The command names a room that does not exist.
    RoomNotFound,
}

/// The text sent to a client for a missing room.
pub open spec fn room_not_found_text() -> Seq<char> {
    seq!['R', 'o', 'o', 'm', ' ', 'n', 'o', 't', ' ', 'f', 'o', 'u', 'n', 'd']
}

impl RoomError {
    pub open spec fn message_spec(&self) -> Seq<char> {
        match self {
            RoomError::RoomNotFound => room_not_found_text(),
        }
    }

    /// The human-readable text of the error.
    pub fn message(&self) -> (r: String)
        ensures
            r@ == self.message_spec(),
    {
        match self {
            RoomError::RoomNotFound => {
                let r = String::from_str("Room not found");
                proof {
                    reveal_strlit("Room not found");
                }
                assert(r@ =~= room_not_found_text());
                r
            },
        }
    }
}

impl ServerMessage {
    /// A copy of the message; a room state is copied without its channel.
    pub fn duplicate(&self) -> (r: ServerMessage)
        ensures
            r@ == self@,
    {
        match self {
            ServerMessage::RoomState { room } => ServerMessage::RoomState { room: room.snapshot() },
            ServerMessage::Error { message } => ServerMessage::Error { message: message.clone() },
            ServerMessage::Joined { user_id, room_id } => ServerMessage::Joined {
                user_id: user_id.clone(),
                room_id: room_id.clone(),
            },
        }
    }
}

impl ClientMessage {
    pub open spec fn room_id_spec(&self) -> Seq<char> {
        match self {
            ClientMessage::Join { room_id, .. } => room_id@,
            ClientMessage::Rejoin { room_id, .. } => room_id@,
            ClientMessage::Vote { room_id, .. } => room_id@,
            ClientMessage::Show { room_id } => room_id@,
            ClientMessage::Clear { room_id } => room_id@,
        }
    }

    /// The room that the command names.
    pub fn room_id(&self) -> (r: &String)
        ensures
            r@ == self.room_id_spec(),
    {
        match self {
            ClientMessage::Join { room_id, .. } => room_id,
            ClientMessage::Rejoin { room_id, .. } => room_id,
            ClientMessage::Vote { room_id, .. } => room_id,
            ClientMessage::Show { room_id } => room_id,
            ClientMessage::Clear { room_id } => room_id,
        }
    }

    /// Whether the command brings its connection into a room.
    pub open spec fn enters_room(&self) -> bool {
        self is Join || self is Rejoin
    }
}

} // verus!
