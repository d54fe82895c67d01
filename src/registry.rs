use crate::keyed::{keyed, lemma_keyed_domain, lemma_keyed_entry, lemma_keyed_push, lemma_keyed_update, unique_keys};
use crate::models::{is_room_id, unvoted, Room, RoomView, UserView};
use crate::outside::{new_user_id, publish, subscribe};
use crate::protocol::{ClientMessage, RoomError, ServerMessage, ServerMessageView};
use tokio::sync::broadcast::{Receiver, Sender};
use vstd::prelude::*;

verus! {

/// What a command does to the room it names; `uid` is the identifier that a
/// `Join` gives its new participant.
pub open spec fn applied(room: RoomView, msg: ClientMessage, uid: Seq<char>) -> RoomView {
    match msg {
        ClientMessage::Join { name, .. } => RoomView {
            users: room.users.insert(uid, UserView { name: name@, estimate: None }),
            ..room
        },
        ClientMessage::Rejoin { user_id, name, .. } => RoomView {
            users: room.users.insert(
                user_id@,
                UserView {
                    name: name@,
                    estimate: if room.users.contains_key(user_id@) {
                        room.users[user_id@].estimate
                    } else {
                        None
                    },
                },
            ),
            ..room
        },
        ClientMessage::Vote { user_id, estimate, .. } => if room.users.contains_key(user_id@) {
            RoomView {
                users: room.users.insert(
                    user_id@,
                    UserView { estimate: Some(estimate@), ..room.users[user_id@] },
                ),
                ..room
            }
        } else {
            room
        },
        ClientMessage::Show { .. } => RoomView { revealed: true, ..room },
        ClientMessage::Clear { .. } => RoomView {
            users: room.users.map_values(|u: UserView| unvoted(u)),
            revealed: false,
            ..room
        },
    }
}

/// The reply to a command that found its room, which is `after` once the
/// command has been applied.
pub open spec fn reply(msg: ClientMessage, uid: Seq<char>, after: RoomView) -> ServerMessageView {
    match msg {
        ClientMessage::Join { room_id, .. } => ServerMessageView::Joined {
            user_id: uid,
            room_id: room_id@,
        },
        ClientMessage::Rejoin { room_id, user_id, .. } => ServerMessageView::Joined {
            user_id: user_id@,
            room_id: room_id@,
        },
        _ => ServerMessageView::RoomState { room: after },
    }
}

/// `msg` took the rooms from `before` to `after` with result `r`: applied
/// to the room it names, or refused with `RoomNotFound` and nothing changed.
pub open spec fn handled(
    before: Map<Seq<char>, RoomView>,
    after: Map<Seq<char>, RoomView>,
    msg: ClientMessage,
    uid: Seq<char>,
    r: Result<ServerMessage, RoomError>,
) -> bool {
    let id = msg.room_id_spec();
    if before.contains_key(id) {
        &&& after == before.insert(id, applied(before[id], msg, uid))
        &&& r matches Ok(m) && m@ == reply(msg, uid, after[id])
    } else {
        &&& after == before
        &&& r == Err::<ServerMessage, RoomError>(RoomError::RoomNotFound)
    }
}

/// A `Join` that finds its room gives its new participant an identifier
/// that no participant of that room had.
pub open spec fn fresh_for(before: Map<Seq<char>, RoomView>, msg: ClientMessage, uid: Seq<char>) -> bool {
    msg is Join && before.contains_key(msg.room_id_spec()) ==> !before[msg.room_id_spec()].users.contains_key(uid)
}

/// The rooms as `(identifier, room)` entries.
pub open spec fn room_entries(rooms: Seq<Room>) -> Seq<(Seq<char>, RoomView)> {
    rooms.map_values(|r: Room| (r.id@, r@))
}

/// The rooms' broadcast channels as `(identifier, channel)` entries.
pub open spec fn channel_entries(rooms: Seq<Room>) -> Seq<(Seq<char>, Option<Sender<String>>)> {
    rooms.map_values(|r: Room| (r.id@, r.broadcast_tx))
}

/// Every room of the process, by identifier. Each room has its own
/// broadcast channel for as long as it is here.
pub struct Registry {
    rooms: Vec<Room>,
}

impl View for Registry {
    type V = Map<Seq<char>, RoomView>;

    closed spec fn view(&self) -> Map<Seq<char>, RoomView> {
        keyed(room_entries(self.rooms@))
    }
}

proof fn lemma_set_room(rooms: Seq<Room>, i: int, r: Room)
    requires
        unique_keys(room_entries(rooms)),
        0 <= i < rooms.len(),
        r.id@ == rooms[i].id@,
    ensures
        unique_keys(room_entries(rooms.update(i, r))),
        keyed(room_entries(rooms.update(i, r))) == keyed(room_entries(rooms)).insert(r.id@, r@),
{
    let s = room_entries(rooms);
    assert(room_entries(rooms.update(i, r)) =~= s.update(i, (s[i].0, r@)));
    lemma_keyed_update(s, i, r@);
    assert(unique_keys(s.update(i, (s[i].0, r@)))) by {
        let t = s.update(i, (s[i].0, r@));
        assert forall|a: int, b: int|
            0 <= a < t.len() && 0 <= b < t.len() && a != b implies t[a].0 != t[b].0 by {
            assert(t[a].0 == s[a].0 && t[b].0 == s[b].0);
        }
    }
}

impl Registry {
    /// The broadcast channel of each room, by room identifier.
    pub closed spec fn channels(&self) -> Map<Seq<char>, Option<Sender<String>>> {
        keyed(channel_entries(self.rooms@))
    }

    /// Identifiers are unique; every room is well formed and has a channel.
    pub closed spec fn wf(&self) -> bool {
        &&& unique_keys(room_entries(self.rooms@))
        &&& forall|i: int|
            0 <= i < self.rooms@.len() ==> #[trigger] self.rooms@[i].wf()
                && self.rooms@[i].broadcast_tx is Some
    }

    /// A registry with no rooms.
    pub fn new() -> (r: Registry)
        ensures
            r.wf(),
            r@ == Map::<Seq<char>, RoomView>::empty(),
            r.channels().dom() == Set::<Seq<char>>::empty(),
    {
        let r = Registry { rooms: Vec::new() };
        assert(room_entries(r.rooms@) =~= Seq::empty());
        assert(channel_entries(r.rooms@) =~= Seq::empty());
        assert(r.channels().dom() =~= Set::<Seq<char>>::empty());
        assert(r@ =~= Map::<Seq<char>, RoomView>::empty());
        r
    }

    fn find(&self, room_id: &String) -> (r: Option<usize>)
        requires
            self.wf(),
        ensures
            match r {
                Some(i) => i < self.rooms@.len() && self.rooms@[i as int].id@ == room_id@
                    && self@.contains_key(room_id@) && self@[room_id@] == self.rooms@[i as int]@,
                None => !self@.contains_key(room_id@),
            },
    {
        let mut i: usize = 0;
        while i < self.rooms.len()
            invariant
                self.wf(),
                i <= self.rooms@.len(),
                forall|j: int| 0 <= j < i ==> self.rooms@[j].id@ != room_id@,
            decreases self.rooms@.len() - i,
        {
            if self.rooms[i].id == *room_id {
                proof {
                    lemma_keyed_entry(room_entries(self.rooms@), i as int);
                }
                return Some(i);
            }
            i = i + 1;
        }
        proof {
            lemma_keyed_domain(room_entries(self.rooms@), room_id@);
        }
        None
    }

    /// Whether a room with this identifier exists.
    pub fn contains(&self, room_id: &String) -> (r: bool)
        requires
            self.wf(),
        ensures
            r == self@.contains_key(room_id@),
    {
        self.find(room_id).is_some()
    }

    /// Registers `room`, in place of any room with the same identifier.
    pub fn insert_room(&mut self, room: Room)
        requires
            old(self).wf(),
            room.wf(),
            room.broadcast_tx is Some,
        ensures
            final(self).wf(),
            final(self)@ == old(self)@.insert(room.id@, room@),
            final(self).channels() == old(self).channels().insert(room.id@, room.broadcast_tx),
    {
        let ghost before = self.rooms@;
        let ghost c = channel_entries(before);
        proof {
            let e = room_entries(before);
            assert forall|a: int, b: int|
                0 <= a < c.len() && 0 <= b < c.len() && a != b implies c[a].0 != c[b].0 by {
                assert(e[a].0 == c[a].0 && e[b].0 == c[b].0);
            }
        }
        match self.find(&room.id) {
            Some(i) => {
                proof {
                    lemma_set_room(before, i as int, room);
                    assert(channel_entries(before.update(i as int, room)) =~= c.update(
                        i as int,
                        (c[i as int].0, room.broadcast_tx),
                    ));
                    lemma_keyed_update(c, i as int, room.broadcast_tx);
                }
                self.rooms.set(i, room);
            },
            None => {
                proof {
                    let s = room_entries(before);
                    assert(room_entries(before.push(room)) =~= s.push((room.id@, room@)));
                    lemma_keyed_push(s, (room.id@, room@));
                    lemma_keyed_domain(s, room.id@);
                    assert(channel_entries(before.push(room)) =~= c.push(
                        (room.id@, room.broadcast_tx),
                    ));
                    lemma_keyed_push(c, (room.id@, room.broadcast_tx));
                }
                self.rooms.push(room);
            },
        }
        proof {
            assert forall|j: int| 0 <= j < self.rooms@.len() implies #[trigger] self.rooms@[j].wf()
                && self.rooms@[j].broadcast_tx is Some by {
                if j < before.len() && self.rooms@[j] == before[j] {
                    assert(before[j].wf());
                }
            }
        }
    }

    /// Makes a room with a random identifier, registers it (in place of any
    /// room that had that identifier) and returns the identifier.
    pub fn create_room(&mut self) -> (r: String)
        requires
            old(self).wf(),
        ensures
            final(self).wf(),
            is_room_id(r@),
            final(self).channels().dom() == old(self).channels().dom().insert(r@),
            final(self)@ == old(self)@.insert(
                r@,
                RoomView { id: r@, users: Map::empty(), revealed: false },
            ),
    {
        let room = Room::new();
        let id = room.id.clone();
        self.insert_room(room);
        assert(self.channels().dom() =~= old(self).channels().dom().insert(id@));
        id
    }

    /// A copy of the state of the room with this identifier, if it exists.
    pub fn room_state(&self, room_id: &String) -> (r: Option<Room>)
        requires
            self.wf(),
        ensures
            match r {
                Some(room) => self@.contains_key(room_id@) && room@ == self@[room_id@] && room.wf(),
                None => !self@.contains_key(room_id@),
            },
    {
        match self.find(room_id) {
            Some(i) => Some(self.rooms[i].snapshot()),
            None => None,
        }
    }

    /// A new subscription to the broadcast channel of the room with this
    /// identifier, if it exists.
    pub fn subscribe(&self, room_id: &String) -> (r: Option<Receiver<String>>)
        requires
            self.wf(),
        ensures
            r is Some <==> self@.contains_key(room_id@),
    {
        match self.find(room_id) {
            Some(i) => {
                proof {
                    assert(self.rooms@[i as int].wf());
                }
                match &self.rooms[i].broadcast_tx {
                    Some(tx) => Some(subscribe(tx)),
                    None => None,
                }
            },
            None => None,
        }
    }

    /// Sends `text` on the broadcast channel of the room with this
    /// identifier and returns how many subscribers it reached, zero being no
    /// error; `None` when the room does not exist.
    pub fn publish(&self, room_id: &String, text: String) -> (r: Option<usize>)
        requires
            self.wf(),
        ensures
            r is Some <==> self@.contains_key(room_id@),
    {
        match self.find(room_id) {
            Some(i) => {
                proof {
                    assert(self.rooms@[i as int].wf());
                }
                match &self.rooms[i].broadcast_tx {
                    Some(tx) => Some(publish(tx, text)),
                    None => None,
                }
            },
            None => None,
        }
    }

    /// Applies `msg` to the room it names; a `Join` gives its new participant
    /// the identifier `new_user_id`.
    pub fn apply(&mut self, msg: ClientMessage, new_user_id: String) -> (r: Result<
        ServerMessage,
        RoomError,
    >)
        requires
            old(self).wf(),
        ensures
            final(self).wf(),
            final(self).channels() == old(self).channels(),
            handled(old(self)@, final(self)@, msg, new_user_id@, r),
    {
        let i = match self.find(msg.room_id()) {
            Some(i) => i,
            None => {
                return Err(RoomError::RoomNotFound);
            },
        };
        let ghost before = self.rooms@;
        proof {
            assert(before[i as int].wf());
        }
        let r = match msg {
            ClientMessage::Join { room_id, name } => {
                self.rooms[i].join(new_user_id.clone(), name);
                ServerMessage::Joined { user_id: new_user_id, room_id }
            },
            ClientMessage::Rejoin { room_id, user_id, name } => {
                self.rooms[i].rejoin(user_id.clone(), name);
                ServerMessage::Joined { user_id, room_id }
            },
            ClientMessage::Vote { user_id, estimate, .. } => {
                self.rooms[i].vote(&user_id, estimate);
                ServerMessage::RoomState { room: self.rooms[i].snapshot() }
            },
            ClientMessage::Show { .. } => {
                self.rooms[i].show();
                ServerMessage::RoomState { room: self.rooms[i].snapshot() }
            },
            ClientMessage::Clear { .. } => {
                self.rooms[i].clear();
                ServerMessage::RoomState { room: self.rooms[i].snapshot() }
            },
        };
        proof {
            let room = self.rooms@[i as int];
            assert(self.rooms@ == before.update(i as int, room));
            lemma_set_room(before, i as int, room);
            assert(channel_entries(self.rooms@) =~= channel_entries(before));
            assert forall|j: int| 0 <= j < self.rooms@.len() implies #[trigger] self.rooms@[j].wf()
                && self.rooms@[j].broadcast_tx is Some by {
                assert(before[j].wf());
            }
        }
        Ok(r)
    }

    /// Applies `msg` to the room it names; a `Join` gives its new participant
    /// a random identifier that is new to the room.
    pub fn handle_message(&mut self, msg: ClientMessage) -> (r: Result<ServerMessage, RoomError>)
        requires
            old(self).wf(),
        ensures
            final(self).wf(),
            final(self).channels() == old(self).channels(),
            exists|uid: Seq<char>|
                handled(old(self)@, final(self)@, msg, uid, r) && fresh_for(old(self)@, msg, uid),
    {
        let uid = match &msg {
            ClientMessage::Join { room_id, .. } => match self.find(room_id) {
                Some(i) => {
                    proof {
                        assert(self.rooms@[i as int].wf());
                    }
                    self.rooms[i].fresh_user_id(new_user_id())
                },
                None => String::new(),
            },
            _ => String::new(),
        };
        let ghost g = uid@;
        let r = self.apply(msg, uid);
        assert(handled(old(self)@, self@, msg, g, r) && fresh_for(old(self)@, msg, g));
        r
    }
}

} // verus!
