use crate::keyed::{
    keyed, lemma_keyed_domain, lemma_keyed_entry, lemma_keyed_pointwise, lemma_keyed_push,
    lemma_keyed_update, unique_keys,
};
use crate::outside::{open_channel, random_between};
use tokio::sync::broadcast::Sender;
use vstd::prelude::*;
use vstd::string::*;

verus! {

/// How many unread messages a room's broadcast channel keeps per subscriber
/// before the oldest are dropped.
pub const CHANNEL_CAPACITY: usize = 100;

/// A participant of a room.
#[derive(Debug, Clone)]
pub struct User {
    pub id: String,
    pub name: String,
    pub estimate: Option<String>,
}

/// What a participant is, apart from the identifier that keys it.
pub struct UserView {
    pub name: Seq<char>,
    pub estimate: Option<Seq<char>>,
}

/// An optional text as an optional character sequence.
pub open spec fn opt_view(o: Option<String>) -> Option<Seq<char>> {
    match o {
        Some(s) => Some(s@),
        None => None,
    }
}

impl View for User {
    type V = UserView;

    open spec fn view(&self) -> UserView {
        UserView { name: self.name@, estimate: opt_view(self.estimate) }
    }
}

/// The participants of a room as `(identifier, participant)` entries.
pub open spec fn user_entries(users: Seq<User>) -> Seq<(Seq<char>, UserView)> {
    users.map_values(|u: User| (u.id@, u@))
}

/// The same participant with its vote taken away.
pub open spec fn unvoted(u: UserView) -> UserView {
    UserView { name: u.name, estimate: None }
}

/// A room: its participants keyed by identifier, whether the votes are
/// shown, and the channel on which its changes are broadcast.
#[derive(Debug, Clone)]
pub struct Room {
    pub id: String,
    pub users: Vec<User>,
    pub revealed: bool,
    pub broadcast_tx: Option<Sender<String>>,
}

/// A room as a value: identifier, participants by identifier, revealed flag.
pub struct RoomView {
    pub id: Seq<char>,
    pub users: Map<Seq<char>, UserView>,
    pub revealed: bool,
}

impl View for Room {
    type V = RoomView;

    open spec fn view(&self) -> RoomView {
        RoomView {
            id: self.id@,
            users: keyed(user_entries(self.users@)),
            revealed: self.revealed,
        }
    }
}

/// The decimal digits, in order.
pub open spec fn digit_chars() -> Seq<char> {
    seq!['0', '1', '2', '3', '4', '5', '6', '7', '8', '9']
}

/// The three-digit decimal text of `n`, for `100 <= n < 1000`.
pub open spec fn decimal3(n: int) -> Seq<char> {
    seq![digit_chars()[n / 100], digit_chars()[(n / 10) % 10], digit_chars()[n % 10]]
}

/// A room identifier is the decimal text of a number from 100 to 999.
pub open spec fn is_room_id(id: Seq<char>) -> bool {
    exists|n: int| 100 <= n < 1000 && id == decimal3(n)
}

proof fn lemma_set_user(users: Seq<User>, i: int, u: User)
    requires
        unique_keys(user_entries(users)),
        0 <= i < users.len(),
        u.id@ == users[i].id@,
    ensures
        unique_keys(user_entries(users.update(i, u))),
        keyed(user_entries(users.update(i, u))) == keyed(user_entries(users)).insert(u.id@, u@),
{
    let s = user_entries(users);
    assert(user_entries(users.update(i, u)) =~= s.update(i, (s[i].0, u@)));
    lemma_keyed_update(s, i, u@);
    assert(unique_keys(s.update(i, (s[i].0, u@)))) by {
        let t = s.update(i, (s[i].0, u@));
        assert forall|a: int, b: int|
            0 <= a < t.len() && 0 <= b < t.len() && a != b implies t[a].0 != t[b].0 by {
            assert(t[a].0 == s[a].0 && t[b].0 == s[b].0);
        }
    }
}

proof fn lemma_push_user(users: Seq<User>, u: User)
    requires
        unique_keys(user_entries(users)),
        !keyed(user_entries(users)).contains_key(u.id@),
    ensures
        unique_keys(user_entries(users.push(u))),
        keyed(user_entries(users.push(u))) == keyed(user_entries(users)).insert(u.id@, u@),
{
    let s = user_entries(users);
    assert(user_entries(users.push(u)) =~= s.push((u.id@, u@)));
    lemma_keyed_push(s, (u.id@, u@));
    lemma_keyed_domain(s, u.id@);
}

/// The one-character text of the decimal digit `d`.
fn digit_text(d: u16) -> (r: &'static str)
    requires
        d < 10,
    ensures
        r@ == seq![digit_chars()[d as int]],
{
    let digits: &'static str = "0123456789";
    proof {
        reveal_strlit("0123456789");
    }
    let r = digits.substring_char(d as usize, d as usize + 1);
    assert(r@ =~= seq![digit_chars()[d as int]]);
    r
}

/// The identifier of a room numbered `n`: `n` in three decimal digits.
pub fn room_id_from(n: u16) -> (r: String)
    requires
        100 <= n < 1000,
    ensures
        r@ == decimal3(n as int),
{
    let mut s = String::new();
    s.append(digit_text(n / 100));
    s.append(digit_text((n / 10) % 10));
    s.append(digit_text(n % 10));
    assert(s@ =~= decimal3(n as int));
    s
}

impl Room {
    /// Participant identifiers are unique.
    pub open spec fn wf(&self) -> bool {
        unique_keys(user_entries(self.users@))
    }

    /// A room with a random identifier from `"100"` to `"999"`, no
    /// participants, votes hidden, and a fresh broadcast channel.
    pub fn new() -> (r: Room)
        ensures
            r.wf(),
            is_room_id(r@.id),
            r@.users == Map::<Seq<char>, UserView>::empty(),
            !r@.revealed,
            r.broadcast_tx is Some,
    {
        let tx = open_channel(CHANNEL_CAPACITY);
        let n = random_between(100, 1000);
        let id = room_id_from(n);
        let r = Room { id, users: Vec::new(), revealed: false, broadcast_tx: Some(tx) };
        assert(user_entries(r.users@) =~= Seq::empty());
        assert(r@.users =~= Map::<Seq<char>, UserView>::empty());
        r
    }

    /// Where the participant with identifier `user_id` stands, if present.
    pub fn find_user(&self, user_id: &String) -> (r: Option<usize>)
        requires
            self.wf(),
        ensures
            match r {
                Some(i) => i < self.users@.len() && self.users@[i as int].id@ == user_id@,
                None => !self@.users.contains_key(user_id@),
            },
    {
        let mut i: usize = 0;
        while i < self.users.len()
            invariant
                i <= self.users@.len(),
                forall|j: int| 0 <= j < i ==> self.users@[j].id@ != user_id@,
            decreases self.users@.len() - i,
        {
            if self.users[i].id == *user_id {
                return Some(i);
            }
            i = i + 1;
        }
        proof {
            lemma_keyed_domain(user_entries(self.users@), user_id@);
        }
        None
    }
    /// An identifier that no participant of the room has: `candidate` when
    /// it is free, else `candidate` lengthened past every identifier there.
    pub fn fresh_user_id(&self, candidate: String) -> (r: String)
        requires
            self.wf(),
        ensures
            !self@.users.contains_key(r@),
            !self@.users.contains_key(candidate@) ==> r@ == candidate@,
    {
        match self.find_user(&candidate) {
            None => candidate,
            Some(k) => {
                proof {
                    lemma_keyed_entry(user_entries(self.users@), k as int);
                }
                let mut s = candidate;
                let mut i: usize = 0;
                while i < self.users.len()
                    invariant
                        i <= self.users@.len(),
                        forall|j: int| 0 <= j < i ==> s@.len() >= #[trigger] self.users@[j].id@.len(),
                    decreases self.users@.len() - i,
                {
                    s.append(self.users[i].id.as_str());
                    i = i + 1;
                }
                s.append("-");
                proof {
                    reveal_strlit("-");
                    lemma_keyed_domain(user_entries(self.users@), s@);
                    if self@.users.contains_key(s@) {
                        let j = choose|j: int|
                            0 <= j < self.users@.len() && user_entries(self.users@)[j].0 == s@;
                        assert(self.users@[j].id@ == s@);
                    }
                }
                s
            },
        }
    }

    /// Adds a participant with identifier `user_id`, the name `name` and no
    /// vote, in place of any participant with that identifier.
    pub fn join(&mut self, user_id: String, name: String)
        requires
            old(self).wf(),
        ensures
            final(self).wf(),
            final(self)@ == (RoomView {
                users: old(self)@.users.insert(user_id@, UserView { name: name@, estimate: None }),
                ..old(self)@
            }),
            final(self).broadcast_tx == old(self).broadcast_tx,
    {
        let u = User { id: user_id, name, estimate: None };
        match self.find_user(&u.id) {
            Some(i) => {
                proof {
                    lemma_set_user(self.users@, i as int, u);
                }
                self.users.set(i, u);
            },
            None => {
                proof {
                    lemma_push_user(self.users@, u);
                }
                self.users.push(u);
            },
        }
    }

    /// Gives the participant `user_id` the name `name`, keeping its vote;
    /// a participant not yet in the room is added with no vote.
    pub fn rejoin(&mut self, user_id: String, name: String)
        requires
            old(self).wf(),
        ensures
            final(self).wf(),
            final(self)@ == (RoomView {
                users: old(self)@.users.insert(
                    user_id@,
                    UserView {
                        name: name@,
                        estimate: if old(self)@.users.contains_key(user_id@) {
                            old(self)@.users[user_id@].estimate
                        } else {
                            None
                        },
                    },
                ),
                ..old(self)@
            }),
            final(self).broadcast_tx == old(self).broadcast_tx,
    {
        match self.find_user(&user_id) {
            Some(i) => {
                let ghost before = self.users@;
                proof {
                    lemma_keyed_entry(user_entries(before), i as int);
                }
                self.users[i].name = name;
                proof {
                    lemma_set_user(before, i as int, self.users@[i as int]);
                    assert(self.users@ == before.update(i as int, self.users@[i as int]));
                }
            },
            None => {
                let u = User { id: user_id, name, estimate: None };
                proof {
                    lemma_push_user(self.users@, u);
                }
                self.users.push(u);
            },
        }
    }

    /// Records `estimate` as the vote of participant `user_id`; nothing
    /// changes when no such participant is in the room.
    pub fn vote(&mut self, user_id: &String, estimate: String)
        requires
            old(self).wf(),
        ensures
            final(self).wf(),
            final(self)@ == (if old(self)@.users.contains_key(user_id@) {
                RoomView {
                    users: old(self)@.users.insert(
                        user_id@,
                        UserView {
                            estimate: Some(estimate@),
                            ..old(self)@.users[user_id@]
                        },
                    ),
                    ..old(self)@
                }
            } else {
                old(self)@
            }),
            final(self).broadcast_tx == old(self).broadcast_tx,
    {
        match self.find_user(user_id) {
            Some(i) => {
                let ghost before = self.users@;
                proof {
                    lemma_keyed_entry(user_entries(before), i as int);
                }
                self.users[i].estimate = Some(estimate);
                proof {
                    lemma_set_user(before, i as int, self.users@[i as int]);
                    assert(self.users@ == before.update(i as int, self.users@[i as int]));
                }
            },
            None => {},
        }
    }

    /// Shows every vote.
    pub fn show(&mut self)
        requires
            old(self).wf(),
        ensures
            final(self).wf(),
            final(self)@ == (RoomView { revealed: true, ..old(self)@ }),
            final(self).broadcast_tx == old(self).broadcast_tx,
    {
        self.revealed = true;
    }

    /// Takes every participant's vote away and hides the votes.
    pub fn clear(&mut self)
        requires
            old(self).wf(),
        ensures
            final(self).wf(),
            final(self)@ == (RoomView {
                users: old(self)@.users.map_values(|u: UserView| unvoted(u)),
                revealed: false,
                ..old(self)@
            }),
            final(self).broadcast_tx == old(self).broadcast_tx,
    {
        let ghost before = self.users@;
        let mut i: usize = 0;
        while i < self.users.len()
            invariant
                self.id == old(self).id,
                self.broadcast_tx == old(self).broadcast_tx,
                before == old(self).users@,
                self.users@.len() == before.len(),
                i <= before.len(),
                forall|j: int|
                    0 <= j < i ==> #[trigger] self.users@[j].id@ == before[j].id@
                        && self.users@[j].name@ == before[j].name@
                        && self.users@[j].estimate is None,
                forall|j: int| i <= j < before.len() ==> #[trigger] self.users@[j] == before[j],
            decreases before.len() - i,
        {
            let ghost prev = self.users@;
            self.users[i].estimate = None;
            proof {
                assert forall|j: int| 0 <= j < i + 1 implies #[trigger] self.users@[j].id@
                    == before[j].id@ && self.users@[j].name@ == before[j].name@
                    && self.users@[j].estimate is None by {
                    if j < i {
                        assert(prev[j] == self.users@[j]);
                    } else {
                        assert(prev[j] == before[j]);
                    }
                }
            }
            i = i + 1;
        }
        self.revealed = false;
        proof {
            let s = user_entries(before);
            let t = user_entries(self.users@);
            assert forall|j: int| 0 <= j < s.len() implies #[trigger] s[j].0 == t[j].0 by {
                assert(self.users@[j].id@ == before[j].id@);
            }
            assert forall|k: Seq<char>|
                #[trigger] keyed(t).contains_key(k) == keyed(s).contains_key(k) && (keyed(
                    s,
                ).contains_key(k) ==> keyed(t)[k] == unvoted(keyed(s)[k])) by {
                lemma_keyed_pointwise(s, t, k);
                if keyed(s).contains_key(k) {
                    let j = choose|j: int|
                        0 <= j < s.len() && s[j].0 == k && keyed(s)[k] == s[j].1 && keyed(t)[k]
                            == t[j].1;
                    assert(self.users@[j].id@ == before[j].id@);
                }
            }
            lemma_keyed_pointwise(s, t, Seq::empty());
            assert(keyed(t) =~= keyed(s).map_values(|u: UserView| unvoted(u)));
        }
    }

    /// A copy of the room's state, without its channel.
    pub fn snapshot(&self) -> (r: Room)
        ensures
            r.wf() == self.wf(),
            r@ == self@,
            r.broadcast_tx is None,
    {
        let mut users: Vec<User> = Vec::new();
        let mut i: usize = 0;
        while i < self.users.len()
            invariant
                i <= self.users@.len(),
                users@.len() == i,
                forall|j: int| 0 <= j < i ==> #[trigger] users@[j].id@ == self.users@[j].id@
                    && users@[j]@ == self.users@[j]@,
            decreases self.users@.len() - i,
        {
            let u = &self.users[i];
            let estimate = match &u.estimate {
                Some(e) => Some(e.clone()),
                None => None,
            };
            users.push(User { id: u.id.clone(), name: u.name.clone(), estimate });
            i = i + 1;
        }
        let r = Room { id: self.id.clone(), users, revealed: self.revealed, broadcast_tx: None };
        proof {
            let s = user_entries(self.users@);
            let t = user_entries(r.users@);
            assert(t =~= s);
        }
        r
    }
}

} // verus!
