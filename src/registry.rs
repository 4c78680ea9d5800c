//! The room registry and presence manager: which usernames are joined to
//! which room, and each room's broadcast channel.

use std::collections::HashMap;

use vstd::prelude::*;

use crate::channel::{open_channel, ROOM_CAPACITY};
use crate::message::TweetMsg;

verus! {

broadcast use vstd::std_specs::hash::group_hash_axioms;

/// One room: its members in the order they joined, and its channel.
pub struct RoomState {
    users: Vec<String>,
    tx: tokio::sync::broadcast::Sender<TweetMsg>,
}

/// Table from room number to room state. A room is present exactly while
/// it has at least one member.
pub struct Registry {
    rooms: HashMap<u32, RoomState>,
}

/// The usernames of a member list, as character sequences.
pub open spec fn names(users: Seq<String>) -> Seq<Seq<char>> {
    users.map_values(|s: String| s@)
}

/// Membership after `user` has joined `room`; the room is created if absent.
pub open spec fn with_member(m: Map<u32, Set<Seq<char>>>, room: u32, user: Seq<char>) -> Map<
    u32,
    Set<Seq<char>>,
> {
    if m.contains_key(room) {
        m.insert(room, m[room].insert(user))
    } else {
        m.insert(room, set![user])
    }
}

/// Membership after `user` has left `room`; a room left empty is removed.
pub open spec fn without_member(m: Map<u32, Set<Seq<char>>>, room: u32, user: Seq<char>) -> Map<
    u32,
    Set<Seq<char>>,
> {
    if !m.contains_key(room) {
        m
    } else if m[room].remove(user) =~= Set::empty() {
        m.remove(room)
    } else {
        m.insert(room, m[room].remove(user))
    }
}

/// Position of `name` in a member list, if it is there.
fn find_member(users: &Vec<String>, name: &String) -> (r: Option<usize>)
    ensures
        match r {
            Some(i) => i < users@.len() && names(users@)[i as int] == name@,
            None => !names(users@).contains(name@),
        },
{
    let mut i: usize = 0;
    while i < users.len()
        invariant
            i <= users@.len(),
            forall|j: int| 0 <= j < i ==> names(users@)[j] != name@,
        decreases users@.len() - i,
    {
        if users[i] == *name {
            return Some(i);
        }
        i = i + 1;
    }
    None
}

/// Pushing a name onto a member list adds it to the set of members.
proof fn lemma_names_push(users: Seq<String>, s: String)
    ensures
        names(users.push(s)) == names(users).push(s@),
        names(users.push(s)).to_set() == names(users).to_set().insert(s@),
{
    let a = names(users);
    let b = names(users.push(s));
    assert(b =~= a.push(s@));
    assert forall|x: Seq<char>| b.to_set().contains(x) <==> a.to_set().insert(s@).contains(x) by {
        if a.contains(x) {
            let j = choose|j: int| 0 <= j < a.len() && a[j] == x;
            assert(b[j] == x);
        }
        if x == s@ {
            assert(b[a.len() as int] == x);
        }
    }
    assert(b.to_set() =~= a.to_set().insert(s@));
}

/// Removing the only occurrence of a name from a member list removes it
/// from the set of members and keeps the list free of duplicates.
proof fn lemma_names_remove(users: Seq<String>, i: int)
    requires
        0 <= i < users.len(),
        names(users).no_duplicates(),
    ensures
        names(users.remove(i)) == names(users).remove(i),
        names(users.remove(i)).no_duplicates(),
        names(users.remove(i)).to_set() == names(users).to_set().remove(users[i]@),
{
    let a = names(users);
    let b = names(users.remove(i));
    assert(b =~= a.remove(i));
    assert forall|x: Seq<char>| b.to_set().contains(x) <==> a.to_set().remove(users[i]@).contains(
        x,
    ) by {
        if b.contains(x) {
            let j = choose|j: int| 0 <= j < b.len() && b[j] == x;
            assert(a[i] == users[i]@);
            if j < i {
                assert(a[j] == x);
                assert(a[j] != a[i]);
            } else {
                assert(a[j + 1] == x);
                assert(a[j + 1] != a[i]);
            }
        }
        if a.contains(x) && x != users[i]@ {
            let j = choose|j: int| 0 <= j < a.len() && a[j] == x;
            assert(j != i);
            if j < i {
                assert(b[j] == x);
            } else {
                assert(b[j - 1] == x);
            }
        }
    }
    assert(b.to_set() =~= a.to_set().remove(users[i]@));
}

impl View for Registry {
    /// Each room's members, in the order they joined.
    type V = Map<u32, Seq<Seq<char>>>;

    closed spec fn view(&self) -> Map<u32, Seq<Seq<char>>> {
        self.rooms@.map_values(|r: RoomState| names(r.users@))
    }
}

impl Registry {
    /// Each room's broadcast channel.
    pub closed spec fn channels(&self) -> Map<u32, tokio::sync::broadcast::Sender<TweetMsg>> {
        self.rooms@.map_values(|r: RoomState| r.tx)
    }

    /// Each room's set of members.
    pub open spec fn members(&self) -> Map<u32, Set<Seq<char>>> {
        self@.map_values(|l: Seq<Seq<char>>| l.to_set())
    }

    /// Every registered room has a channel and at least one member, and no
    /// username is joined twice to one room.
    pub open spec fn wf(&self) -> bool {
        &&& self.channels().dom() =~= self@.dom()
        &&& forall|r: u32| #[trigger]
            self@.contains_key(r) ==> self@[r].len() > 0 && self@[r].no_duplicates()
    }

    /// An empty registry.
    pub fn new() -> (r: Registry)
        ensures
            r.wf(),
            r@ == Map::<u32, Seq<Seq<char>>>::empty(),
    {
        let r = Registry { rooms: HashMap::new() };
        assert(r@ =~= Map::<u32, Seq<Seq<char>>>::empty());
        assert(r.channels().dom() =~= r@.dom());
        r
    }

    /// Joins `username` to `room`, creating the room with a new channel if
    /// it is absent. A username already joined to the room is rejected and
    /// nothing changes. Rooms that existed keep their channel.
    pub fn join_room(&mut self, room: u32, username: String) -> (joined: bool)
        requires
            old(self).wf(),
        ensures
            final(self).wf(),
            joined == !(old(self).members().contains_key(room) && old(self).members()[room].contains(
                username@,
            )),
            joined ==> final(self).members() == with_member(old(self).members(), room, username@),
            !joined ==> *final(self) == *old(self),
            forall|r: u32| #[trigger]
                old(self).channels().contains_key(r) ==> final(self).channels().contains_key(r)
                    && final(self).channels()[r] == old(self).channels()[r],
    {
        match self.rooms.get(&room) {
            Some(existing) => {
                if find_member(&existing.users, &username).is_some() {
                    return false;
                }
            },
            None => {},
        }
        let ghost user = username@;
        assert(old(self)@.contains_key(room) ==> !old(self)@[room].contains(user));
        match self.rooms.remove(&room) {
            Some(mut r) => {
                let ghost prev = names(r.users@);
                assert(old(self)@.contains_key(room));
                assert(prev == old(self)@[room]);
                assert(prev.no_duplicates() && !prev.contains(user));
                proof {
                    lemma_names_push(r.users@, username);
                }
                r.users.push(username);
                self.rooms.insert(room, r);
                proof {
                    let nv = names(r.users@);
                    assert forall|a: int, b: int| 0 <= a < b < nv.len() implies nv[a] != nv[b] by {
                        if b == nv.len() - 1 {
                            assert(prev[a] == nv[a]);
                            assert(prev.contains(nv[a]));
                        } else {
                            assert(prev[a] == nv[a] && prev[b] == nv[b]);
                        }
                    }
                }
            },
            None => {
                let tx = open_channel(ROOM_CAPACITY);
                let mut users: Vec<String> = Vec::new();
                users.push(username);
                self.rooms.insert(room, RoomState { users, tx });
                proof {
                    assert(names(users@) =~= seq![user]);
                    assert(seq![user].to_set() =~= set![user]) by {
                        assert(seq![user][0] == user);
                    }
                }
            },
        }
        assert(self@ =~= old(self)@.insert(room, self@[room]));
        assert(self.members() =~= with_member(old(self).members(), room, user));
        assert(self.channels().dom() =~= self@.dom());
        true
    }

    /// Removes `username` from `room`; a room left without members is
    /// removed from the registry together with its channel.
    pub fn leave_room(&mut self, room: u32, username: &String)
        requires
            old(self).wf(),
        ensures
            final(self).wf(),
            final(self).members() == without_member(old(self).members(), room, username@),
            forall|r: u32| #[trigger]
                final(self).channels().contains_key(r) ==> old(self).channels().contains_key(r)
                    && final(self).channels()[r] == old(self).channels()[r],
    {
        let ghost user = username@;
        match self.rooms.remove(&room) {
            Some(mut r) => {
                let ghost before = r.users@;
                assert(old(self)@.contains_key(room));
                assert(old(self)@[room] == names(before));
                match find_member(&r.users, username) {
                    Some(i) => {
                        proof {
                            lemma_names_remove(before, i as int);
                        }
                        r.users.remove(i);
                    },
                    None => {
                        assert(names(before).to_set().remove(user) =~= names(before).to_set());
                    },
                }
                assert(names(r.users@).no_duplicates());
                if r.users.len() > 0 {
                    self.rooms.insert(room, r);
                    assert(self@ =~= old(self)@.insert(room, names(r.users@)));
                    assert forall|k: u32| #[trigger] self@.contains_key(k) implies self@[k].len() > 0
                        && self@[k].no_duplicates() by {
                        if k != room {
                            assert(old(self)@.contains_key(k));
                        }
                    }
                    assert(names(r.users@).to_set().contains(names(r.users@)[0]));
                    assert(self.members() =~= without_member(old(self).members(), room, user));
                } else {
                    assert(names(r.users@).to_set() =~= Set::empty());
                    assert(self@ =~= old(self)@.remove(room));
                    assert forall|k: u32| #[trigger] self@.contains_key(k) implies self@[k].len() > 0
                        && self@[k].no_duplicates() by {
                        assert(old(self)@.contains_key(k));
                    }
                    assert(self.members() =~= without_member(old(self).members(), room, user));
                }
            },
            None => {
                assert(self.rooms@ =~= old(self).rooms@);
                assert(self.members() =~= without_member(old(self).members(), room, user));
            },
        }
        assert(self.channels().dom() =~= self@.dom());
    }

    /// Whether `username` is joined to `room`.
    pub fn is_member(&self, room: u32, username: &String) -> (r: bool)
        requires
            self.wf(),
        ensures
            r == (self.members().contains_key(room) && self.members()[room].contains(username@)),
    {
        match self.rooms.get(&room) {
            Some(existing) => {
                let found = find_member(&existing.users, username);
                assert(self@[room] == names(existing.users@));
                found.is_some()
            },
            None => false,
        }
    }

    /// Number of members of `room`; zero when the room is not registered.
    pub fn member_count(&self, room: u32) -> (r: usize)
        requires
            self.wf(),
        ensures
            r == (if self.members().contains_key(room) {
                self.members()[room].len()
            } else {
                0
            }),
    {
        match self.rooms.get(&room) {
            Some(existing) => {
                proof {
                    assert(self@.contains_key(room));
                    assert(self@[room] == names(existing.users@));
                    names(existing.users@).unique_seq_to_set();
                }
                existing.users.len()
            },
            None => 0,
        }
    }

    /// The channel of `room`, if the room is registered.
    pub fn channel(&self, room: u32) -> (r: Option<&tokio::sync::broadcast::Sender<TweetMsg>>)
        ensures
            match r {
                Some(tx) => self.channels().contains_key(room) && *tx == self.channels()[room],
                None => !self.channels().contains_key(room),
            },
    {
        match self.rooms.get(&room) {
            Some(existing) => Some(&existing.tx),
            None => None,
        }
    }

    /// Removes every room. Connections that still hold a room's channel
    /// keep it; the registry no longer knows of it.
    pub fn clear(&mut self)
        ensures
            final(self).wf(),
            final(self)@ == Map::<u32, Seq<Seq<char>>>::empty(),
    {
        self.rooms.clear();
        assert(self@ =~= Map::<u32, Seq<Seq<char>>>::empty());
        assert(self.channels().dom() =~= self@.dom());
    }
}

/// Joining a username that is already a member of the room leaves the
/// membership as it was.
pub proof fn lemma_duplicate_join_changes_nothing(
    m: Map<u32, Set<Seq<char>>>,
    room: u32,
    user: Seq<char>,
)
    requires
        m.contains_key(room),
        m[room].contains(user),
    ensures
        with_member(m, room, user) == m,
{
    assert(m[room].insert(user) =~= m[room]);
    assert(with_member(m, room, user) =~= m);
}

/// When the last member leaves, the room is gone; a later join to the same
/// room number starts a room whose only member is the one who joined.
pub proof fn lemma_last_leave_then_rejoin(
    m: Map<u32, Set<Seq<char>>>,
    room: u32,
    last: Seq<char>,
    next: Seq<char>,
)
    requires
        m.contains_key(room),
        m[room] == set![last],
    ensures
        !without_member(m, room, last).contains_key(room),
        with_member(without_member(m, room, last), room, next)[room] == set![next],
{
    assert(m[room].remove(last) =~= Set::empty());
}


} // verus!
