//! What the server remembers between requests.

use crate::outside;
use dashmap::DashMap;
use vstd::prelude::*;

verus! {

/// The server's memory: who is logged in, which room belongs to which file, and which files it
/// wrote itself a moment ago.
pub struct AppState {
    sessions: DashMap<String, String>,
    rooms: DashMap<String, u64>,
    next_room: u64,
    writing_files: DashMap<String, u64>,
    data_dir: String,
    auth_token: String,
    admin_token: String,
    require_token: bool,
}

pub struct StateView {
    /// Session to user name.
    pub sessions: Map<Seq<char>, Seq<char>>,
    /// File key to the number of its room.
    pub rooms: Map<Seq<char>, u64>,
    /// Numbers from here on belong to no room yet.
    pub next_room: u64,
    /// File key to when the server last began to write the file.
    pub writing: Map<Seq<char>, u64>,
    pub data_dir: Seq<char>,
    pub auth_token: Seq<char>,
    pub admin_token: Seq<char>,
    pub require_token: bool,
}

impl StateView {
    /// Every room number has been given out, and to one key only.
    pub open spec fn wf(self) -> bool {
        &&& forall|k: Seq<char>| #[trigger]
            self.rooms.contains_key(k) ==> self.rooms[k] < self.next_room
        &&& forall|j: Seq<char>, k: Seq<char>|
            #![trigger self.rooms.contains_key(j), self.rooms.contains_key(k)]
            self.rooms.contains_key(j) && self.rooms.contains_key(k) && self.rooms[j]
                == self.rooms[k] ==> j == k
    }

    /// The same memory but for the sessions.
    pub open spec fn with_sessions(self, sessions: Map<Seq<char>, Seq<char>>) -> StateView {
        StateView { sessions, ..self }
    }

    /// The same memory but for the rooms.
    pub open spec fn with_rooms(self, rooms: Map<Seq<char>, u64>) -> StateView {
        StateView { rooms, ..self }
    }

    /// The same memory, in which the server begins to write a file at `now`.
    pub open spec fn writing_at(self, key: Seq<char>, now: u64) -> StateView {
        StateView { writing: self.writing.insert(key, now), ..self }
    }

    /// The same memory, in which a new room belongs to `key`.
    pub open spec fn with_new_room(self, key: Seq<char>) -> StateView {
        StateView {
            rooms: self.rooms.insert(key, self.next_room),
            next_room: (self.next_room + 1) as u64,
            ..self
        }
    }

    /// The rooms after the room of `from`, if there is one, has been moved to `to`.
    pub open spec fn rooms_renamed(self, from: Seq<char>, to: Seq<char>) -> Map<Seq<char>, u64> {
        if self.rooms.contains_key(from) {
            self.rooms.remove(from).insert(to, self.rooms[from])
        } else {
            self.rooms
        }
    }
}

proof fn lemma_fewer_rooms(state: StateView, key: Seq<char>)
    requires
        state.wf(),
    ensures
        state.with_rooms(state.rooms.remove(key)).wf(),
{
    let after = state.with_rooms(state.rooms.remove(key));
    assert forall|k: Seq<char>| #[trigger]
        after.rooms.contains_key(k) implies state.rooms.contains_key(k) && after.rooms[k]
        == state.rooms[k] by {}
}

proof fn lemma_room_moved(state: StateView, from: Seq<char>, to: Seq<char>)
    requires
        state.wf(),
    ensures
        state.with_rooms(state.rooms_renamed(from, to)).wf(),
{
    let after = state.with_rooms(state.rooms_renamed(from, to));
    assert forall|k: Seq<char>| #[trigger] after.rooms.contains_key(k) implies if k == to
        && state.rooms.contains_key(from) {
        after.rooms[k] == state.rooms[from]
    } else {
        state.rooms.contains_key(k) && after.rooms[k] == state.rooms[k] && (
        state.rooms.contains_key(from) ==> k != from)
    } by {}
}

/// How long the server remembers that it wrote a file: five seconds, in nanoseconds.
pub const FORGET_AFTER: u64 = 5_000_000_000;

impl AppState {
    pub closed spec fn view(&self) -> StateView {
        StateView {
            sessions: outside::text_entries(self.sessions),
            rooms: outside::number_entries(self.rooms),
            next_room: self.next_room,
            writing: outside::number_entries(self.writing_files),
            data_dir: self.data_dir@,
            auth_token: self.auth_token@,
            admin_token: self.admin_token@,
            require_token: self.require_token,
        }
    }

    /// The memory of a server that has just begun.
    pub fn new(
        data_dir: String,
        auth_token: String,
        admin_token: String,
        require_token: bool,
    ) -> (r: Self)
        ensures
            r@ == (StateView {
                sessions: Map::empty(),
                rooms: Map::empty(),
                next_room: 0,
                writing: Map::empty(),
                data_dir: data_dir@,
                auth_token: auth_token@,
                admin_token: admin_token@,
                require_token,
            }),
            r@.wf(),
    {
        AppState {
            sessions: outside::text_map(),
            rooms: outside::number_map(),
            next_room: 0,
            writing_files: outside::number_map(),
            data_dir,
            auth_token,
            admin_token,
            require_token,
        }
    }

    /// The directory of the diagrams.
    pub fn data_dir(&self) -> (r: &str)
        ensures
            r@ == self@.data_dir,
    {
        self.data_dir.as_str()
    }

    /// The access token.
    pub fn auth_token(&self) -> (r: &str)
        ensures
            r@ == self@.auth_token,
    {
        self.auth_token.as_str()
    }

    /// The token that opens the administrative functions.
    pub fn admin_token(&self) -> (r: &str)
        ensures
            r@ == self@.admin_token,
    {
        self.admin_token.as_str()
    }

    /// Whether reading takes the access token too.
    pub fn require_token(&self) -> (b: bool)
        ensures
            b == self@.require_token,
    {
        self.require_token
    }

    /// The user of a session.
    pub fn session_user(&self, sid: &str) -> (r: Option<String>)
        ensures
            match r {
                Some(u) => self@.sessions.contains_key(sid@) && u@ == self@.sessions[sid@],
                None => !self@.sessions.contains_key(sid@),
            },
    {
        outside::text_get(&self.sessions, sid)
    }

    /// Begins a session, or gives one another user.
    pub fn put_session(&mut self, sid: String, username: String)
        ensures
            final(self)@ == old(self)@.with_sessions(old(self)@.sessions.insert(sid@, username@)),
    {
        outside::text_insert(&mut self.sessions, sid, username);
    }

    /// Ends a session.
    pub fn drop_session(&mut self, sid: &str)
        ensures
            final(self)@ == old(self)@.with_sessions(old(self)@.sessions.remove(sid@)),
    {
        outside::text_remove(&mut self.sessions, sid);
    }

    /// The room of a file, if it is open.
    pub fn room(&self, key: &str) -> (r: Option<u64>)
        ensures
            match r {
                Some(id) => self@.rooms.contains_key(key@) && id == self@.rooms[key@],
                None => !self@.rooms.contains_key(key@),
            },
    {
        outside::number_get(&self.rooms, key)
    }

    /// The keys and numbers of the rooms that are open, in an order that nothing promises.
    pub(crate) fn list_rooms(&self) -> (r: Vec<(String, u64)>)
        ensures
            forall|i: int|
                0 <= i < r@.len() ==> self@.rooms.contains_key((#[trigger] r@[i]).0@)
                    && self@.rooms[r@[i].0@] == r@[i].1,
            forall|k: Seq<char>| #[trigger]
                self@.rooms.contains_key(k) ==> exists|i: int|
                    0 <= i < r@.len() && (#[trigger] r@[i]).0@ == k,
    {
        outside::number_list(&self.rooms)
    }

    /// Whether there is a number for one more room.
    pub fn can_open_room(&self) -> (b: bool)
        ensures
            b == (self@.next_room < u64::MAX),
    {
        self.next_room < u64::MAX
    }

    /// Gives a file that has no room a new one. Its number is given back.
    pub fn open_room(&mut self, key: &str) -> (id: u64)
        requires
            old(self)@.wf(),
            !old(self)@.rooms.contains_key(key@),
            old(self)@.next_room < u64::MAX,
        ensures
            final(self)@ == old(self)@.with_new_room(key@),
            final(self)@.wf(),
            id == old(self)@.next_room,
    {
        let id: u64 = self.next_room;
        self.next_room = self.next_room + 1;
        outside::number_insert(&mut self.rooms, key.to_string(), id);
        id
    }

    /// Closes the room of a file. Its number is given back, if there was one.
    pub fn close_room(&mut self, key: &str) -> (r: Option<u64>)
        requires
            old(self)@.wf(),
        ensures
            final(self)@ == old(self)@.with_rooms(old(self)@.rooms.remove(key@)),
            final(self)@.wf(),
            match r {
                Some(id) => old(self)@.rooms.contains_key(key@) && id == old(self)@.rooms[key@],
                None => !old(self)@.rooms.contains_key(key@),
            },
    {
        let ghost before = self@;
        let r = outside::number_remove(&mut self.rooms, key);
        proof {
            lemma_fewer_rooms(before, key@);
        }
        r
    }

    /// Moves the room of a file to another key. The number of the room that stood there is given
    /// back, if there was one.
    pub fn rename_room(&mut self, from: &str, to: &str) -> (r: Option<u64>)
        requires
            old(self)@.wf(),
        ensures
            final(self)@ == old(self)@.with_rooms(old(self)@.rooms_renamed(from@, to@)),
            final(self)@.wf(),
            match r {
                Some(id) => old(self)@.rooms.contains_key(from@) && from@ != to@
                    && old(self)@.rooms.contains_key(to@) && id == old(self)@.rooms[to@],
                None => !(old(self)@.rooms.contains_key(from@) && from@ != to@
                    && old(self)@.rooms.contains_key(to@)),
            },
    {
        let ghost before = self@;
        proof {
            lemma_fewer_rooms(before, from@);
            lemma_room_moved(before, from@, to@);
        }
        match outside::number_remove(&mut self.rooms, from) {
            Some(id) => outside::number_insert(&mut self.rooms, to.to_string(), id),
            None => {
                assert(old(self)@.rooms.remove(from@) =~= old(self)@.rooms);
                None
            },
        }
    }

    /// Remembers that the server begins to write a file.
    pub fn mark_file_writing(&mut self, file_key: &str, now: u64)
        ensures
            final(self)@ == old(self)@.writing_at(file_key@, now),
    {
        outside::number_insert(&mut self.writing_files, file_key.to_string(), now);
    }

    /// Forgets the files that it began to write five seconds ago or earlier.
    pub fn forget_old_writings(&mut self, now: u64)
        ensures
            final(self)@ == (StateView {
                writing: old(self)@.writing.restrict(
                    Set::new(
                        |k: Seq<char>|
                            old(self)@.writing.contains_key(k) && outside::younger_than(
                                old(self)@.writing[k],
                                now,
                                FORGET_AFTER,
                            ),
                    ),
                ),
                ..old(self)@
            }),
    {
        outside::number_keep_younger(&mut self.writing_files, now, FORGET_AFTER);
    }

    /// When the server last began to write a file, as far as it remembers.
    pub fn writing_since(&self, file_key: &str) -> (r: Option<u64>)
        ensures
            match r {
                Some(t) => self@.writing.contains_key(file_key@) && t == self@.writing[file_key@],
                None => !self@.writing.contains_key(file_key@),
            },
    {
        outside::number_get(&self.writing_files, file_key)
    }
}

// ----- Laws -----

/// Beginning to write a file is remembered of that file, and changes nothing else.
pub proof fn writing_is_remembered(state: StateView, key: Seq<char>, now: u64, other: Seq<char>)
    ensures
        ({
            let after = state.writing_at(key, now);
            &&& after.writing.contains_key(key)
            &&& after.writing[key] == now
            &&& other != key ==> after.writing.contains_key(other) == state.writing.contains_key(
                other,
            ) && (state.writing.contains_key(other) ==> after.writing[other]
                == state.writing[other])
            &&& after.sessions == state.sessions
            &&& after.rooms == state.rooms
            &&& after.next_room == state.next_room
            &&& after.data_dir == state.data_dir
            &&& after.auth_token == state.auth_token
            &&& after.admin_token == state.admin_token
            &&& after.require_token == state.require_token
        }),
{
}

/// A new room has a number that no other room has, and changes nothing else.
pub proof fn new_rooms_are_fresh(state: StateView, key: Seq<char>, other: Seq<char>)
    requires
        state.wf(),
        state.next_room < u64::MAX,
    ensures
        ({
            let after = state.with_new_room(key);
            &&& after.wf()
            &&& after.rooms.contains_key(key)
            &&& after.next_room == state.next_room + 1
            &&& other != key && state.rooms.contains_key(other) ==> after.rooms.contains_key(other)
                && after.rooms[other] == state.rooms[other] && after.rooms[key]
                != after.rooms[other]
            &&& other != key && !state.rooms.contains_key(other) ==> !after.rooms.contains_key(
                other,
            )
            &&& after.sessions == state.sessions
            &&& after.writing == state.writing
            &&& after.data_dir == state.data_dir
            &&& after.auth_token == state.auth_token
            &&& after.admin_token == state.admin_token
            &&& after.require_token == state.require_token
        }),
{
}

/// Moving a room takes it from one key to the other, and touches no third file.
pub proof fn moved_rooms_keep_their_numbers(
    state: StateView,
    from: Seq<char>,
    to: Seq<char>,
    other: Seq<char>,
)
    ensures
        ({
            let after = state.rooms_renamed(from, to);
            &&& state.rooms.contains_key(from) ==> after.contains_key(to) && after[to]
                == state.rooms[from]
            &&& state.rooms.contains_key(from) && from != to ==> !after.contains_key(from)
            &&& !state.rooms.contains_key(from) ==> after == state.rooms
            &&& other != from && other != to ==> after.contains_key(other)
                == state.rooms.contains_key(other) && (state.rooms.contains_key(other)
                ==> after[other] == state.rooms[other])
        }),
{
}

/// Sessions and rooms are put in place of those that were there, and nothing else changes.
pub proof fn parts_are_replaced_alone(
    state: StateView,
    sessions: Map<Seq<char>, Seq<char>>,
    rooms: Map<Seq<char>, u64>,
)
    ensures
        state.with_sessions(sessions) == (StateView {
            sessions,
            rooms: state.rooms,
            next_room: state.next_room,
            writing: state.writing,
            data_dir: state.data_dir,
            auth_token: state.auth_token,
            admin_token: state.admin_token,
            require_token: state.require_token,
        }),
        state.with_rooms(rooms) == (StateView {
            sessions: state.sessions,
            rooms,
            next_room: state.next_room,
            writing: state.writing,
            data_dir: state.data_dir,
            auth_token: state.auth_token,
            admin_token: state.admin_token,
            require_token: state.require_token,
        }),
{
}

} // verus!
