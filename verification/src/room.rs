//! A room: the document that its members edit together.

use crate::color;
use crate::messages::{PresenceUser, ServerWsMessage};
use crate::outside;
use crate::text;
use dashmap::DashMap;
use vstd::prelude::*;

verus! {

/// A document, how often it was replaced, and who is in the room.
pub struct Room {
    content: String,
    version: u64,
    members: DashMap<String, String>,
}

pub struct RoomView {
    pub content: Seq<char>,
    pub version: u64,
    /// User name to colour.
    pub members: Map<Seq<char>, Seq<char>>,
}

impl RoomView {
    /// The room after its document was replaced: the version counts on, and starts again at zero
    /// behind the largest number.
    pub open spec fn replaced(self, content: Seq<char>) -> RoomView {
        RoomView {
            content,
            version: if self.version == u64::MAX {
                0
            } else {
                (self.version + 1) as u64
            },
            ..self
        }
    }

    /// The room after its document and version were set.
    pub open spec fn set(self, content: Seq<char>, version: u64) -> RoomView {
        RoomView { content, version, ..self }
    }

    /// The room after a user came in.
    pub open spec fn joined(self, username: Seq<char>) -> RoomView {
        RoomView { members: self.members.insert(username, color::color_of(username)), ..self }
    }

    /// The room after a user went out.
    pub open spec fn left(self, username: Seq<char>) -> RoomView {
        RoomView { members: self.members.remove(username), ..self }
    }
}

/// `users` names every member but `username`, each once, with its colour.
pub open spec fn others(
    members: Map<Seq<char>, Seq<char>>,
    username: Seq<char>,
    users: Seq<PresenceUser>,
) -> bool {
    &&& forall|i: int, j: int|
        0 <= i < j < users.len() ==> (#[trigger] users[i]).username@ != (
        #[trigger] users[j]).username@
    &&& forall|i: int|
        0 <= i < users.len() ==> {
            let u = #[trigger] users[i];
            u.username@ != username && members.contains_key(u.username@) && members[u.username@]
                == u.color@
        }
    &&& forall|k: Seq<char>|
        k != username && #[trigger] members.contains_key(k) ==> exists|i: int|
            0 <= i < users.len() && (#[trigger] users[i]).username@ == k
}

impl Room {
    pub closed spec fn view(&self) -> RoomView {
        RoomView {
            content: self.content@,
            version: self.version,
            members: outside::text_entries(self.members),
        }
    }

    /// A room that nobody is in and whose document nobody has replaced.
    pub fn new(content: String) -> (r: Self)
        ensures
            r@ == (RoomView { content: content@, version: 0, members: Map::empty() }),
    {
        Room { content, version: 0, members: outside::text_map() }
    }

    /// The document.
    pub fn content(&self) -> (r: &str)
        ensures
            r@ == self@.content,
    {
        self.content.as_str()
    }

    /// How often the document was replaced.
    pub fn version(&self) -> (v: u64)
        ensures
            v == self@.version,
    {
        self.version
    }

    /// Replaces the document. The new version is given back.
    pub fn replace(&mut self, content: String) -> (v: u64)
        ensures
            final(self)@ == old(self)@.replaced(content@),
            v == final(self)@.version,
    {
        self.content = content;
        self.version = self.version.wrapping_add(1);
        self.version
    }

    /// Puts a document and a version in place of those that are there.
    pub fn set(&mut self, content: String, version: u64)
        ensures
            final(self)@ == old(self)@.set(content@, version),
    {
        self.content = content;
        self.version = version;
    }

    /// Takes a user in. The user's colour is given back.
    pub fn join(&mut self, username: &str) -> (c: String)
        ensures
            final(self)@ == old(self)@.joined(username@),
            c@ == color::color_of(username@),
    {
        let c = color::color_for_username(username);
        outside::text_insert(&mut self.members, username.to_string(), c.clone());
        c
    }

    /// Lets a user out.
    pub fn leave(&mut self, username: &str)
        ensures
            final(self)@ == old(self)@.left(username@),
    {
        outside::text_remove(&mut self.members, username);
    }

    /// The members but one, in an order that nothing promises.
    pub fn others(&self, username: &str) -> (r: Vec<PresenceUser>)
        ensures
            others(self@.members, username@, r@),
    {
        let all = outside::text_list(&self.members);
        let ghost members = self@.members;
        let mut r: Vec<PresenceUser> = Vec::new();
        let mut i: usize = 0;
        while i < all.len()
            invariant
                i <= all@.len(),
                forall|a: int, b: int|
                    0 <= a < b < all@.len() ==> (#[trigger] all@[a]).0@ != (
                    #[trigger] all@[b]).0@,
                forall|a: int|
                    0 <= a < all@.len() ==> members.contains_key((#[trigger] all@[a]).0@)
                        && members[all@[a].0@] == all@[a].1@,
                forall|a: int, b: int|
                    0 <= a < b < r@.len() ==> (#[trigger] r@[a]).username@ != (
                    #[trigger] r@[b]).username@,
                forall|a: int|
                    0 <= a < r@.len() ==> {
                        let u = #[trigger] r@[a];
                        u.username@ != username@ && members.contains_key(u.username@)
                            && members[u.username@] == u.color@ && exists|b: int|
                            0 <= b < i && (#[trigger] all@[b]).0@ == u.username@
                    },
                forall|b: int|
                    0 <= b < i && (#[trigger] all@[b]).0@ != username@ ==> exists|a: int|
                        0 <= a < r@.len() && (#[trigger] r@[a]).username@ == all@[b].0@,
            decreases all@.len() - i,
        {
            let entry = &all[i];
            let ghost before = r@;
            if !text::same_str(entry.0.as_str(), username) {
                r.push(PresenceUser { username: entry.0.clone(), color: entry.1.clone() });
                assert(r@[before.len() as int].username@ == all@[i as int].0@);
            }
            assert forall|b: int|
                0 <= b < i + 1 && (#[trigger] all@[b]).0@ != username@ implies exists|a: int|
                0 <= a < r@.len() && (#[trigger] r@[a]).username@ == all@[b].0@ by {
                if b < i {
                    let a = choose|a: int|
                        0 <= a < before.len() && (#[trigger] before[a]).username@ == all@[b].0@;
                    assert(r@[a].username@ == all@[b].0@);
                }
            }
            i = i + 1;
        }
        r
    }
}

// ----- Laws -----

/// A replaced document is the new one, whatever it was: its version is the next, and nobody comes or
/// goes. Behind the largest number the versions start again.
pub proof fn replacing_counts_on(room: RoomView, content: Seq<char>)
    ensures
        room.replaced(content).content == content,
        room.replaced(content).members == room.members,
        room.version < u64::MAX ==> room.replaced(content).version == room.version + 1,
        room.version == u64::MAX ==> room.replaced(content).version == 0,
{
}

/// A document that is set is the one that is given, with the version that is given.
pub proof fn setting_is_exact(room: RoomView, content: Seq<char>, version: u64)
    ensures
        room.set(content, version).content == content,
        room.set(content, version).version == version,
        room.set(content, version).members == room.members,
{
}

/// Whoever comes in is a member, with the colour of the name, and whoever goes out is none; all others
/// and the document stay as they are.
pub proof fn members_come_and_go(room: RoomView, username: Seq<char>, other: Seq<char>)
    ensures
        room.joined(username).members.contains_key(username),
        room.joined(username).members[username] == color::color_of(username),
        !room.left(username).members.contains_key(username),
        other != username ==> {
            &&& room.joined(username).members.contains_key(other)
                == room.members.contains_key(other)
            &&& room.left(username).members.contains_key(other) == room.members.contains_key(other)
            &&& room.members.contains_key(other) ==> room.joined(username).members[other]
                == room.members[other] && room.left(username).members[other] == room.members[other]
        },
        room.joined(username).content == room.content,
        room.joined(username).version == room.version,
        room.left(username).content == room.content,
        room.left(username).version == room.version,
{
}

/// The list of the others is complete and right: a user is in it exactly if it is a member and not
/// the one who asks, and then once, with its colour.
pub proof fn others_are_complete(
    members: Map<Seq<char>, Seq<char>>,
    username: Seq<char>,
    users: Seq<PresenceUser>,
    k: Seq<char>,
)
    requires
        others(members, username, users),
    ensures
        (exists|i: int| 0 <= i < users.len() && (#[trigger] users[i]).username@ == k) <==> (k
            != username && members.contains_key(k)),
        forall|i: int|
            0 <= i < users.len() && (#[trigger] users[i]).username@ == k ==> users[i].color@
                == members[k],
        forall|i: int, j: int|
            0 <= i < users.len() && 0 <= j < users.len() && (#[trigger] users[i]).username@ == k
                && (#[trigger] users[j]).username@ == k ==> i == j,
{
    if exists|i: int| 0 <= i < users.len() && (#[trigger] users[i]).username@ == k {
        let i = choose|i: int| 0 <= i < users.len() && (#[trigger] users[i]).username@ == k;
        assert(users[i].username@ == k);
    }
}

} // verus!
