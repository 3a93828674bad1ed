//! Following changes that others make to the files of the data directory.

use crate::files;
use crate::loading;
use crate::messages::{ServerMessageView, ServerWsMessage};
use crate::outside;
use crate::paths;
use crate::room::{Room, RoomView};
use crate::state::{AppState, StateView};
use crate::text;
use crate::ws;
use vstd::hash_map::StringHashMap;
use vstd::prelude::*;

verus! {

// ----- Which changes count -----

/// What happened to a file.
#[derive(Clone, Copy, PartialEq, Eq, Structural)]
pub enum WatchKind {
    Create,
    Modify,
    /// Something, nobody knows what.
    Any,
    /// Something that leaves the content as it is.
    Other,
}

/// A path to which something happened: as it is shown, what stands there, and its way below the
/// data directory if it lies there.
pub struct WatchedPath {
    pub shown: String,
    pub exists: bool,
    pub is_file: bool,
    pub below: Option<String>,
}

pub struct WatchedPathView {
    pub shown: Seq<char>,
    pub exists: bool,
    pub is_file: bool,
    pub below: Option<Seq<char>>,
}

impl View for WatchedPath {
    type V = WatchedPathView;

    open spec fn view(&self) -> WatchedPathView {
        WatchedPathView {
            shown: self.shown@,
            exists: self.exists,
            is_file: self.is_file,
            below: outside::opt_text(self.below),
        }
    }
}

/// The key of the diagram that a change is about, if it is about one.
pub open spec fn changed_key(kind: WatchKind, path: WatchedPathView) -> Option<Seq<char>> {
    if kind != WatchKind::Other && paths::is_drawio(path.shown) && path.exists && path.is_file {
        match path.below {
            Some(rel) => Some(paths::watched_key(rel)),
            None => None,
        }
    } else {
        None
    }
}

/// How long a change is taken for one of the server's own: two seconds, in nanoseconds.
pub const OWN_WRITE: u64 = 2_000_000_000;

/// How long to wait before a file is read again, in milliseconds.
pub const DEBOUNCE_MS: u64 = 500;

/// The server wrote the file itself a moment ago.
pub open spec fn own_write(state: StateView, key: Seq<char>, now: u64) -> bool {
    state.writing.contains_key(key) && outside::younger_than(state.writing[key], now, OWN_WRITE)
}

/// The reloads that wait for their moment, each under a number.
pub struct Debounce {
    tasks: StringHashMap<u64>,
    next_task: u64,
}

pub struct DebounceView {
    /// File key to the number of the reload that was asked for last.
    pub tasks: Map<Seq<char>, u64>,
    /// Numbers from here on belong to no reload yet.
    pub next_task: u64,
}

impl DebounceView {
    /// Every number has been given out, and to one file only.
    pub open spec fn wf(self) -> bool {
        &&& forall|k: Seq<char>| #[trigger]
            self.tasks.contains_key(k) ==> self.tasks[k] < self.next_task
        &&& forall|j: Seq<char>, k: Seq<char>|
            #![trigger self.tasks.contains_key(j), self.tasks.contains_key(k)]
            self.tasks.contains_key(j) && self.tasks.contains_key(k) && self.tasks[j]
                == self.tasks[k] ==> j == k
    }
}

/// What to do about a change.
pub enum WatchStep {
    Ignore,
    /// Call off the reload `cancel`, and reload `key` after a while under the number `task`.
    Reload { key: String, cancel: Option<u64>, task: u64, delay_ms: u64 },
}

pub enum WatchStepView {
    Ignore,
    Reload { key: Seq<char>, cancel: Option<u64>, task: u64, delay_ms: u64 },
}

impl View for WatchStep {
    type V = WatchStepView;

    open spec fn view(&self) -> WatchStepView {
        match *self {
            WatchStep::Ignore => WatchStepView::Ignore,
            WatchStep::Reload { key, cancel, task, delay_ms } => WatchStepView::Reload {
                key: key@,
                cancel,
                task,
                delay_ms,
            },
        }
    }
}

/// What a change leads to: only one reload of a file waits at a time, and the server's own writes
/// do not count.
pub open spec fn watch_step(
    waiting: DebounceView,
    state: StateView,
    kind: WatchKind,
    path: WatchedPathView,
    now: u64,
) -> (DebounceView, WatchStepView) {
    match changed_key(kind, path) {
        None => (waiting, WatchStepView::Ignore),
        Some(key) => if own_write(state, key, now) {
            (waiting, WatchStepView::Ignore)
        } else {
            (
                DebounceView {
                    tasks: waiting.tasks.insert(key, waiting.next_task),
                    next_task: (waiting.next_task + 1) as u64,
                },
                WatchStepView::Reload {
                    key,
                    cancel: if waiting.tasks.contains_key(key) {
                        Some(waiting.tasks[key])
                    } else {
                        None
                    },
                    task: waiting.next_task,
                    delay_ms: DEBOUNCE_MS,
                },
            )
        },
    }
}

fn key_of_change(kind: WatchKind, path: &WatchedPath) -> (r: Option<String>)
    ensures
        outside::opt_text(r) == changed_key(kind, path@),
{
    if kind == WatchKind::Other || !paths::ends_with_drawio(path.shown.as_str()) {
        return None;
    }
    if !path.exists || !path.is_file {
        return None;
    }
    match &path.below {
        Some(rel) => Some(paths::watch_key(rel.as_str())),
        None => None,
    }
}

impl Debounce {
    pub closed spec fn view(&self) -> DebounceView {
        DebounceView { tasks: self.tasks@, next_task: self.next_task }
    }

    /// Nothing waits.
    pub fn new() -> (r: Self)
        ensures
            r@ == (DebounceView { tasks: Map::empty(), next_task: 0 }),
            r@.wf(),
    {
        Debounce { tasks: StringHashMap::new(), next_task: 0 }
    }

    /// Whether there is a number for one more reload.
    pub fn can_wait(&self) -> (b: bool)
        ensures
            b == (self@.next_task < u64::MAX),
    {
        self.next_task < u64::MAX
    }

    /// Takes note of a change.
    pub fn watch_files(
        &mut self,
        state: &AppState,
        kind: WatchKind,
        path: &WatchedPath,
        now: u64,
    ) -> (r: WatchStep)
        requires
            old(self)@.wf(),
            old(self)@.next_task < u64::MAX,
        ensures
            final(self)@.wf(),
            (final(self)@, r@) == watch_step(old(self)@, state@, kind, path@, now),
    {
        let key = match key_of_change(kind, path) {
            Some(key) => key,
            None => return WatchStep::Ignore,
        };
        if let Some(since) = state.writing_since(key.as_str()) {
            if outside::is_younger_than(since, now, OWN_WRITE) {
                return WatchStep::Ignore;
            }
        }
        let cancel: Option<u64> = match self.tasks.get(key.as_str()) {
            Some(task) => Some(*task),
            None => None,
        };
        let task: u64 = self.next_task;
        self.next_task = self.next_task + 1;
        self.tasks.insert(key.clone(), task);
        WatchStep::Reload { key, cancel, task, delay_ms: DEBOUNCE_MS }
    }
}

// ----- Reading a file again -----

/// What came of reading a file again.
pub enum ReadOutcome {
    Read(String),
    Missing,
    Failed(String),
}

pub enum ReadOutcomeView {
    Read(Seq<char>),
    Missing,
    Failed(Seq<char>),
}

impl View for ReadOutcome {
    type V = ReadOutcomeView;

    open spec fn view(&self) -> ReadOutcomeView {
        match *self {
            ReadOutcome::Read(s) => ReadOutcomeView::Read(s@),
            ReadOutcome::Missing => ReadOutcomeView::Missing,
            ReadOutcome::Failed(e) => ReadOutcomeView::Failed(e@),
        }
    }
}

/// What to do with what was read.
pub enum Reload {
    /// The file is gone and its room is closed; its number was this one.
    Closed(Option<u64>),
    /// This went wrong.
    Failed(String),
    /// Bring this text into the room with this number.
    Refresh { id: u64, content: String },
    /// Keep this room, which holds the text already, under this number.
    Open { id: u64, room: Room },
}

pub enum ReloadView {
    Closed(Option<u64>),
    Failed(Seq<char>),
    Refresh { id: u64, content: Seq<char> },
    Open { id: u64, room: RoomView },
}

impl View for Reload {
    type V = ReloadView;

    open spec fn view(&self) -> ReloadView {
        match *self {
            Reload::Closed(id) => ReloadView::Closed(id),
            Reload::Failed(e) => ReloadView::Failed(e@),
            Reload::Refresh { id, content } => ReloadView::Refresh { id, content: content@ },
            Reload::Open { id, room } => ReloadView::Open { id, room: room@ },
        }
    }
}

/// The file of the room `key` lies at `path`.
pub open spec fn lies_at(state: StateView, key: Seq<char>, path: Seq<char>) -> bool {
    paths::route(files::place(state, key)) == paths::route(path)
}

/// Some room that is open belongs to the file at `path`.
pub open spec fn known_at(state: StateView, path: Seq<char>) -> bool {
    exists|k: Seq<char>| #[trigger] state.rooms.contains_key(k) && lies_at(state, k, path)
}

/// What reading a file again leads to, where nothing is left open.
pub open spec fn reload_step(
    state: StateView,
    key: Seq<char>,
    path: Seq<char>,
    read: ReadOutcomeView,
) -> (StateView, ReloadView) {
    match read {
        ReadOutcomeView::Missing => (
            state.with_rooms(state.rooms.remove(key)),
            ReloadView::Closed(
                if state.rooms.contains_key(key) {
                    Some(state.rooms[key])
                } else {
                    None
                },
            ),
        ),
        ReadOutcomeView::Failed(e) => (state, ReloadView::Failed("read error: "@ + e)),
        ReadOutcomeView::Read(content) => if state.rooms.contains_key(key) {
            (state, ReloadView::Refresh { id: state.rooms[key], content })
        } else {
            (
                state.with_new_room(key),
                ReloadView::Open { id: state.next_room, room: loading::new_room(content) },
            )
        },
    }
}

/// `found` is a room of the file at `path` under another key: it is moved to `key` and refreshed.
pub open spec fn rekeyed(
    state: StateView,
    key: Seq<char>,
    path: Seq<char>,
    content: Seq<char>,
    found: Seq<char>,
    after: StateView,
    action: ReloadView,
) -> bool {
    &&& state.rooms.contains_key(found)
    &&& lies_at(state, found, path)
    &&& after == state.with_rooms(state.rooms_renamed(found, key))
    &&& action == ReloadView::Refresh { id: state.rooms[found], content }
}

/// A room of the file at `path`, whatever its key.
fn find_by_path(state: &AppState, path: &str) -> (r: Option<String>)
    ensures
        match r {
            Some(k) => state@.rooms.contains_key(k@) && lies_at(state@, k@, path@),
            None => !known_at(state@, path@),
        },
{
    let rooms = state.list_rooms();
    let mut i: usize = 0;
    while i < rooms.len()
        invariant
            i <= rooms@.len(),
            forall|j: int|
                0 <= j < rooms@.len() ==> state@.rooms.contains_key((#[trigger] rooms@[j]).0@),
            forall|j: int| 0 <= j < i ==> !lies_at(state@, (#[trigger] rooms@[j]).0@, path@),
        decreases rooms@.len() - i,
    {
        let place = paths::to_data_rel_path(state.data_dir(), rooms[i].0.as_str());
        if paths::same_path(place.as_str(), path) {
            return Some(rooms[i].0.clone());
        }
        i = i + 1;
    }
    None
}

/// Finds the room for a file that was read again: the room under its key, or one of the same file
/// under another key, which is moved, or a new one.
pub fn reload_file_from_disk(
    state: &mut AppState,
    file_key: &str,
    path: &str,
    read: ReadOutcome,
) -> (r: Reload)
    requires
        old(state)@.wf(),
        old(state)@.next_room < u64::MAX,
    ensures
        final(state)@.wf(),
        match read@ {
            ReadOutcomeView::Read(content) if !old(state)@.rooms.contains_key(file_key@)
                && known_at(old(state)@, path@) => exists|found: Seq<char>| #[trigger]
                rekeyed(old(state)@, file_key@, path@, content, found, final(state)@, r@),
            _ => (final(state)@, r@) == reload_step(old(state)@, file_key@, path@, read@),
        },
{
    match read {
        ReadOutcome::Missing => Reload::Closed(state.close_room(file_key)),
        ReadOutcome::Failed(e) => Reload::Failed(text::concat("read error: ", e.as_str())),
        ReadOutcome::Read(content) => {
            if let Some(id) = state.room(file_key) {
                return Reload::Refresh { id, content };
            }
            if let Some(found) = find_by_path(state, path) {
                let ghost before = state@;
                let ghost text = content@;
                match state.room(found.as_str()) {
                    Some(id) => {
                        state.rename_room(found.as_str(), file_key);
                        let r = Reload::Refresh { id, content };
                        assert(rekeyed(before, file_key@, path@, text, found@, state@, r@));
                        return r;
                    },
                    None => {},
                }
            }
            let id = state.open_room(file_key);
            Reload::Open { id, room: Room::new(content) }
        },
    }
}

/// The room after a text was brought into it, and what all in it are told: nothing where it holds
/// the text already.
pub open spec fn refreshed(room: RoomView, content: Seq<char>) -> (
    RoomView,
    Option<ServerMessageView>,
) {
    if room.content == content {
        (room, None)
    } else {
        let after = room.replaced(content);
        (
            after,
            Some(
                ServerMessageView::Update {
                    version: after.version,
                    content,
                    username: "external"@,
                    sender_id: "file_watcher"@,
                },
            ),
        )
    }
}

/// Brings a text from disk into a room. There is something to tell where it is a new one.
pub fn refresh_room(room: &mut Room, content: String) -> (r: Option<ServerWsMessage>)
    ensures
        (final(room)@, match r {
            Some(m) => Some(m@),
            None => None,
        }) == refreshed(old(room)@, content@),
{
    if text::same_str(room.content(), content.as_str()) {
        return None;
    }
    let version: u64 = room.replace(content.clone());
    Some(
        ServerWsMessage::Update {
            version,
            content,
            username: "external".to_string(),
            sender_id: "file_watcher".to_string(),
        },
    )
}

// ----- Laws -----

/// The server never takes its own write for a change by others: for two seconds after it began to
/// write a file, changes to that file are ignored.
pub proof fn own_writes_are_ignored(
    waiting: DebounceView,
    state: StateView,
    kind: WatchKind,
    path: WatchedPathView,
    begun: u64,
    now: u64,
)
    requires
        changed_key(kind, path) is Some,
        now - begun < OWN_WRITE,
    ensures
        watch_step(
            waiting,
            state.writing_at(changed_key(kind, path)->0, begun),
            kind,
            path,
            now,
        ) == (waiting, WatchStepView::Ignore),
{
}

/// A burst of changes to a file leads to one reload: each calls off the one before.
pub proof fn later_change_cancels_earlier(
    waiting: DebounceView,
    state: StateView,
    kind: WatchKind,
    path: WatchedPathView,
    first: u64,
    second: u64,
)
    requires
        waiting.next_task < u64::MAX - 1,
        watch_step(waiting, state, kind, path, first).1 is Reload,
        first <= second,
    ensures
        ({
            let (between, a) = watch_step(waiting, state, kind, path, first);
            let (_, b) = watch_step(between, state, kind, path, second);
            &&& a matches WatchStepView::Reload { key: ka, cancel: _, task, delay_ms: _ }
            &&& b matches WatchStepView::Reload { key: kb, cancel, task: t, delay_ms: _ }
            &&& ka == kb
            &&& cancel == Some(task)
            &&& t != task
        }),
{
}

/// Changes to different files do not call off each other's reloads.
pub proof fn changes_wait_apart(
    waiting: DebounceView,
    state: StateView,
    kind: WatchKind,
    path: WatchedPathView,
    now: u64,
    other: Seq<char>,
)
    requires
        waiting.tasks.contains_key(other),
        changed_key(kind, path) != Some(other),
    ensures
        ({
            let after = watch_step(waiting, state, kind, path, now).0;
            after.tasks.contains_key(other) && after.tasks[other] == waiting.tasks[other]
        }),
{
}

/// Reading the same text twice is as good as once: the second time nothing changes and nobody is
/// told.
pub proof fn refreshing_is_idempotent(room: RoomView, content: Seq<char>)
    ensures
        refreshed(refreshed(room, content).0, content) == (
            refreshed(room, content).0,
            None::<ServerMessageView>,
        ),
        refreshed(room, content).0.content == content,
        refreshed(room, content).0.members == room.members,
{
}

/// What the server wrote itself is no news: once a room's document is on disk, reading it back
/// tells nobody.
pub proof fn written_document_is_no_news(room: RoomView, content: Seq<char>)
    ensures
        refreshed(room.replaced(content), content) == (
            room.replaced(content),
            None::<ServerMessageView>,
        ),
{
}

/// Whenever a file holds another text than its room, all in the room are told of the new text: a client
/// that held what the room held, and takes what it is told, holds what the room holds then. Where the
/// text is the same, nobody is told anything.
pub proof fn changes_on_disk_reach_all(room: RoomView, content: Seq<char>)
    ensures
        ({
            let (after, told) = refreshed(room, content);
            &&& after.content == content
            &&& after.members == room.members
            &&& room.content != content ==> {
                &&& room.version < u64::MAX ==> after.version == room.version + 1
                &&& told matches Some(message)
                &&& message == (ServerMessageView::Update {
                    version: after.version,
                    content,
                    username: "external"@,
                    sender_id: "file_watcher"@,
                })
                &&& ws::received((room.version, room.content), seq![message]) == (
                    after.version,
                    after.content,
                )
            }
            &&& room.content == content ==> after == room && told is None
        }),
{
}

/// A change that another program makes to a diagram is followed: unless the server wrote the file
/// itself less than two seconds ago, the file is read again after half a second.
pub proof fn changes_by_others_are_followed(
    waiting: DebounceView,
    state: StateView,
    kind: WatchKind,
    path: WatchedPathView,
    rel: Seq<char>,
    now: u64,
)
    requires
        kind != WatchKind::Other,
        text::has_suffix(path.shown, ".drawio"@),
        path.exists,
        path.is_file,
        path.below == Some(rel),
        !rel.contains('\\'),
        rel.len() > 0 ==> rel[0] != '/',
        state.writing.contains_key(rel) ==> state.writing[rel] + 2_000_000_000 <= now,
    ensures
        watch_step(waiting, state, kind, path, now).1 matches WatchStepView::Reload {
            key,
            cancel: _,
            task,
            delay_ms,
        } && key == rel && task == waiting.next_task && delay_ms == 500,
        watch_step(waiting, state, kind, path, now).0.tasks.contains_key(rel),
        watch_step(waiting, state, kind, path, now).0.tasks[rel] == waiting.next_task,
{
    paths::keys_of_plain_paths(rel);
}

/// Nothing else is followed: not what happens to other files, to directories, to what is gone, or
/// outside the data directory.
pub proof fn other_changes_are_ignored(
    waiting: DebounceView,
    state: StateView,
    kind: WatchKind,
    path: WatchedPathView,
    now: u64,
)
    requires
        kind == WatchKind::Other || !text::has_suffix(path.shown, ".drawio"@) || !path.exists
            || !path.is_file || path.below is None,
    ensures
        watch_step(waiting, state, kind, path, now) == (waiting, WatchStepView::Ignore),
{
}

/// A file that is read again goes to its room, whole: to the one it has, or to a new one that begins
/// with it. A file that is gone closes its room, and one that cannot be read changes nothing.
pub proof fn files_go_to_their_rooms(
    state: StateView,
    key: Seq<char>,
    path: Seq<char>,
    content: Seq<char>,
    error: Seq<char>,
    other: Seq<char>,
)
    ensures
        state.rooms.contains_key(key) ==> reload_step(
            state,
            key,
            path,
            ReadOutcomeView::Read(content),
        ) == (state, ReloadView::Refresh { id: state.rooms[key], content }),
        !state.rooms.contains_key(key) ==> ({
            let (after, action) = reload_step(state, key, path, ReadOutcomeView::Read(content));
            &&& action matches ReloadView::Open { id, room }
            &&& after.rooms.contains_key(key)
            &&& after.rooms[key] == id
            &&& room.content == content
            &&& room.version == 0
            &&& room.members == Map::<Seq<char>, Seq<char>>::empty()
        }),
        ({
            let (after, action) = reload_step(state, key, path, ReadOutcomeView::Missing);
            &&& !after.rooms.contains_key(key)
            &&& other != key ==> after.rooms.contains_key(other) == state.rooms.contains_key(other)
            &&& action is Closed
        }),
        reload_step(state, key, path, ReadOutcomeView::Failed(error)) == (
            state,
            ReloadView::Failed("read error: "@ + error),
        ),
{
}

/// A room whose file lies at the path that changed is found there, whatever its key is, and moved to
/// the key that is asked for with the new text; no other room is touched.
pub proof fn rooms_are_found_by_place(
    state: StateView,
    key: Seq<char>,
    content: Seq<char>,
    found: Seq<char>,
    after: StateView,
    action: ReloadView,
    other: Seq<char>,
)
    requires
        state.rooms.contains_key(found),
    ensures
        known_at(state, files::place(state, found)),
        rekeyed(state, key, files::place(state, found), content, found, after, action) ==> {
            &&& after.rooms.contains_key(key)
            &&& after.rooms[key] == state.rooms[found]
            &&& found != key ==> !after.rooms.contains_key(found)
            &&& action == ReloadView::Refresh { id: state.rooms[found], content }
            &&& other != key && other != found && state.rooms.contains_key(other)
                ==> after.rooms.contains_key(other) && after.rooms[other] == state.rooms[other]
        },
{
    assert(lies_at(state, found, files::place(state, found)));
}

/// A change calls off the reload that waits for the same file, and where none waits, none.
pub proof fn only_the_waiting_reload_is_called_off(
    waiting: DebounceView,
    state: StateView,
    kind: WatchKind,
    path: WatchedPathView,
    now: u64,
)
    requires
        waiting.next_task < u64::MAX,
    ensures
        watch_step(waiting, state, kind, path, now).1 matches WatchStepView::Reload {
            key,
            cancel,
            task: _,
            delay_ms: _,
        } ==> {
            &&& waiting.tasks.contains_key(key) ==> cancel == Some(waiting.tasks[key])
            &&& !waiting.tasks.contains_key(key) ==> cancel is None
            &&& watch_step(waiting, state, kind, path, now).0.next_task == waiting.next_task + 1
        },
{
}

} // verus!
