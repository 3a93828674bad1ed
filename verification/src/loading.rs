//! Opening the room of a file: use the one that is open, or load the file into a new one.

use crate::paths;
use crate::room::{Room, RoomView};
use crate::state::{AppState, StateView};
use vstd::prelude::*;

verus! {

/// What became of the last thing asked for.
pub enum LoadEvent {
    /// Nothing was asked for yet.
    Begin,
    /// The file is there. It holds this text, or it could not be read as one.
    Found(Option<String>),
    /// There is no such file.
    Missing,
    /// The empty file stands.
    Created,
    /// The empty file could not be written.
    CreateFailed,
}

/// What to do next.
pub enum LoadAction {
    /// The room with this number is open: use it.
    Use(u64),
    /// Look for the file.
    Look { path: String },
    /// Write an empty file, in a directory that may have to be made first.
    Create { path: String },
    /// Keep `room` under this number, and use it.
    Open { id: u64, room: Room },
    /// Give up.
    Fail,
}

pub enum LoadEventView {
    Begin,
    Found(Option<Seq<char>>),
    Missing,
    Created,
    CreateFailed,
}

pub enum LoadActionView {
    Use(u64),
    Look { path: Seq<char> },
    Create { path: Seq<char> },
    Open { id: u64, room: RoomView },
    Fail,
}

impl View for LoadEvent {
    type V = LoadEventView;

    open spec fn view(&self) -> LoadEventView {
        match *self {
            LoadEvent::Begin => LoadEventView::Begin,
            LoadEvent::Found(content) => LoadEventView::Found(crate::outside::opt_text(content)),
            LoadEvent::Missing => LoadEventView::Missing,
            LoadEvent::Created => LoadEventView::Created,
            LoadEvent::CreateFailed => LoadEventView::CreateFailed,
        }
    }
}

impl View for LoadAction {
    type V = LoadActionView;

    open spec fn view(&self) -> LoadActionView {
        match *self {
            LoadAction::Use(id) => LoadActionView::Use(id),
            LoadAction::Look { path } => LoadActionView::Look { path: path@ },
            LoadAction::Create { path } => LoadActionView::Create { path: path@ },
            LoadAction::Open { id, room } => LoadActionView::Open { id, room: room@ },
            LoadAction::Fail => LoadActionView::Fail,
        }
    }
}

/// The room of a file that was just loaded.
pub open spec fn new_room(content: Seq<char>) -> RoomView {
    RoomView { content, version: 0, members: Map::empty() }
}

/// A room for a file that was just loaded: the one that was opened in the meantime, or else a new
/// one.
pub open spec fn opened(state: StateView, key: Seq<char>, content: Seq<char>) -> (
    StateView,
    LoadActionView,
) {
    if state.rooms.contains_key(key) {
        (state, LoadActionView::Use(state.rooms[key]))
    } else {
        (
            state.with_new_room(key),
            LoadActionView::Open { id: state.next_room, room: new_room(content) },
        )
    }
}

/// The memory after an event, and what is done next.
pub open spec fn load_step(state: StateView, key: Seq<char>, event: LoadEventView) -> (
    StateView,
    LoadActionView,
) {
    let path = paths::joined(state.data_dir, key);
    match event {
        LoadEventView::Begin => if state.rooms.contains_key(key) {
            (state, LoadActionView::Use(state.rooms[key]))
        } else {
            (state, LoadActionView::Look { path })
        },
        LoadEventView::Missing => (state, LoadActionView::Create { path }),
        LoadEventView::CreateFailed => (state, LoadActionView::Fail),
        LoadEventView::Found(Some(content)) => opened(state, key, content),
        LoadEventView::Found(None) => opened(state, key, ""@),
        LoadEventView::Created => opened(state, key, ""@),
    }
}

/// A step gives the file a new room, which takes a number.
pub open spec fn opens(state: StateView, key: Seq<char>, event: LoadEventView) -> bool {
    (event is Found || event is Created) && !state.rooms.contains_key(key)
}

fn open_loaded(state: &mut AppState, file_key: &str, content: String) -> (r: LoadAction)
    requires
        old(state)@.wf(),
        old(state)@.rooms.contains_key(file_key@) || old(state)@.next_room < u64::MAX,
    ensures
        final(state)@.wf(),
        (final(state)@, r@) == opened(old(state)@, file_key@, content@),
{
    match state.room(file_key) {
        Some(id) => LoadAction::Use(id),
        None => {
            let id = state.open_room(file_key);
            LoadAction::Open { id, room: Room::new(content) }
        },
    }
}

/// Loads the file `file_key`, one step at a time.
pub fn ensure_room_loaded(state: &mut AppState, file_key: &str, event: LoadEvent) -> (r: LoadAction)
    requires
        old(state)@.wf(),
        opens(old(state)@, file_key@, event@) ==> old(state)@.next_room < u64::MAX,
    ensures
        final(state)@.wf(),
        (final(state)@, r@) == load_step(old(state)@, file_key@, event@),
{
    match event {
        LoadEvent::Begin => match state.room(file_key) {
            Some(id) => LoadAction::Use(id),
            None => LoadAction::Look { path: paths::to_data_path(state.data_dir(), file_key) },
        },
        LoadEvent::Found(Some(content)) => open_loaded(state, file_key, content),
        LoadEvent::Found(None) => open_loaded(state, file_key, "".to_string()),
        LoadEvent::Missing => LoadAction::Create {
            path: paths::to_data_path(state.data_dir(), file_key),
        },
        LoadEvent::Created => open_loaded(state, file_key, "".to_string()),
        LoadEvent::CreateFailed => LoadAction::Fail,
    }
}

/// The number of the room that an action has its caller use.
pub open spec fn room_used(action: LoadActionView) -> Option<u64> {
    match action {
        LoadActionView::Use(id) => Some(id),
        LoadActionView::Open { id, room: _ } => Some(id),
        _ => None,
    }
}

/// All who load a file use one room, even if they load it at the same time: whatever the memory,
/// the room that a step has its caller use is the one that stands there for the file afterwards,
/// and the one that every later caller uses.
pub proof fn loaded_room_is_shared(state: StateView, key: Seq<char>, event: LoadEventView)
    ensures
        ({
            let (after, action) = load_step(state, key, event);
            &&& event is Found || event is Created ==> room_used(action) is Some
            &&& room_used(action) matches Some(id) ==> {
                &&& after.rooms.contains_key(key)
                &&& after.rooms[key] == id
                &&& forall|later: LoadEventView|
                    room_used(#[trigger] load_step(after, key, later).1) is Some ==> load_step(
                        after,
                        key,
                        later,
                    ) == (after, LoadActionView::Use(id))
                &&& load_step(after, key, LoadEventView::Begin) == (after, LoadActionView::Use(id))
            }
        }),
{
}

/// The memory after several steps of loading, of whichever files, by whichever callers.
pub open spec fn load_run(state: StateView, steps: Seq<(Seq<char>, LoadEventView)>) -> StateView
    decreases steps.len(),
{
    if steps.len() == 0 {
        state
    } else {
        let (key, event) = steps.last();
        load_step(load_run(state, steps.drop_last()), key, event).0
    }
}

/// What is done at the step `i` of several.
pub open spec fn load_action(
    state: StateView,
    steps: Seq<(Seq<char>, LoadEventView)>,
    i: int,
) -> LoadActionView {
    let (key, event) = steps[i];
    load_step(load_run(state, steps.take(i)), key, event).1
}

/// All callers that load one file use one room, however many they are and however their steps and
/// those of others are mixed: it is the room that stands for the file when all is done.
pub proof fn all_loaders_use_one_room(
    state: StateView,
    steps: Seq<(Seq<char>, LoadEventView)>,
    i: int,
)
    requires
        0 <= i < steps.len(),
    ensures
        room_used(load_action(state, steps, i)) matches Some(id) ==> {
            let after = load_run(state, steps);
            after.rooms.contains_key(steps[i].0) && after.rooms[steps[i].0] == id
        },
    decreases steps.len(),
{
    let before = steps.drop_last();
    if i == steps.len() - 1 {
        assert(steps.take(i) =~= before);
        loaded_room_is_shared(load_run(state, before), steps[i].0, steps[i].1);
    } else {
        assert(before.take(i) =~= steps.take(i));
        assert(before[i] == steps[i]);
        all_loaders_use_one_room(state, before, i);
    }
}

/// A file is loaded anew only if it has no room, and its room then holds what the file held, in its
/// first version, with nobody in it.
pub proof fn new_room_holds_the_file(state: StateView, key: Seq<char>, content: Option<Seq<char>>)
    ensures
        load_step(state, key, LoadEventView::Found(content)).1 is Open
            <==> !state.rooms.contains_key(key),
        !state.rooms.contains_key(key) ==> load_step(
            state,
            key,
            LoadEventView::Found(content),
        ).1 == (LoadActionView::Open {
            id: state.next_room,
            room: RoomView {
                content: content.unwrap_or(""@),
                version: 0,
                members: Map::empty(),
            },
        }),
{
}

/// Loading one file never touches the room of another, nor gives two files one room.
pub proof fn loading_keeps_other_rooms(
    state: StateView,
    key: Seq<char>,
    event: LoadEventView,
    other: Seq<char>,
)
    requires
        state.wf(),
        state.next_room < u64::MAX,
        other != key,
        state.rooms.contains_key(other),
    ensures
        ({
            let after = load_step(state, key, event).0;
            &&& after.rooms.contains_key(other)
            &&& after.rooms[other] == state.rooms[other]
            &&& after.rooms.contains_key(key) ==> after.rooms[key] != after.rooms[other]
        }),
{
}

/// A file without a room is looked for at its place, made there where it is missing, and given up where
/// it cannot be made. None of this changes the memory.
pub proof fn files_are_looked_for(state: StateView, key: Seq<char>)
    requires
        !state.rooms.contains_key(key),
    ensures
        load_step(state, key, LoadEventView::Begin) == (
            state,
            LoadActionView::Look { path: paths::joined(state.data_dir, key) },
        ),
        load_step(state, key, LoadEventView::Missing) == (
            state,
            LoadActionView::Create { path: paths::joined(state.data_dir, key) },
        ),
        load_step(state, key, LoadEventView::CreateFailed) == (state, LoadActionView::Fail),
        load_step(state, key, LoadEventView::Created).1 matches LoadActionView::Open { id, room }
            && id == state.next_room && room.content.len() == 0 && room.version == 0,
{
    reveal_strlit("");
}

} // verus!
