//! A connection to a room: what happens when it opens, with every frame, and when it closes.

use crate::auth;
use crate::auth::{Credentials, CredentialsView};
use crate::color;
use crate::files;
use crate::http;
use crate::http::{Reply, ReplyView};
use crate::messages;
use crate::messages::{
    ClientMessageView, ClientWsMessage, PresenceUser, ServerMessageView, ServerWsMessage,
};
use crate::outside;
use crate::paths;
use crate::room;
use crate::room::{Room, RoomView};
use crate::state::{AppState, StateView};
use crate::text;
use vstd::prelude::*;

verus! {

// ----- Before the connection -----

/// Which file a connection is for: the path in the query, or else the name in the address.
pub open spec fn ws_key(path: Option<Seq<char>>, decoded_name: Seq<char>) -> Result<
    Seq<char>,
    ReplyView,
> {
    match path {
        Some(p) => files::path_or(p, "invalid path"@),
        None => files::name_or(decoded_name, "invalid file name"@),
    }
}

/// Which file a connection is for, given the decoded name in the address.
pub fn ws_file_key(path: Option<String>, decoded_name: &str) -> (r: Result<String, Reply>)
    ensures
        http::key_or_reply(r) == ws_key(outside::opt_text(path), decoded_name@),
{
    match path {
        Some(p) => match paths::sanitize_rel_path(p.as_str()) {
            Some(key) => Ok(key),
            None => Err(http::refuse("invalid path")),
        },
        None => match paths::to_file_key(decoded_name) {
            Some(key) => Ok(key),
            None => Err(http::refuse("invalid file name")),
        },
    }
}

/// Who may connect to which file: the user and the file's key, or a refusal.
pub open spec fn ws_admitted(
    state: StateView,
    c: CredentialsView,
    path: Option<Seq<char>>,
    decoded_name: Seq<char>,
) -> Result<(Seq<char>, Seq<char>), ReplyView> {
    match auth::authorized(state, c) {
        None => Err(ReplyView::Text(401, "login required"@)),
        Some(username) => match ws_key(path, decoded_name) {
            Ok(key) => Ok((username, key)),
            Err(reply) => Err(reply),
        },
    }
}

/// Admits a connection: the user and the file's key, or a refusal.
pub fn ws_handler(state: &AppState, creds: &Credentials, path: Option<String>, name: &str) -> (r:
    Result<(String, String), Reply>)
    ensures
        http::pair_or_reply(r) == ws_admitted(
            state@,
            creds@,
            outside::opt_text(path),
            outside::percent_decoded(name@),
        ),
        paths::name_text(name@) ==> http::pair_or_reply(r) == ws_admitted(
            state@,
            creds@,
            outside::opt_text(path),
            name@,
        ),
{
    match auth::get_authorized_user_from_header_or_query(state, creds) {
        None => Err(Reply::Text(401, "login required".to_string())),
        Some(username) => {
            let decoded = files::decode_name(name);
            match ws_file_key(path, decoded.as_str()) {
                Ok(key) => Ok((username, key)),
                Err(reply) => Err(reply),
            }
        },
    }
}

// ----- The connection -----

/// A connection of a user to the room of a file.
pub struct Connection {
    pub username: String,
    pub file_key: String,
    pub id: String,
}

pub struct ConnectionView {
    pub username: Seq<char>,
    pub file_key: Seq<char>,
    pub id: Seq<char>,
}

impl View for Connection {
    type V = ConnectionView;

    open spec fn view(&self) -> ConnectionView {
        ConnectionView { username: self.username@, file_key: self.file_key@, id: self.id@ }
    }
}

/// What comes from the socket or from the room.
pub enum WsEvent {
    /// The client said something.
    Message(ClientWsMessage),
    /// The client said something that nobody understands, for this reason.
    BadMessage(String),
    /// The client wants this back.
    SocketPing(Vec<u8>),
    /// Some other frame.
    OtherFrame,
    /// The client is gone or wants to go.
    Closed,
    /// Somebody told the room something.
    RoomMessage(ServerWsMessage),
    /// What the room was told could not be passed on to the client.
    ForwardFailed,
    /// So much was told that some of it was lost.
    Lagged,
    /// Nobody will tell the room anything any more.
    RoomClosed,
}

/// What the server does.
pub enum WsAction {
    /// Tell the client, whether it arrives or not.
    Send(ServerWsMessage),
    /// Tell the client, and say so if it does not arrive.
    Forward(ServerWsMessage),
    /// Tell everybody in the room.
    Broadcast(ServerWsMessage),
    /// Give back what came with a ping.
    SocketPong(Vec<u8>),
    /// Write the file, whether it succeeds or not.
    Persist { path: String, content: String },
    /// Close the socket.
    Close,
}

pub enum WsEventView {
    Message(ClientMessageView),
    BadMessage(Seq<char>),
    SocketPing(Seq<u8>),
    OtherFrame,
    Closed,
    RoomMessage(ServerMessageView),
    ForwardFailed,
    Lagged,
    RoomClosed,
}

pub enum WsActionView {
    Send(ServerMessageView),
    Forward(ServerMessageView),
    Broadcast(ServerMessageView),
    SocketPong(Seq<u8>),
    Persist { path: Seq<char>, content: Seq<char> },
    Close,
}

impl View for WsEvent {
    type V = WsEventView;

    open spec fn view(&self) -> WsEventView {
        match *self {
            WsEvent::Message(m) => WsEventView::Message(m@),
            WsEvent::BadMessage(e) => WsEventView::BadMessage(e@),
            WsEvent::SocketPing(d) => WsEventView::SocketPing(d@),
            WsEvent::OtherFrame => WsEventView::OtherFrame,
            WsEvent::Closed => WsEventView::Closed,
            WsEvent::RoomMessage(m) => WsEventView::RoomMessage(m@),
            WsEvent::ForwardFailed => WsEventView::ForwardFailed,
            WsEvent::Lagged => WsEventView::Lagged,
            WsEvent::RoomClosed => WsEventView::RoomClosed,
        }
    }
}

impl View for WsAction {
    type V = WsActionView;

    open spec fn view(&self) -> WsActionView {
        match *self {
            WsAction::Send(m) => WsActionView::Send(m@),
            WsAction::Forward(m) => WsActionView::Forward(m@),
            WsAction::Broadcast(m) => WsActionView::Broadcast(m@),
            WsAction::SocketPong(d) => WsActionView::SocketPong(d@),
            WsAction::Persist { path, content } => WsActionView::Persist {
                path: path@,
                content: content@,
            },
            WsAction::Close => WsActionView::Close,
        }
    }
}

pub open spec fn actions_view(v: Seq<WsAction>) -> Seq<WsActionView> {
    v.map_values(|a: WsAction| a@)
}

/// What the client is told first: the document as it stands.
pub open spec fn init_message(room: RoomView, id: Seq<char>) -> ServerMessageView {
    ServerMessageView::Init { version: room.version, content: room.content, your_id: id }
}

/// What is done when the file cannot be loaded.
pub open spec fn failed_actions() -> Seq<WsActionView> {
    seq![
        WsActionView::Send(ServerMessageView::Error { message: "failed to load file"@ }),
        WsActionView::Close,
    ]
}

/// What is done when a connection opens: the client gets the document and the list of the others, and
/// all in the room hear who came.
pub open spec fn open_actions(
    room: RoomView,
    conn: ConnectionView,
    users: Seq<PresenceUser>,
) -> Seq<WsActionView> {
    seq![
        WsActionView::Send(init_message(room, conn.id)),
        WsActionView::Send(
            ServerMessageView::PresenceSnapshot { users: messages::users_view(users) },
        ),
        WsActionView::Broadcast(
            ServerMessageView::PresenceJoin {
                username: conn.username,
                color: color::color_of(conn.username),
            },
        ),
    ]
}

/// What is done when a connection closes: all in the room hear who left.
pub open spec fn close_actions(conn: ConnectionView) -> Seq<WsActionView> {
    seq![WsActionView::Broadcast(ServerMessageView::PresenceLeave { username: conn.username })]
}

/// What happens when the file cannot be loaded: the client hears of it and is let go.
pub fn ws_failed() -> (r: Vec<WsAction>)
    ensures
        actions_view(r@) == failed_actions(),
{
    let r = vec![
        WsAction::Send(ServerWsMessage::Error { message: "failed to load file".to_string() }),
        WsAction::Close,
    ];
    assert(actions_view(r@) =~= failed_actions());
    r
}

/// Opens a connection: the client gets the document and the list of the others, and all in the
/// room hear who came.
pub fn ws_open(room: &mut Room, conn: &Connection) -> (r: Vec<WsAction>)
    ensures
        final(room)@ == old(room)@.joined(conn@.username),
        exists|users: Seq<PresenceUser>| #[trigger]
            room::others(final(room)@.members, conn@.username, users) && actions_view(r@)
                == open_actions(old(room)@, conn@, users),
{
    let init = ServerWsMessage::Init {
        version: room.version(),
        content: room.content().to_string(),
        your_id: conn.id.clone(),
    };
    let color = room.join(conn.username.as_str());
    let users = room.others(conn.username.as_str());
    let ghost listed = users@;
    let r = vec![
        WsAction::Send(init),
        WsAction::Send(ServerWsMessage::PresenceSnapshot { users }),
        WsAction::Broadcast(
            ServerWsMessage::PresenceJoin { username: conn.username.clone(), color },
        ),
    ];
    assert(room::others(room@.members, conn@.username, listed));
    assert(actions_view(r@) =~= open_actions(old(room)@, conn@, listed));
    r
}

/// Opens a connection under a new random name.
pub fn ws_connect(room: &mut Room, username: String, file_key: String) -> (r: (
    Connection,
    Vec<WsAction>,
))
    ensures
        r.0@.username == username@,
        r.0@.file_key == file_key@,
        outside::random_uuid(r.0@.id),
        final(room)@ == old(room)@.joined(username@),
        exists|users: Seq<PresenceUser>| #[trigger]
            room::others(final(room)@.members, username@, users) && actions_view(r.1@)
                == open_actions(old(room)@, r.0@, users),
{
    let conn = Connection { username, file_key, id: outside::fresh_uuid() };
    let actions = ws_open(room, &conn);
    (conn, actions)
}

/// The room after an event.
pub open spec fn room_after(room: RoomView, event: WsEventView) -> RoomView {
    match event {
        WsEventView::Message(ClientMessageView::Replace { version, content }) => room.replaced(
            content,
        ),
        _ => room,
    }
}

/// The server's memory after an event.
pub open spec fn state_after(
    state: StateView,
    conn: ConnectionView,
    event: WsEventView,
    now: u64,
) -> StateView {
    match event {
        WsEventView::Message(ClientMessageView::Replace { version, content }) => state.writing_at(
            conn.file_key,
            now,
        ),
        _ => state,
    }
}

/// What the server does at what the client said.
pub open spec fn message_actions(
    state: StateView,
    room: RoomView,
    conn: ConnectionView,
    message: ClientMessageView,
) -> Seq<WsActionView> {
    match message {
        ClientMessageView::Replace { version, content } => seq![
            WsActionView::Persist {
                path: paths::joined(state.data_dir, conn.file_key),
                content,
            },
            WsActionView::Broadcast(
                ServerMessageView::Update {
                    version: room.replaced(content).version,
                    content,
                    username: conn.username,
                    sender_id: conn.id,
                },
            ),
        ],
        ClientMessageView::Ping => seq![WsActionView::Send(ServerMessageView::Pong)],
        ClientMessageView::Cursor { x, y, basis } => seq![
            WsActionView::Broadcast(
                ServerMessageView::Cursor {
                    username: conn.username,
                    x: messages::clamped(x),
                    y: messages::clamped(y),
                    basis,
                    sender_id: conn.id,
                },
            ),
        ],
        ClientMessageView::Selection { ids } => seq![
            WsActionView::Broadcast(
                ServerMessageView::Selection {
                    username: conn.username,
                    ids,
                    sender_id: conn.id,
                },
            ),
        ],
    }
}

/// What the server does at an event.
pub open spec fn event_actions(
    state: StateView,
    room: RoomView,
    conn: ConnectionView,
    event: WsEventView,
) -> Seq<WsActionView> {
    match event {
        WsEventView::Message(m) => message_actions(state, room, conn, m),
        WsEventView::BadMessage(reason) => seq![
            WsActionView::Send(
                ServerMessageView::Error { message: "invalid message: "@ + reason },
            ),
        ],
        WsEventView::SocketPing(data) => seq![WsActionView::SocketPong(data)],
        WsEventView::RoomMessage(m) => seq![WsActionView::Forward(m)],
        _ => seq![],
    }
}

/// Whether the connection stays open after an event.
pub open spec fn goes_on(event: WsEventView) -> bool {
    !(event is Closed || event is ForwardFailed || event is RoomClosed)
}

fn one(a: WsAction) -> (r: Vec<WsAction>)
    ensures
        actions_view(r@) == seq![a@],
{
    let r = vec![a];
    assert(actions_view(r@) =~= seq![a@]);
    r
}

fn handle_message(
    state: &mut AppState,
    room: &mut Room,
    conn: &Connection,
    message: ClientWsMessage,
    now: u64,
) -> (r: Vec<WsAction>)
    ensures
        final(room)@ == room_after(old(room)@, WsEventView::Message(message@)),
        final(state)@ == state_after(old(state)@, conn@, WsEventView::Message(message@), now),
        actions_view(r@) == message_actions(old(state)@, old(room)@, conn@, message@),
{
    match message {
        ClientWsMessage::Replace { version: _, content } => {
            let version: u64 = room.replace(content.clone());
            let path = paths::to_data_path(state.data_dir(), conn.file_key.as_str());
            state.mark_file_writing(conn.file_key.as_str(), now);
            let ghost asked = message_actions(old(state)@, old(room)@, conn@, message@);
            let r = vec![
                WsAction::Persist { path, content: content.clone() },
                WsAction::Broadcast(
                    ServerWsMessage::Update {
                        version,
                        content,
                        username: conn.username.clone(),
                        sender_id: conn.id.clone(),
                    },
                ),
            ];
            assert(actions_view(r@) =~= asked);
            r
        },
        ClientWsMessage::Ping => one(WsAction::Send(ServerWsMessage::Pong)),
        ClientWsMessage::Cursor { x, y, basis } => one(
            WsAction::Broadcast(
                ServerWsMessage::Cursor {
                    username: conn.username.clone(),
                    x: messages::clamp_unit(x),
                    y: messages::clamp_unit(y),
                    basis,
                    sender_id: conn.id.clone(),
                },
            ),
        ),
        ClientWsMessage::Selection { ids } => one(
            WsAction::Broadcast(
                ServerWsMessage::Selection {
                    username: conn.username.clone(),
                    ids,
                    sender_id: conn.id.clone(),
                },
            ),
        ),
    }
}

/// One turn of a connection. The actions are to be done in their order; the connection closes
/// where the second part is false.
pub fn handle_ws(
    state: &mut AppState,
    room: &mut Room,
    conn: &Connection,
    event: WsEvent,
    now: u64,
) -> (r: (Vec<WsAction>, bool))
    ensures
        final(room)@ == room_after(old(room)@, event@),
        final(state)@ == state_after(old(state)@, conn@, event@, now),
        actions_view(r.0@) == event_actions(old(state)@, old(room)@, conn@, event@),
        r.1 == goes_on(event@),
{
    match event {
        WsEvent::Message(m) => (handle_message(state, room, conn, m, now), true),
        WsEvent::BadMessage(reason) => (
            one(
                WsAction::Send(
                    ServerWsMessage::Error {
                        message: text::concat("invalid message: ", reason.as_str()),
                    },
                ),
            ),
            true,
        ),
        WsEvent::SocketPing(data) => (one(WsAction::SocketPong(data)), true),
        WsEvent::RoomMessage(m) => (one(WsAction::Forward(m)), true),
        WsEvent::OtherFrame => (no_action(), true),
        WsEvent::Lagged => (no_action(), true),
        WsEvent::Closed => (no_action(), false),
        WsEvent::ForwardFailed => (no_action(), false),
        WsEvent::RoomClosed => (no_action(), false),
    }
}

fn no_action() -> (r: Vec<WsAction>)
    ensures
        actions_view(r@) == Seq::<WsActionView>::empty(),
{
    let r: Vec<WsAction> = Vec::new();
    assert(actions_view(r@) =~= Seq::<WsActionView>::empty());
    r
}

/// Closes a connection: the user leaves, and all in the room hear of it.
pub fn ws_close(room: &mut Room, conn: &Connection) -> (r: Vec<WsAction>)
    ensures
        final(room)@ == old(room)@.left(conn@.username),
        actions_view(r@) == close_actions(conn@),
{
    room.leave(conn.username.as_str());
    one(WsAction::Broadcast(ServerWsMessage::PresenceLeave { username: conn.username.clone() }))
}

// ----- Laws -----

/// What one member writes, every member is told: the room holds it, the file gets it, and the
/// message to all has it with the room's new version, which is one more.
pub proof fn replacing_reaches_all(
    state: StateView,
    room: RoomView,
    conn: ConnectionView,
    version: u64,
    content: Seq<char>,
)
    requires
        room.version < u64::MAX,
    ensures
        ({
            let event = WsEventView::Message(ClientMessageView::Replace { version, content });
            let after = room_after(room, event);
            let actions = event_actions(state, room, conn, event);
            &&& after.content == content
            &&& after.version == room.version + 1
            &&& after.members == room.members
            &&& actions.contains(
                WsActionView::Persist {
                    path: paths::joined(state.data_dir, conn.file_key),
                    content,
                },
            )
            &&& actions.contains(
                WsActionView::Broadcast(
                    ServerMessageView::Update {
                        version: after.version,
                        content: after.content,
                        username: conn.username,
                        sender_id: conn.id,
                    },
                ),
            )
        }),
{
    let event = WsEventView::Message(ClientMessageView::Replace { version, content });
    let actions = event_actions(state, room, conn, event);
    assert(actions[0] is Persist);
    assert(actions[1] is Broadcast);
}

/// What happens to a room and what is done while several connections act on it, one event after the
/// other.
pub open spec fn run(
    state: StateView,
    room: RoomView,
    events: Seq<(ConnectionView, WsEventView)>,
) -> (RoomView, Seq<WsActionView>)
    decreases events.len(),
{
    if events.len() == 0 {
        (room, seq![])
    } else {
        let (between, done) = run(state, room, events.drop_last());
        let (conn, event) = events.last();
        (room_after(between, event), done + event_actions(state, between, conn, event))
    }
}

/// The document of a client that starts with `document` and takes every update that the room is told
/// of.
pub open spec fn follow(document: (u64, Seq<char>), actions: Seq<WsActionView>) -> (u64, Seq<char>)
    decreases actions.len(),
{
    if actions.len() == 0 {
        document
    } else {
        match actions.last() {
            WsActionView::Broadcast(
                ServerMessageView::Update { version, content, username: _, sender_id: _ },
            ) => (version, content),
            _ => follow(document, actions.drop_last()),
        }
    }
}

/// Clients stay in step with their room: whoever starts with the document that the first message
/// brings, and takes every update from there on, holds what the room holds, version and all.
pub proof fn clients_stay_in_step(
    state: StateView,
    room: RoomView,
    events: Seq<(ConnectionView, WsEventView)>,
)
    ensures
        ({
            let (after, done) = run(state, room, events);
            follow((room.version, room.content), done) == (after.version, after.content)
        }),
    decreases events.len(),
{
    if events.len() > 0 {
        clients_stay_in_step(state, room, events.drop_last());
        let (between, done) = run(state, room, events.drop_last());
        let (conn, event) = events.last();
        let actions = event_actions(state, between, conn, event);
        let all = done + actions;
        if actions.len() == 0 {
            assert(all =~= done);
        } else {
            assert(all.last() == actions.last());
            if actions.len() == 1 {
                assert(all.drop_last() =~= done);
            }
        }
    }
}

/// The last writer wins, whatever version a client believes in: the version that comes with the
/// text changes nothing.
pub proof fn claimed_version_is_ignored(
    state: StateView,
    room: RoomView,
    conn: ConnectionView,
    content: Seq<char>,
    v: u64,
    w: u64,
    now: u64,
)
    ensures
        ({
            let a = WsEventView::Message(ClientMessageView::Replace { version: v, content });
            let b = WsEventView::Message(ClientMessageView::Replace { version: w, content });
            &&& room_after(room, a) == room_after(room, b)
            &&& state_after(state, conn, a, now) == state_after(state, conn, b, now)
            &&& event_actions(state, room, conn, a) == event_actions(state, room, conn, b)
        }),
{
}

/// Nothing but a replacement changes the document or the server's memory, and nothing is written
/// to disk but what replaces the document.
pub proof fn only_replacing_changes(
    state: StateView,
    room: RoomView,
    conn: ConnectionView,
    event: WsEventView,
    now: u64,
)
    requires
        !(event matches WsEventView::Message(m) && m is Replace),
    ensures
        room_after(room, event) == room,
        state_after(state, conn, event, now) == state,
        forall|i: int|
            0 <= i < event_actions(state, room, conn, event).len() ==> !((
            #[trigger] event_actions(state, room, conn, event)[i]) is Persist),
{
}

/// Whoever joins and leaves again leaves the room as it was, unless the user was in it already.
pub proof fn leaving_undoes_joining(room: RoomView, username: Seq<char>)
    requires
        !room.members.contains_key(username),
    ensures
        room.joined(username).left(username) == room,
{
    assert(room.joined(username).left(username).members =~= room.members);
}

/// A cursor is shown inside the page: a coordinate that is passed on is a number from zero to one,
/// zero with a minus sign, or no number at all.
pub proof fn cursor_stays_inside(bits: u32)
    ensures
        ({
            let b = messages::clamped(bits);
            b <= messages::ONE_BITS || b == 0x8000_0000u32 || 0x7f80_0000 < b < 0x8000_0000 || b
                > 0xff80_0000
        }),
        messages::clamped(messages::clamped(bits)) == messages::clamped(bits),
        bits <= messages::ONE_BITS ==> messages::clamped(bits) == bits,
{
}

/// The messages that all in the room are told among some actions, in their order.
pub open spec fn broadcasts(actions: Seq<WsActionView>) -> Seq<ServerMessageView>
    decreases actions.len(),
{
    if actions.len() == 0 {
        seq![]
    } else {
        let before = broadcasts(actions.drop_last());
        match actions.last() {
            WsActionView::Broadcast(m) => before.push(m),
            _ => before,
        }
    }
}

/// The messages that the client of the connection is sent among some actions, in their order.
pub open spec fn sent(actions: Seq<WsActionView>) -> Seq<ServerMessageView>
    decreases actions.len(),
{
    if actions.len() == 0 {
        seq![]
    } else {
        let before = sent(actions.drop_last());
        match actions.last() {
            WsActionView::Send(m) => before.push(m),
            WsActionView::Forward(m) => before.push(m),
            _ => before,
        }
    }
}

/// What a connection sends its client while it hears, one after the other, what the room is told.
pub open spec fn delivered(
    state: StateView,
    room: RoomView,
    conn: ConnectionView,
    told: Seq<ServerMessageView>,
) -> Seq<ServerMessageView>
    decreases told.len(),
{
    if told.len() == 0 {
        seq![]
    } else {
        delivered(state, room, conn, told.drop_last()) + sent(
            event_actions(state, room, conn, WsEventView::RoomMessage(told.last())),
        )
    }
}

/// The document of a client that takes what it is sent, one message after the other.
pub open spec fn received(
    document: (u64, Seq<char>),
    messages: Seq<ServerMessageView>,
) -> (u64, Seq<char>)
    decreases messages.len(),
{
    if messages.len() == 0 {
        document
    } else {
        match messages.last() {
            ServerMessageView::Init { version, content, your_id: _ } => (version, content),
            ServerMessageView::Update { version, content, username: _, sender_id: _ } => (
                version,
                content,
            ),
            _ => received(document, messages.drop_last()),
        }
    }
}

proof fn lemma_one_action(a: WsActionView)
    ensures
        broadcasts(seq![a]) == (match a {
            WsActionView::Broadcast(m) => seq![m],
            _ => seq![],
        }),
        sent(seq![a]) == (match a {
            WsActionView::Send(m) => seq![m],
            WsActionView::Forward(m) => seq![m],
            _ => seq![],
        }),
{
    assert(seq![a].drop_last() =~= seq![]);
    assert(broadcasts(seq![]) =~= Seq::<ServerMessageView>::empty());
    assert(sent(seq![]) =~= Seq::<ServerMessageView>::empty());
    if let WsActionView::Broadcast(m) = a {
        assert(broadcasts(seq![a]) =~= seq![m]);
    }
    if let WsActionView::Send(m) = a {
        assert(sent(seq![a]) =~= seq![m]);
    }
    if let WsActionView::Forward(m) = a {
        assert(sent(seq![a]) =~= seq![m]);
    }
}

proof fn lemma_broadcasts_add(a: Seq<WsActionView>, b: Seq<WsActionView>)
    ensures
        broadcasts(a + b) == broadcasts(a) + broadcasts(b),
    decreases b.len(),
{
    if b.len() == 0 {
        assert(a + b =~= a);
        assert(broadcasts(a) + broadcasts(b) =~= broadcasts(a));
    } else {
        assert((a + b).drop_last() =~= a + b.drop_last());
        lemma_broadcasts_add(a, b.drop_last());
        assert(broadcasts(a + b) =~= broadcasts(a) + broadcasts(b));
    }
}

/// Whatever the room is told, a connection sends on to its client: that message and no other, once,
/// and the connection stays open.
pub proof fn room_messages_are_sent_on(
    state: StateView,
    room: RoomView,
    conn: ConnectionView,
    message: ServerMessageView,
    now: u64,
)
    ensures
        ({
            let event = WsEventView::RoomMessage(message);
            let actions = event_actions(state, room, conn, event);
            &&& actions.len() == 1
            &&& actions[0] == WsActionView::Forward(message)
            &&& sent(actions) == seq![message]
            &&& broadcasts(actions) == Seq::<ServerMessageView>::empty()
            &&& goes_on(event)
            &&& room_after(room, event) == room
            &&& state_after(state, conn, event, now) == state
        }),
{
    lemma_one_action(WsActionView::Forward(message));
}

/// Nothing that the room is told is lost, added or changed on its way to a client.
pub proof fn all_that_is_told_arrives(
    state: StateView,
    room: RoomView,
    conn: ConnectionView,
    told: Seq<ServerMessageView>,
)
    ensures
        delivered(state, room, conn, told) == told,
    decreases told.len(),
{
    if told.len() > 0 {
        all_that_is_told_arrives(state, room, conn, told.drop_last());
        room_messages_are_sent_on(state, room, conn, told.last(), 0);
        assert(delivered(state, room, conn, told) =~= told);
    } else {
        assert(delivered(state, room, conn, told) =~= told);
    }
}

/// The first message brings the document: a client that takes it holds what the room holds.
pub proof fn first_message_brings_the_document(
    room: RoomView,
    id: Seq<char>,
    held: (u64, Seq<char>),
)
    ensures
        received(held, seq![init_message(room, id)]) == (room.version, room.content),
        init_message(room, id) matches ServerMessageView::Init {
            version: _,
            content: _,
            your_id,
        } && your_id == id,
{
}

proof fn lemma_received_add(
    document: (u64, Seq<char>),
    a: Seq<ServerMessageView>,
    b: Seq<ServerMessageView>,
)
    ensures
        received(document, a + b) == received(received(document, a), b),
    decreases b.len(),
{
    if b.len() == 0 {
        assert(a + b =~= a);
    } else {
        assert((a + b).drop_last() =~= a + b.drop_last());
        lemma_received_add(document, a, b.drop_last());
    }
}

/// What one event tells the room brings a client from the document before it to the one after it.
proof fn lemma_event_followed(
    state: StateView,
    room: RoomView,
    conn: ConnectionView,
    event: WsEventView,
)
    ensures
        ({
            let after = room_after(room, event);
            received(
                (room.version, room.content),
                broadcasts(event_actions(state, room, conn, event)),
            ) == (after.version, after.content)
        }),
{
    reveal_with_fuel(received, 2);
    let actions = event_actions(state, room, conn, event);
    if actions.len() == 1 {
        assert(actions =~= seq![actions[0]]);
        lemma_one_action(actions[0]);
        if let WsActionView::Broadcast(m) = actions[0] {
            assert(seq![m].drop_last() =~= seq![]);
        }
    } else if actions.len() == 2 {
        assert(actions =~= seq![actions[0]] + seq![actions[1]]);
        lemma_broadcasts_add(seq![actions[0]], seq![actions[1]]);
        lemma_one_action(actions[0]);
        lemma_one_action(actions[1]);
        if let WsActionView::Broadcast(m) = actions[1] {
            assert(broadcasts(actions) =~= seq![m]);
        }
    }
}

/// Collaborative editing, from end to end: whatever the members of a room do, one after the other, a
/// client that joined with the document of that time, and takes what its own connection sends it of
/// what the room is told, holds in the end what the room holds, version and all.
pub proof fn members_see_what_others_do(
    state: StateView,
    room: RoomView,
    events: Seq<(ConnectionView, WsEventView)>,
    member: ConnectionView,
    held: (u64, Seq<char>),
)
    ensures
        ({
            let (after, done) = run(state, room, events);
            let messages = seq![init_message(room, member.id)] + delivered(
                state,
                room,
                member,
                broadcasts(done),
            );
            received(held, messages) == (after.version, after.content)
        }),
    decreases events.len(),
{
    let first = seq![init_message(room, member.id)];
    let (after, done) = run(state, room, events);
    first_message_brings_the_document(room, member.id, held);
    all_that_is_told_arrives(state, room, member, broadcasts(done));
    if events.len() == 0 {
        assert(first + broadcasts(done) =~= first);
    } else {
        let (between, earlier) = run(state, room, events.drop_last());
        let (conn, event) = events.last();
        let actions = event_actions(state, between, conn, event);
        members_see_what_others_do(state, room, events.drop_last(), member, held);
        all_that_is_told_arrives(state, room, member, broadcasts(earlier));
        lemma_broadcasts_add(earlier, actions);
        lemma_received_add(held, first + broadcasts(earlier), broadcasts(actions));
        assert(first + broadcasts(done) =~= (first + broadcasts(earlier)) + broadcasts(actions));
        lemma_event_followed(state, between, conn, event);
    }
}

/// A replacement by one member makes the connection of any other send its client exactly one message:
/// the new document, with the room's new version and the writer's name and connection.
pub proof fn replacements_are_delivered(
    state: StateView,
    room: RoomView,
    writer: ConnectionView,
    reader: ConnectionView,
    version: u64,
    content: Seq<char>,
)
    requires
        room.version < u64::MAX,
    ensures
        ({
            let event = WsEventView::Message(ClientMessageView::Replace { version, content });
            let after = room_after(room, event);
            let told = broadcasts(event_actions(state, room, writer, event));
            &&& after.content == content
            &&& after.version == room.version + 1
            &&& after.members == room.members
            &&& delivered(state, after, reader, told) == seq![
                ServerMessageView::Update {
                    version: after.version,
                    content,
                    username: writer.username,
                    sender_id: writer.id,
                },
            ]
        }),
{
    let event = WsEventView::Message(ClientMessageView::Replace { version, content });
    let after = room_after(room, event);
    let actions = event_actions(state, room, writer, event);
    assert(actions =~= seq![actions[0]] + seq![actions[1]]);
    lemma_broadcasts_add(seq![actions[0]], seq![actions[1]]);
    lemma_one_action(actions[0]);
    lemma_one_action(actions[1]);
    let told = broadcasts(actions);
    all_that_is_told_arrives(state, after, reader, told);
    assert(told =~= seq![
        ServerMessageView::Update {
            version: after.version,
            content,
            username: writer.username,
            sender_id: writer.id,
        },
    ]);
}

/// A replacement is written to the file of the connection, whole and once, and the server remembers
/// that it wrote it.
pub proof fn replacements_are_written(
    state: StateView,
    room: RoomView,
    conn: ConnectionView,
    version: u64,
    content: Seq<char>,
    now: u64,
)
    ensures
        ({
            let event = WsEventView::Message(ClientMessageView::Replace { version, content });
            let actions = event_actions(state, room, conn, event);
            &&& goes_on(event)
            &&& actions.len() == 2
            &&& actions[0] == (WsActionView::Persist {
                path: paths::joined(state.data_dir, conn.file_key),
                content,
            })
            &&& actions[1] is Broadcast
            &&& state_after(state, conn, event, now).writing.contains_key(conn.file_key)
            &&& state_after(state, conn, event, now).writing[conn.file_key] == now
        }),
{
}

/// Pointing and selecting reach every client of the room with the sender's name, and with what the
/// sender selected or pointed at; a coordinate between zero and one arrives as it is. Nothing is sent
/// to the sender alone.
pub proof fn gestures_are_delivered(
    state: StateView,
    room: RoomView,
    sender: ConnectionView,
    reader: ConnectionView,
    ids: Seq<Seq<char>>,
    x: u32,
    y: u32,
    basis: Option<Seq<char>>,
)
    requires
        x <= messages::ONE_BITS,
        y <= messages::ONE_BITS,
    ensures
        ({
            let select = event_actions(
                state,
                room,
                sender,
                WsEventView::Message(ClientMessageView::Selection { ids }),
            );
            let point = event_actions(
                state,
                room,
                sender,
                WsEventView::Message(ClientMessageView::Cursor { x, y, basis }),
            );
            &&& sent(select) == Seq::<ServerMessageView>::empty()
            &&& sent(point) == Seq::<ServerMessageView>::empty()
            &&& delivered(state, room, reader, broadcasts(select)) == seq![
                ServerMessageView::Selection {
                    username: sender.username,
                    ids,
                    sender_id: sender.id,
                },
            ]
            &&& delivered(state, room, reader, broadcasts(point)) == seq![
                ServerMessageView::Cursor {
                    username: sender.username,
                    x,
                    y,
                    basis,
                    sender_id: sender.id,
                },
            ]
        }),
{
    let select = event_actions(
        state,
        room,
        sender,
        WsEventView::Message(ClientMessageView::Selection { ids }),
    );
    let point = event_actions(
        state,
        room,
        sender,
        WsEventView::Message(ClientMessageView::Cursor { x, y, basis }),
    );
    assert(select =~= seq![select[0]]);
    assert(point =~= seq![point[0]]);
    lemma_one_action(select[0]);
    lemma_one_action(point[0]);
    all_that_is_told_arrives(state, room, reader, broadcasts(select));
    all_that_is_told_arrives(state, room, reader, broadcasts(point));
}

/// A question is answered to the one who asks and to nobody else: a ping with a pong, nonsense with
/// the reason why it is none, and a ping of the socket with what came with it.
pub proof fn questions_are_answered(
    state: StateView,
    room: RoomView,
    conn: ConnectionView,
    reason: Seq<char>,
    data: Seq<u8>,
)
    ensures
        ({
            let ping = event_actions(
                state,
                room,
                conn,
                WsEventView::Message(ClientMessageView::Ping),
            );
            let bad = event_actions(state, room, conn, WsEventView::BadMessage(reason));
            &&& sent(ping) == seq![ServerMessageView::Pong]
            &&& broadcasts(ping) == Seq::<ServerMessageView>::empty()
            &&& sent(bad) == seq![
                ServerMessageView::Error { message: "invalid message: "@ + reason },
            ]
            &&& broadcasts(bad) == Seq::<ServerMessageView>::empty()
            &&& event_actions(state, room, conn, WsEventView::SocketPing(data)) == seq![
                WsActionView::SocketPong(data),
            ]
        }),
{
    let ping = event_actions(state, room, conn, WsEventView::Message(ClientMessageView::Ping));
    let bad = event_actions(state, room, conn, WsEventView::BadMessage(reason));
    assert(ping =~= seq![ping[0]]);
    assert(bad =~= seq![bad[0]]);
    lemma_one_action(ping[0]);
    lemma_one_action(bad[0]);
}

/// A connection ends exactly when its client is gone, cannot be reached, or the room is closed. Then,
/// and where a frame means nothing or some were lost, nothing is done.
pub proof fn connections_end_only_when_lost(
    state: StateView,
    room: RoomView,
    conn: ConnectionView,
    event: WsEventView,
)
    ensures
        goes_on(event) <==> event !is Closed && event !is ForwardFailed && event !is RoomClosed,
        event_actions(state, room, conn, event).len() == 0 <==> (event is Closed
            || event is ForwardFailed || event is RoomClosed || event is Lagged
            || event is OtherFrame),
{
}

/// Whoever may connect is let in to the file that is asked for: by its path, whatever the name in
/// the address, or by the name.
pub proof fn members_are_let_in(
    state: StateView,
    c: CredentialsView,
    username: Seq<char>,
    path: Seq<char>,
    name: Seq<char>,
)
    requires
        auth::authorized(state, c) == Some(username),
        paths::clean(path),
        paths::plain_name(name),
    ensures
        ws_admitted(state, c, Some(path), name) == Ok::<(Seq<char>, Seq<char>), ReplyView>(
            (username, path),
        ),
        ws_admitted(state, c, None, name) == Ok::<(Seq<char>, Seq<char>), ReplyView>(
            (username, name),
        ),
{
    paths::lemma_clean_ends(path);
    text::lemma_trimmed_fixed(path, text::Class::Only('/'));
}

/// Whoever connects gets the document as it stands and then the list of all others that are in the room,
/// each with its name and colour, and every other client hears of it, with the name and its colour.
pub proof fn newcomers_are_introduced(
    state: StateView,
    room: RoomView,
    conn: ConnectionView,
    users: Seq<PresenceUser>,
    member: ConnectionView,
    held: (u64, Seq<char>),
    other: Seq<char>,
)
    requires
        room::others(room.joined(conn.username).members, conn.username, users),
    ensures
        ({
            let actions = open_actions(room, conn, users);
            let got = sent(actions);
            &&& received(held, got) == (room.version, room.content)
            &&& got.len() == 2
            &&& got[1] matches ServerMessageView::PresenceSnapshot { users: listed }
            &&& listed == messages::users_view(users)
            &&& other != conn.username && room.members.contains_key(other) ==> exists|i: int|
                0 <= i < users.len() && (#[trigger] users[i]).username@ == other && users[i].color@
                    == room.members[other]
            &&& delivered(state, room, member, broadcasts(actions)) == seq![
                ServerMessageView::PresenceJoin {
                    username: conn.username,
                    color: color::color_of(conn.username),
                },
            ]
        }),
{
    let actions = open_actions(room, conn, users);
    let first = seq![actions[0], actions[1]];
    let one_first = seq![actions[0]];
    assert(actions.drop_last() =~= first);
    assert(first.drop_last() =~= one_first);
    lemma_one_action(actions[0]);
    lemma_one_action(actions[2]);
    assert(sent(one_first) == seq![init_message(room, conn.id)]);
    assert(sent(first) =~= seq![
        init_message(room, conn.id),
        ServerMessageView::PresenceSnapshot { users: messages::users_view(users) },
    ]);
    assert(sent(actions) == sent(first));
    assert(sent(first).drop_last() =~= seq![init_message(room, conn.id)]);
    first_message_brings_the_document(room, conn.id, held);
    assert(broadcasts(one_first) =~= Seq::<ServerMessageView>::empty());
    assert(broadcasts(first) =~= Seq::<ServerMessageView>::empty());
    assert(broadcasts(actions) =~= broadcasts(seq![actions[2]]));
    all_that_is_told_arrives(state, room, member, broadcasts(actions));
    let members = room.joined(conn.username).members;
    if other != conn.username && room.members.contains_key(other) {
        assert(members.contains_key(other));
        room::others_are_complete(members, conn.username, users, other);
    }
}

/// Whoever leaves is taken leave of: every other client hears of it, and nothing else is done.
pub proof fn leavers_are_announced(
    state: StateView,
    room: RoomView,
    conn: ConnectionView,
    member: ConnectionView,
)
    ensures
        close_actions(conn).len() == 1,
        delivered(state, room, member, broadcasts(close_actions(conn))) == seq![
            ServerMessageView::PresenceLeave { username: conn.username },
        ],
{
    let actions = close_actions(conn);
    assert(actions =~= seq![actions[0]]);
    lemma_one_action(actions[0]);
    all_that_is_told_arrives(state, room, member, broadcasts(actions));
}

/// Where a file cannot be loaded the client is told so and let go.
pub proof fn failed_loads_are_told()
    ensures
        sent(failed_actions()) == seq![
            ServerMessageView::Error { message: "failed to load file"@ },
        ],
        failed_actions().last() is Close,
        broadcasts(failed_actions()) == Seq::<ServerMessageView>::empty(),
{
    let actions = failed_actions();
    let first = seq![actions[0]];
    assert(actions.drop_last() =~= first);
    lemma_one_action(actions[0]);
}

} // verus!
