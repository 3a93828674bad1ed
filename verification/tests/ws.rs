use drawio_collab_server::auth::Credentials;
use drawio_collab_server::color::color_for_username;
use drawio_collab_server::http::Reply;
use drawio_collab_server::messages;
use drawio_collab_server::messages::{ClientWsMessage, ServerWsMessage};
use drawio_collab_server::room::Room;
use drawio_collab_server::state::AppState;
use drawio_collab_server::ws;
use drawio_collab_server::ws::{Connection, WsAction, WsEvent};

fn server() -> AppState {
    AppState::new("data".to_string(), "secret".to_string(), "admin".to_string(), false)
}

fn ann() -> Connection {
    Connection { username: "Ann".to_string(), file_key: "d/a".to_string(), id: "c1".to_string() }
}

fn turn(event: WsEvent) -> (Vec<WsAction>, bool) {
    ws::handle_ws(&mut server(), &mut Room::new("".to_string()), &ann(), event, 0)
}

#[test]
fn connections_are_admitted() {
    let s = server();
    let stranger = Credentials { sid: None, authorization: None, token: None };
    let friend = Credentials { sid: None, authorization: None, token: Some("secret".to_string()) };
    let r = ws::ws_handler(&s, &stranger, None, "a");
    assert!(matches!(r, Err(Reply::Text(401, t)) if t == "login required"));
    let r = ws::ws_handler(&s, &friend, None, "a%2Fb");
    assert!(matches!(r, Err(Reply::Text(400, t)) if t == "invalid file name"));
    let r = ws::ws_handler(&s, &friend, None, "..");
    assert!(matches!(r, Err(Reply::Text(400, t)) if t == "invalid file name"));
    let r = ws::ws_handler(&s, &friend, Some("..".to_string()), "a");
    assert!(matches!(r, Err(Reply::Text(400, t)) if t == "invalid path"));
    let r = ws::ws_handler(&s, &friend, Some("x/y".to_string()), "a%2Fb");
    assert!(matches!(r, Ok((u, k)) if u == "token" && k == "x/y"));
    let r = ws::ws_handler(&s, &friend, None, "a%2Edrawio");
    assert!(matches!(r, Ok((_, k)) if k == "a.drawio"));
}

#[test]
fn failing_to_load_is_told() {
    let actions = ws::ws_failed();
    assert_eq!(actions.len(), 2);
    assert!(matches!(&actions[0],
        WsAction::Send(ServerWsMessage::Error { message }) if message == "failed to load file"));
    assert!(matches!(&actions[1], WsAction::Close));
}

#[test]
fn opening_tells_all() {
    let mut room = Room::new("doc".to_string());
    room.replace("doc2".to_string());
    room.join("Bob");
    let (conn, actions) = ws::ws_connect(&mut room, "Ann".to_string(), "k".to_string());
    assert_eq!(conn.id.len(), 36);
    assert_eq!(actions.len(), 3);
    assert!(matches!(&actions[0],
        WsAction::Send(ServerWsMessage::Init { version: 1, content, your_id })
            if content == "doc2" && *your_id == conn.id));
    match &actions[1] {
        WsAction::Send(ServerWsMessage::PresenceSnapshot { users }) => {
            assert_eq!(users.len(), 1);
            assert_eq!(users[0].username, "Bob");
            assert_eq!(users[0].color, color_for_username("Bob"));
        }
        _ => panic!(),
    }
    assert!(matches!(&actions[2],
        WsAction::Broadcast(ServerWsMessage::PresenceJoin { username, color })
            if username == "Ann" && *color == color_for_username("Ann")));
    assert_eq!(room.others("Bob").len(), 1);
}

#[test]
fn closing_undoes_opening() {
    let mut room = Room::new("doc".to_string());
    ws::ws_open(&mut room, &ann());
    assert_eq!(room.others("x").len(), 1);
    let actions = ws::ws_close(&mut room, &ann());
    assert!(room.others("x").is_empty());
    assert_eq!(actions.len(), 1);
    assert!(matches!(&actions[0],
        WsAction::Broadcast(ServerWsMessage::PresenceLeave { username }) if username == "Ann"));
}

#[test]
fn replacing_reaches_room_disk_and_members() {
    let mut s = server();
    let mut room = Room::new("old".to_string());
    for (claimed, version) in [(0, 1), (0, 2), (77, 3)] {
        let message = ClientWsMessage::Replace { version: claimed, content: "new".to_string() };
        let (actions, on) = ws::handle_ws(&mut s, &mut room, &ann(), WsEvent::Message(message), 9);
        assert!(on);
        assert_eq!((room.content(), room.version()), ("new", version));
        assert_eq!(s.writing_since("d/a"), Some(9));
        assert_eq!(actions.len(), 2);
        assert!(matches!(&actions[0],
            WsAction::Persist { path, content } if path == "data/d/a" && content == "new"));
        match &actions[1] {
            WsAction::Broadcast(ServerWsMessage::Update { version: v, content, username, sender_id }) => {
                assert_eq!(*v, version);
                assert_eq!((content.as_str(), username.as_str(), sender_id.as_str()), ("new", "Ann", "c1"));
            }
            _ => panic!(),
        }
    }
}

#[test]
fn other_messages_leave_the_document() {
    let mut s = server();
    let mut room = Room::new("old".to_string());
    for event in [
        WsEvent::Message(ClientWsMessage::Ping),
        WsEvent::Message(ClientWsMessage::Selection { ids: vec![] }),
        WsEvent::BadMessage("x".to_string()),
        WsEvent::Lagged,
        WsEvent::Closed,
    ] {
        let (actions, _) = ws::handle_ws(&mut s, &mut room, &ann(), event, 0);
        assert!(!actions.iter().any(|a| matches!(a, WsAction::Persist { .. })));
        assert_eq!((room.content(), room.version()), ("old", 0));
        assert_eq!(s.writing_since("d/a"), None);
    }
}

#[test]
fn pings_are_answered() {
    let (a, on) = turn(WsEvent::Message(ClientWsMessage::Ping));
    assert!(on && a.len() == 1 && matches!(a[0], WsAction::Send(ServerWsMessage::Pong)));
    let (a, on) = turn(WsEvent::SocketPing(vec![1, 2]));
    assert!(on && matches!(&a[0], WsAction::SocketPong(d) if *d == vec![1, 2]));
}

#[test]
fn selections_are_passed_on() {
    let (a, on) = turn(WsEvent::Message(ClientWsMessage::Selection {
        ids: vec!["1".to_string(), "2".to_string()],
    }));
    assert!(on && a.len() == 1);
    assert!(matches!(&a[0],
        WsAction::Broadcast(ServerWsMessage::Selection { username, ids, sender_id })
            if username == "Ann" && *ids == vec!["1", "2"] && sender_id == "c1"));
}

#[test]
fn cursors_are_kept_inside() {
    let event = WsEvent::Message(ClientWsMessage::Cursor {
        x: (-3.5f32).to_bits(),
        y: 0.25f32.to_bits(),
        basis: Some("stage".to_string()),
    });
    let (a, on) = turn(event);
    assert!(on && a.len() == 1);
    match &a[0] {
        WsAction::Broadcast(ServerWsMessage::Cursor { username, x, y, basis, sender_id }) => {
            assert_eq!(f32::from_bits(*x), 0.0);
            assert_eq!(f32::from_bits(*y), 0.25);
            assert_eq!(username, "Ann");
            assert_eq!(basis.as_deref(), Some("stage"));
            assert_eq!(sender_id, "c1");
        }
        _ => panic!(),
    }
}

#[test]
fn clamping_agrees_with_floating_point() {
    let odd = [
        0.0f32, -0.0, 1.0, 0.5, -1.0, 2.0, f32::MIN, f32::MAX, f32::INFINITY, f32::NEG_INFINITY,
        f32::MIN_POSITIVE, -f32::MIN_POSITIVE, 1.0000001, 0.99999994, f32::NAN, -f32::NAN,
        f32::from_bits(1), f32::from_bits(0x8000_0001),
    ];
    for f in odd {
        assert_eq!(messages::clamp_unit(f.to_bits()), f.clamp(0.0, 1.0).to_bits(), "{f}");
    }
    let mut bits = 0u32;
    for _ in 0..100_000 {
        let f = f32::from_bits(bits);
        assert_eq!(messages::clamp_unit(bits), f.clamp(0.0, 1.0).to_bits());
        bits = bits.wrapping_add(42_949_673);
    }
}

#[test]
fn nonsense_is_answered() {
    let (a, on) = turn(WsEvent::BadMessage("expected value".to_string()));
    assert!(on && a.len() == 1);
    assert!(matches!(&a[0], WsAction::Send(ServerWsMessage::Error { message })
        if message == "invalid message: expected value"));
}

#[test]
fn room_messages_are_forwarded() {
    let (a, on) = turn(WsEvent::RoomMessage(ServerWsMessage::Pong));
    assert!(on && a.len() == 1);
    assert!(matches!(&a[0], WsAction::Forward(ServerWsMessage::Pong)));
}

#[test]
fn some_events_end_the_connection() {
    for (event, goes_on) in [
        (WsEvent::Closed, false),
        (WsEvent::ForwardFailed, false),
        (WsEvent::RoomClosed, false),
        (WsEvent::Lagged, true),
        (WsEvent::OtherFrame, true),
    ] {
        let (a, on) = turn(event);
        assert!(a.is_empty());
        assert_eq!(on, goes_on);
    }
}

#[test]
fn clients_follow_their_room() {
    let mut s = server();
    let mut room = Room::new("start".to_string());
    let bob = Connection { username: "Bob".to_string(), file_key: "d/a".to_string(), id: "c2".to_string() };
    let (mut version, mut content) = (room.version(), room.content().to_string());
    let replace = |t: &str| {
        WsEvent::Message(ClientWsMessage::Replace { version: 0, content: t.to_string() })
    };
    let turns = vec![
        (ann(), replace("one")),
        (bob, replace("two")),
        (ann(), WsEvent::Message(ClientWsMessage::Ping)),
        (ann(), replace("three")),
        (ann(), WsEvent::Lagged),
    ];
    for (conn, event) in turns {
        let (actions, _) = ws::handle_ws(&mut s, &mut room, &conn, event, 0);
        for action in actions {
            if let WsAction::Broadcast(ServerWsMessage::Update { version: v, content: c, .. }) = action {
                version = v;
                content = c;
            }
        }
        assert_eq!((version, content.as_str()), (room.version(), room.content()));
    }
    assert_eq!((version, content.as_str()), (3, "three"));
}
