use drawio_collab_server::loading;
use drawio_collab_server::loading::{LoadAction, LoadEvent};
use drawio_collab_server::room::Room;
use drawio_collab_server::state::AppState;

fn server() -> AppState {
    AppState::new("data".to_string(), "secret".to_string(), "admin".to_string(), true)
}

#[test]
fn replacing_counts_versions() {
    let mut r = Room::new("a".to_string());
    assert_eq!((r.content(), r.version()), ("a", 0));
    assert_eq!(r.replace("b".to_string()), 1);
    assert_eq!(r.replace("b".to_string()), 2);
    assert_eq!((r.content(), r.version()), ("b", 2));
    r.set("c".to_string(), u64::MAX);
    assert_eq!(r.replace("d".to_string()), 0);
}

#[test]
fn members_come_and_go() {
    let mut r = Room::new("".to_string());
    let color = r.join("Ann");
    assert_eq!(color, drawio_collab_server::color::color_for_username("Ann"));
    r.join("Bob");
    r.join("Bob");
    let others = r.others("Ann");
    assert_eq!(others.len(), 1);
    assert_eq!(others[0].username, "Bob");
    let mut all: Vec<String> = r.others("Cy").into_iter().map(|u| u.username).collect();
    all.sort();
    assert_eq!(all, vec!["Ann", "Bob"]);
    r.leave("Bob");
    r.leave("nobody");
    assert!(r.others("Ann").is_empty());
    assert_eq!(r.others("Bob").len(), 1);
}

#[test]
fn missing_file_is_created_and_shared() {
    let mut s = server();
    assert!(s.can_open_room());
    let a = loading::ensure_room_loaded(&mut s, "a", LoadEvent::Begin);
    assert!(matches!(a, LoadAction::Look { path } if path == "data/a"));
    let a = loading::ensure_room_loaded(&mut s, "a", LoadEvent::Missing);
    assert!(matches!(a, LoadAction::Create { path } if path == "data/a"));
    match loading::ensure_room_loaded(&mut s, "a", LoadEvent::Created) {
        LoadAction::Open { id, room } => {
            assert_eq!(id, 0);
            assert_eq!((room.content(), room.version()), ("", 0));
        }
        _ => panic!(),
    }
    let a = loading::ensure_room_loaded(&mut s, "a", LoadEvent::Begin);
    assert!(matches!(a, LoadAction::Use(0)));
}

#[test]
fn found_file_fills_the_room() {
    let mut s = server();
    match loading::ensure_room_loaded(&mut s, "a", LoadEvent::Found(Some("text".to_string()))) {
        LoadAction::Open { room, .. } => assert_eq!(room.content(), "text"),
        _ => panic!(),
    }
    match loading::ensure_room_loaded(&mut s, "b", LoadEvent::Found(None)) {
        LoadAction::Open { id, room } => assert_eq!((id, room.content()), (1, "")),
        _ => panic!(),
    }
    assert_eq!((s.room("a"), s.room("b")), (Some(0), Some(1)));
}

#[test]
fn loading_fails_where_nothing_can_be_created() {
    let mut s = server();
    let a = loading::ensure_room_loaded(&mut s, "a", LoadEvent::CreateFailed);
    assert!(matches!(a, LoadAction::Fail));
    assert_eq!(s.room("a"), None);
}

#[test]
fn one_room_is_used_where_several_load() {
    let mut s = server();
    for _ in 0..3 {
        let a = loading::ensure_room_loaded(&mut s, "a", LoadEvent::Begin);
        assert!(matches!(a, LoadAction::Look { .. }));
    }
    let first = loading::ensure_room_loaded(&mut s, "a", LoadEvent::Created);
    assert!(matches!(first, LoadAction::Open { id: 0, .. }));
    for late in [LoadEvent::Created, LoadEvent::Found(None), LoadEvent::Found(Some("x".to_string()))] {
        assert!(matches!(loading::ensure_room_loaded(&mut s, "a", late), LoadAction::Use(0)));
        assert_eq!(s.room("a"), Some(0));
    }
    let other = loading::ensure_room_loaded(&mut s, "b", LoadEvent::Created);
    assert!(matches!(other, LoadAction::Open { id: 1, .. }));
}

#[test]
fn rooms_are_closed_and_moved() {
    let mut s = server();
    s.open_room("a");
    s.open_room("b");
    assert_eq!(s.rename_room("a", "b"), Some(1));
    assert_eq!(s.rename_room("a", "b"), None);
    assert_eq!(s.close_room("b"), Some(0));
    assert_eq!(s.close_room("b"), None);
}

#[test]
fn own_writings_are_forgotten_after_five_seconds() {
    let mut s = server();
    s.mark_file_writing("old", 1_000_000_000);
    s.mark_file_writing("new", 1_000_000_001);
    s.forget_old_writings(6_000_000_000);
    assert_eq!(s.writing_since("old"), None);
    assert_eq!(s.writing_since("new"), Some(1_000_000_001));
    s.mark_file_writing("new", 2);
    assert_eq!(s.writing_since("new"), Some(2));
}
