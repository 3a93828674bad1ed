use drawio_collab_server::messages::ServerWsMessage;
use drawio_collab_server::room::Room;
use drawio_collab_server::state::AppState;
use drawio_collab_server::watcher;
use drawio_collab_server::watcher::{
    Debounce, ReadOutcome, Reload, WatchKind, WatchStep, WatchedPath,
};

const SECOND: u64 = 1_000_000_000;

fn server() -> AppState {
    AppState::new("/srv/data".to_string(), "secret".to_string(), "admin".to_string(), true)
}

fn at(below: &str) -> WatchedPath {
    WatchedPath {
        shown: format!("/srv/data/{below}"),
        exists: true,
        is_file: true,
        below: Some(below.to_string()),
    }
}

fn reload(step: WatchStep) -> (String, Option<u64>, u64, u64) {
    match step {
        WatchStep::Reload { key, cancel, task, delay_ms } => (key, cancel, task, delay_ms),
        WatchStep::Ignore => panic!("ignored"),
    }
}

fn ignored(step: WatchStep) -> bool {
    matches!(step, WatchStep::Ignore)
}

#[test]
fn changes_are_scheduled() {
    let s = server();
    let mut d = Debounce::new();
    assert!(d.can_wait());
    for (i, kind) in [WatchKind::Create, WatchKind::Modify, WatchKind::Any].into_iter().enumerate() {
        let key = format!("{i}.drawio");
        let r = reload(d.watch_files(&s, kind, &at(&key), 0));
        assert_eq!(r, (key, None, i as u64, 500));
    }
}

#[test]
fn other_changes_are_ignored() {
    let s = server();
    let mut d = Debounce::new();
    assert!(ignored(d.watch_files(&s, WatchKind::Other, &at("a.drawio"), 0)));
    assert!(ignored(d.watch_files(&s, WatchKind::Modify, &at("a.txt"), 0)));
    let mut p = at("a.drawio");
    p.exists = false;
    assert!(ignored(d.watch_files(&s, WatchKind::Modify, &p, 0)));
    let mut p = at("a.drawio");
    p.is_file = false;
    assert!(ignored(d.watch_files(&s, WatchKind::Modify, &p, 0)));
    let mut p = at("a.drawio");
    p.below = None;
    assert!(ignored(d.watch_files(&s, WatchKind::Modify, &p, 0)));
}

#[test]
fn later_changes_cancel_earlier_ones() {
    let s = server();
    let mut d = Debounce::new();
    let (_, _, first, _) = reload(d.watch_files(&s, WatchKind::Modify, &at("a.drawio"), 0));
    let (_, cancel, other, _) = reload(d.watch_files(&s, WatchKind::Modify, &at("b.drawio"), 1));
    assert_eq!(cancel, None);
    let (_, cancel, second, _) = reload(d.watch_files(&s, WatchKind::Modify, &at("a.drawio"), 2));
    assert_eq!(cancel, Some(first));
    assert!(second != first && second != other);
    let (_, cancel, _, _) = reload(d.watch_files(&s, WatchKind::Modify, &at("b.drawio"), 3));
    assert_eq!(cancel, Some(other));
}

#[test]
fn own_writes_do_not_count() {
    let mut s = server();
    let mut d = Debounce::new();
    s.mark_file_writing("x/a.drawio", 10 * SECOND);
    assert!(ignored(d.watch_files(&s, WatchKind::Modify, &at("x\\a.drawio"), 12 * SECOND - 1)));
    assert!(ignored(d.watch_files(&s, WatchKind::Modify, &at("x/a.drawio"), 9 * SECOND)));
    let r = reload(d.watch_files(&s, WatchKind::Modify, &at("x/a.drawio"), 12 * SECOND));
    assert_eq!(r.0, "x/a.drawio");
}

fn read(s: &str) -> ReadOutcome {
    ReadOutcome::Read(s.to_string())
}

#[test]
fn vanished_files_close_their_rooms() {
    let mut s = server();
    s.open_room("a.drawio");
    let r = watcher::reload_file_from_disk(&mut s, "a.drawio", "/srv/data/a.drawio", ReadOutcome::Missing);
    assert!(matches!(r, Reload::Closed(Some(0))));
    assert_eq!(s.room("a.drawio"), None);
    let r = watcher::reload_file_from_disk(&mut s, "a.drawio", "/srv/data/a.drawio", ReadOutcome::Missing);
    assert!(matches!(r, Reload::Closed(None)));
}

#[test]
fn failing_to_read_is_told() {
    let mut s = server();
    let r = watcher::reload_file_from_disk(&mut s, "a", "/srv/data/a", ReadOutcome::Failed("no".to_string()));
    assert!(matches!(r, Reload::Failed(e) if e == "read error: no"));
}

#[test]
fn known_rooms_are_refreshed() {
    let mut s = server();
    s.open_room("a");
    let r = watcher::reload_file_from_disk(&mut s, "a", "/srv/data/a", read("new"));
    assert!(matches!(r, Reload::Refresh { id: 0, content } if content == "new"));
    assert_eq!(s.room("a"), Some(0));
}

#[test]
fn rooms_under_other_keys_are_found() {
    let mut s = server();
    s.open_room("b");
    s.open_room("x//a");
    let r = watcher::reload_file_from_disk(&mut s, "x/a", "/srv/data/x/a", read("new"));
    assert!(matches!(r, Reload::Refresh { id: 1, content } if content == "new"));
    assert_eq!((s.room("x/a"), s.room("x//a"), s.room("b")), (Some(1), None, Some(0)));
}

#[test]
fn unknown_files_get_rooms() {
    let mut s = server();
    s.open_room("b");
    match watcher::reload_file_from_disk(&mut s, "a", "/srv/data/a", read("new")) {
        Reload::Open { id, room } => {
            assert_eq!((id, room.content(), room.version()), (1, "new", 0));
        }
        _ => panic!(),
    }
    assert_eq!(s.room("a"), Some(1));
}

#[test]
fn rooms_are_refreshed_once() {
    let mut room = Room::new("old".to_string());
    match watcher::refresh_room(&mut room, "new".to_string()) {
        Some(ServerWsMessage::Update { version, content, username, sender_id }) => {
            assert_eq!(version, 1);
            assert_eq!(content, "new");
            assert_eq!((username.as_str(), sender_id.as_str()), ("external", "file_watcher"));
        }
        _ => panic!(),
    }
    assert!(watcher::refresh_room(&mut room, "new".to_string()).is_none());
    assert_eq!((room.content(), room.version()), ("new", 1));
}
