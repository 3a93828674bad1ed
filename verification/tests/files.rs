use drawio_collab_server::auth::Credentials;
use drawio_collab_server::files;
use drawio_collab_server::files::RenamePlan;
use drawio_collab_server::http::Reply;
use drawio_collab_server::room::Room;
use drawio_collab_server::state::AppState;

fn server(require_token: bool) -> AppState {
    AppState::new("data".to_string(), "secret".to_string(), "admin".to_string(), require_token)
}

fn stranger() -> Credentials {
    Credentials { sid: None, authorization: None, token: None }
}

fn friend() -> Credentials {
    Credentials { sid: None, authorization: None, token: Some("secret".to_string()) }
}

fn status(r: &Reply) -> u16 {
    match r {
        Reply::Status(code) => *code,
        Reply::Text(code, _) => *code,
        _ => 200,
    }
}

fn text(r: Reply) -> String {
    match r {
        Reply::Text(_, t) => t,
        _ => panic!("no text"),
    }
}

fn refusal<T>(r: Result<T, Reply>) -> Reply {
    match r {
        Err(reply) => reply,
        Ok(_) => panic!("not refused"),
    }
}

fn taken<T>(r: Result<T, Reply>) -> T {
    match r {
        Ok(t) => t,
        Err(_) => panic!("refused"),
    }
}

fn some(s: &str) -> Option<String> {
    Some(s.to_string())
}

#[test]
fn names_in_addresses_are_decoded() {
    assert_eq!(files::decode_name("a%2Eb"), "a.b");
    assert_eq!(files::decode_name("plain-name.drawio"), "plain-name.drawio");
    assert_eq!(files::decode_name("%zz%4"), "%zz%4");
    assert_eq!(files::decode_name("%C3%A9"), "\u{e9}");
    assert_eq!(files::decode_name("%ff"), "\u{fffd}");
}

#[test]
fn reading_by_name() {
    let s = server(true);
    assert_eq!(status(&refusal(files::get_file(&s, &stranger(), "a"))), 401);
    assert_eq!(taken(files::get_file(&s, &friend(), "a%2Edrawio")), "a.drawio");
    let r = refusal(files::get_file(&s, &friend(), "a%2Fb"));
    assert_eq!(status(&r), 400);
    assert_eq!(text(r), "invalid file name");
    assert_eq!(taken(files::get_file(&server(false), &stranger(), "a")), "a");
    assert_eq!(taken(files::get_raw_file(&s, &friend(), "x.drawio")), "x.drawio");
    assert_eq!(status(&refusal(files::get_raw_file(&s, &stranger(), "x"))), 401);
}

#[test]
fn loaded_files_are_answered() {
    let mut room = Room::new("one".to_string());
    room.replace("two".to_string());
    match files::get_file_loaded("a".to_string(), Some(&room)) {
        Reply::File { name, version, content } => {
            assert_eq!((name.as_str(), version, content.as_str()), ("a", 1, "two"));
        }
        _ => panic!(),
    }
    assert_eq!(status(&files::get_file_loaded("a".to_string(), None)), 500);
    assert!(matches!(files::get_raw_file_loaded(Some(&room)), Reply::Xml(x) if x == "two"));
    assert_eq!(status(&files::get_raw_file_loaded(None)), 500);
    assert!(matches!(
        files::api_get_file_loaded("a".to_string(), Some(&room)),
        Reply::File { version: 1, .. }
    ));
    assert_eq!(status(&files::api_get_file_loaded("a".to_string(), None)), 404);
}

#[test]
fn paths_of_queries() {
    let s = server(false);
    for asked in [files::api_get_file, files::api_put_file] {
        assert_eq!(status(&refusal(asked(&s, &stranger(), some("a")))), 401);
        assert_eq!(text(refusal(asked(&s, &friend(), None))), "missing path");
        assert_eq!(text(refusal(asked(&s, &friend(), some("../a")))), "invalid path");
        assert_eq!(taken(asked(&s, &friend(), some("/a/b/"))), "a/b");
    }
    for asked in [files::api_download, files::api_delete_file] {
        assert_eq!(status(&refusal(asked(&s, &stranger(), some("a")))), 401);
        assert_eq!(text(refusal(asked(&s, &friend(), None))), "missing path");
        assert_eq!(text(refusal(asked(&s, &friend(), some("a\\b")))), "invalid path");
        let (key, at) = taken(asked(&s, &friend(), some("/a/b.drawio")));
        assert_eq!((key.as_str(), at.as_str()), ("a/b.drawio", "data/a/b.drawio"));
    }
}

#[test]
fn downloads_are_named() {
    match files::api_download_read("dir/my file.drawio", Some(vec![60])) {
        Reply::Attachment { disposition, bytes } => {
            assert_eq!(disposition, "attachment; filename=\"my file.drawio\"");
            assert_eq!(bytes, vec![60]);
        }
        _ => panic!(),
    }
    assert_eq!(status(&files::api_download_read("a", None)), 404);
}

#[test]
fn writing_needs_a_user() {
    let s = server(false);
    assert_eq!(status(&refusal(files::put_file(&s, &stranger(), "a"))), 401);
    assert_eq!(taken(files::put_file(&s, &friend(), "a")), "a");
    assert_eq!(text(refusal(files::put_file(&s, &friend(), "a b"))), "invalid file name");
    for name in ["..", ".", "%2e%2E", "%2E"] {
        assert_eq!(text(refusal(files::put_file(&s, &friend(), name))), "invalid file name");
        assert_eq!(text(refusal(files::get_file(&s, &friend(), name))), "invalid file name");
        assert_eq!(text(refusal(files::delete_file(&s, &friend(), name).map(|p| p.0))), "invalid file name");
    }
}

#[test]
fn stored_document_is_read_back() {
    let mut s = server(true);
    let mut room = Room::new("".to_string());
    assert_eq!(files::store(&mut s, &mut room, "a", "new", 7), 1);
    assert_eq!(room.content(), "new");
    assert_eq!(room.version(), 1);
    assert_eq!(s.writing_since("a"), Some(7));
    assert_eq!(s.writing_since("b"), None);
    match files::get_file_loaded("a".to_string(), Some(&room)) {
        Reply::File { name, version, content } => {
            assert_eq!((name.as_str(), version, content.as_str()), ("a", 1, "new"));
        }
        _ => panic!(),
    }
}

#[test]
fn files_without_rooms_are_marked() {
    let mut s = server(true);
    assert_eq!(files::store_loaded(&mut s, None, "a", "new", 7), 0);
    assert_eq!(s.writing_since("a"), Some(7));
    let mut room = Room::new("".to_string());
    assert_eq!(files::store_loaded(&mut s, Some(&mut room), "b", "new", 8), 1);
    assert_eq!((room.content(), room.version()), ("new", 1));
    assert_eq!(s.writing_since("b"), Some(8));
}

#[test]
fn commits_are_made_on_request() {
    let s = server(true);
    let (reply, request) =
        files::file_written(&s, &friend(), true, some("true"), some("why"), "a", "text", 4);
    assert_eq!(status(&reply), 204);
    let request = request.unwrap();
    assert_eq!(request.file_path, "a");
    assert_eq!(request.content, "text");
    assert_eq!(request.username, "token");
    assert_eq!(request.version, 4);
    assert_eq!(request.message, some("why"));
    assert!(request.force);
    let (_, request) = files::file_written(&s, &stranger(), true, some("true"), None, "a", "", 0);
    assert_eq!(request.unwrap().username, "unknown");
    for commit in [None, some("TRUE"), some("1")] {
        let (reply, request) = files::file_written(&s, &friend(), true, commit, None, "a", "", 0);
        assert_eq!(status(&reply), 204);
        assert!(request.is_none());
    }
    let (reply, request) = files::file_written(&s, &friend(), false, some("true"), None, "a", "", 0);
    assert_eq!(status(&reply), 500);
    assert!(request.is_none());
}

#[test]
fn removed_files_lose_their_rooms() {
    let mut s = server(true);
    let (key, at) = taken(files::delete_file(&s, &friend(), "a.drawio"));
    assert_eq!((key.as_str(), at.as_str()), ("a.drawio", "data/a.drawio"));
    assert_eq!(status(&refusal(files::delete_file(&s, &stranger(), "a"))), 401);
    s.open_room("a.drawio");
    let (reply, closed) = files::file_deleted(&mut s, "a.drawio", false);
    assert_eq!((status(&reply), closed), (500, None));
    assert_eq!(s.room("a.drawio"), Some(0));
    let (reply, closed) = files::file_deleted(&mut s, "a.drawio", true);
    assert_eq!((status(&reply), closed), (204, Some(0)));
    assert_eq!(s.room("a.drawio"), None);
}

#[test]
fn renaming_checks_both_names() {
    let s = server(true);
    let r = |name: &str, new: &str| files::rename_file(&s, &friend(), name, new);
    assert_eq!(status(&refusal(files::rename_file(&s, &stranger(), "a", "b.drawio"))), 401);
    assert_eq!(text(refusal(r("a%2Fb", "b.drawio"))), "invalid old file name");
    assert_eq!(text(refusal(r("..", "b.drawio"))), "invalid old file name");
    assert_eq!(text(refusal(r("a", "x/b.drawio"))), "invalid new file name");
    assert_eq!(text(refusal(r("a", ".."))), "invalid new file name");
    assert_eq!(text(refusal(r("a", "b"))), "new name must end with .drawio");
    let plan = taken(r("a.drawio", "b.drawio"));
    assert_eq!(plan.from, "a.drawio");
    assert_eq!(plan.to, "b.drawio");
    assert_eq!(plan.from_path, "data/a.drawio");
    assert_eq!(plan.to_path, "data/b.drawio");
}

#[test]
fn moving_checks_both_paths() {
    let s = server(true);
    let r = |from: &str, to: &str| files::api_rename(&s, &friend(), from, to);
    assert_eq!(status(&refusal(files::api_rename(&s, &stranger(), "a", "b"))), 401);
    assert_eq!(text(refusal(r("..", "b"))), "invalid from");
    assert_eq!(text(refusal(r("a", "b//c"))), "invalid to");
    let plan = taken(r("/a/x", "b/y"));
    assert_eq!((plan.from.as_str(), plan.to.as_str()), ("a/x", "b/y"));
    assert_eq!(plan.to_path, "data/b/y");
    assert_eq!(
        text(files::api_rename_checked(&plan, Some(true)).unwrap()),
        "new file name must end with .drawio"
    );
    assert!(files::api_rename_checked(&plan, Some(false)).is_none());
    assert!(files::api_rename_checked(&plan, None).is_none());
    let diagram = taken(r("a", "b.drawio"));
    assert!(files::api_rename_checked(&diagram, Some(true)).is_none());
}

fn plan(from: &str, to: &str) -> RenamePlan {
    RenamePlan {
        from: from.to_string(),
        to: to.to_string(),
        from_path: "".to_string(),
        to_path: "".to_string(),
    }
}

#[test]
fn rooms_move_with_their_files() {
    let mut s = server(true);
    s.open_room("a");
    s.open_room("b");
    let (reply, gone) = files::rename_file_done(&mut s, plan("a", "c"), false);
    assert_eq!((status(&reply), gone), (500, None));
    assert_eq!(s.room("a"), Some(0));
    let (reply, gone) = files::rename_file_done(&mut s, plan("a", "c"), true);
    assert!(matches!(reply, Reply::Name(n) if n == "c"));
    assert_eq!(gone, None);
    assert_eq!((s.room("a"), s.room("b"), s.room("c")), (None, Some(1), Some(0)));
    let (reply, gone) = files::api_rename_done(&mut s, plan("c", "b"), true);
    assert!(matches!(reply, Reply::Path(p) if p == "b"));
    assert_eq!(gone, Some(1));
    assert_eq!((s.room("b"), s.room("c")), (Some(0), None));
    files::api_rename_done(&mut s, plan("x", "b"), true);
    assert_eq!(s.room("b"), Some(0));
    files::api_rename_done(&mut s, plan("b", "b"), true);
    assert_eq!(s.room("b"), Some(0));
    assert_eq!(status(&files::api_rename_done(&mut s, plan("b", "z"), false).0), 500);
}

#[test]
fn directories_are_made() {
    let s = server(true);
    assert_eq!(status(&refusal(files::api_mkdir(&s, &stranger(), "a"))), 401);
    assert_eq!(text(refusal(files::api_mkdir(&s, &friend(), ""))), "invalid path");
    assert_eq!(taken(files::api_mkdir(&s, &friend(), "a/b")), "data/a/b");
    assert_eq!(status(&files::api_mkdir_done(true)), 204);
    assert_eq!(status(&files::api_mkdir_done(false)), 500);
}
