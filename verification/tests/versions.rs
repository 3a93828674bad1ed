use drawio_collab_server::auth::Credentials;
use drawio_collab_server::git_versioning::VersionInfo;
use drawio_collab_server::http::Reply;
use drawio_collab_server::outside::Timestamp;
use drawio_collab_server::room::Room;
use drawio_collab_server::state::AppState;
use drawio_collab_server::versions;

fn server() -> AppState {
    let mut s = AppState::new("data".to_string(), "secret".to_string(), "admin".to_string(), false);
    drawio_collab_server::auth::begin_session(&mut s, "sid1".to_string(), "Ann");
    s
}

fn stranger() -> Credentials {
    Credentials { sid: None, authorization: None, token: None }
}

fn ann() -> Credentials {
    Credentials { sid: Some("sid1".to_string()), authorization: None, token: None }
}

fn info(version: u64) -> VersionInfo {
    VersionInfo {
        commit_oid: "o".to_string(),
        version,
        timestamp: Timestamp { seconds: 0, nanoseconds: 0 },
        username: "Ann".to_string(),
        message: "".to_string(),
        file_path: "a".to_string(),
    }
}

fn some(s: &str) -> Option<String> {
    Some(s.to_string())
}

fn failure(r: Reply) -> String {
    match r {
        Reply::Text(500, t) => t,
        _ => panic!(),
    }
}

#[test]
fn histories_are_listed() {
    let s = server();
    let asked = |c: &Credentials, p| versions::api_list_versions(&s, c, p);
    assert!(matches!(asked(&stranger(), some("a")), Err(Reply::Status(401))));
    assert!(matches!(asked(&ann(), None), Err(Reply::Text(400, t)) if t == "missing path"));
    assert!(matches!(asked(&ann(), some("..")), Err(Reply::Text(400, t)) if t == "invalid path"));
    assert!(matches!(asked(&ann(), some("/a")), Ok(k) if k == "a"));
    let r = versions::api_list_versions_done("a".to_string(), Ok(vec![info(1)]));
    assert!(matches!(r, Reply::Versions { file, versions } if file == "a" && versions.len() == 1));
    let r = versions::api_list_versions_done("a".to_string(), Err("x".to_string()));
    assert_eq!(failure(r), "Failed to list versions: x");
}

#[test]
fn restoring_and_checkpoints_need_a_user_and_a_path() {
    let s = server();
    for asked in [versions::api_restore_version, versions::api_checkpoint] {
        assert!(matches!(asked(&s, &stranger(), some("a")), Err(Reply::Status(401))));
        assert!(matches!(asked(&s, &ann(), None), Err(Reply::Text(400, t)) if t == "missing path"));
        assert!(matches!(asked(&s, &ann(), some("")), Err(Reply::Text(400, t)) if t == "invalid path"));
        assert!(matches!(asked(&s, &ann(), some("a")), Ok((u, k)) if u == "Ann" && k == "a"));
    }
}

#[test]
fn restored_documents_get_the_next_version() {
    let s = server();
    let mut room = Room::new("new".to_string());
    room.replace("newer".to_string());
    assert_eq!(versions::restored_version(None), 1);
    let version = versions::restored_version(Some(&room));
    assert_eq!(version, 2);
    let restored = versions::api_restore_made(Ok(info(2)));
    let Ok(made) = restored else { panic!() };
    let (reply, write) =
        versions::api_restore_done(&s, Some(&mut room), "d/a", made, some("old"), version);
    assert!(matches!(reply, Reply::Version(v) if v.version == 2));
    assert_eq!(write, Some(("old".to_string(), "data/d/a".to_string())));
    assert_eq!((room.content(), room.version()), ("old", 2));
    let (_, write) = versions::api_restore_done(&s, Some(&mut room), "d/a", info(7), None, 7);
    assert_eq!(write, Some(("".to_string(), "data/d/a".to_string())));
    assert_eq!((room.content(), room.version()), ("", 7));
    let (reply, write) = versions::api_restore_done(&s, None, "d/a", info(1), some("old"), 1);
    assert!(matches!(reply, Reply::Version(v) if v.version == 1));
    assert_eq!(write, None);
}

#[test]
fn failed_restorations_are_answered() {
    let r = versions::api_restore_made(Err("Invalid commit OID".to_string()));
    let Err(reply) = r else { panic!() };
    assert_eq!(failure(reply), "Failed to restore version: Invalid commit OID");
}

#[test]
fn checkpoints_keep_the_document() {
    let room = Room::new("now".to_string());
    let r = versions::checkpoint_request(Some(&room), "Ann".to_string(), "a".to_string(), some("why"));
    let Ok(req) = r else { panic!() };
    assert_eq!((req.content.as_str(), req.version, req.force), ("now", 0, true));
    assert_eq!((req.username.as_str(), req.file_path.as_str()), ("Ann", "a"));
    assert_eq!(req.message, some("why"));
    let r = versions::checkpoint_request(None, "Ann".to_string(), "a".to_string(), None);
    assert!(matches!(r, Err(Reply::Text(404, t)) if t == "File not found"));
    assert!(matches!(versions::api_checkpoint_done(Ok(Some(info(3)))), Reply::Version(v) if v.version == 3));
    assert_eq!(failure(versions::api_checkpoint_done(Ok(None))), "Failed to create checkpoint");
    assert_eq!(failure(versions::api_checkpoint_done(Err("x".to_string()))), "Failed to create checkpoint: x");
}

#[test]
fn remotes_are_answered() {
    let s = server();
    assert!(matches!(versions::api_set_remote(&s, &stranger()), Some(Reply::Status(401))));
    assert!(versions::api_set_remote(&s, &ann()).is_none());
    let by_query = Credentials { token: some("admin"), ..stranger() };
    let by_header = Credentials { authorization: some("token admin"), ..stranger() };
    assert!(versions::api_set_remote(&s, &by_query).is_none());
    assert!(versions::api_set_remote(&s, &by_header).is_none());
    let wrong = Credentials { token: some("admins"), ..stranger() };
    assert!(matches!(versions::api_set_remote(&s, &wrong), Some(Reply::Status(401))));
    let r = versions::api_list_versions(&s, &by_query, some("a"));
    assert!(matches!(r, Err(Reply::Status(401))));
    let r = versions::api_set_remote_done("o".to_string(), "u".to_string(), Ok(()));
    assert!(matches!(r, Reply::RemoteSet { remote_name, url } if remote_name == "o" && url == "u"));
    let r = versions::api_set_remote_done("o".to_string(), "u".to_string(), Err("x".to_string()));
    assert_eq!(failure(r), "Failed to set remote: x");
    let r = versions::api_push_to_remote(&s, &stranger(), None, None);
    assert!(matches!(r, Err(Reply::Status(401))));
    let r = versions::api_push_to_remote(&s, &wrong, None, None);
    assert!(matches!(r, Err(Reply::Status(401))));
    for admin in [&by_query, &by_header] {
        let r = versions::api_push_to_remote(&s, admin, None, some("dev"));
        assert!(matches!(r, Ok((o, b)) if o == "origin" && b == "dev"));
    }
    let r = versions::api_push_to_remote(&s, &ann(), None, None);
    assert!(matches!(r, Ok((o, b)) if o == "origin" && b == "main"));
    let r = versions::api_push_to_remote(&s, &ann(), some("up"), some("dev"));
    assert!(matches!(r, Ok((o, b)) if o == "up" && b == "dev"));
    let r = versions::api_push_done("o".to_string(), "b".to_string(), Ok(()));
    assert!(matches!(r, Reply::Pushed { remote, branch } if remote == "o" && branch == "b"));
    let r = versions::api_push_done("o".to_string(), "b".to_string(), Err("x".to_string()));
    assert_eq!(failure(r), "Failed to push: x");
}
