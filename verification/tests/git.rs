use drawio_collab_server::git_versioning::{
    CommitRecord, CreateAction, CreateEvent, Decision, GitVersionManager, RemoteStep,
    RestoreAction, RestoreEvent, RestoreRequest, SetupStep, VersionRequest,
};
use drawio_collab_server::outside::Timestamp;

const SECOND: u64 = 1_000_000_000;

fn manager() -> GitVersionManager {
    GitVersionManager::new("data".to_string(), true, true).0
}

fn moment(seconds: i64) -> Timestamp {
    Timestamp { seconds, nanoseconds: 0 }
}

fn request(content: &str, force: bool) -> VersionRequest {
    VersionRequest {
        file_path: "d/a.drawio".to_string(),
        content: content.to_string(),
        username: "Ann".to_string(),
        version: 12,
        message: Some("first words".to_string()),
        force,
    }
}

fn record(message: &str) -> CommitRecord {
    CommitRecord {
        oid: "abc".to_string(),
        first: true,
        entry_before: None,
        entry: Some("1".to_string()),
        message: message.to_string(),
        seconds: 1000,
    }
}

#[test]
fn repositories_are_set_up() {
    let (_, steps) = GitVersionManager::new("data".to_string(), false, false);
    assert_eq!(steps.len(), 4);
    assert!(matches!(&steps[0], SetupStep::Init));
    assert!(matches!(&steps[1], SetupStep::Configure { key, value }
        if key == "user.name" && value == "Draw.io Server"));
    assert!(matches!(&steps[2], SetupStep::Configure { key, value }
        if key == "user.email" && value == "server@drawio.local"));
    assert!(matches!(&steps[3], SetupStep::Write { path, text }
        if path == "data/.gitattributes" && text == "*.drawio -diff -merge\n"));
    let (_, steps) = GitVersionManager::new("data".to_string(), true, true);
    assert_eq!(steps.len(), 2);
}

#[test]
fn contents_have_digests() {
    assert_eq!(
        GitVersionManager::content_hash("abc"),
        "ba7816bf8f01cfea414140de5dae2223b00361a396177a9cb410ff61f20015ad"
    );
    assert_eq!(
        GitVersionManager::content_hash(""),
        "e3b0c44298fc1c149afbf4c8996fb92427ae41e4649b934ca495991b7852b855"
    );
}

fn float_percent(old_content: &str, new_content: &str) -> f64 {
    if old_content.is_empty() {
        return 100.0;
    }
    let old_len = old_content.len();
    let new_len = new_content.len();
    let len_diff = (old_len as i64 - new_len as i64).abs() as usize;
    let min_len = old_len.min(new_len);
    if min_len == 0 {
        return 100.0;
    }
    let length_change = (len_diff as f64 / min_len as f64) * 100.0;
    if old_content == new_content {
        return 0.0;
    }
    length_change.max(10.0)
}

#[test]
fn changes_are_measured() {
    let long = "x".repeat(1000);
    let longer = "x".repeat(1099);
    let twice = "x".repeat(2000);
    let all = ["", "a", "b", "ab", "\u{e9}", long.as_str(), longer.as_str(), twice.as_str()];
    for a in all {
        for b in all {
            let p = GitVersionManager::content_change_percent(a, b);
            let f = float_percent(a, b);
            assert!((p.parts as f64 / p.of as f64 - f).abs() < 1e-9, "{a:?} {b:?}");
            for limit in [0, 5, 10, 11, 100, 101] {
                assert_eq!(p.is_below(limit), f < limit as f64);
            }
        }
    }
}

#[test]
fn every_difference_is_kept() {
    let m = manager();
    let long = "x".repeat(100_000);
    let other = format!("{long}y");
    assert!(m.has_changed(Some(long.clone()), &other));
    assert!(!m.has_changed(Some(long.clone()), &long));
    assert!(m.has_changed(None, &long));
    assert!(m.has_changed(Some("".to_string()), ""));
}

fn plan_of(action: CreateAction) -> drawio_collab_server::git_versioning::CommitPlan {
    match action {
        CreateAction::Commit(plan) => plan,
        _ => panic!("no commit"),
    }
}

#[test]
fn new_files_are_committed() {
    let mut m = manager();
    let req = request("text", false);
    let plan = plan_of(m.create_version_at(&req, CreateEvent::Start { now: 5 }, moment(0)));
    assert_eq!(plan.full_path, "data/d/a.drawio");
    assert_eq!(plan.file_path, "d/a.drawio");
    assert_eq!(plan.content, "text");
    assert_eq!(plan.author, "Ann");
    assert_eq!(plan.email, "Ann@drawio.local");
    assert_eq!(
        plan.message,
        "Version 12 by Ann\n\nfirst words\n\nMetadata:\n- File: d/a.drawio\n- Version: 12\n- User: Ann\n- Timestamp: 1970-01-01T00:00:00+00:00"
    );
}

#[test]
fn versions_are_created_step_by_step() {
    let mut m = manager();
    let req = request("text", false);
    assert!(matches!(m.create_version(&req, CreateEvent::Start { now: 0 }), CreateAction::Commit(_)));
    let committed = CreateEvent::Committed { oid: "o1".to_string(), now: SECOND };
    match m.create_version_at(&req, committed, moment(77)) {
        CreateAction::Done(Some(v)) => {
            assert_eq!(v.commit_oid, "o1");
            assert_eq!(v.version, 12);
            assert!(v.timestamp == moment(77));
            assert_eq!(v.username, "Ann");
            assert_eq!(v.message, "first words");
            assert_eq!(v.file_path, "d/a.drawio");
        }
        _ => panic!(),
    }
    let start = |now| CreateEvent::Start { now };
    assert!(matches!(m.create_version(&req, start(60 * SECOND)), CreateAction::Done(None)));
    assert!(matches!(m.should_commit(&req, 60 * SECOND), Decision::Skip));
    assert!(matches!(m.create_version(&req, start(61 * SECOND)), CreateAction::Commit(_)));
    let forced = request("text", true);
    assert!(matches!(m.create_version(&forced, start(2 * SECOND)), CreateAction::Commit(_)));
    let changed = request("texts", false);
    match m.create_version(&changed, start(2 * SECOND)) {
        CreateAction::ReadOld { oid } => assert_eq!(oid, "o1"),
        _ => panic!(),
    }
    let old = |s: &str| CreateEvent::OldContent(Some(s.to_string()));
    assert!(matches!(m.create_version(&changed, old("text")), CreateAction::Commit(_)));
    assert!(matches!(m.create_version(&changed, old("texts")), CreateAction::Done(None)));
    assert!(matches!(m.create_version(&changed, CreateEvent::OldContent(None)), CreateAction::Commit(_)));
    let failed = m.create_version(&changed, CreateEvent::Failed("disk".to_string()));
    assert!(matches!(failed, CreateAction::Fail(e) if e == "disk"));
    let mut other = request("x", false);
    other.file_path = "b".to_string();
    assert!(matches!(m.create_version(&other, start(2 * SECOND)), CreateAction::Commit(_)));
}

#[test]
fn messages_without_words_have_an_empty_line() {
    let mut req = request("text", true);
    req.message = None;
    let mut m = manager();
    let plan = plan_of(m.create_version_at(&req, CreateEvent::Start { now: 0 }, moment(1)));
    assert!(plan.message.starts_with("Version 12 by Ann\n\n\n\nMetadata:\n"));
    match m.create_version_at(&req, CreateEvent::Committed { oid: "o".to_string(), now: 0 }, moment(1)) {
        CreateAction::Done(Some(v)) => assert_eq!(v.message, ""),
        _ => panic!(),
    }
}

#[test]
fn versions_are_read_back_from_messages() {
    let mut m = manager();
    for (user, words, version) in [
        ("Ann", "first words", 12),
        ("", "", 0),
        ("by the way", "x by y", u64::MAX),
        ("Ann Bee", "Version 3 by nobody", 7),
    ] {
        let mut req = request("text", true);
        req.username = user.to_string();
        req.message = Some(words.to_string());
        req.version = version;
        let plan = plan_of(m.create_version(&req, CreateEvent::Start { now: 0 }));
        let list = m.list_versions("d/a.drawio", &vec![record(&plan.message)]);
        assert_eq!(list.len(), 1);
        assert_eq!(list[0].version, version);
        assert_eq!(list[0].username, user);
        assert_eq!(list[0].message, words);
        assert_eq!(list[0].commit_oid, "abc");
        assert_eq!(list[0].file_path, "d/a.drawio");
        assert!(list[0].timestamp == moment(1000));
    }
}

#[test]
fn some_names_are_not_read_back() {
    let mut m = manager();
    let mut req = request("text", true);
    req.username = "Ann by the sea".to_string();
    let plan = plan_of(m.create_version(&req, CreateEvent::Start { now: 0 }));
    let list = m.list_versions("d/a.drawio", &vec![record(&plan.message)]);
    assert_eq!(list[0].username, "Ann");
}

#[test]
fn foreign_messages_are_read_as_far_as_possible() {
    let m = manager();
    let list = m.list_versions(
        "a",
        &vec![record(""), record("Initial commit"), record("Fix 5 things\n\nbecause\n"), record("Version x by")],
    );
    let seen: Vec<(u64, &str, &str)> =
        list.iter().map(|v| (v.version, v.username.as_str(), v.message.as_str())).collect();
    assert_eq!(
        seen,
        vec![
            (0, "unknown", ""),
            (0, "unknown", ""),
            (5, "unknown", "because"),
            (0, "unknown", ""),
        ]
    );
}

#[test]
fn only_commits_that_touch_the_file_are_listed() {
    let m = manager();
    let commit = |oid: &str, first: bool, before: Option<&str>, entry: Option<&str>| CommitRecord {
        oid: oid.to_string(),
        first,
        entry_before: before.map(|s| s.to_string()),
        entry: entry.map(|s| s.to_string()),
        message: "Version 1 by Ann".to_string(),
        seconds: 0,
    };
    let list = m.list_versions(
        "a",
        &vec![
            commit("changed", false, Some("1"), Some("2")),
            commit("same", false, Some("1"), Some("1")),
            commit("added", false, None, Some("1")),
            commit("removed", false, Some("1"), None),
            commit("absent", false, None, None),
            commit("first without", true, None, None),
            commit("first", true, None, Some("1")),
        ],
    );
    let oids: Vec<&str> = list.iter().map(|v| v.commit_oid.as_str()).collect();
    assert_eq!(oids, vec!["changed", "added", "removed", "first"]);
}

#[test]
fn impossible_times_become_the_present() {
    let m = manager();
    let mut c = record("x");
    c.seconds = i64::MAX;
    let list = m.list_versions_at("a", &vec![c], moment(5));
    assert!(list[0].timestamp == moment(5));
    for (seconds, dated) in [
        (8210266876799, true),
        (8210266876800, false),
        (-8334601228800, true),
        (-8334601228801, false),
    ] {
        let mut c = record("x");
        c.seconds = seconds;
        let list = m.list_versions_at("a", &vec![c], moment(5));
        assert_eq!(list[0].timestamp == moment(seconds), dated);
    }
    let mut c = record("x");
    c.seconds = i64::MIN;
    let list = m.list_versions("a", &vec![c]);
    assert!(list[0].timestamp.seconds > 1_600_000_000);
}

#[test]
fn commits_are_named() {
    let m = manager();
    let full = "0123456789abcdef0123456789abcdef01234567";
    let r = m.get_version_content("a", full);
    assert!(matches!(r, Ok((oid, path)) if oid == full && path == "a"));
    let r = m.get_version_content("a", &full.to_uppercase());
    assert!(matches!(r, Ok((oid, _)) if oid == full));
    let r = m.get_version_content("a", "ABC");
    assert!(matches!(r, Ok((oid, _)) if oid == format!("abc{}", "0".repeat(37))));
    for bad in ["", "xyz", "0123456789abcdef0123456789abcdef012345678", "\u{e9}"] {
        let r = m.get_version_content("a", bad);
        assert!(matches!(r, Err(e) if e == "Invalid commit OID"), "{bad:?}");
    }
}

#[test]
fn contents_of_commits_are_text() {
    let m = manager();
    assert_eq!(m.version_content("\u{e9}".as_bytes().to_vec()), Ok("\u{e9}".to_string()));
    assert_eq!(m.version_content(vec![0xc3]), Err("Invalid UTF-8 in file content".to_string()));
}

#[test]
fn versions_are_restored() {
    let mut m = manager();
    let req = RestoreRequest {
        file_path: "a".to_string(),
        commit_oid: "abc".to_string(),
        username: "Ann".to_string(),
        version: 9,
    };
    match m.restore_version(&req, RestoreEvent::Start) {
        RestoreAction::LookUp { file_path, commit_oid } => {
            assert_eq!((file_path.as_str(), commit_oid.as_str()), ("a", "abc"));
        }
        _ => panic!(),
    }
    let kept = match m.restore_version(&req, RestoreEvent::Found(Ok("old text".to_string()))) {
        RestoreAction::Keep(kept) => kept,
        _ => panic!(),
    };
    assert_eq!(kept.file_path, "a");
    assert_eq!(kept.content, "old text");
    assert_eq!(kept.username, "Ann");
    assert_eq!(kept.version, 9);
    assert_eq!(kept.message.as_deref(), Some("Restored from commit abc"));
    assert!(kept.force);
    let plan = plan_of(m.create_version(&kept, CreateEvent::Start { now: 0 }));
    assert_eq!((plan.content.as_str(), plan.full_path.as_str()), ("old text", "data/a"));
    assert_eq!(m.version_content(plan.content.into_bytes()), Ok("old text".to_string()));
    let list = m.list_versions("a", &vec![record(&plan.message)]);
    assert_eq!(list[0].message, "Restored from commit abc");
    assert_eq!((list[0].version, list[0].username.as_str()), (9, "Ann"));
    let committed = CreateEvent::Committed { oid: "new".to_string(), now: 1 };
    let CreateAction::Done(made) = m.create_version(&kept, committed) else { panic!() };
    match m.restore_version(&req, RestoreEvent::Made(Ok(made))) {
        RestoreAction::Done(v) => {
            assert_eq!((v.commit_oid.as_str(), v.version, v.username.as_str()), ("new", 9, "Ann"));
            assert_eq!(v.message, "Restored from commit abc");
        }
        _ => panic!(),
    }
}

#[test]
fn failed_restorations_end() {
    let m = manager();
    let req = RestoreRequest {
        file_path: "a".to_string(),
        commit_oid: "abc".to_string(),
        username: "Ann".to_string(),
        version: 9,
    };
    let failed = |event| match m.restore_version(&req, event) {
        RestoreAction::Fail(e) => e,
        _ => panic!(),
    };
    assert_eq!(failed(RestoreEvent::Found(Err("Commit not found".to_string()))), "Commit not found");
    assert_eq!(failed(RestoreEvent::Made(Err("Failed to write file".to_string()))), "Failed to write file");
    assert_eq!(failed(RestoreEvent::Made(Ok(None))), "Failed to create restore commit");
}

#[test]
fn remotes_are_set_and_pushed_to() {
    let m = manager();
    let plan = m.push_to_remote("origin", "main");
    assert_eq!(plan.remote_name, "origin");
    assert_eq!(plan.refspec, "refs/heads/main:refs/heads/main");
    assert_eq!(
        plan.missing,
        "Remote 'origin' not found. Configure it with: git remote add origin <url>"
    );
    let steps = m.set_remote("o", "u", false);
    assert_eq!(steps.len(), 1);
    assert!(matches!(&steps[0], RemoteStep::Create { remote_name, url } if remote_name == "o" && url == "u"));
    let steps = m.set_remote("o", "u", true);
    assert_eq!(steps.len(), 2);
    assert!(matches!(&steps[0], RemoteStep::Delete { remote_name } if remote_name == "o"));
    assert!(m.gc().is_ok());
}
