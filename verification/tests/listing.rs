use drawio_collab_server::auth::Credentials;
use drawio_collab_server::http::Reply;
use drawio_collab_server::listing;
use drawio_collab_server::listing::{EntryKind, FoundFile, FsEntry, Keyed, RawEntry};
use drawio_collab_server::state::AppState;

fn server(require_token: bool) -> AppState {
    AppState::new("data".to_string(), "secret".to_string(), "admin".to_string(), require_token)
}

fn stranger() -> Credentials {
    Credentials { sid: None, authorization: None, token: None }
}

fn found(name: Option<&str>, is_file: bool) -> FoundFile {
    FoundFile { name: name.map(|n| n.to_string()), is_file }
}

fn raw(name: &str, kind: EntryKind) -> RawEntry {
    RawEntry { name: name.to_string(), kind, len: 3, modified: Some(1234) }
}

#[test]
fn diagrams_are_listed() {
    assert!(matches!(listing::list_files(&server(true), &stranger()), Some(Reply::Status(401))));
    assert!(listing::list_files(&server(false), &stranger()).is_none());
    let r = listing::list_files_found(vec![
        found(Some("b.drawio"), true),
        found(Some("dir.drawio"), false),
        found(None, true),
        found(Some("notes.txt"), true),
        found(Some("a.drawio"), true),
    ]);
    assert!(matches!(r, Reply::FileList(names) if names == vec!["b.drawio", "a.drawio"]));
    assert!(matches!(listing::list_files_found(vec![]), Reply::FileList(names) if names.is_empty()));
}

#[test]
fn directories_to_list() {
    let s = server(true);
    assert!(matches!(listing::api_list(&s, &stranger(), None), Err(Reply::Status(401))));
    let s = server(false);
    assert!(matches!(listing::api_list(&s, &stranger(), None), Ok(d) if d.is_empty()));
    assert!(matches!(listing::api_list(&s, &stranger(), Some("".to_string())), Ok(d) if d.is_empty()));
    assert!(matches!(listing::api_list(&s, &stranger(), Some("/a/b".to_string())), Ok(d) if d == "a/b"));
    for bad in ["/", "..", "a//b"] {
        let r = listing::api_list(&s, &stranger(), Some(bad.to_string()));
        assert!(matches!(r, Err(Reply::Text(400, t)) if t == "invalid path"));
    }
}

#[test]
fn listing_sorts_and_filters() {
    let r = listing::api_list_found(
        "top",
        vec![
            raw("Zeta.drawio", EntryKind::File),
            raw("alpha.drawio", EntryKind::File),
            raw("notes.txt", EntryKind::File),
            raw("linked", EntryKind::LinkToDirectory),
            raw("Beta", EntryKind::Directory),
            raw("pipe.drawio", EntryKind::Other),
            raw("lost.drawio", EntryKind::LinkToFile),
            raw("lost.txt", EntryKind::LinkToFile),
        ],
    );
    let Reply::Entries(entries) = r else { panic!() };
    let names: Vec<&str> = entries.iter().map(|e| e.name.as_str()).collect();
    assert_eq!(names, vec!["Beta", "linked", "alpha.drawio", "lost.drawio", "Zeta.drawio"]);
    assert_eq!(entries[0].path, "top/Beta");
    assert!(entries[1].is_dir && !entries[2].is_dir);
    let sizes: Vec<Option<u64>> = entries.iter().map(|e| e.size).collect();
    assert_eq!(sizes, vec![None, None, Some(3), None, Some(3)]);
    assert!(entries.iter().all(|e| e.modified_ms == Some(1234)));
}

#[test]
fn names_are_compared_in_lower_case() {
    let r = listing::api_list_found(
        "",
        vec![
            raw("b.drawio", EntryKind::File),
            raw("\u{c9}.drawio", EntryKind::File),
            raw("A.drawio", EntryKind::File),
            raw("a.drawio", EntryKind::File),
            raw("\u{e8}.drawio", EntryKind::File),
        ],
    );
    let Reply::Entries(entries) = r else { panic!() };
    let names: Vec<&str> = entries.iter().map(|e| e.path.as_str()).collect();
    assert_eq!(
        names,
        vec!["A.drawio", "a.drawio", "b.drawio", "\u{e8}.drawio", "\u{c9}.drawio"]
    );
}

#[test]
fn times_are_cut_to_size() {
    let mut e = raw("d", EntryKind::Directory);
    e.modified = Some(u128::from(u64::MAX) + 5);
    assert_eq!(listing::show("", &e).unwrap().modified_ms, Some(4));
    e.modified = Some(u128::from(u64::MAX));
    assert_eq!(listing::show("", &e).unwrap().modified_ms, Some(-1));
    e.modified = None;
    assert_eq!(listing::show("", &e).unwrap().modified_ms, None);
}

fn keyed(key: &str, is_dir: bool, name: &str) -> Keyed {
    Keyed {
        key: key.chars().collect(),
        entry: FsEntry {
            name: name.to_string(),
            path: name.to_string(),
            is_dir,
            size: None,
            modified_ms: None,
        },
    }
}

#[test]
fn sorting_is_stable() {
    let sorted = listing::sort_entries(vec![
        keyed("b", false, "1"),
        keyed("a", false, "2"),
        keyed("b", true, "3"),
        keyed("a", false, "4"),
        keyed("b", true, "5"),
        keyed("", false, "6"),
        keyed("a", true, "7"),
    ]);
    let names: Vec<&str> = sorted.iter().map(|k| k.entry.name.as_str()).collect();
    assert_eq!(names, vec!["7", "3", "5", "6", "2", "4", "1"]);
}
