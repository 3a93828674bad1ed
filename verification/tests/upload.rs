use drawio_collab_server::auth::Credentials;
use drawio_collab_server::http::Reply;
use drawio_collab_server::state::AppState;
use drawio_collab_server::upload;
use drawio_collab_server::upload::{Field, FieldKind, UploadForm};

fn form(fields: Vec<Field>) -> UploadForm {
    let mut f = UploadForm::new();
    for field in fields {
        assert!(f.take_field(field).is_none());
    }
    f
}

fn file(name: Option<&str>, bytes: &[u8]) -> Field {
    Field::File { filename: name.map(|n| n.to_string()), bytes: bytes.to_vec() }
}

fn path(p: &str) -> Field {
    Field::Path(p.to_string())
}

fn stored(f: UploadForm, query: Option<&str>) -> (String, String) {
    match upload::place_upload(f, query.map(|q| q.to_string()), "fresh") {
        Ok(pair) => pair,
        Err(_) => panic!("refused"),
    }
}

fn refused(f: UploadForm, query: Option<&str>) -> String {
    match upload::place_upload(f, query.map(|q| q.to_string()), "fresh") {
        Err(Reply::Text(400, t)) => t,
        _ => panic!("not refused"),
    }
}

#[test]
fn uploads_need_a_user() {
    let s = AppState::new("data".to_string(), "secret".to_string(), "admin".to_string(), false);
    let mut creds = Credentials { sid: None, authorization: None, token: None };
    assert!(matches!(upload::api_upload(&s, &creds), Some(Reply::Status(401))));
    creds.token = Some("secret".to_string());
    assert!(upload::api_upload(&s, &creds).is_none());
}

#[test]
fn fields_have_their_kinds() {
    assert!(upload::field_kind("file") == FieldKind::File);
    assert!(upload::field_kind("path") == FieldKind::Path);
    assert!(upload::field_kind("File") == FieldKind::Other);
    assert!(upload::field_kind("") == FieldKind::Other);
}

#[test]
fn bad_fields_are_answered() {
    let mut f = UploadForm::new();
    let r = f.take_field(Field::BadFile { error: "cut".to_string() });
    assert!(matches!(r, Some(Reply::Text(400, t)) if t == "error reading file: cut"));
    let r = f.take_field(Field::BadForm { error: "odd".to_string() });
    assert!(matches!(r, Some(Reply::Text(400, t)) if t == "error parsing form: odd"));
    assert!(f.take_field(Field::BadPath).is_none());
    assert!(f.take_field(Field::Other).is_none());
    assert_eq!(refused(f, Some("a")), "missing file field");
}

#[test]
fn form_path_goes_first() {
    let f = form(vec![file(Some("name.drawio"), b"x"), path("dir/a")]);
    assert_eq!(stored(f, Some("query")), ("dir/a.drawio".to_string(), "x".to_string()));
}

#[test]
fn query_path_goes_before_the_name() {
    let f = form(vec![file(Some("name.drawio"), b"x")]);
    assert_eq!(stored(f, Some("/q/b.drawio/")).0, "q/b.drawio");
    let f = form(vec![file(Some("name.drawio"), b"x")]);
    assert_eq!(refused(f, Some("../q")), "invalid path");
}

#[test]
fn name_of_the_file_is_used() {
    for (name, key) in [
        ("name", "name.drawio"),
        ("a b.drawio", "a b.drawio"),
        ("dir/x", "dir/x.drawio"),
        ("", ".drawio"),
    ] {
        assert_eq!(stored(form(vec![file(Some(name), b"")]), None).0, key);
    }
    for name in ["a\\b", "..", ".", "\u{e9}"] {
        assert_eq!(refused(form(vec![file(Some(name), b"")]), None), "invalid filename");
    }
}

#[test]
fn nameless_files_get_fresh_names() {
    assert_eq!(stored(form(vec![file(None, b"x")]), None).0, "fresh.drawio");
    let Ok((key, content)) = upload::finish_upload(form(vec![file(None, b"x")]), None) else {
        panic!()
    };
    assert_eq!(content, "x");
    assert_eq!(key.len(), 43);
    assert!(key.ends_with(".drawio"));
    let Ok((other, _)) = upload::finish_upload(form(vec![file(None, b"x")]), None) else {
        panic!()
    };
    assert_ne!(key, other);
}

#[test]
fn last_fields_count() {
    let f = form(vec![
        file(Some("one"), b"1"),
        path("a"),
        file(None, b"2"),
        path("b"),
    ]);
    assert_eq!(stored(f, None), ("b.drawio".to_string(), "2".to_string()));
    let f = form(vec![file(Some("one"), b"1"), file(None, b"2")]);
    assert_eq!(stored(f, None), ("one.drawio".to_string(), "2".to_string()));
}

#[test]
fn uploads_are_text() {
    let f = form(vec![file(Some("a"), &[0xff, 0xfe])]);
    assert_eq!(refused(f, None), "file must be valid UTF-8 text");
    let f = form(vec![file(Some("a"), "\u{e9}".as_bytes())]);
    assert_eq!(stored(f, None).1, "\u{e9}");
    let f = form(vec![file(Some("a"), &[0xff])]);
    assert_eq!(refused(f, Some("..")), "invalid path");
}

#[test]
fn written_uploads_are_answered() {
    assert!(matches!(upload::upload_written("a".to_string(), true), Reply::Path(p) if p == "a"));
    assert!(matches!(upload::upload_written("a".to_string(), false), Reply::Status(500)));
}
