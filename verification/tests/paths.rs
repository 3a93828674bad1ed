use drawio_collab_server::paths;

#[test]
fn names_are_sanitized() {
    assert_eq!(paths::sanitize_name("a-b_c.drawio"), Some("a-b_c.drawio".to_string()));
    for bad in ["a/b", "a\\b", "a b", "\u{e9}", "a(b)", "a%20b"] {
        assert_eq!(paths::sanitize_name(bad), None);
        assert_eq!(paths::to_file_key(bad), None);
    }
}

#[test]
fn names_that_lead_elsewhere_are_refused() {
    for name in [".", ".."] {
        assert_eq!(paths::sanitize_name(name), None);
        assert_eq!(paths::to_file_key(name), None);
        assert_eq!(paths::sanitize_rel_path(name), None);
    }
    for name in ["...", ".a", "a..", "..drawio"] {
        assert_eq!(paths::sanitize_name(name), Some(name.to_string()));
    }
    assert_eq!(paths::sanitize_name(""), Some("".to_string()));
    assert_eq!(paths::sanitize_rel_path(""), None);
}

#[test]
fn paths_are_sanitized() {
    assert_eq!(paths::sanitize_rel_path("/a/b c/(d)+,.drawio/"), Some("a/b c/(d)+,.drawio".to_string()));
    assert_eq!(paths::sanitize_rel_path("x"), Some("x".to_string()));
    for bad in ["", "/", "a//b", "a/./b", "../a", "a/..", "a\\b", "a/\u{e9}", "a\nb", "..", "a*b"] {
        assert_eq!(paths::sanitize_rel_path(bad), None, "{bad:?}");
    }
}

#[test]
fn sanitized_path_is_accepted_again() {
    for p in ["/a/b/", "a", "//x y//", "deep/er/still.drawio"] {
        let once = paths::sanitize_rel_path(p).unwrap();
        assert_eq!(paths::sanitize_rel_path(&once), Some(once.clone()));
    }
}

#[test]
fn file_key_is_a_path() {
    for n in ["a", "x.drawio", "..."] {
        let key = paths::to_file_key(n).unwrap();
        assert_eq!(paths::sanitize_rel_path(&key), Some(key.clone()));
    }
}

#[test]
fn data_paths_agree_with_std() {
    for dir in ["data", "data/", "/srv/data", ".", ""] {
        for name in ["a.drawio", "a/b", "", "/abs", "a/"] {
            let want = std::path::Path::new(dir).join(name);
            assert_eq!(paths::to_data_path(dir, name), want.to_str().unwrap(), "{dir:?} {name:?}");
            let want = std::path::Path::new(dir).join(name.trim_matches('/'));
            assert_eq!(paths::to_data_rel_path(dir, name), want.to_str().unwrap());
        }
    }
}

#[test]
fn sanitized_paths_stay_below_the_data_directory() {
    for p in ["/etc/passwd", "a/b/c", "x"] {
        let safe = paths::sanitize_rel_path(p).unwrap();
        assert!(paths::to_data_rel_path("data", &safe).starts_with("data/"));
    }
    assert_eq!(paths::to_data_rel_path("data", "etc/passwd"), "data/etc/passwd");
}

#[test]
fn diagram_suffix_is_added_once() {
    assert_eq!(paths::add_drawio("a"), "a.drawio");
    assert_eq!(paths::add_drawio("a.drawio"), "a.drawio");
    assert_eq!(paths::add_drawio("a/b"), "a/b.drawio");
    assert_eq!(paths::add_drawio("a.drawio/b"), "a.drawio/b.drawio");
    assert_eq!(paths::add_drawio("a/b.drawio"), "a/b.drawio");
    assert_eq!(paths::add_drawio("a/"), "a/");
    assert_eq!(paths::add_drawio(""), ".drawio");
    assert_eq!(paths::add_drawio(".drawio"), ".drawio");
    assert_eq!(paths::add_drawio(".."), "...drawio");
    assert!(paths::ends_with_drawio("x.drawio"));
    assert!(!paths::ends_with_drawio("x.drawio.bak"));
}

#[test]
fn diagram_paths_stay_clean() {
    for p in ["a/b", "a.drawio", "..", "", "x y"] {
        let full = paths::add_drawio(p);
        assert_eq!(paths::sanitize_rel_path(&full), Some(full.clone()));
        assert!(paths::ends_with_drawio(&full));
    }
}

#[test]
fn file_name_is_behind_the_last_slash() {
    assert_eq!(paths::file_name("a/b/c.drawio"), "c.drawio");
    assert_eq!(paths::file_name("c.drawio"), "c.drawio");
    assert_eq!(paths::file_name("a/"), "");
}

#[test]
fn watched_paths_become_keys() {
    assert_eq!(paths::watch_key("a\\b\\c.drawio"), "a/b/c.drawio");
    assert_eq!(paths::watch_key("//a/b.drawio"), "a/b.drawio");
    assert_eq!(paths::watch_key("\\a"), "a");
    assert_eq!(paths::watch_key("a.drawio"), "a.drawio");
}

#[test]
fn same_paths_agree_with_std() {
    let all = [
        "", ".", "/", "a", "./a", "a/", "a/.", "a//b", "a/b", "/a/b", "a/./b", "a/../b", "b", "..",
        "../b", "/./a/b", "./", "a/b/",
    ];
    for x in all {
        for y in all {
            assert_eq!(
                paths::same_path(x, y),
                std::path::Path::new(x) == std::path::Path::new(y),
                "{x:?} {y:?}"
            );
        }
    }
}
