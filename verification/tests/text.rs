use drawio_collab_server::text;
use drawio_collab_server::text::Class;

fn chars(s: &str) -> Vec<char> {
    s.chars().collect()
}

fn string(v: &[char]) -> String {
    v.iter().collect()
}

#[test]
fn spaces_are_unicode_white_space() {
    for n in 0..=0x10ffffu32 {
        if let Some(c) = char::from_u32(n) {
            assert_eq!(text::is_space(c), c.is_whitespace(), "{n:x}");
        }
    }
}

#[test]
fn alphanumerics_are_ascii() {
    for n in 0..0x500u32 {
        if let Some(c) = char::from_u32(n) {
            assert_eq!(text::is_alphanumeric(c), c.is_ascii_alphanumeric());
        }
    }
}

#[test]
fn classes_hold_what_they_say() {
    assert!(Class::Space.test('\t'));
    assert!(!Class::Space.test('x'));
    assert!(Class::NotSpace.test('x'));
    assert!(!Class::NotSpace.test(' '));
    assert!(Class::Only('/').test('/'));
    assert!(!Class::Only('/').test('\\'));
}

#[test]
fn searching_finds_first_and_last() {
    let s = chars("abcabcab");
    assert_eq!(text::find(&s, &chars("ab")), Some(0));
    assert_eq!(text::find(&s, &chars("ca")), Some(2));
    assert_eq!(text::rfind(&s, &chars("ab")), Some(6));
    assert_eq!(text::rfind(&s, &chars("abc")), Some(3));
    assert_eq!(text::find(&s, &chars("cc")), None);
    assert_eq!(text::rfind(&s, &chars("cc")), None);
    assert_eq!(text::find(&s, &chars("abcabcabc")), None);
    assert!(text::contains(&s, &chars("bca")));
    assert!(!text::contains(&s, &chars("x")));
    assert!(text::starts_with(&s, &chars("abc")));
    assert!(!text::starts_with(&s, &chars("b")));
    assert!(text::ends_with(&s, &chars("cab")));
    assert!(!text::ends_with(&s, &chars("abc")));
    assert_eq!(text::count(&s, &chars("ab")), 3);
    assert_eq!(text::count(&chars("aaaa"), &chars("aa")), "aaaa".matches("aa").count());
}

#[test]
fn trimming_agrees_with_str() {
    for s in ["", " ", "  a b \t\n", "\u{3000}x\u{a0}", "plain", "//a/b//", "/"] {
        let v = chars(s);
        assert_eq!(string(text::strip(&v, Class::Space)), s.trim());
        assert_eq!(string(text::strip_front(&v, Class::Space)), s.trim_start());
        assert_eq!(string(text::strip_back(&v, Class::Space)), s.trim_end());
        assert_eq!(string(text::strip(&v, Class::Only('/'))), s.trim_matches('/'));
        assert_eq!(
            text::count_front(&v, Class::Only('/')),
            s.chars().take_while(|c| *c == '/').count()
        );
    }
}

#[test]
fn splitting_agrees_with_str() {
    for s in ["", "/", "a/b", "/a//b/", "abc", "a\nb\r\nc", "\n", "\r\n\r\n", "x\n\r", "x\r"] {
        let v = chars(s);
        let parts: Vec<String> = text::split(&v, '/').iter().map(|p| string(p)).collect();
        let wanted: Vec<String> = s.split('/').map(|p| p.to_string()).collect();
        assert_eq!(parts, wanted);
        let lines: Vec<String> = text::lines(&v).iter().map(|p| string(p)).collect();
        let wanted: Vec<String> = s.lines().map(|p| p.to_string()).collect();
        assert_eq!(lines, wanted, "{s:?}");
    }
}

#[test]
fn second_word_and_field_agree_with_str() {
    for s in ["", "one", "  one  two three", "Version 12 by Ann", "a by b by c", " by ", "x by "] {
        let v = chars(s);
        assert_eq!(
            text::word_two(&v).map(|w| string(&w)),
            s.split_whitespace().nth(1).map(|w| w.to_string())
        );
        assert_eq!(
            text::field_two(&v, &chars(" by ")).map(|w| string(&w)),
            s.split(" by ").nth(1).map(|w| w.to_string())
        );
    }
}

#[test]
fn order_agrees_with_str() {
    let words = ["", "a", "ab", "b", "B", "\u{e9}", "\u{10000}", "\u{ffff}"];
    for a in words {
        for b in words {
            assert_eq!(text::is_before(&chars(a), &chars(b)), a < b, "{a:?} {b:?}");
            assert_eq!(text::same_str(a, b), a == b);
            assert_eq!(text::same(&chars(a), &chars(b)), a == b);
        }
    }
}

#[test]
fn numbers_are_written_in_decimal() {
    for n in [0u64, 7, 10, 42, 99, 100, 1234567890, u64::MAX] {
        assert_eq!(text::decimal_string(n), n.to_string());
        assert_eq!(string(&text::to_decimal(n)), n.to_string());
    }
    assert_eq!(text::digit(7), '7');
}

#[test]
fn numbers_read_back_what_was_written() {
    for n in [0u64, 1, 9, 10, 65535, u64::MAX - 1, u64::MAX] {
        assert_eq!(text::parse_number(&chars(&text::decimal_string(n))), Some(n));
    }
}

#[test]
fn numbers_agree_with_parse() {
    for s in [
        "", "+", "-", "+5", "-5", "007", "12a", " 1", "1 ", "18446744073709551615",
        "18446744073709551616", "99999999999999999999999", "++1", "\u{0661}",
    ] {
        assert_eq!(text::parse_number(&chars(s)), s.parse::<u64>().ok(), "{s:?}");
    }
}

#[test]
fn bytes_are_written_in_hex() {
    assert_eq!(string(&text::to_hex(&[0, 1, 0x7f, 0x80, 0xab, 0xff])), "00017f80abff");
    assert_eq!(text::hex_digit(11), 'b');
}

#[test]
fn texts_are_put_together() {
    assert_eq!(text::concat("a", "b"), "ab");
    assert_eq!(text::concat3("a", "\u{e9}", ""), "a\u{e9}");
    let mut v = text::copy_of(&chars("ab"));
    text::append_to(&mut v, &chars("cd"));
    assert_eq!(string(&v), "abcd");
    assert_eq!(text::chars_of("x\u{1f600}"), vec!['x', '\u{1f600}']);
}
