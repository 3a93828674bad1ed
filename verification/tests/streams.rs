use drawio_collab_server::streams;
use drawio_collab_server::streams::{LineSays, OllamaStream, OpenRouterStream, Payload};

fn chars(s: &str) -> Vec<char> {
    s.chars().collect()
}

fn delta(s: &str) -> String {
    format!("data: {{\"choices\":[{{\"delta\":{{\"content\":\"{s}\"}}}}]}}\n\n")
}

#[test]
fn lines_carry_payloads() {
    assert!(matches!(streams::payload_of(&chars("event: x")), Payload::Nothing));
    assert!(matches!(streams::payload_of(&chars("data:x")), Payload::Nothing));
    assert!(matches!(streams::payload_of(&chars("  data: [DONE] ")), Payload::Done));
    assert!(matches!(streams::payload_of(&chars("data: {} ")), Payload::Data(d) if d == chars("{} ")));
}

#[test]
fn first_text_is_chosen() {
    let some = |s: &str| Some(s.to_string());
    assert_eq!(streams::choose_text(some("a"), some("b")), some("a"));
    assert_eq!(streams::choose_text(None, some("b")), some("b"));
    assert_eq!(streams::choose_text(None, None), None);
}

#[test]
fn values_of_a_line_are_read() {
    let some = |s: &str| Some(s.to_string());
    assert!(matches!(streams::read_values(Some(true), some("a"), None), LineSays::Done));
    assert!(matches!(streams::read_values(Some(false), some("a"), some("b")), LineSays::Piece(p) if p == "a"));
    assert!(matches!(streams::read_values(None, None, some("b")), LineSays::Piece(p) if p == "b"));
    assert!(matches!(streams::read_values(None, None, None), LineSays::Nothing));
}

#[test]
fn events_are_read() {
    let mut s = OpenRouterStream::new();
    let text = format!(
        ": comment\n\n{}{}data: not json\n\ndata: {{\"choices\":[{{\"message\":{{\"content\":\"!\"}}}}]}}\n\n{}",
        delta("Hel"),
        delta("lo"),
        "data: {\"choices\":[]}\n\n"
    );
    assert_eq!(s.take_text(&text), vec!["Hel", "lo", "!"]);
    assert!(!s.ended());
    assert_eq!(s.take_text("data: [DONE]\n\n"), Vec::<String>::new());
    assert!(s.ended());
    assert_eq!(s.answer(), "Hello!");
}

#[test]
fn nothing_behind_the_end_counts() {
    let mut s = OpenRouterStream::new();
    let text = format!("{}data: [DONE]\n\n{}", delta("a"), delta("b"));
    assert_eq!(s.take_text(&text), vec!["a"]);
    assert!(s.ended());
    assert_eq!(s.answer(), "a");
    let mut s = OpenRouterStream::new();
    assert_eq!(s.take_text(&format!("{}data: [DONE]\n\n", delta("a"))), vec!["a"]);
    assert!(s.ended());
    assert_eq!(s.answer(), "a");
}

#[test]
fn an_event_may_have_several_lines() {
    let mut s = OpenRouterStream::new();
    let two = format!("{}{}", delta("a").trim_end(), "\r\n");
    let text = format!("{two}{}", delta("b"));
    assert_eq!(s.take_text(&text), vec!["a", "b"]);
}

#[test]
fn incomplete_events_wait() {
    let mut s = OpenRouterStream::new();
    assert!(s.take_text(delta("a").trim_end()).is_empty());
    assert_eq!(s.take_text("\n\n"), vec!["a"]);
    assert!(s.take_text("data: ").is_empty());
    assert_eq!(s.answer(), "a");
}

#[test]
fn cuts_between_events_do_not_matter() {
    let text = format!("{}\n\n{}{}", delta("one"), delta("two"), delta("\u{e9}"));
    let whole: Vec<char> = chars(&text);
    for cut in 0..=whole.len() {
        let a: String = whole[..cut].iter().collect();
        let b: String = whole[cut..].iter().collect();
        let mut s = OpenRouterStream::new();
        let mut pieces = s.take_text(&a);
        pieces.extend(s.take_text(&b));
        assert_eq!(pieces, vec!["one", "two", "\u{e9}"]);
        assert_eq!(s.answer(), "onetwo\u{e9}");
    }
}

#[test]
fn bytes_are_read_as_text() {
    let mut s = OpenRouterStream::new();
    assert_eq!(s.take_bytes(delta("\u{e9}").as_bytes()), vec!["\u{e9}"]);
    let mut broken = b"data: {\"choices\":[{\"delta\":{\"content\":\"".to_vec();
    broken.push(0xff);
    broken.extend_from_slice(b"\"}}]}\n\n");
    assert_eq!(s.take_bytes(&broken), vec!["\u{fffd}"]);
    let mut o = OllamaStream::new();
    assert_eq!(o.take_bytes("{\"response\":\"\u{e9}\"}\n".as_bytes()), vec!["\u{e9}"]);
    assert_eq!(o.answer(), "\u{e9}");
}

#[test]
fn lines_of_json_are_read() {
    let mut s = OllamaStream::new();
    let pieces = s.take_text(
        "{\"message\":{\"content\":\"a\"},\"done\":false}\n  \nnonsense\n{\"response\":\"b\"}\n[1]\n{\"message\":",
    );
    assert_eq!(pieces, vec!["a", "b"]);
    assert_eq!(s.take_text("{\"content\":\"c\"}}\n"), vec!["c"]);
    assert_eq!(s.answer(), "abc");
}

#[test]
fn lines_behind_done_wait_for_more() {
    let mut s = OllamaStream::new();
    let pieces = s.take_text("{\"response\":\"a\"}\n{\"done\":true,\"response\":\"x\"}\n{\"response\":\"b\"}\n");
    assert_eq!(pieces, vec!["a"]);
    assert_eq!(s.take_text(""), vec!["b"]);
    assert_eq!(s.answer(), "ab");
}

#[test]
fn cuts_between_lines_do_not_matter() {
    let whole = chars("{\"response\":\"a\"}\n\n{\"response\":\"b\"}\n{\"message\":{\"content\":\"c\"}}\n");
    for cut in 0..=whole.len() {
        let a: String = whole[..cut].iter().collect();
        let b: String = whole[cut..].iter().collect();
        let mut s = OllamaStream::new();
        s.take_text(&a);
        s.take_text(&b);
        assert_eq!(s.answer(), "abc");
    }
}
