use drawio_collab_server::ai;
use drawio_collab_server::ai::{AiModifyRequest, AiProvider, CallError};
use drawio_collab_server::auth::Credentials;
use drawio_collab_server::http::Reply;
use drawio_collab_server::messages::ServerWsMessage;
use drawio_collab_server::room::Room;
use drawio_collab_server::state::AppState;

const DIAGRAM: &str = "<mxfile><diagram/></mxfile>";

fn server() -> AppState {
    AppState::new("data".to_string(), "secret".to_string(), "admin".to_string(), false)
}

fn request(provider: AiProvider, system: Option<&str>) -> AiModifyRequest {
    AiModifyRequest {
        prompt: "make it blue".to_string(),
        provider,
        model: "m1".to_string(),
        system: system.map(|s| s.to_string()),
    }
}

fn phases(messages: &[ServerWsMessage]) -> Vec<(String, String)> {
    messages
        .iter()
        .map(|m| match m {
            ServerWsMessage::AiStatus { username, job_id, phase, detail } => {
                assert_eq!((username.as_str(), job_id.as_str()), ("ai", "job"));
                (phase.clone(), detail.clone())
            }
            ServerWsMessage::Update { .. } => ("update".to_string(), "".to_string()),
            _ => panic!(),
        })
        .collect()
}

fn pair(a: &str, b: &str) -> (String, String) {
    (a.to_string(), b.to_string())
}

#[test]
fn requests_go_to_their_providers() {
    let r = ai::chat_request(AiProvider::Openrouter, None, "m", "s", "u");
    assert!(matches!(r, Err(e) if e == "OPENROUTER_API_KEY not set"));
    let Ok(r) = ai::chat_request(AiProvider::Openrouter, Some("key".to_string()), "m", "s", "u") else {
        panic!()
    };
    assert_eq!(r.url, "https://openrouter.ai/api/v1/chat/completions");
    assert_eq!(r.bearer.as_deref(), Some("key"));
    assert!(!r.options);
    assert_eq!((r.model.as_str(), r.system.as_str(), r.user.as_str()), ("m", "s", "u"));
    let Ok(r) = ai::chat_request(AiProvider::Ollama, None, "m", "s", "u") else { panic!() };
    assert_eq!(r.url, "http://localhost:11434/api/chat");
    assert!(r.options && r.bearer.is_none());
    let Ok(r) = ai::chat_request(AiProvider::Ollama, Some("http://x".to_string()), "m", "s", "u") else {
        panic!()
    };
    assert_eq!(r.url, "http://x");
}

#[test]
fn whole_answers_of_openrouter() {
    let failed = |r: Result<String, CallError>| match r {
        Err(CallError::Failed(e)) => e,
        _ => panic!(),
    };
    let body = "{\"choices\":[{\"message\":{\"content\":\"hi\"}}]}";
    assert!(matches!(ai::call_openrouter(true, body), Ok(s) if s == "hi"));
    assert_eq!(failed(ai::call_openrouter(false, "busy")), "openrouter error: busy");
    assert_eq!(failed(ai::call_openrouter(true, "{}")), "no content in openrouter response");
    assert!(matches!(ai::call_openrouter(true, "{"), Err(CallError::NotJson)));
    assert_eq!(
        failed(ai::content_or_error(AiProvider::Openrouter, None)),
        "no content in openrouter response"
    );
}

#[test]
fn whole_answers_of_ollama() {
    let failed = |r: Result<String, CallError>| match r {
        Err(CallError::Failed(e)) => e,
        _ => panic!(),
    };
    let both = "{\"message\":{\"content\":\"m\"},\"response\":\"r\"}";
    assert!(matches!(ai::call_ollama(true, both), Ok(s) if s == "m"));
    assert!(matches!(ai::call_ollama(true, "{\"response\":\"r\"}"), Ok(s) if s == "r"));
    assert_eq!(failed(ai::call_ollama(false, "busy")), "ollama error: busy");
    assert_eq!(failed(ai::call_ollama(true, "[]")), "no content in ollama response");
    assert!(matches!(ai::call_ollama(true, ""), Err(CallError::NotJson)));
}

#[test]
fn diagrams_to_change_are_admitted() {
    let s = server();
    let stranger = Credentials { sid: None, authorization: None, token: None };
    let friend = Credentials { sid: None, authorization: Some("token secret".to_string()), token: None };
    let some = |p: &str| Some(p.to_string());
    assert!(matches!(ai::api_ai_modify(&s, &stranger, some("a")), Err(Reply::Status(401))));
    assert!(matches!(ai::api_ai_modify(&s, &friend, None), Err(Reply::Text(400, t)) if t == "missing path"));
    assert!(matches!(ai::api_ai_modify(&s, &friend, some("..")), Err(Reply::Text(400, t)) if t == "invalid path"));
    assert!(matches!(ai::api_ai_modify(&s, &friend, some("a/b")), Ok(k) if k == "a/b"));
    assert!(matches!(ai::ai_unloaded(), Reply::Status(500)));
}

#[test]
fn jobs_ask_for_the_current_diagram() {
    let room = Room::new("<old/>".to_string());
    let (job, told) = ai::ai_begin(&room, &request(AiProvider::Ollama, Some("be brief")), "job".to_string());
    assert_eq!(job.id, "job");
    assert_eq!(job.system, "be brief");
    assert_eq!(job.user, "Instruction:\nmake it blue\n\nCurrent .drawio XML:\n<old/>");
    assert_eq!(
        phases(&told),
        vec![
            pair("started", "Preparing prompt"),
            pair("calling_provider", "provider=Ollama, model=m1"),
        ]
    );
    let (job, told) = ai::ai_begin(&room, &request(AiProvider::Openrouter, None), "job".to_string());
    assert!(job.system.starts_with("You are a precise draw.io (.drawio) diagram editor."));
    assert!(job.system.ends_with("Do not include explanations, markdown, or code fences."));
    assert_eq!(phases(&told)[1].1, "provider=Openrouter, model=m1");
    let (job, _) = ai::ai_start(&room, &request(AiProvider::Ollama, None));
    assert_eq!(job.id.len(), 36);
}

#[test]
fn pieces_are_told() {
    assert_eq!(phases(&[ai::stream_status("job", "abc")]), vec![pair("stream", "abc")]);
}

#[test]
fn provider_errors_are_told() {
    let (told, next) = ai::ai_answered("job", Err("down".to_string()));
    assert_eq!(phases(&told), vec![pair("error", "provider error: down")]);
    assert!(matches!(next, Err(Reply::Text(502, t)) if t == "ai error: down"));
}

#[test]
fn diagrams_are_taken_from_answers() {
    let raw = format!("```xml\n{DIAGRAM}\n```\u{e9}");
    let (told, next) = ai::ai_answered("job", Ok(raw.clone()));
    assert!(matches!(next, Ok(d) if d == DIAGRAM));
    assert_eq!(
        phases(&told),
        vec![
            pair("received", &format!("received {} chars", raw.len())),
            pair("parsing", "Extracting .drawio XML from response"),
        ]
    );
}

#[test]
fn answers_without_diagram_are_shown() {
    let (told, next) = ai::ai_answered("job", Ok("no way".to_string()));
    let wanted = "AI did not return valid .drawio XML. Received: no way";
    assert_eq!(phases(&told)[2], pair("error", wanted));
    assert_eq!(told.len(), 3);
    assert!(matches!(next, Err(Reply::Text(502, t)) if t == wanted));
}

#[test]
fn long_answers_are_cut() {
    let shown = |raw: String| {
        let (told, next) = ai::ai_answered("job", Ok(raw));
        let Err(Reply::Text(502, text)) = next else { panic!() };
        assert_eq!(phases(&told)[2], pair("error", &text));
        text
    };
    let start = "AI did not return valid .drawio XML. Received: ";
    let exact = "x".repeat(500);
    assert_eq!(shown(exact.clone()), format!("{start}{exact}"));
    assert_eq!(shown(format!("{exact}y")), format!("{start}{exact}..."));
    let a = "a".repeat(499);
    assert_eq!(shown(format!("{a}\u{e9}b")), format!("{start}{a}\u{e9}..."));
    let wide = "\u{e9}".repeat(500);
    assert_eq!(shown(wide.clone()), format!("{start}{wide}"));
    assert_eq!(shown(format!("{wide}\u{e9}")), format!("{start}{wide}..."));
}

#[test]
fn diagrams_are_applied() {
    let mut s = server();
    let mut room = Room::new("old".to_string());
    let (version, path, told) = ai::ai_apply(&mut s, &mut room, "d/a", "job", DIAGRAM, 5);
    assert_eq!(version, 1);
    assert_eq!(path, "data/d/a");
    assert_eq!(phases(&[told]), vec![pair("updating", "Persisting file and broadcasting update")]);
    assert_eq!((room.content(), room.version()), (DIAGRAM, 1));
    assert_eq!(s.writing_since("d/a"), Some(5));
    let (told, reply) = ai::ai_written("job", version, DIAGRAM.to_string(), true);
    assert!(matches!(&told[0],
        ServerWsMessage::Update { version: 1, content, username, sender_id }
            if content == DIAGRAM && username == "ai" && sender_id == "ai"));
    assert_eq!(phases(&told)[1], pair("done", "AI modification applied"));
    assert!(matches!(reply, Reply::AiResult { version: 1, content } if content == DIAGRAM));
    let (told, reply) = ai::ai_written("job", version, DIAGRAM.to_string(), false);
    assert_eq!(phases(&told), vec![pair("error", "Failed to write updated file")]);
    assert!(matches!(reply, Reply::Status(500)));
}
