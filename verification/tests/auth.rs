use drawio_collab_server::auth;
use drawio_collab_server::auth::Credentials;
use drawio_collab_server::http::Reply;
use drawio_collab_server::state::AppState;

fn server(require_token: bool) -> AppState {
    AppState::new("data".to_string(), "secret".to_string(), "admin".to_string(), require_token)
}

fn nobody() -> Credentials {
    Credentials { sid: None, authorization: None, token: None }
}

fn by_cookie(sid: &str) -> Credentials {
    Credentials { sid: Some(sid.to_string()), ..nobody() }
}

fn by_header(value: &str) -> Credentials {
    Credentials { authorization: Some(value.to_string()), ..nobody() }
}

fn by_query(token: &str) -> Credentials {
    Credentials { token: Some(token.to_string()), ..nobody() }
}

fn user(state: &AppState, creds: &Credentials) -> Option<String> {
    auth::get_authorized_user_from_header_or_query(state, creds)
}

fn is_uuid(s: &str) -> bool {
    s.len() == 36
        && s.char_indices().all(|(i, c)| {
            if [8, 13, 18, 23].contains(&i) {
                c == '-'
            } else {
                c.is_ascii_hexdigit() && !c.is_ascii_uppercase()
            }
        })
        && s.as_bytes()[14] == b'4'
        && "89ab".contains(s.as_bytes()[19] as char)
}

#[test]
fn token_is_taken_or_made() {
    assert_eq!(auth::access_token(Some("x".to_string())), "x");
    let a = auth::access_token(None);
    let b = auth::access_token(None);
    assert!(is_uuid(&a));
    assert_ne!(a, b);
}

#[test]
fn header_holds_the_token() {
    let s = server(true);
    assert_eq!(user(&s, &by_header("token secret")), Some("token".to_string()));
    assert_eq!(user(&s, &by_header("token   secret  ")), Some("token".to_string()));
    assert_eq!(user(&s, &by_header("Token secret")), None);
    assert_eq!(user(&s, &by_header("token secrets")), None);
    assert_eq!(user(&s, &by_header("token")), None);
    assert_eq!(user(&s, &by_header("Bearer secret")), None);
}

#[test]
fn query_holds_the_token() {
    let s = server(true);
    assert_eq!(user(&s, &by_query("secret")), Some("token".to_string()));
    assert_eq!(user(&s, &by_query(" secret")), None);
    assert_eq!(user(&s, &nobody()), None);
}

#[test]
fn admin_token_opens_administration_only() {
    let s = server(true);
    assert_eq!(user(&s, &by_query("admin")), None);
    assert_eq!(user(&s, &by_header("token admin")), None);
    assert!(auth::is_administrator(&s, &by_query("admin")));
    assert!(auth::is_administrator(&s, &by_header("token admin ")));
    assert!(auth::is_administrator(&s, &by_query("secret")));
    assert!(!auth::is_administrator(&s, &nobody()));
    assert!(!auth::is_reader(&s, &by_query("admin")));
}

#[test]
fn session_names_its_user_until_it_ends() {
    let mut s = server(true);
    let cookie = auth::set_session_user(&mut s, "Ann");
    assert_eq!(cookie.name, "sid");
    assert_eq!(cookie.path, "/");
    assert!(cookie.http_only);
    assert_eq!(cookie.max_age_seconds, None);
    assert!(is_uuid(&cookie.value));
    let creds = by_cookie(&cookie.value);
    assert_eq!(auth::get_session_user(&s, &creds), Some("Ann".to_string()));
    assert_eq!(user(&s, &creds), Some("Ann".to_string()));
    let (reply, spent) = auth::logout(&mut s, &creds);
    assert!(matches!(reply, Reply::Status(204)));
    let spent = spent.unwrap();
    assert_eq!(spent.value, "");
    assert_eq!(spent.max_age_seconds, Some(0));
    assert_eq!(spent.path, "/");
    assert_eq!(user(&s, &creds), None);
}

#[test]
fn session_goes_before_the_token() {
    let mut s = server(true);
    auth::begin_session(&mut s, "one".to_string(), "Ann");
    let creds = Credentials { token: Some("secret".to_string()), ..by_cookie("one") };
    assert_eq!(user(&s, &creds), Some("Ann".to_string()));
}

#[test]
fn sessions_do_not_mix() {
    let mut s = server(true);
    auth::begin_session(&mut s, "one".to_string(), "Ann");
    auth::begin_session(&mut s, "two".to_string(), "Bob");
    assert_eq!(user(&s, &by_cookie("one")), Some("Ann".to_string()));
    assert!(auth::clear_session(&mut s, &by_cookie("one")).is_some());
    assert_eq!(user(&s, &by_cookie("one")), None);
    assert_eq!(user(&s, &by_cookie("two")), Some("Bob".to_string()));
    assert!(auth::clear_session(&mut s, &nobody()).is_none());
}

#[test]
fn passwords_are_refused() {
    match auth::login("Ann", "secret") {
        Reply::Text(code, text) => {
            assert_eq!(code, 403);
            assert_eq!(text, "password login disabled; use token and PUT /me to set name");
        }
        _ => panic!(),
    }
}

#[test]
fn me_tells_the_user() {
    let mut s = server(true);
    assert!(matches!(auth::me(&s, &nobody()), Reply::Status(401)));
    assert!(matches!(auth::me(&s, &by_query("secret")), Reply::Status(401)));
    auth::begin_session(&mut s, "one".to_string(), "Ann");
    assert!(matches!(auth::me(&s, &by_cookie("one")), Reply::Login { username } if username == "Ann"));
}

#[test]
fn names_are_trimmed_and_bounded() {
    assert_eq!(auth::clean_user_name("  Ann \n"), Some("Ann".to_string()));
    assert_eq!(auth::clean_user_name(" \t"), None);
    assert_eq!(auth::clean_user_name(""), None);
    assert_eq!(auth::clean_user_name(&"x".repeat(64)), Some("x".repeat(64)));
    assert_eq!(auth::clean_user_name(&"x".repeat(65)), None);
    assert_eq!(auth::clean_user_name(&"\u{e9}".repeat(32)), Some("\u{e9}".repeat(32)));
    assert_eq!(auth::clean_user_name(&"\u{e9}".repeat(33)), None);
}

#[test]
fn taking_a_name_begins_a_session() {
    let mut s = server(true);
    let (reply, cookie) = auth::put_me(&mut s, &nobody(), "Ann");
    assert!(matches!(reply, Reply::Status(401)));
    assert!(cookie.is_none());
    let (reply, cookie) = auth::put_me(&mut s, &by_query("secret"), "   ");
    assert!(matches!(reply, Reply::Text(400, text) if text == "invalid name"));
    assert!(cookie.is_none());
    let (reply, cookie) = auth::put_me(&mut s, &by_query("secret"), " Ann ");
    assert!(matches!(reply, Reply::Login { username } if username == "Ann"));
    let cookie = cookie.unwrap();
    assert_eq!(user(&s, &by_cookie(&cookie.value)), Some("Ann".to_string()));
    let (_, again) = auth::put_me(&mut s, &by_cookie(&cookie.value), "Bea");
    let again = again.unwrap();
    assert_ne!(again.value, cookie.value);
    assert_eq!(user(&s, &by_cookie(&again.value)), Some("Bea".to_string()));
    assert_eq!(user(&s, &by_cookie(&cookie.value)), Some("Ann".to_string()));
}

#[test]
fn token_opens_a_session() {
    let mut s = server(true);
    for wrong in [None, Some("wrong".to_string())] {
        let (reply, cookie) = auth::token_login(&mut s, wrong);
        assert!(matches!(reply, Reply::Status(401)));
        assert!(cookie.is_none());
    }
    let (reply, cookie) = auth::token_login(&mut s, Some("secret".to_string()));
    assert!(matches!(reply, Reply::Redirect(to) if to == "/"));
    assert_eq!(user(&s, &by_cookie(&cookie.unwrap().value)), Some("token".to_string()));
}

#[test]
fn first_page_sends_strangers_away() {
    let s = server(true);
    assert!(matches!(auth::root_page(&s, &nobody()), Some(Reply::Redirect(to)) if to == "/token.html"));
    assert!(auth::root_page(&s, &by_query("secret")).is_none());
    assert!(auth::root_page(&server(false), &nobody()).is_none());
    assert!(matches!(auth::root_page_read(None), Reply::Status(404)));
    assert!(matches!(auth::root_page_read(Some(vec![1, 2])), Reply::Html(b) if b == vec![1, 2]));
}
