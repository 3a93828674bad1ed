//! Who may do what: sessions, the access token, and the answers that depend on them.

use crate::http::{Reply, ReplyView};
use crate::outside;
use crate::state::{AppState, StateView};
use crate::text;
use vstd::prelude::*;

verus! {

/// The access token or the admin token of a server: the one that it is given, or a random one.
pub fn access_token(given: Option<String>) -> (r: String)
    ensures
        match given {
            Some(token) => r@ == token@,
            None => outside::random_uuid(r@),
        },
{
    match given {
        Some(token) => token,
        None => outside::fresh_uuid(),
    }
}

/// What a request says of its sender: the session cookie, the `Authorization` header and the
/// `token` of the query.
pub struct Credentials {
    pub sid: Option<String>,
    pub authorization: Option<String>,
    pub token: Option<String>,
}

pub struct CredentialsView {
    pub sid: Option<Seq<char>>,
    pub authorization: Option<Seq<char>>,
    pub token: Option<Seq<char>>,
}

impl View for Credentials {
    type V = CredentialsView;

    open spec fn view(&self) -> CredentialsView {
        CredentialsView {
            sid: outside::opt_text(self.sid),
            authorization: outside::opt_text(self.authorization),
            token: outside::opt_text(self.token),
        }
    }
}

/// The user of the session that the cookie names.
pub open spec fn session_user(state: StateView, sid: Option<Seq<char>>) -> Option<Seq<char>> {
    match sid {
        Some(s) => if state.sessions.contains_key(s) {
            Some(state.sessions[s])
        } else {
            None
        },
        None => None,
    }
}

/// The header holds the token: behind `token `, with blanks round it or none.
pub open spec fn header_holds(authorization: Seq<char>, token: Seq<char>) -> bool {
    text::has_prefix(authorization, "token "@) && text::trimmed(
        authorization.skip(6),
        text::Class::Space,
    ) == token
}

/// The request brings a token, in its header or in its query.
pub open spec fn brings(c: CredentialsView, token: Seq<char>) -> bool {
    (c.authorization is Some && header_holds(c.authorization->0, token)) || c.token == Some(token)
}

/// Who the sender is: the user of the session, or `token` where the header or the query holds the
/// access token, or nobody.
pub open spec fn authorized(state: StateView, c: CredentialsView) -> Option<Seq<char>> {
    if session_user(state, c.sid) is Some {
        session_user(state, c.sid)
    } else if brings(c, state.auth_token) {
        Some("token"@)
    } else {
        None
    }
}

/// Whether a request may use the administrative functions: for anyone who is known, and for whoever
/// brings the admin token.
pub open spec fn may_administer(state: StateView, c: CredentialsView) -> bool {
    authorized(state, c) is Some || brings(c, state.admin_token)
}

/// Whether a request may read: where no token is required, everyone may.
pub open spec fn may_read(state: StateView, c: CredentialsView) -> bool {
    state.require_token ==> authorized(state, c) is Some
}

/// The user of the session that the cookie names.
pub fn get_session_user(state: &AppState, creds: &Credentials) -> (r: Option<String>)
    ensures
        outside::opt_text(r) == session_user(state@, creds@.sid),
{
    match &creds.sid {
        Some(sid) => state.session_user(sid.as_str()),
        None => None,
    }
}

fn header_matches(authorization: &str, token: &str) -> (b: bool)
    ensures
        b == header_holds(authorization@, token@),
{
    let header = text::chars_of(authorization);
    let prefix = text::chars_of("token ");
    let n: usize = header.len();
    proof {
        reveal_strlit("token ");
    }
    if !text::starts_with(&header, &prefix) {
        return false;
    }
    let rest = vstd::slice::slice_subrange(&header, 6, n);
    assert(rest@ == header@.skip(6));
    let token = text::chars_of(token);
    text::same(text::strip(rest, text::Class::Space), &token)
}

/// Whether a request brings a token.
pub fn brings_token(creds: &Credentials, token: &str) -> (b: bool)
    ensures
        b == brings(creds@, token@),
{
    if let Some(authorization) = &creds.authorization {
        if header_matches(authorization.as_str(), token) {
            return true;
        }
    }
    match &creds.token {
        Some(given) => text::same_str(given.as_str(), token),
        None => false,
    }
}

/// Who the sender of a request is, if anybody.
pub fn get_authorized_user_from_header_or_query(state: &AppState, creds: &Credentials) -> (r: Option<
    String,
>)
    ensures
        outside::opt_text(r) == authorized(state@, creds@),
{
    if let Some(user) = get_session_user(state, creds) {
        return Some(user);
    }
    if brings_token(creds, state.auth_token()) {
        return Some("token".to_string());
    }
    None
}

/// Whether a request may use the administrative functions.
pub fn is_administrator(state: &AppState, creds: &Credentials) -> (b: bool)
    ensures
        b == may_administer(state@, creds@),
{
    get_authorized_user_from_header_or_query(state, creds).is_some() || brings_token(
        creds,
        state.admin_token(),
    )
}

/// Whether a request may read.
pub fn is_reader(state: &AppState, creds: &Credentials) -> (b: bool)
    ensures
        b == may_read(state@, creds@),
{
    !state.require_token() || get_authorized_user_from_header_or_query(state, creds).is_some()
}

/// The cookie that a reply sets.
pub struct SessionCookie {
    pub name: String,
    pub value: String,
    pub path: String,
    pub http_only: bool,
    pub max_age_seconds: Option<u64>,
}

pub struct SessionCookieView {
    pub name: Seq<char>,
    pub value: Seq<char>,
    pub path: Seq<char>,
    pub http_only: bool,
    pub max_age_seconds: Option<u64>,
}

impl View for SessionCookie {
    type V = SessionCookieView;

    open spec fn view(&self) -> SessionCookieView {
        SessionCookieView {
            name: self.name@,
            value: self.value@,
            path: self.path@,
            http_only: self.http_only,
            max_age_seconds: self.max_age_seconds,
        }
    }
}

/// The cookie of a session.
pub open spec fn cookie_of(sid: Seq<char>) -> SessionCookieView {
    SessionCookieView {
        name: "sid"@,
        value: sid,
        path: "/"@,
        http_only: true,
        max_age_seconds: None,
    }
}

/// The cookie that makes a browser forget its session.
pub open spec fn spent_cookie() -> SessionCookieView {
    SessionCookieView {
        name: "sid"@,
        value: ""@,
        path: "/"@,
        http_only: false,
        max_age_seconds: Some(0),
    }
}

/// The memory after a session has begun.
pub open spec fn with_session(state: StateView, sid: Seq<char>, username: Seq<char>) -> StateView {
    state.with_sessions(state.sessions.insert(sid, username))
}

/// Begins the session `sid`.
pub fn begin_session(state: &mut AppState, sid: String, username: &str) -> (cookie: SessionCookie)
    ensures
        final(state)@ == with_session(old(state)@, sid@, username@),
        cookie@ == cookie_of(sid@),
{
    let value = sid.clone();
    state.put_session(sid, username.to_string());
    SessionCookie {
        name: "sid".to_string(),
        value,
        path: "/".to_string(),
        http_only: true,
        max_age_seconds: None,
    }
}

/// Begins a session under a new random name.
pub fn set_session_user(state: &mut AppState, username: &str) -> (cookie: SessionCookie)
    ensures
        outside::random_uuid(cookie@.value),
        cookie@ == cookie_of(cookie@.value),
        final(state)@ == with_session(old(state)@, cookie@.value, username@),
{
    begin_session(state, outside::fresh_uuid(), username)
}

/// The memory after the session that the cookie names has ended.
pub open spec fn without_session(state: StateView, sid: Option<Seq<char>>) -> StateView {
    match sid {
        Some(s) => state.with_sessions(state.sessions.remove(s)),
        None => state,
    }
}

/// Ends the session that the cookie names. There is a cookie to send exactly when one came.
pub fn clear_session(state: &mut AppState, creds: &Credentials) -> (cookie: Option<SessionCookie>)
    ensures
        final(state)@ == without_session(old(state)@, creds@.sid),
        cookie is Some <==> creds@.sid is Some,
        cookie matches Some(c) ==> c@ == spent_cookie(),
{
    match &creds.sid {
        Some(sid) => {
            state.drop_session(sid.as_str());
            Some(
                SessionCookie {
                    name: "sid".to_string(),
                    value: "".to_string(),
                    path: "/".to_string(),
                    http_only: false,
                    max_age_seconds: Some(0),
                },
            )
        },
        None => None,
    }
}

/// Logging in with a password: always refused.
pub fn login(username: &str, password: &str) -> (r: Reply)
    ensures
        r@ == ReplyView::Text(
            403,
            "password login disabled; use token and PUT /me to set name"@,
        ),
{
    Reply::Text(
        403,
        "password login disabled; use token and PUT /me to set name".to_string(),
    )
}

/// Logging out.
pub fn logout(state: &mut AppState, creds: &Credentials) -> (r: (Reply, Option<SessionCookie>))
    ensures
        final(state)@ == without_session(old(state)@, creds@.sid),
        r.0@ == ReplyView::Status(204),
        r.1 is Some <==> creds@.sid is Some,
        r.1 matches Some(c) ==> c@ == spent_cookie(),
{
    let cookie = clear_session(state, creds);
    (Reply::Status(204), cookie)
}

/// What the caller is told of itself.
pub open spec fn own_name(state: StateView, sid: Option<Seq<char>>) -> ReplyView {
    match session_user(state, sid) {
        Some(username) => ReplyView::Login { username },
        None => ReplyView::Status(401),
    }
}

/// Who the caller is, by the session.
pub fn me(state: &AppState, creds: &Credentials) -> (r: Reply)
    ensures
        r@ == own_name(state@, creds@.sid),
{
    match get_session_user(state, creds) {
        Some(username) => Reply::Login { username },
        None => Reply::Status(401),
    }
}

/// The longest name a user can take, in bytes.
pub const LONGEST_NAME: usize = 64;

/// The name that a user asks for: trimmed, not empty and not too long.
pub open spec fn user_name(asked: Seq<char>) -> Option<Seq<char>> {
    let name = text::trimmed(asked, text::Class::Space);
    if name.len() == 0 || vstd::utf8::encode_utf8(name).len() > LONGEST_NAME {
        None
    } else {
        Some(name)
    }
}

/// The name that a user asks for, if it can be had.
pub fn clean_user_name(asked: &str) -> (r: Option<String>)
    ensures
        outside::opt_text(r) == user_name(asked@),
{
    let chars = text::chars_of(asked);
    let name = text::strip(&chars, text::Class::Space);
    let n: usize = name.len();
    if n == 0 {
        return None;
    }
    let name = outside::string_of(name);
    if name.as_str().as_bytes().len() > LONGEST_NAME {
        return None;
    }
    Some(name)
}

/// What is answered to a request for a name before any session begins: the name, or a refusal.
pub open spec fn name_admitted(
    state: StateView,
    c: CredentialsView,
    asked: Seq<char>,
) -> Result<Seq<char>, ReplyView> {
    if authorized(state, c) is None {
        Err(ReplyView::Status(401))
    } else if user_name(asked) is None {
        Err(ReplyView::Text(400, "invalid name"@))
    } else {
        Ok(user_name(asked)->0)
    }
}

/// Takes a name: a new session under it begins, whether or not there was one.
pub fn put_me(state: &mut AppState, creds: &Credentials, username: &str) -> (r: (
    Reply,
    Option<SessionCookie>,
))
    ensures
        match name_admitted(old(state)@, creds@, username@) {
            Ok(name) => {
                &&& r.0@ == (ReplyView::Login { username: name })
                &&& r.1 matches Some(c) && outside::random_uuid(c@.value) && c@ == cookie_of(
                    c@.value,
                ) && final(state)@ == with_session(old(state)@, c@.value, name)
            },
            Err(reply) => r.0@ == reply && r.1 is None && final(state)@ == old(state)@,
        },
{
    if get_authorized_user_from_header_or_query(state, creds).is_none() {
        return (Reply::Status(401), None);
    }
    match clean_user_name(username) {
        Some(name) => {
            let cookie = set_session_user(state, name.as_str());
            (Reply::Login { username: name }, Some(cookie))
        },
        None => (Reply::Text(400, "invalid name".to_string()), None),
    }
}

/// A token logs in: it is the access token.
pub open spec fn logs_in(state: StateView, token: Option<Seq<char>>) -> bool {
    token == Some(state.auth_token)
}

/// Logging in with the access token.
pub fn token_login(state: &mut AppState, token: Option<String>) -> (r: (
    Reply,
    Option<SessionCookie>,
))
    ensures
        if logs_in(old(state)@, outside::opt_text(token)) {
            &&& r.0@ == ReplyView::Redirect("/"@)
            &&& r.1 matches Some(c) && outside::random_uuid(c@.value) && c@ == cookie_of(
                c@.value,
            ) && final(state)@ == with_session(old(state)@, c@.value, "token"@)
        } else {
            r.0@ == ReplyView::Status(401) && r.1 is None && final(state)@ == old(state)@
        },
{
    if let Some(given) = token {
        if text::same_str(given.as_str(), state.auth_token()) {
            let cookie = set_session_user(state, "token");
            return (Reply::Redirect("/".to_string()), Some(cookie));
        }
    }
    (Reply::Status(401), None)
}

/// The first page, before its file is read: `None` where the caller may see it.
pub fn root_page(state: &AppState, creds: &Credentials) -> (r: Option<Reply>)
    ensures
        r is None <==> may_read(state@, creds@),
        r matches Some(reply) ==> reply@ == ReplyView::Redirect("/token.html"@),
{
    if is_reader(state, creds) {
        None
    } else {
        Some(Reply::Redirect("/token.html".to_string()))
    }
}

/// The first page, once its file was read.
pub fn root_page_read(page: Option<Vec<u8>>) -> (r: Reply)
    ensures
        r@ == (match page {
            Some(bytes) => ReplyView::Html(bytes@),
            None => ReplyView::Status(404),
        }),
{
    match page {
        Some(bytes) => Reply::Html(bytes),
        None => Reply::Status(404),
    }
}

/// What a session is for: who began one is known by its cookie alone until it ends.
pub proof fn session_names_its_user(
    state: StateView,
    sid: Seq<char>,
    username: Seq<char>,
    authorization: Option<Seq<char>>,
    token: Option<Seq<char>>,
)
    ensures
        ({
            let c = CredentialsView { sid: Some(sid), authorization, token };
            let during = with_session(state, sid, username);
            &&& authorized(during, c) == Some(username)
            &&& session_user(without_session(during, Some(sid)), Some(sid)) is None
        }),
{
}

/// Beginning or ending one session leaves every other as it is.
pub proof fn sessions_are_apart(
    state: StateView,
    sid: Seq<char>,
    username: Seq<char>,
    other: CredentialsView,
)
    requires
        other.sid != Some(sid),
    ensures
        authorized(with_session(state, sid, username), other) == authorized(state, other),
        authorized(without_session(state, Some(sid)), other) == authorized(state, other),
{
}

/// A request without a session passes only if it brings the access token.
pub proof fn only_token_opens(state: StateView, c: CredentialsView)
    requires
        session_user(state, c.sid) is None,
    ensures
        authorized(state, c) is Some <==> (c.token == Some(state.auth_token) || (
        c.authorization is Some && header_holds(c.authorization->0, state.auth_token))),
{
}

/// The admin token opens the administrative functions and nothing else: whoever brings it may use
/// them, and who a request comes from and what it may read never depend on it.
pub proof fn admin_token_is_separate(state: StateView, c: CredentialsView, other: Seq<char>)
    ensures
        brings(c, state.admin_token) ==> may_administer(state, c),
        authorized(StateView { admin_token: other, ..state }, c) == authorized(state, c),
        may_read(StateView { admin_token: other, ..state }, c) == may_read(state, c),
{
}

/// The access token opens, in the query or in the header behind `token `, with blanks around it or
/// none; and so does every session.
pub proof fn tokens_and_sessions_are_taken(
    state: StateView,
    sid: Option<Seq<char>>,
    padded: Seq<char>,
    other: Option<Seq<char>>,
)
    requires
        text::trimmed(padded, text::Class::Space) == state.auth_token,
        session_user(state, sid) is None,
    ensures
        authorized(
            state,
            CredentialsView { sid, authorization: Some("token "@ + padded), token: other },
        ) == Some("token"@),
        authorized(
            state,
            CredentialsView { sid, authorization: other, token: Some(state.auth_token) },
        ) == Some("token"@),
        may_read(
            state,
            CredentialsView { sid, authorization: other, token: Some(state.auth_token) },
        ),
        !state.require_token ==> may_read(
            state,
            CredentialsView { sid: None, authorization: None, token: None },
        ),
        state.require_token ==> !may_read(
            state,
            CredentialsView { sid: None, authorization: None, token: None },
        ),
{
    let header = "token "@ + padded;
    reveal_strlit("token ");
    assert(header.subrange(0, 6) =~= "token "@);
    assert(header.skip(6) =~= padded);
}

/// The admin token opens the administrative functions in the same two ways.
pub proof fn admin_tokens_are_taken(state: StateView, padded: Seq<char>)
    requires
        text::trimmed(padded, text::Class::Space) == state.admin_token,
    ensures
        may_administer(
            state,
            CredentialsView { sid: None, authorization: Some("token "@ + padded), token: None },
        ),
        may_administer(
            state,
            CredentialsView { sid: None, authorization: None, token: Some(state.admin_token) },
        ),
        !may_administer(
            state,
            CredentialsView { sid: None, authorization: None, token: None },
        ),
{
    let header = "token "@ + padded;
    reveal_strlit("token ");
    assert(header.subrange(0, 6) =~= "token "@);
    assert(header.skip(6) =~= padded);
}

/// Every name of one to sixty-four bytes can be taken, as it is but for blanks around it, and no
/// other.
pub proof fn names_can_be_taken(state: StateView, c: CredentialsView, asked: Seq<char>)
    requires
        authorized(state, c) is Some,
    ensures
        ({
            let name = text::trimmed(asked, text::Class::Space);
            let bytes = vstd::utf8::encode_utf8(name).len();
            &&& name.len() > 0 && bytes <= 64 ==> name_admitted(state, c, asked) == Ok::<
                Seq<char>,
                ReplyView,
            >(name)
            &&& name.len() == 0 || bytes > 64 ==> name_admitted(state, c, asked) == Err::<
                Seq<char>,
                ReplyView,
            >(ReplyView::Text(400, "invalid name"@))
        }),
{
}

/// The cookie of a session names it, for all of the site, and out of reach of scripts; the one that
/// ends a session names none and is spent at once.
pub proof fn cookies_carry_sessions(sid: Seq<char>)
    ensures
        cookie_of(sid).name == "sid"@,
        cookie_of(sid).value == sid,
        cookie_of(sid).path == "/"@,
        cookie_of(sid).http_only,
        cookie_of(sid).max_age_seconds is None,
        spent_cookie().name == "sid"@,
        spent_cookie().value == ""@,
        spent_cookie().path == "/"@,
        spent_cookie().max_age_seconds == Some(0u64),
{
}

/// Whoever began a session is told the name it was begun with, and nobody is told any other.
pub proof fn callers_are_told_their_names(state: StateView, sid: Seq<char>, username: Seq<char>)
    ensures
        own_name(with_session(state, sid, username), Some(sid)) == (ReplyView::Login { username }),
        own_name(without_session(state, Some(sid)), Some(sid)) == ReplyView::Status(401),
        own_name(state, None) == ReplyView::Status(401),
{
}

/// The access token logs in, and no other.
pub proof fn only_the_token_logs_in(state: StateView, token: Seq<char>)
    ensures
        logs_in(state, Some(token)) <==> token == state.auth_token,
        !logs_in(state, None),
{
}

/// A request brings a token only as it is: in its query, or in its header behind `token ` with nothing
/// but blanks around it.
pub proof fn nothing_else_brings_a_token(c: CredentialsView, token: Seq<char>)
    ensures
        brings(c, token) ==> c.token == Some(token) || exists|padded: Seq<char>|
            c.authorization == Some("token "@ + padded) && #[trigger] text::trimmed(
                padded,
                text::Class::Space,
            ) == token,
        c.token == Some(token) ==> brings(c, token),
{
    if brings(c, token) && c.token != Some(token) {
        let header = c.authorization->0;
        let padded = header.skip(6);
        reveal_strlit("token ");
        assert(header.subrange(0, 6) == "token "@);
        assert(header =~= "token "@ + padded);
        assert(text::trimmed(padded, text::Class::Space) == token);
    }
}

/// Who is known may read and administer, and who is not may read only where no token is required, and
/// administer only with the admin token.
pub proof fn rights_follow_from_who_asks(state: StateView, c: CredentialsView)
    ensures
        authorized(state, c) is Some ==> may_read(state, c) && may_administer(state, c),
        authorized(state, c) is None ==> may_read(state, c) == !state.require_token,
        authorized(state, c) is None ==> may_administer(state, c) == brings(c, state.admin_token),
        session_user(state, c.sid) is Some ==> authorized(state, c) == session_user(state, c.sid),
{
}

} // verus!
