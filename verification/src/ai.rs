//! Letting a language model change a diagram.

use crate::auth::Credentials;
use crate::files;
use crate::http;
use crate::http::{Reply, ReplyView};
use crate::messages::{ServerMessageView, ServerWsMessage};
use crate::outside;
use crate::paths;
use crate::room::{Room, RoomView};
use crate::state::{AppState, StateView};
use crate::streams;
use crate::text;
use crate::ws;
use crate::xml;
use vstd::prelude::*;
use vstd::string::StringExecFns;

verus! {

/// Who runs the model.
#[derive(Clone, Copy, PartialEq, Eq, Structural)]
pub enum AiProvider {
    Openrouter,
    Ollama,
}

/// What a user wants of a model.
pub struct AiModifyRequest {
    pub prompt: String,
    pub provider: AiProvider,
    pub model: String,
    pub system: Option<String>,
}

pub struct AiModifyRequestView {
    pub prompt: Seq<char>,
    pub provider: AiProvider,
    pub model: Seq<char>,
    pub system: Option<Seq<char>>,
}

impl View for AiModifyRequest {
    type V = AiModifyRequestView;

    open spec fn view(&self) -> AiModifyRequestView {
        AiModifyRequestView {
            prompt: self.prompt@,
            provider: self.provider,
            model: self.model@,
            system: outside::opt_text(self.system),
        }
    }
}

// ----- Talking to a provider -----

/// A request to a provider. A temperature goes into the options where `options` says so, and
/// otherwise beside the messages.
pub struct ChatRequest {
    pub url: String,
    pub bearer: Option<String>,
    pub options: bool,
    pub model: String,
    pub system: String,
    pub user: String,
}

pub struct ChatRequestView {
    pub url: Seq<char>,
    pub bearer: Option<Seq<char>>,
    pub options: bool,
    pub model: Seq<char>,
    pub system: Seq<char>,
    pub user: Seq<char>,
}

impl View for ChatRequest {
    type V = ChatRequestView;

    open spec fn view(&self) -> ChatRequestView {
        ChatRequestView {
            url: self.url@,
            bearer: outside::opt_text(self.bearer),
            options: self.options,
            model: self.model@,
            system: self.system@,
            user: self.user@,
        }
    }
}

/// The request for a prompt. `setting` is the key for one provider and the address of the other,
/// where it is set; without the key there is no request.
pub open spec fn chat(
    provider: AiProvider,
    setting: Option<Seq<char>>,
    model: Seq<char>,
    system: Seq<char>,
    user: Seq<char>,
) -> Result<ChatRequestView, Seq<char>> {
    match provider {
        AiProvider::Openrouter => match setting {
            None => Err("OPENROUTER_API_KEY not set"@),
            Some(key) => Ok(
                ChatRequestView {
                    url: "https://openrouter.ai/api/v1/chat/completions"@,
                    bearer: Some(key),
                    options: false,
                    model,
                    system,
                    user,
                },
            ),
        },
        AiProvider::Ollama => Ok(
            ChatRequestView {
                url: setting.unwrap_or("http://localhost:11434/api/chat"@),
                bearer: None,
                options: true,
                model,
                system,
                user,
            },
        ),
    }
}

/// The request for a prompt, or why there is none.
pub fn chat_request(
    provider: AiProvider,
    setting: Option<String>,
    model: &str,
    system: &str,
    user: &str,
) -> (r: Result<ChatRequest, String>)
    ensures
        (match r {
            Ok(c) => Ok(c@),
            Err(e) => Err(e@),
        }) == chat(provider, outside::opt_text(setting), model@, system@, user@),
{
    match provider {
        AiProvider::Openrouter => match setting {
            None => Err("OPENROUTER_API_KEY not set".to_string()),
            Some(key) => Ok(
                ChatRequest {
                    url: "https://openrouter.ai/api/v1/chat/completions".to_string(),
                    bearer: Some(key),
                    options: false,
                    model: model.to_string(),
                    system: system.to_string(),
                    user: user.to_string(),
                },
            ),
        },
        AiProvider::Ollama => {
            let url = match setting {
                Some(url) => url,
                None => "http://localhost:11434/api/chat".to_string(),
            };
            Ok(
                ChatRequest {
                    url,
                    bearer: None,
                    options: true,
                    model: model.to_string(),
                    system: system.to_string(),
                    user: user.to_string(),
                },
            )
        },
    }
}

/// What a provider is called in errors.
pub open spec fn provider_name(provider: AiProvider) -> Seq<char> {
    match provider {
        AiProvider::Openrouter => "openrouter"@,
        AiProvider::Ollama => "ollama"@,
    }
}

fn name_of(provider: AiProvider) -> (r: &'static str)
    ensures
        r@ == provider_name(provider),
{
    match provider {
        AiProvider::Openrouter => "openrouter",
        AiProvider::Ollama => "ollama",
    }
}

/// The error for an answer that is no success.
pub fn provider_refused(provider: AiProvider, body: &str) -> (r: String)
    ensures
        r@ == provider_name(provider) + " error: "@ + body@,
{
    text::concat3(name_of(provider), " error: ", body)
}

/// Why an answer cannot be used.
pub enum CallError {
    /// It is no JSON.
    NotJson,
    /// This was wrong.
    Failed(String),
}

pub enum CallErrorView {
    NotJson,
    Failed(Seq<char>),
}

impl View for CallError {
    type V = CallErrorView;

    open spec fn view(&self) -> CallErrorView {
        match *self {
            CallError::NotJson => CallErrorView::NotJson,
            CallError::Failed(e) => CallErrorView::Failed(e@),
        }
    }
}

pub open spec fn call_view(r: Result<String, CallError>) -> Result<Seq<char>, CallErrorView> {
    match r {
        Ok(s) => Ok(s@),
        Err(e) => Err(e@),
    }
}

/// What an answer that has come whole says, given the text where it is looked for.
pub open spec fn answer_or(
    provider: AiProvider,
    content: Option<Seq<char>>,
) -> Result<Seq<char>, CallErrorView> {
    match content {
        Some(s) => Ok(s),
        None => Err(
            CallErrorView::Failed("no content in "@ + provider_name(provider) + " response"@),
        ),
    }
}

/// What an answer that has come whole says, given the text where it is looked for.
pub fn content_or_error(provider: AiProvider, content: Option<String>) -> (r: Result<
    String,
    CallError,
>)
    ensures
        call_view(r) == answer_or(provider, outside::opt_text(content)),
{
    match content {
        Some(s) => Ok(s),
        None => Err(
            CallError::Failed(text::concat3("no content in ", name_of(provider), " response")),
        ),
    }
}

/// What an answer of the first provider says that has come whole.
pub open spec fn openrouter_answer(success: bool, body: Seq<char>) -> Result<
    Seq<char>,
    CallErrorView,
> {
    if !success {
        Err(CallErrorView::Failed("openrouter"@ + " error: "@ + body))
    } else if !outside::is_json(body) {
        Err(CallErrorView::NotJson)
    } else {
        answer_or(
            AiProvider::Openrouter,
            outside::json_string(body, "/choices/0/message/content"@),
        )
    }
}

/// What an answer of the second provider says that has come whole.
pub open spec fn ollama_answer(success: bool, body: Seq<char>) -> Result<Seq<char>, CallErrorView> {
    if !success {
        Err(CallErrorView::Failed("ollama"@ + " error: "@ + body))
    } else if !outside::is_json(body) {
        Err(CallErrorView::NotJson)
    } else {
        answer_or(
            AiProvider::Ollama,
            streams::first_of(
                outside::json_string(body, "/message/content"@),
                outside::json_string(body, "/response"@),
            ),
        )
    }
}

/// Reads an answer of the first provider that has come whole.
pub fn call_openrouter(success: bool, body: &str) -> (r: Result<String, CallError>)
    ensures
        call_view(r) == openrouter_answer(success, body@),
{
    if !success {
        return Err(CallError::Failed(provider_refused(AiProvider::Openrouter, body)));
    }
    match outside::json_string_at(body, "/choices/0/message/content") {
        Ok(content) => content_or_error(AiProvider::Openrouter, content),
        Err(_) => Err(CallError::NotJson),
    }
}

/// Reads an answer of the second provider that has come whole: a message, or else a plain response.
pub fn call_ollama(success: bool, body: &str) -> (r: Result<String, CallError>)
    ensures
        call_view(r) == ollama_answer(success, body@),
{
    if !success {
        return Err(CallError::Failed(provider_refused(AiProvider::Ollama, body)));
    }
    match (
        outside::json_string_at(body, "/message/content"),
        outside::json_string_at(body, "/response"),
    ) {
        (Ok(message), Ok(response)) => content_or_error(
            AiProvider::Ollama,
            streams::choose_text(message, response),
        ),
        _ => Err(CallError::NotJson),
    }
}

// ----- Telling the room -----

/// What the room is told of a job.
pub open spec fn status(job_id: Seq<char>, phase: Seq<char>, detail: Seq<char>) -> ServerMessageView {
    ServerMessageView::AiStatus { username: "ai"@, job_id, phase, detail }
}

/// What the room is told of a job.
pub fn ai_status(job_id: &str, phase: &str, detail: &str) -> (r: ServerWsMessage)
    ensures
        r@ == status(job_id@, phase@, detail@),
{
    ServerWsMessage::AiStatus {
        username: "ai".to_string(),
        job_id: job_id.to_string(),
        phase: phase.to_string(),
        detail: detail.to_string(),
    }
}

/// What the room is told of each piece of an answer, while it comes.
pub fn stream_status(job_id: &str, piece: &str) -> (r: ServerWsMessage)
    ensures
        r@ == status(job_id@, "stream"@, piece@),
{
    ai_status(job_id, "stream", piece)
}

pub open spec fn told(v: Seq<ServerWsMessage>) -> Seq<ServerMessageView> {
    v.map_values(|m: ServerWsMessage| m@)
}

fn tell_one(a: ServerWsMessage) -> (r: Vec<ServerWsMessage>)
    ensures
        told(r@) == seq![a@],
{
    let r = vec![a];
    assert(told(r@) =~= seq![a@]);
    r
}

fn tell_two(a: ServerWsMessage, b: ServerWsMessage) -> (r: Vec<ServerWsMessage>)
    ensures
        told(r@) == seq![a@, b@],
{
    let r = vec![a, b];
    assert(told(r@) =~= seq![a@, b@]);
    r
}

// ----- The job -----

/// Which diagram is to be changed, or a refusal.
pub fn api_ai_modify(state: &AppState, creds: &Credentials, path: Option<String>) -> (r: Result<
    String,
    Reply,
>)
    ensures
        http::key_or_reply(r) == files::path_asked(state@, creds@, outside::opt_text(path)),
{
    files::key_of_query(state, creds, path)
}

/// The answer where the room could not be loaded.
pub fn ai_unloaded() -> (r: Reply)
    ensures
        r@ == ReplyView::Status(500),
{
    Reply::Status(500)
}

/// What a model is told to be, where the user does not say.
pub open spec fn default_system() -> Seq<char> {
    "You are a precise draw.io (.drawio) diagram editor. Receive the full .drawio XML and the user instruction, apply the changes, and return ONLY the full updated .drawio XML. Do not include explanations, markdown, or code fences."@
}

fn default_system_text() -> (r: &'static str)
    ensures
        r@ == default_system(),
{
    "You are a precise draw.io (.drawio) diagram editor. Receive the full .drawio XML and the user instruction, apply the changes, and return ONLY the full updated .drawio XML. Do not include explanations, markdown, or code fences."
}

/// What a model is asked: the instruction and the diagram as it stands.
pub open spec fn question(prompt: Seq<char>, diagram: Seq<char>) -> Seq<char> {
    "Instruction:\n"@ + prompt + "\n\nCurrent .drawio XML:\n"@ + diagram
}

/// How the room hears who is asked.
pub open spec fn asked_detail(provider: AiProvider, model: Seq<char>) -> Seq<char> {
    (match provider {
        AiProvider::Openrouter => "provider=Openrouter, model="@,
        AiProvider::Ollama => "provider=Ollama, model="@,
    }) + model
}

/// A job that is about to ask a model.
pub struct AiJob {
    pub id: String,
    pub system: String,
    pub user: String,
}

pub struct AiJobView {
    pub id: Seq<char>,
    pub system: Seq<char>,
    pub user: Seq<char>,
}

impl View for AiJob {
    type V = AiJobView;

    open spec fn view(&self) -> AiJobView {
        AiJobView { id: self.id@, system: self.system@, user: self.user@ }
    }
}

/// The job of a request.
pub open spec fn job_of(room: RoomView, req: AiModifyRequestView, id: Seq<char>) -> AiJobView {
    AiJobView {
        id,
        system: req.system.unwrap_or(default_system()),
        user: question(req.prompt, room.content),
    }
}

/// What the room is told before the model is asked.
pub open spec fn start_told(req: AiModifyRequestView, id: Seq<char>) -> Seq<ServerMessageView> {
    seq![
        status(id, "started"@, "Preparing prompt"@),
        status(id, "calling_provider"@, asked_detail(req.provider, req.model)),
    ]
}

/// Begins the job `id`: what to ask, and what to tell the room.
pub fn ai_begin(room: &Room, req: &AiModifyRequest, id: String) -> (r: (
    AiJob,
    Vec<ServerWsMessage>,
))
    ensures
        r.0@ == job_of(room@, req@, id@),
        told(r.1@) == start_told(req@, id@),
{
    let system = match &req.system {
        Some(s) => s.clone(),
        None => default_system_text().to_string(),
    };
    let user = text::concat3("Instruction:\n", req.prompt.as_str(), "\n\nCurrent .drawio XML:\n").concat(
        room.content(),
    );
    let detail = match req.provider {
        AiProvider::Openrouter => text::concat("provider=Openrouter, model=", req.model.as_str()),
        AiProvider::Ollama => text::concat("provider=Ollama, model=", req.model.as_str()),
    };
    let messages = tell_two(
        ai_status(id.as_str(), "started", "Preparing prompt"),
        ai_status(id.as_str(), "calling_provider", detail.as_str()),
    );
    (AiJob { id, system, user }, messages)
}

/// Begins a job under a new random name.
pub fn ai_start(room: &Room, req: &AiModifyRequest) -> (r: (AiJob, Vec<ServerWsMessage>))
    ensures
        outside::random_uuid(r.0@.id),
        r.0@ == job_of(room@, req@, r.0@.id),
        told(r.1@) == start_told(req@, r.0@.id),
{
    ai_begin(room, req, outside::fresh_uuid())
}

/// How much of an answer is shown, in characters.
pub const SHOWN_CHARS: usize = 500;

/// What is shown of an answer: its first characters.
pub open spec fn preview(raw: Seq<char>) -> Seq<char> {
    if raw.len() > SHOWN_CHARS {
        raw.take(SHOWN_CHARS as int) + "..."@
    } else {
        raw
    }
}

fn preview_of(raw: &str) -> (r: String)
    ensures
        r@ == preview(raw@),
{
    let chars = text::chars_of(raw);
    let n: usize = chars.len();
    if n > SHOWN_CHARS {
        let head = outside::string_of(vstd::slice::slice_subrange(&chars, 0, SHOWN_CHARS));
        assert(head@ =~= raw@.take(SHOWN_CHARS as int));
        text::concat(head.as_str(), "...")
    } else {
        raw.to_string()
    }
}

/// The error for an answer that holds no diagram.
pub open spec fn no_diagram(raw: Seq<char>) -> Seq<char> {
    "AI did not return valid .drawio XML. Received: "@ + preview(raw)
}

/// What the room is told, and what is done, once the model has answered or failed to: the new
/// diagram, or an answer to the request.
pub open spec fn answered(id: Seq<char>, result: Result<Seq<char>, Seq<char>>) -> (
    Seq<ServerMessageView>,
    Result<Seq<char>, ReplyView>,
) {
    match result {
        Err(err) => (
            seq![status(id, "error"@, "provider error: "@ + err)],
            Err(ReplyView::Text(502, "ai error: "@ + err)),
        ),
        Ok(raw) => {
            let received = status(
                id,
                "received"@,
                "received "@ + text::decimal(vstd::utf8::encode_utf8(raw).len()) + " chars"@,
            );
            let parsing = status(id, "parsing"@, "Extracting .drawio XML from response"@);
            match xml::extracted(raw) {
                Some(diagram) => (seq![received, parsing], Ok(diagram)),
                None => (
                    seq![received, parsing, status(id, "error"@, no_diagram(raw))],
                    Err(ReplyView::Text(502, no_diagram(raw))),
                ),
            }
        },
    }
}

/// The texts of a result.
pub open spec fn result_view(r: Result<String, String>) -> Result<Seq<char>, Seq<char>> {
    match r {
        Ok(s) => Ok(s@),
        Err(e) => Err(e@),
    }
}

/// Takes what the model has answered: the new diagram, or an answer to the request. Of an answer that
/// holds no diagram the beginning is shown.
pub fn ai_answered(id: &str, result: Result<String, String>) -> (r: (
    Vec<ServerWsMessage>,
    Result<String, Reply>,
))
    ensures
        (told(r.0@), http::key_or_reply(r.1)) == answered(id@, result_view(result)),
{
    match result {
        Err(err) => (
            tell_one(
                ai_status(id, "error", text::concat("provider error: ", err.as_str()).as_str()),
            ),
            Err(Reply::Text(502, text::concat("ai error: ", err.as_str()))),
        ),
        Ok(raw) => {
            let n: usize = raw.as_str().as_bytes().len();
            let count = text::decimal_string(n as u64);
            let mut messages = tell_two(
                ai_status(
                    id,
                    "received",
                    text::concat3("received ", count.as_str(), " chars").as_str(),
                ),
                ai_status(id, "parsing", "Extracting .drawio XML from response"),
            );
            match xml::extract_xml(raw.as_str()) {
                Some(diagram) => (messages, Ok(diagram)),
                None => {
                    let detail = text::concat(
                        "AI did not return valid .drawio XML. Received: ",
                        preview_of(raw.as_str()).as_str(),
                    );
                    let ghost before = told(messages@);
                    let last = ai_status(id, "error", detail.as_str());
                    let ghost l = last@;
                    messages.push(last);
                    assert(told(messages@) =~= before.push(l));
                    assert(told(messages@) =~= answered(id@, result_view(result)).0);
                    (messages, Err(Reply::Text(502, detail)))
                },
            }
        },
    }
}

/// Puts the new diagram into the room and begins to write its file. The new version, the place of
/// the file and what to tell the room are given back.
pub fn ai_apply(
    state: &mut AppState,
    room: &mut Room,
    file_key: &str,
    id: &str,
    diagram: &str,
    now: u64,
) -> (r: (u64, String, ServerWsMessage))
    ensures
        final(room)@ == old(room)@.replaced(diagram@),
        final(state)@ == old(state)@.writing_at(file_key@, now),
        r.0 == final(room)@.version,
        r.1@ == files::place(old(state)@, file_key@),
        r.2@ == status(id@, "updating"@, "Persisting file and broadcasting update"@),
{
    let version: u64 = files::store(state, room, file_key, diagram, now);
    let path = paths::to_data_rel_path(state.data_dir(), file_key);
    (version, path, ai_status(id, "updating", "Persisting file and broadcasting update"))
}

/// What the room is told once the file was written.
pub open spec fn done_told(id: Seq<char>, version: u64, diagram: Seq<char>) -> Seq<
    ServerMessageView,
> {
    seq![
        ServerMessageView::Update {
            version,
            content: diagram,
            username: "ai"@,
            sender_id: "ai"@,
        },
        status(id, "done"@, "AI modification applied"@),
    ]
}

/// What the sender gets once the file was written.
pub open spec fn done_reply(version: u64, diagram: Seq<char>) -> ReplyView {
    ReplyView::AiResult { version, content: diagram }
}

/// Ends a job, once the file was written or could not be.
pub fn ai_written(id: &str, version: u64, diagram: String, written: bool) -> (r: (
    Vec<ServerWsMessage>,
    Reply,
))
    ensures
        if written {
            &&& told(r.0@) == done_told(id@, version, diagram@)
            &&& r.1@ == done_reply(version, diagram@)
        } else {
            &&& told(r.0@) == seq![status(id@, "error"@, "Failed to write updated file"@)]
            &&& r.1@ == ReplyView::Status(500)
        },
{
    if written {
        let update = ServerWsMessage::Update {
            version,
            content: diagram.clone(),
            username: "ai".to_string(),
            sender_id: "ai".to_string(),
        };
        let messages = tell_two(update, ai_status(id, "done", "AI modification applied"));
        (messages, Reply::AiResult { version, content: diagram })
    } else {
        (
            tell_one(ai_status(id, "error", "Failed to write updated file")),
            Reply::Status(500),
        )
    }
}

// ----- Laws -----

/// A model cannot break a diagram: what goes into a room looks like a diagram, and where an answer
/// holds none the request fails with 502.
pub proof fn only_diagrams_are_applied(id: Seq<char>, result: Result<Seq<char>, Seq<char>>)
    ensures
        match answered(id, result).1 {
            Ok(diagram) => xml::looks_valid(diagram) && result is Ok,
            Err(reply) => reply matches ReplyView::Text(code, _) && code == 502,
        },
{
}

/// Every job that fails tells the room so, with the phase `error`.
pub proof fn failures_are_told(id: Seq<char>, result: Result<Seq<char>, Seq<char>>)
    requires
        answered(id, result).1 is Err,
    ensures
        answered(id, result).0.len() > 0,
        answered(id, result).0.last() matches ServerMessageView::AiStatus {
            username,
            job_id,
            phase,
            detail,
        } && job_id == id && phase == "error"@,
{
}

/// The diagram that a request gets back is the one that the room holds and that all are told of.
pub proof fn applied_diagram_is_shared(room: RoomView, id: Seq<char>, diagram: Seq<char>)
    ensures
        ({
            let after = room.replaced(diagram);
            done_told(id, after.version, diagram)[0] == (ServerMessageView::Update {
                version: after.version,
                content: after.content,
                username: "ai"@,
                sender_id: "ai"@,
            })
        }),
{
}

/// A model is asked with the user's instruction and the diagram as it stands, both whole, and is told
/// to be what the user says, if the user says so.
pub proof fn models_are_asked_for_the_diagram(
    room: RoomView,
    req: AiModifyRequestView,
    id: Seq<char>,
)
    ensures
        ({
            let job = job_of(room, req, id);
            &&& job.id == id
            &&& job.user == "Instruction:\n"@ + req.prompt + "\n\nCurrent .drawio XML:\n"@
                + room.content
            &&& req.system matches Some(system) ==> job.system == system
            &&& req.system is None ==> job.system == default_system()
        }),
{
}

/// A question goes to its provider as it is: the model, what it is told to be and what it is asked are
/// those of the job, and the key or the address is the one that is set.
pub proof fn questions_go_to_their_providers(
    setting: Seq<char>,
    model: Seq<char>,
    system: Seq<char>,
    user: Seq<char>,
)
    ensures
        chat(AiProvider::Openrouter, None, model, system, user) is Err,
        chat(AiProvider::Openrouter, Some(setting), model, system, user) matches Ok(r) && r.bearer
            == Some(setting) && r.model == model && r.system == system && r.user == user
            && !r.options && r.url == "https://openrouter.ai/api/v1/chat/completions"@,
        chat(AiProvider::Ollama, Some(setting), model, system, user) matches Ok(r) && r.url
            == setting && r.bearer is None && r.model == model && r.system == system && r.user
            == user && r.options,
        chat(AiProvider::Ollama, None, model, system, user) matches Ok(r) && r.url
            == "http://localhost:11434/api/chat"@ && r.bearer is None && r.model == model
            && r.system == system && r.user == user && r.options,
{
}

/// Whatever a job tells the room, it tells as the model, under the job's name, with its phase and
/// details as they are.
pub proof fn statuses_are_told_as_they_are(id: Seq<char>, phase: Seq<char>, detail: Seq<char>)
    ensures
        status(id, phase, detail) == (ServerMessageView::AiStatus {
            username: "ai"@,
            job_id: id,
            phase,
            detail,
        }),
{
}

/// A diagram in an answer is applied: whenever an answer holds one, that one is handed on, and the room
/// hears that the answer came and is read. Whenever it holds none, the request fails, and both the room
/// and the sender see how the answer begins.
pub proof fn diagrams_in_answers_are_applied(id: Seq<char>, raw: Seq<char>)
    ensures
        xml::extracted(raw) matches Some(diagram) ==> answered(id, Ok(raw)).1 == Ok::<
            Seq<char>,
            ReplyView,
        >(diagram) && answered(id, Ok(raw)).0.len() == 2,
        xml::extracted(raw) is None ==> {
            let shown = "AI did not return valid .drawio XML. Received: "@ + (if raw.len() <= 500 {
                raw
            } else {
                raw.take(500) + "..."@
            });
            &&& answered(id, Ok(raw)).1 == Err::<Seq<char>, ReplyView>(ReplyView::Text(502, shown))
            &&& answered(id, Ok(raw)).0.len() == 3
            &&& answered(id, Ok(raw)).0[2] == (ServerMessageView::AiStatus {
                username: "ai"@,
                job_id: id,
                phase: "error"@,
                detail: shown,
            })
        },
        answered(id, Ok(raw)).0[0] == (ServerMessageView::AiStatus {
            username: "ai"@,
            job_id: id,
            phase: "received"@,
            detail: "received "@ + text::decimal(vstd::utf8::encode_utf8(raw).len()) + " chars"@,
        }),
        answered(id, Ok(raw)).0[1] == (ServerMessageView::AiStatus {
            username: "ai"@,
            job_id: id,
            phase: "parsing"@,
            detail: "Extracting .drawio XML from response"@,
        }),
{
}

/// An error of a provider is told to the room and to the sender as it is.
pub proof fn provider_errors_are_told(id: Seq<char>, error: Seq<char>)
    ensures
        answered(id, Err(error)).1 == Err::<Seq<char>, ReplyView>(
            ReplyView::Text(502, "ai error: "@ + error),
        ),
        answered(id, Err(error)).0 == seq![
            ServerMessageView::AiStatus {
                username: "ai"@,
                job_id: id,
                phase: "error"@,
                detail: "provider error: "@ + error,
            },
        ],
{
}

/// The room is told who is asked, before the model is.
pub proof fn start_is_told(req: AiModifyRequestView, id: Seq<char>)
    ensures
        start_told(req, id).len() == 2,
        start_told(req, id)[0] == (ServerMessageView::AiStatus {
            username: "ai"@,
            job_id: id,
            phase: "started"@,
            detail: "Preparing prompt"@,
        }),
        start_told(req, id)[1] matches ServerMessageView::AiStatus {
            username,
            job_id,
            phase,
            detail,
        } && username == "ai"@ && job_id == id && phase == "calling_provider"@ && detail == (if req.provider
            == AiProvider::Ollama {
            "provider=Ollama, model="@
        } else {
            "provider=Openrouter, model="@
        }) + req.model,
{
}

/// A diagram that was applied reaches every client of its room: one that held what the room held, and
/// takes what it is told, holds the new diagram and its version.
pub proof fn applied_diagrams_reach_all(room: RoomView, id: Seq<char>, diagram: Seq<char>)
    ensures
        ({
            let after = room.replaced(diagram);
            let told = done_told(id, after.version, diagram);
            &&& ws::received((room.version, room.content), told) == (after.version, diagram)
            &&& told.len() == 2
            &&& told[1] == (ServerMessageView::AiStatus {
                username: "ai"@,
                job_id: id,
                phase: "done"@,
                detail: "AI modification applied"@,
            })
        }),
{
    reveal_with_fuel(ws::received, 3);
    let after = room.replaced(diagram);
    let told = done_told(id, after.version, diagram);
    assert(told.drop_last() =~= seq![told[0]]);
}

/// An answer that came whole is what it holds, as it is; without content there is an error that names
/// the provider.
pub proof fn whole_answers_are_exact(provider: AiProvider, content: Seq<char>)
    ensures
        answer_or(provider, Some(content)) == Ok::<Seq<char>, CallErrorView>(content),
        answer_or(AiProvider::Openrouter, None) == Err::<Seq<char>, CallErrorView>(
            CallErrorView::Failed("no content in "@ + "openrouter"@ + " response"@),
        ),
        answer_or(AiProvider::Ollama, None) == Err::<Seq<char>, CallErrorView>(
            CallErrorView::Failed("no content in "@ + "ollama"@ + " response"@),
        ),
{
}

/// An answer that comes whole gives the text that it holds, as it is; an answer that is no success
/// gives the provider's own words.
pub proof fn whole_bodies_are_read(body: Seq<char>, said: Seq<char>)
    ensures
        outside::is_json(body) && outside::json_string(body, "/choices/0/message/content"@) == Some(
            said,
        ) ==> openrouter_answer(true, body) == Ok::<Seq<char>, CallErrorView>(said),
        outside::is_json(body) && outside::json_string(body, "/message/content"@) == Some(said)
            ==> ollama_answer(true, body) == Ok::<Seq<char>, CallErrorView>(said),
        outside::is_json(body) && outside::json_string(body, "/message/content"@) is None
            && outside::json_string(body, "/response"@) == Some(said) ==> ollama_answer(true, body)
            == Ok::<Seq<char>, CallErrorView>(said),
        openrouter_answer(false, body) == Err::<Seq<char>, CallErrorView>(
            CallErrorView::Failed("openrouter"@ + " error: "@ + body),
        ),
        ollama_answer(false, body) == Err::<Seq<char>, CallErrorView>(
            CallErrorView::Failed("ollama"@ + " error: "@ + body),
        ),
        !outside::is_json(body) ==> openrouter_answer(true, body) == Err::<
            Seq<char>,
            CallErrorView,
        >(CallErrorView::NotJson) && ollama_answer(true, body) == Err::<Seq<char>, CallErrorView>(
            CallErrorView::NotJson,
        ),
{
}

/// The sender gets the diagram that was applied, and its version.
pub proof fn senders_get_the_diagram(version: u64, diagram: Seq<char>)
    ensures
        done_reply(version, diagram) == (ReplyView::AiResult { version, content: diagram }),
{
}

} // verus!
