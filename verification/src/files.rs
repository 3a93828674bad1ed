//! Requests that read, write, move and remove diagrams.

use crate::auth;
use crate::auth::{Credentials, CredentialsView};
use crate::git_versioning::{VersionRequest, VersionRequestView};
use crate::http;
use crate::http::{Reply, ReplyView};
use crate::listing;
use crate::loading;
use crate::loading::{LoadActionView, LoadEventView};
use crate::outside;
use crate::paths;
use crate::room::{Room, RoomView};
use crate::state::{AppState, StateView};
use crate::text;
use crate::versions;
use crate::ws;
use vstd::prelude::*;

verus! {

// ----- Names in addresses -----

/// What may stand in a file name needs no decoding.
proof fn lemma_plain_bytes(name: Seq<char>)
    requires
        paths::name_text(name),
    ensures
        outside::percent_bytes(vstd::utf8::encode_utf8(name)) == vstd::utf8::encode_utf8(name),
    decreases name.len(),
{
    let bytes = vstd::utf8::encode_utf8(name);
    if name.len() > 0 {
        let rest = name.drop_first();
        assert forall|i: int| 0 <= i < rest.len() implies paths::name_char(#[trigger] rest[i]) by {
            assert(rest[i] == name[i + 1]);
        }
        lemma_plain_bytes(rest);
        let c = name[0] as u32;
        assert(paths::name_char(name[0]));
        assert((c & 0x7f) as u8 == c as u8 && c as u8 != 37) by (bit_vector)
            requires
                c < 128,
                c != 37,
        ;
        assert(bytes[0] != 37);
        assert(bytes.skip(1) =~= vstd::utf8::encode_utf8(rest));
        assert(outside::percent_bytes(bytes) =~= bytes);
    } else {
        assert(outside::percent_bytes(bytes) =~= bytes);
    }
}

/// Decodes a name in an address. One that is made of what may stand in a file name stands for itself.
pub fn decode_name(name: &str) -> (r: String)
    ensures
        r@ == outside::percent_decoded(name@),
        paths::name_text(name@) ==> r@ == name@,
{
    let r = outside::percent_decode(name);
    proof {
        if paths::name_text(name@) {
            lemma_plain_bytes(name@);
            vstd::utf8::encode_utf8_valid_utf8(name@);
            vstd::utf8::encode_utf8_decode_utf8(name@);
        }
    }
    r
}

// ----- Who may ask for what -----

/// The key of a plain name, or a refusal with this text.
pub open spec fn name_or(name: Seq<char>, refusal: Seq<char>) -> Result<Seq<char>, ReplyView> {
    if paths::plain_name(name) {
        Ok(name)
    } else {
        Err(http::bad_request(refusal))
    }
}

/// The clean form of a path, or a refusal with this text.
pub open spec fn path_or(path: Seq<char>, refusal: Seq<char>) -> Result<Seq<char>, ReplyView> {
    match paths::rel_path(path) {
        Some(safe) => Ok(safe),
        None => Err(http::bad_request(refusal)),
    }
}

/// Reading a file by its decoded name.
pub open spec fn name_to_read(state: StateView, c: CredentialsView, decoded: Seq<char>) -> Result<
    Seq<char>,
    ReplyView,
> {
    if !auth::may_read(state, c) {
        Err(ReplyView::Status(401))
    } else {
        name_or(decoded, "invalid file name"@)
    }
}

/// Writing or removing a file by its decoded name.
pub open spec fn name_to_write(state: StateView, c: CredentialsView, decoded: Seq<char>) -> Result<
    Seq<char>,
    ReplyView,
> {
    if auth::authorized(state, c) is None {
        Err(ReplyView::Status(401))
    } else {
        name_or(decoded, "invalid file name"@)
    }
}

/// A request about the path in the query.
pub open spec fn path_asked(
    state: StateView,
    c: CredentialsView,
    path: Option<Seq<char>>,
) -> Result<Seq<char>, ReplyView> {
    if auth::authorized(state, c) is None {
        Err(ReplyView::Status(401))
    } else {
        match path {
            None => Err(http::bad_request("missing path"@)),
            Some(p) => path_or(p, "invalid path"@),
        }
    }
}

fn key_of_name(name: &str, refusal: &str) -> (r: Result<String, Reply>)
    ensures
        http::key_or_reply(r) == name_or(name@, refusal@),
{
    match paths::to_file_key(name) {
        Some(key) => Ok(key),
        None => Err(http::refuse(refusal)),
    }
}

fn key_of_path(path: &str, refusal: &str) -> (r: Result<String, Reply>)
    ensures
        http::key_or_reply(r) == path_or(path@, refusal@),
{
    match paths::sanitize_rel_path(path) {
        Some(key) => Ok(key),
        None => Err(http::refuse(refusal)),
    }
}

/// The key of a file to read, given its decoded name.
pub fn key_to_read(state: &AppState, creds: &Credentials, decoded: &str) -> (r: Result<
    String,
    Reply,
>)
    ensures
        http::key_or_reply(r) == name_to_read(state@, creds@, decoded@),
{
    if !auth::is_reader(state, creds) {
        return Err(Reply::Status(401));
    }
    key_of_name(decoded, "invalid file name")
}

/// The key of a file to write or remove, given its decoded name.
pub fn key_to_write(state: &AppState, creds: &Credentials, decoded: &str) -> (r: Result<
    String,
    Reply,
>)
    ensures
        http::key_or_reply(r) == name_to_write(state@, creds@, decoded@),
{
    if auth::get_authorized_user_from_header_or_query(state, creds).is_none() {
        return Err(Reply::Status(401));
    }
    key_of_name(decoded, "invalid file name")
}

/// The key that a query asks for by `path`.
pub fn key_of_query(state: &AppState, creds: &Credentials, path: Option<String>) -> (r: Result<
    String,
    Reply,
>)
    ensures
        http::key_or_reply(r) == path_asked(state@, creds@, outside::opt_text(path)),
{
    if auth::get_authorized_user_from_header_or_query(state, creds).is_none() {
        return Err(Reply::Status(401));
    }
    match path {
        None => Err(http::refuse("missing path")),
        Some(p) => key_of_path(p.as_str(), "invalid path"),
    }
}

/// Where a path below the data directory leads.
pub open spec fn place(state: StateView, rel: Seq<char>) -> Seq<char> {
    paths::joined(state.data_dir, text::trimmed(rel, text::Class::Only('/')))
}

// ----- Reading -----

/// Which file to load for `GET /files/:name`, or a refusal.
pub fn get_file(state: &AppState, creds: &Credentials, name: &str) -> (r: Result<String, Reply>)
    ensures
        http::key_or_reply(r) == name_to_read(state@, creds@, outside::percent_decoded(name@)),
        paths::name_text(name@) ==> http::key_or_reply(r) == name_to_read(state@, creds@, name@),
{
    let decoded = decode_name(name);
    key_to_read(state, creds, decoded.as_str())
}

/// What is answered of the document in a room.
pub open spec fn document(file_key: Seq<char>, room: RoomView) -> ReplyView {
    ReplyView::File { name: file_key, version: room.version, content: room.content }
}

/// The view of a room, if there is one.
pub open spec fn room_view(room: Option<&Room>) -> Option<RoomView> {
    match room {
        Some(room) => Some(room@),
        None => None,
    }
}

/// What is answered of the document in a room, or a status where the room could not be loaded.
pub open spec fn document_or(
    file_key: Seq<char>,
    room: Option<RoomView>,
    status: u16,
) -> ReplyView {
    match room {
        Some(room) => document(file_key, room),
        None => ReplyView::Status(status),
    }
}

/// The document in a room as XML, or an error where the room could not be loaded.
pub open spec fn xml_or_error(room: Option<RoomView>) -> ReplyView {
    match room {
        Some(room) => ReplyView::Xml(room.content),
        None => ReplyView::Status(500),
    }
}

/// The answer to `GET /files/:name`, once the room was loaded or could not be.
pub fn get_file_loaded(file_key: String, room: Option<&Room>) -> (r: Reply)
    ensures
        r@ == document_or(file_key@, room_view(room), 500),
{
    match room {
        Some(room) => Reply::File {
            name: file_key,
            version: room.version(),
            content: room.content().to_string(),
        },
        None => Reply::Status(500),
    }
}

/// Which file to load for `GET /raw/:name`, or a refusal.
pub fn get_raw_file(state: &AppState, creds: &Credentials, name: &str) -> (r: Result<
    String,
    Reply,
>)
    ensures
        http::key_or_reply(r) == name_to_read(state@, creds@, outside::percent_decoded(name@)),
        paths::name_text(name@) ==> http::key_or_reply(r) == name_to_read(state@, creds@, name@),
{
    get_file(state, creds, name)
}

/// The answer to `GET /raw/:name`, once the room was loaded or could not be.
pub fn get_raw_file_loaded(room: Option<&Room>) -> (r: Reply)
    ensures
        r@ == xml_or_error(room_view(room)),
{
    match room {
        Some(room) => Reply::Xml(room.content().to_string()),
        None => Reply::Status(500),
    }
}

/// Which file to load for `GET /api/file`, or a refusal.
pub fn api_get_file(state: &AppState, creds: &Credentials, path: Option<String>) -> (r: Result<
    String,
    Reply,
>)
    ensures
        http::key_or_reply(r) == path_asked(state@, creds@, outside::opt_text(path)),
{
    key_of_query(state, creds, path)
}

/// The answer to `GET /api/file`, once the room was loaded or could not be.
pub fn api_get_file_loaded(file_key: String, room: Option<&Room>) -> (r: Reply)
    ensures
        r@ == document_or(file_key@, room_view(room), 404),
{
    match room {
        Some(room) => get_file_loaded(file_key, Some(room)),
        None => Reply::Status(404),
    }
}

/// Which file to send for `GET /api/download` and where it lies, or a refusal.
pub fn api_download(state: &AppState, creds: &Credentials, path: Option<String>) -> (r: Result<
    (String, String),
    Reply,
>)
    ensures
        http::pair_or_reply(r) == (match path_asked(state@, creds@, outside::opt_text(path)) {
            Ok(key) => Ok((key, place(state@, key))),
            Err(reply) => Err(reply),
        }),
{
    match key_of_query(state, creds, path) {
        Ok(key) => {
            let at = paths::to_data_rel_path(state.data_dir(), key.as_str());
            Ok((key, at))
        },
        Err(reply) => Err(reply),
    }
}

/// How a download is named: by what stands behind the last slash of its path.
pub open spec fn disposition(key: Seq<char>) -> Seq<char> {
    "attachment; filename=\""@ + paths::last_name(key) + "\""@
}

/// A file to save, or that there is none.
pub open spec fn attachment(key: Seq<char>, read: Option<Seq<u8>>) -> ReplyView {
    match read {
        Some(bytes) => ReplyView::Attachment { disposition: disposition(key), bytes },
        None => ReplyView::Status(404),
    }
}

/// The answer to `GET /api/download`, once the file was read or could not be.
pub fn api_download_read(file_key: &str, read: Option<Vec<u8>>) -> (r: Reply)
    ensures
        r@ == attachment(
            file_key@,
            match read {
                Some(bytes) => Some(bytes@),
                None => None,
            },
        ),
{
    match read {
        Some(bytes) => {
            let name = paths::file_name(file_key);
            Reply::Attachment {
                disposition: text::concat3("attachment; filename=\"", name.as_str(), "\""),
                bytes,
            }
        },
        None => Reply::Status(404),
    }
}

// ----- Writing -----

/// Which file to write for `PUT /files/:name`, or a refusal.
pub fn put_file(state: &AppState, creds: &Credentials, name: &str) -> (r: Result<String, Reply>)
    ensures
        http::key_or_reply(r) == name_to_write(state@, creds@, outside::percent_decoded(name@)),
        paths::name_text(name@) ==> http::key_or_reply(r) == name_to_write(state@, creds@, name@),
{
    let decoded = decode_name(name);
    key_to_write(state, creds, decoded.as_str())
}

/// Which file to write for `PUT /api/file`, or a refusal.
pub fn api_put_file(state: &AppState, creds: &Credentials, path: Option<String>) -> (r: Result<
    String,
    Reply,
>)
    ensures
        http::key_or_reply(r) == path_asked(state@, creds@, outside::opt_text(path)),
{
    key_of_query(state, creds, path)
}

/// Puts a document into its room and begins to write its file. The version of the room is given
/// back.
pub fn store(state: &mut AppState, room: &mut Room, file_key: &str, content: &str, now: u64) -> (v:
    u64)
    ensures
        final(room)@ == old(room)@.replaced(content@),
        final(state)@ == old(state)@.writing_at(file_key@, now),
        v == final(room)@.version,
{
    let v: u64 = room.replace(content.to_string());
    state.mark_file_writing(file_key, now);
    v
}

/// Puts a document into its room, if that could be loaded, and begins to write its file. The version
/// of the room is given back, or zero without a room.
pub fn store_loaded(
    state: &mut AppState,
    room: Option<&mut Room>,
    file_key: &str,
    content: &str,
    now: u64,
) -> (v: u64)
    ensures
        final(state)@ == old(state)@.writing_at(file_key@, now),
        match room {
            Some(room) => final(room)@ == room@.replaced(content@) && v == final(room)@.version,
            None => v == 0,
        },
{
    match room {
        Some(room) => store(state, room, file_key, content, now),
        None => {
            state.mark_file_writing(file_key, now);
            0
        },
    }
}

/// The version that a written file is kept under, where `commit` asks for one.
pub open spec fn commit_asked(
    state: StateView,
    c: CredentialsView,
    commit: Option<Seq<char>>,
    message: Option<Seq<char>>,
    key: Seq<char>,
    content: Seq<char>,
    version: u64,
) -> Option<VersionRequestView> {
    if commit == Some("true"@) {
        Some(
            VersionRequestView {
                file_path: key,
                content,
                username: auth::authorized(state, c).unwrap_or("unknown"@),
                version,
                message,
                force: true,
            },
        )
    } else {
        None
    }
}

/// The answer to a request that wrote a file, and the version to keep, if any. Where the room could
/// not be loaded, `version` is zero.
pub fn file_written(
    state: &AppState,
    creds: &Credentials,
    written: bool,
    commit: Option<String>,
    message: Option<String>,
    file_key: &str,
    content: &str,
    version: u64,
) -> (r: (Reply, Option<VersionRequest>))
    ensures
        r.0@ == ReplyView::Status(
            if written {
                204
            } else {
                500
            },
        ),
        (match r.1 {
            Some(v) => Some(v@),
            None => None,
        }) == (if written {
            commit_asked(
                state@,
                creds@,
                outside::opt_text(commit),
                outside::opt_text(message),
                file_key@,
                content@,
                version,
            )
        } else {
            None
        }),
{
    if !written {
        return (Reply::Status(500), None);
    }
    let wanted = match &commit {
        Some(c) => text::same_str(c.as_str(), "true"),
        None => false,
    };
    if !wanted {
        return (Reply::Status(204), None);
    }
    let username = match auth::get_authorized_user_from_header_or_query(state, creds) {
        Some(u) => u,
        None => "unknown".to_string(),
    };
    let request = VersionRequest {
        file_path: file_key.to_string(),
        content: content.to_string(),
        username,
        version,
        message,
        force: true,
    };
    (Reply::Status(204), Some(request))
}

// ----- Removing -----

/// Which file to remove for `DELETE /files/:name` and where it lies, or a refusal.
pub fn delete_file(state: &AppState, creds: &Credentials, name: &str) -> (r: Result<
    (String, String),
    Reply,
>)
    ensures
        http::pair_or_reply(r) == (match name_to_write(
            state@,
            creds@,
            outside::percent_decoded(name@),
        ) {
            Ok(key) => Ok((key, paths::joined(state@.data_dir, key))),
            Err(reply) => Err(reply),
        }),
{
    match put_file(state, creds, name) {
        Ok(key) => {
            let at = paths::to_data_path(state.data_dir(), key.as_str());
            Ok((key, at))
        },
        Err(reply) => Err(reply),
    }
}

/// Which file to remove for `DELETE /api/file` and where it lies, or a refusal.
pub fn api_delete_file(state: &AppState, creds: &Credentials, path: Option<String>) -> (r: Result<
    (String, String),
    Reply,
>)
    ensures
        http::pair_or_reply(r) == (match path_asked(state@, creds@, outside::opt_text(path)) {
            Ok(key) => Ok((key, place(state@, key))),
            Err(reply) => Err(reply),
        }),
{
    api_download(state, creds, path)
}

/// The memory after a file was removed, or could not be: its room is closed with it.
pub open spec fn removed(state: StateView, key: Seq<char>, done: bool) -> StateView {
    if done {
        state.with_rooms(state.rooms.remove(key))
    } else {
        state
    }
}

/// The answer to a request to remove a file. Its room is closed if the file is gone; the number of
/// that room is given back.
pub fn file_deleted(state: &mut AppState, file_key: &str, deleted: bool) -> (r: (
    Reply,
    Option<u64>,
))
    requires
        old(state)@.wf(),
    ensures
        final(state)@.wf(),
        final(state)@ == removed(old(state)@, file_key@, deleted),
        if deleted {
            &&& r.0@ == ReplyView::Status(204)
            &&& r.1 == (if old(state)@.rooms.contains_key(file_key@) {
                Some(old(state)@.rooms[file_key@])
            } else {
                None
            })
        } else {
            r.0@ == ReplyView::Status(500) && r.1 is None
        },
{
    if deleted {
        let closed = state.close_room(file_key);
        (Reply::Status(204), closed)
    } else {
        (Reply::Status(500), None)
    }
}

// ----- Moving -----

/// A file that is to be moved: from one key to another, and where both lie.
pub struct RenamePlan {
    pub from: String,
    pub to: String,
    pub from_path: String,
    pub to_path: String,
}

pub struct RenamePlanView {
    pub from: Seq<char>,
    pub to: Seq<char>,
    pub from_path: Seq<char>,
    pub to_path: Seq<char>,
}

impl View for RenamePlan {
    type V = RenamePlanView;

    open spec fn view(&self) -> RenamePlanView {
        RenamePlanView {
            from: self.from@,
            to: self.to@,
            from_path: self.from_path@,
            to_path: self.to_path@,
        }
    }
}

pub open spec fn plan_or_reply(r: Result<RenamePlan, Reply>) -> Result<RenamePlanView, ReplyView> {
    match r {
        Ok(plan) => Ok(plan@),
        Err(reply) => Err(reply@),
    }
}

/// Moving a file by its decoded name: both names are plain, and the new one is that of a diagram.
pub open spec fn rename_asked(
    state: StateView,
    c: CredentialsView,
    decoded: Seq<char>,
    new_name: Seq<char>,
) -> Result<RenamePlanView, ReplyView> {
    if auth::authorized(state, c) is None {
        Err(ReplyView::Status(401))
    } else if !paths::plain_name(decoded) {
        Err(http::bad_request("invalid old file name"@))
    } else if !paths::plain_name(new_name) {
        Err(http::bad_request("invalid new file name"@))
    } else if !paths::is_drawio(new_name) {
        Err(http::bad_request("new name must end with .drawio"@))
    } else {
        Ok(
            RenamePlanView {
                from: decoded,
                to: new_name,
                from_path: paths::joined(state.data_dir, decoded),
                to_path: paths::joined(state.data_dir, new_name),
            },
        )
    }
}

/// What to move, given the decoded old name.
pub fn rename_named(state: &AppState, creds: &Credentials, decoded: &str, new_name: &str) -> (r:
    Result<RenamePlan, Reply>)
    ensures
        plan_or_reply(r) == rename_asked(state@, creds@, decoded@, new_name@),
{
    if auth::get_authorized_user_from_header_or_query(state, creds).is_none() {
        return Err(Reply::Status(401));
    }
    let from = match key_of_name(decoded, "invalid old file name") {
        Ok(key) => key,
        Err(reply) => return Err(reply),
    };
    let to = match key_of_name(new_name, "invalid new file name") {
        Ok(key) => key,
        Err(reply) => return Err(reply),
    };
    if !paths::ends_with_drawio(to.as_str()) {
        return Err(http::refuse("new name must end with .drawio"));
    }
    let from_path = paths::to_data_path(state.data_dir(), from.as_str());
    let to_path = paths::to_data_path(state.data_dir(), to.as_str());
    Ok(RenamePlan { from, to, from_path, to_path })
}

/// What to move for `POST /files/:name/rename`, or a refusal.
pub fn rename_file(state: &AppState, creds: &Credentials, name: &str, new_name: &str) -> (r: Result<
    RenamePlan,
    Reply,
>)
    ensures
        plan_or_reply(r) == rename_asked(
            state@,
            creds@,
            outside::percent_decoded(name@),
            new_name@,
        ),
{
    let decoded = decode_name(name);
    rename_named(state, creds, decoded.as_str(), new_name)
}

/// Moving a file or a directory by its path.
pub open spec fn move_asked(
    state: StateView,
    c: CredentialsView,
    from: Seq<char>,
    to: Seq<char>,
) -> Result<RenamePlanView, ReplyView> {
    if auth::authorized(state, c) is None {
        Err(ReplyView::Status(401))
    } else {
        match (paths::rel_path(from), paths::rel_path(to)) {
            (None, _) => Err(http::bad_request("invalid from"@)),
            (Some(_), None) => Err(http::bad_request("invalid to"@)),
            (Some(a), Some(b)) => Ok(
                RenamePlanView {
                    from: a,
                    to: b,
                    from_path: place(state, a),
                    to_path: place(state, b),
                },
            ),
        }
    }
}

/// What to move for `POST /api/rename`, or a refusal.
pub fn api_rename(state: &AppState, creds: &Credentials, from: &str, to: &str) -> (r: Result<
    RenamePlan,
    Reply,
>)
    ensures
        plan_or_reply(r) == move_asked(state@, creds@, from@, to@),
{
    if auth::get_authorized_user_from_header_or_query(state, creds).is_none() {
        return Err(Reply::Status(401));
    }
    let from = match key_of_path(from, "invalid from") {
        Ok(key) => key,
        Err(reply) => return Err(reply),
    };
    let to = match key_of_path(to, "invalid to") {
        Ok(key) => key,
        Err(reply) => return Err(reply),
    };
    let from_path = paths::to_data_rel_path(state.data_dir(), from.as_str());
    let to_path = paths::to_data_rel_path(state.data_dir(), to.as_str());
    Ok(RenamePlan { from, to, from_path, to_path })
}

/// What stands at the old place may be called by the new name.
pub open spec fn may_be_called(is_file: Option<bool>, to: Seq<char>) -> bool {
    is_file == Some(true) ==> paths::is_drawio(to)
}

/// A file has to stay a diagram; a directory, or what nobody can tell, may be called anything.
/// `is_file` says what stands at the old place, if that is known.
pub fn api_rename_checked(plan: &RenamePlan, is_file: Option<bool>) -> (r: Option<Reply>)
    ensures
        r is Some <==> !may_be_called(is_file, plan@.to),
        r matches Some(reply) ==> reply@ == http::bad_request(
            "new file name must end with .drawio"@,
        ),
{
    match is_file {
        Some(true) => if paths::ends_with_drawio(plan.to.as_str()) {
            None
        } else {
            Some(http::refuse("new file name must end with .drawio"))
        },
        _ => None,
    }
}

/// The memory after a file was moved: its room moves along.
pub open spec fn moved(state: StateView, plan: RenamePlanView, done: bool) -> StateView {
    if done {
        state.with_rooms(state.rooms_renamed(plan.from, plan.to))
    } else {
        state
    }
}

/// The room that the moved one takes the place of, if there is one.
pub open spec fn displaced(state: StateView, plan: RenamePlanView, done: bool) -> Option<u64> {
    if done && state.rooms.contains_key(plan.from) && plan.from != plan.to
        && state.rooms.contains_key(plan.to) {
        Some(state.rooms[plan.to])
    } else {
        None
    }
}

fn move_room(state: &mut AppState, plan: &RenamePlan, done: bool) -> (r: Option<u64>)
    requires
        old(state)@.wf(),
    ensures
        final(state)@.wf(),
        final(state)@ == moved(old(state)@, plan@, done),
        r == displaced(old(state)@, plan@, done),
{
    if done {
        state.rename_room(plan.from.as_str(), plan.to.as_str())
    } else {
        None
    }
}

/// The answer to `POST /files/:name/rename`, once the file was moved or could not be. The number of
/// the room that is displaced is given back.
pub fn rename_file_done(state: &mut AppState, plan: RenamePlan, done: bool) -> (r: (
    Reply,
    Option<u64>,
))
    requires
        old(state)@.wf(),
    ensures
        final(state)@.wf(),
        final(state)@ == moved(old(state)@, plan@, done),
        r.0@ == (if done {
            ReplyView::Name(plan@.to)
        } else {
            ReplyView::Status(500)
        }),
        r.1 == displaced(old(state)@, plan@, done),
{
    let gone = move_room(state, &plan, done);
    if done {
        (Reply::Name(plan.to), gone)
    } else {
        (Reply::Status(500), gone)
    }
}

/// The answer to `POST /api/rename`, once the file was moved or could not be. The number of the room
/// that is displaced is given back.
pub fn api_rename_done(state: &mut AppState, plan: RenamePlan, done: bool) -> (r: (
    Reply,
    Option<u64>,
))
    requires
        old(state)@.wf(),
    ensures
        final(state)@.wf(),
        final(state)@ == moved(old(state)@, plan@, done),
        r.0@ == (if done {
            ReplyView::Path(plan@.to)
        } else {
            ReplyView::Status(500)
        }),
        r.1 == displaced(old(state)@, plan@, done),
{
    let gone = move_room(state, &plan, done);
    if done {
        (Reply::Path(plan.to), gone)
    } else {
        (Reply::Status(500), gone)
    }
}

// ----- Directories -----

/// Which directory to make for `POST /api/mkdir`, or a refusal.
pub fn api_mkdir(state: &AppState, creds: &Credentials, path: &str) -> (r: Result<String, Reply>)
    ensures
        http::key_or_reply(r) == (if auth::authorized(state@, creds@) is None {
            Err(ReplyView::Status(401))
        } else {
            match path_or(path@, "invalid path"@) {
                Ok(key) => Ok(place(state@, key)),
                Err(reply) => Err(reply),
            }
        }),
{
    if auth::get_authorized_user_from_header_or_query(state, creds).is_none() {
        return Err(Reply::Status(401));
    }
    match key_of_path(path, "invalid path") {
        Ok(key) => Ok(paths::to_data_rel_path(state.data_dir(), key.as_str())),
        Err(reply) => Err(reply),
    }
}

/// The answer to `POST /api/mkdir`, once the directory stands or could not be made.
pub fn api_mkdir_done(done: bool) -> (r: Reply)
    ensures
        r@ == ReplyView::Status(
            if done {
                204
            } else {
                500
            },
        ),
{
    if done {
        Reply::Status(204)
    } else {
        Reply::Status(500)
    }
}

// ----- Laws -----

/// Whoever brings neither a session nor the access token is answered 401, whatever is asked for,
/// and nothing is done.
pub proof fn strangers_are_refused(
    state: StateView,
    c: CredentialsView,
    path: Option<Seq<char>>,
    a: Seq<char>,
    b: Seq<char>,
)
    requires
        auth::authorized(state, c) is None,
    ensures
        path_asked(state, c, path) == Err::<Seq<char>, ReplyView>(ReplyView::Status(401)),
        name_to_write(state, c, a) == Err::<Seq<char>, ReplyView>(ReplyView::Status(401)),
        rename_asked(state, c, a, b) == Err::<RenamePlanView, ReplyView>(ReplyView::Status(401)),
        move_asked(state, c, a, b) == Err::<RenamePlanView, ReplyView>(ReplyView::Status(401)),
        versions::user_path_asked(state, c, path) == Err::<(Seq<char>, Seq<char>), ReplyView>(
            ReplyView::Status(401),
        ),
        ws::ws_admitted(state, c, path, a) == Err::<(Seq<char>, Seq<char>), ReplyView>(
            ReplyView::Text(401, "login required"@),
        ),
        state.require_token ==> name_to_read(state, c, a) == Err::<Seq<char>, ReplyView>(
            ReplyView::Status(401),
        ),
        state.require_token ==> listing::listed_dir(state, c, path) == Err::<Seq<char>, ReplyView>(
            ReplyView::Status(401),
        ),
{
}

/// No request reaches a file outside the data directory: what is read, written, removed or moved
/// by its path lies below it.
pub proof fn requests_stay_inside(
    state: StateView,
    c: CredentialsView,
    path: Option<Seq<char>>,
)
    requires
        path_asked(state, c, path) is Ok,
    ensures
        ({
            let key = path_asked(state, c, path)->Ok_0;
            &&& paths::clean(key)
            &&& text::has_prefix(place(state, key), state.data_dir)
            &&& paths::joined(state.data_dir, key) == place(state, key)
        }),
{
    let p = path->0;
    let key = path_asked(state, c, path)->Ok_0;
    paths::sanitizing_is_stable(p);
    paths::lemma_clean_ends(key);
    text::lemma_trimmed_fixed(key, text::Class::Only('/'));
    let whole = paths::joined(state.data_dir, key);
    assert(whole.subrange(0, state.data_dir.len() as int) =~= state.data_dir);
}

/// No request by name reaches a file outside the data directory either: what is read, written or
/// removed lies in it, and no name leads up.
pub proof fn names_stay_inside(state: StateView, c: CredentialsView, decoded: Seq<char>)
    requires
        name_to_read(state, c, decoded) is Ok || name_to_write(state, c, decoded) is Ok,
    ensures
        decoded != "."@,
        decoded != ".."@,
        !decoded.contains('/'),
        decoded.len() > 0 ==> paths::clean(decoded),
        text::has_prefix(paths::joined(state.data_dir, decoded), state.data_dir),
{
    if decoded.contains('/') {
        let i = choose|i: int| 0 <= i < decoded.len() && decoded[i] == '/';
        assert(paths::name_char(decoded[i]));
    }
    if decoded.len() > 0 {
        paths::file_key_is_rel_path(decoded);
        assert(decoded[0] != '/') by {
            assert(paths::name_char(decoded[0]));
        }
        assert(paths::name_char(decoded[decoded.len() - 1]));
        text::lemma_trimmed_fixed(decoded, text::Class::Only('/'));
    }
    let whole = paths::joined(state.data_dir, decoded);
    assert(whole.subrange(0, state.data_dir.len() as int) =~= state.data_dir);
}

/// What was written is what is read: after a document was put into its room, reading the file gives
/// it back with the next version, and so does loading the file that was written into a new room.
pub proof fn writes_are_read_back(
    state: StateView,
    room: RoomView,
    key: Seq<char>,
    content: Seq<char>,
)
    requires
        room.version < u64::MAX,
    ensures
        document(key, room.replaced(content)) == (ReplyView::File {
            name: key,
            version: (room.version + 1) as u64,
            content,
        }),
        !state.rooms.contains_key(key) ==> (loading::load_step(
            state,
            key,
            LoadEventView::Found(Some(content)),
        ).1 matches LoadActionView::Open { id: _, room: loaded } && document(key, loaded) == (
        ReplyView::File { name: key, version: 0, content })),
{
}

/// Moving a file moves its room: whoever opens the new name finds the document that the old one
/// had, and the old name has none.
pub proof fn room_moves_with_file(state: StateView, plan: RenamePlanView)
    requires
        state.wf(),
        state.rooms.contains_key(plan.from),
        plan.from != plan.to,
    ensures
        ({
            let after = moved(state, plan, true);
            &&& after.rooms.contains_key(plan.to)
            &&& after.rooms[plan.to] == state.rooms[plan.from]
            &&& !after.rooms.contains_key(plan.from)
        }),
{
}

/// Whoever may ask for a file gets to it: by every ordinary name and by every clean path, as it is.
pub proof fn files_can_be_reached(
    state: StateView,
    c: CredentialsView,
    path: Seq<char>,
    name: Seq<char>,
)
    requires
        auth::authorized(state, c) is Some,
        paths::clean(path),
        paths::plain_name(name),
    ensures
        path_asked(state, c, Some(path)) == Ok::<Seq<char>, ReplyView>(path),
        name_to_read(state, c, name) == Ok::<Seq<char>, ReplyView>(name),
        name_to_write(state, c, name) == Ok::<Seq<char>, ReplyView>(name),
        versions::user_path_asked(state, c, Some(path)) == Ok::<(Seq<char>, Seq<char>), ReplyView>(
            (auth::authorized(state, c)->0, path),
        ),
        path_asked(state, c, None) == Err::<Seq<char>, ReplyView>(
            ReplyView::Text(400, "missing path"@),
        ),
{
    paths::lemma_clean_ends(path);
    text::lemma_trimmed_fixed(path, text::Class::Only('/'));
}

/// Files can be moved: from every ordinary name to every one of a diagram, and from every clean path
/// to every other.
pub proof fn files_can_be_moved(
    state: StateView,
    c: CredentialsView,
    name: Seq<char>,
    new_name: Seq<char>,
    from: Seq<char>,
    to: Seq<char>,
)
    requires
        auth::authorized(state, c) is Some,
        paths::plain_name(name),
        paths::plain_name(new_name),
        text::has_suffix(new_name, ".drawio"@),
        paths::clean(from),
        paths::clean(to),
    ensures
        rename_asked(state, c, name, new_name) == Ok::<RenamePlanView, ReplyView>(
            RenamePlanView {
                from: name,
                to: new_name,
                from_path: paths::joined(state.data_dir, name),
                to_path: paths::joined(state.data_dir, new_name),
            },
        ),
        move_asked(state, c, from, to) == Ok::<RenamePlanView, ReplyView>(
            RenamePlanView {
                from,
                to,
                from_path: paths::joined(state.data_dir, from),
                to_path: paths::joined(state.data_dir, to),
            },
        ),
{
    paths::lemma_clean_ends(from);
    paths::lemma_clean_ends(to);
    text::lemma_trimmed_fixed(from, text::Class::Only('/'));
    text::lemma_trimmed_fixed(to, text::Class::Only('/'));
}

/// A version of a written file is kept exactly if `commit` is `true`, and it is what was written: the
/// content, for that file, with the version and the words that came with it, by the sender.
pub proof fn commits_are_made_on_request(
    state: StateView,
    c: CredentialsView,
    commit: Option<Seq<char>>,
    message: Option<Seq<char>>,
    key: Seq<char>,
    content: Seq<char>,
    version: u64,
)
    ensures
        ({
            let asked = commit_asked(state, c, commit, message, key, content, version);
            &&& asked is Some <==> commit == Some("true"@)
            &&& asked matches Some(req) ==> {
                &&& req.file_path == key
                &&& req.content == content
                &&& req.version == version
                &&& req.message == message
                &&& req.force
                &&& auth::authorized(state, c) is Some ==> req.username == auth::authorized(
                    state,
                    c,
                )->0
                &&& auth::authorized(state, c) is None ==> req.username == "unknown"@
            }
        }),
{
}

/// A download is named by the last name of its path.
pub proof fn downloads_are_named(dir: Seq<char>, name: Seq<char>)
    requires
        paths::rel_path(dir) == Some(dir),
        paths::component(name),
    ensures
        disposition(dir + seq!['/'] + name) == "attachment; filename=\""@ + name + "\""@,
        disposition(name) == "attachment; filename=\""@ + name + "\""@,
{
    paths::deeper_paths_are_accepted(dir, name);
    if name.contains('/') {
        let i = choose|i: int| 0 <= i < name.len() && name[i] == '/';
        assert(paths::path_char(name[i]));
    }
    text::lemma_pieces_single(name, '/');
}

/// A failed move changes nothing, and a move gives the room that stood at the new place away.
pub proof fn moves_are_all_or_nothing(state: StateView, plan: RenamePlanView, other: Seq<char>)
    ensures
        moved(state, plan, false) == state,
        displaced(state, plan, false) is None,
        displaced(state, plan, true) matches Some(id) ==> state.rooms.contains_key(plan.to)
            && state.rooms[plan.to] == id,
        state.rooms.contains_key(plan.from) && plan.from != plan.to && state.rooms.contains_key(
            plan.to,
        ) ==> displaced(state, plan, true) is Some,
        other != plan.from && other != plan.to ==> {
            let after = moved(state, plan, true);
            &&& after.rooms.contains_key(other) == state.rooms.contains_key(other)
            &&& state.rooms.contains_key(other) ==> after.rooms[other] == state.rooms[other]
        },
        moved(state, plan, true).sessions == state.sessions,
        moved(state, plan, true).writing == state.writing,
{
}

/// A document is read as it stands in its room, in every form that it can be read in, whatever it holds;
/// only where there is no room is there none.
pub proof fn documents_are_read_as_they_stand(key: Seq<char>, room: RoomView, status: u16)
    ensures
        document_or(key, Some(room), status) == (ReplyView::File {
            name: key,
            version: room.version,
            content: room.content,
        }),
        xml_or_error(Some(room)) == ReplyView::Xml(room.content),
        document_or(key, None, status) == ReplyView::Status(status),
        xml_or_error(None) == ReplyView::Status(500),
{
}

/// A download is the file, byte for byte.
pub proof fn downloads_are_whole(key: Seq<char>, bytes: Seq<u8>)
    ensures
        attachment(key, Some(bytes)) matches ReplyView::Attachment { disposition: _, bytes: b } && b
            == bytes,
        attachment(key, None) == ReplyView::Status(404),
{
}

/// A file may be called by every name of a diagram and by no other; a directory by any.
pub proof fn files_stay_diagrams(to: Seq<char>)
    ensures
        may_be_called(Some(true), to) <==> text::has_suffix(to, ".drawio"@),
        may_be_called(Some(false), to),
        may_be_called(None, to),
{
}

/// Removing a file closes its room and no other, and changes nothing else; where it fails, nothing is
/// changed.
pub proof fn removed_files_have_no_rooms(state: StateView, key: Seq<char>, other: Seq<char>)
    ensures
        !removed(state, key, true).rooms.contains_key(key),
        other != key ==> {
            let after = removed(state, key, true);
            &&& after.rooms.contains_key(other) == state.rooms.contains_key(other)
            &&& state.rooms.contains_key(other) ==> after.rooms[other] == state.rooms[other]
        },
        removed(state, key, true).sessions == state.sessions,
        removed(state, key, true).writing == state.writing,
        removed(state, key, false) == state,
{
}

/// What names no file is refused, and says what was wrong, whoever asks; nothing is then done.
pub proof fn bad_names_are_refused(
    state: StateView,
    c: CredentialsView,
    path: Seq<char>,
    name: Seq<char>,
    good_path: Seq<char>,
    good_name: Seq<char>,
)
    requires
        auth::authorized(state, c) is Some,
        paths::rel_path(path) is None,
        path.len() > 0,
        !paths::plain_name(name),
        paths::rel_path(good_path) is Some,
        paths::plain_name(good_name),
        !text::has_suffix(good_name, ".drawio"@),
    ensures
        path_asked(state, c, Some(path)) == Err::<Seq<char>, ReplyView>(
            ReplyView::Text(400, "invalid path"@),
        ),
        listing::listed_dir(state, c, Some(path)) == Err::<Seq<char>, ReplyView>(
            ReplyView::Text(400, "invalid path"@),
        ),
        ws::ws_admitted(state, c, Some(path), name) == Err::<(Seq<char>, Seq<char>), ReplyView>(
            ReplyView::Text(400, "invalid path"@),
        ),
        name_to_read(state, c, name) == Err::<Seq<char>, ReplyView>(
            ReplyView::Text(400, "invalid file name"@),
        ),
        name_to_write(state, c, name) == Err::<Seq<char>, ReplyView>(
            ReplyView::Text(400, "invalid file name"@),
        ),
        ws::ws_admitted(state, c, None, name) == Err::<(Seq<char>, Seq<char>), ReplyView>(
            ReplyView::Text(400, "invalid file name"@),
        ),
        rename_asked(state, c, name, good_name) == Err::<RenamePlanView, ReplyView>(
            ReplyView::Text(400, "invalid old file name"@),
        ),
        rename_asked(state, c, good_name, name) == Err::<RenamePlanView, ReplyView>(
            ReplyView::Text(400, "invalid new file name"@),
        ),
        rename_asked(state, c, good_name, good_name) == Err::<RenamePlanView, ReplyView>(
            ReplyView::Text(400, "new name must end with .drawio"@),
        ),
        move_asked(state, c, path, good_path) == Err::<RenamePlanView, ReplyView>(
            ReplyView::Text(400, "invalid from"@),
        ),
        move_asked(state, c, good_path, path) == Err::<RenamePlanView, ReplyView>(
            ReplyView::Text(400, "invalid to"@),
        ),
{
}

} // verus!
