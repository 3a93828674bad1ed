//! Requests about the history of a diagram.

use crate::auth;
use crate::auth::{Credentials, CredentialsView};
use crate::files;
use crate::git_versioning;
use crate::git_versioning::{VersionInfo, VersionInfoView, VersionRequest, VersionRequestView};
use crate::http;
use crate::http::{Reply, ReplyView};
use crate::outside;
use crate::paths;
use crate::room::{Room, RoomView};
use crate::state::{AppState, StateView};
use crate::text;
use vstd::prelude::*;

verus! {

/// The answer to a request that failed inside.
pub open spec fn failed(what: Seq<char>, error: Seq<char>) -> ReplyView {
    ReplyView::Text(500, what + error)
}

fn fail(what: &str, error: &str) -> (r: Reply)
    ensures
        r@ == failed(what@, error@),
{
    Reply::Text(500, text::concat(what, error))
}

/// A request of a user about the path in the query: who it is, and the key.
pub open spec fn user_path_asked(
    state: StateView,
    c: CredentialsView,
    path: Option<Seq<char>>,
) -> Result<(Seq<char>, Seq<char>), ReplyView> {
    match files::path_asked(state, c, path) {
        Ok(key) => Ok((auth::authorized(state, c)->0, key)),
        Err(reply) => Err(reply),
    }
}

fn user_and_key(state: &AppState, creds: &Credentials, path: Option<String>) -> (r: Result<
    (String, String),
    Reply,
>)
    ensures
        http::pair_or_reply(r) == user_path_asked(state@, creds@, outside::opt_text(path)),
{
    match auth::get_authorized_user_from_header_or_query(state, creds) {
        None => Err(Reply::Status(401)),
        Some(username) => match files::key_of_query(state, creds, path) {
            Ok(key) => Ok((username, key)),
            Err(reply) => Err(reply),
        },
    }
}

// ----- Listing -----

/// Which file's versions to list, or a refusal.
pub fn api_list_versions(state: &AppState, creds: &Credentials, path: Option<String>) -> (r: Result<
    String,
    Reply,
>)
    ensures
        http::key_or_reply(r) == files::path_asked(state@, creds@, outside::opt_text(path)),
{
    files::key_of_query(state, creds, path)
}

/// The answer to a request for the versions of a file.
pub fn api_list_versions_done(file_key: String, listed: Result<Vec<VersionInfo>, String>) -> (r:
    Reply)
    ensures
        r@ == (match listed {
            Ok(versions) => ReplyView::Versions {
                file: file_key@,
                versions: git_versioning::versions_view(versions@),
            },
            Err(e) => failed("Failed to list versions: "@, e@),
        }),
{
    match listed {
        Ok(versions) => Reply::Versions { file: file_key, versions },
        Err(e) => fail("Failed to list versions: ", e.as_str()),
    }
}

// ----- Restoring -----

/// Who restores which file, or a refusal.
pub fn api_restore_version(state: &AppState, creds: &Credentials, path: Option<String>) -> (r:
    Result<(String, String), Reply>)
    ensures
        http::pair_or_reply(r) == user_path_asked(state@, creds@, outside::opt_text(path)),
{
    user_and_key(state, creds, path)
}

/// The version that a restored document gets: the next one, or the first where the room could not
/// be loaded.
pub open spec fn next_version(room: Option<RoomView>) -> u64 {
    match room {
        Some(room) => (room.version + 1) as u64,
        None => 1,
    }
}

/// The version that a restored document gets.
pub fn restored_version(room: Option<&Room>) -> (v: u64)
    requires
        room matches Some(room) ==> room@.version < u64::MAX,
    ensures
        v == next_version(
            match room {
                Some(room) => Some(room@),
                None => None,
            },
        ),
{
    match room {
        Some(room) => room.version() + 1,
        None => 1,
    }
}

/// What came of making a version from an old one: the version to bring into the room, or the answer.
/// The room is left alone where none was made.
pub open spec fn restore_made(restored: Result<VersionInfoView, Seq<char>>) -> Result<
    VersionInfoView,
    ReplyView,
> {
    match restored {
        Ok(made) => Ok(made),
        Err(e) => Err(failed("Failed to restore version: "@, e)),
    }
}

/// What came of making a version from an old one: the version to bring into the room, or the answer.
pub fn api_restore_made(restored: Result<VersionInfo, String>) -> (r: Result<VersionInfo, Reply>)
    ensures
        (match r {
            Ok(made) => Ok(made@),
            Err(reply) => Err(reply@),
        }) == restore_made(
            match restored {
                Ok(made) => Ok(made@),
                Err(e) => Err(e@),
            },
        ),
{
    match restored {
        Ok(made) => Ok(made),
        Err(e) => Err(fail("Failed to restore version: ", e.as_str())),
    }
}

/// Brings a version that was made into its room, if that could be loaded: the answer, and the text to
/// write with the place of its file. Where the text can no longer be had, it is empty.
pub fn api_restore_done(
    state: &AppState,
    room: Option<&mut Room>,
    file_key: &str,
    made: VersionInfo,
    content: Option<String>,
    version: u64,
) -> (r: (Reply, Option<(String, String)>))
    ensures
        r.0@ == ReplyView::Version(made@),
        match room {
            Some(room) => {
                let text = outside::opt_text(content).unwrap_or(""@);
                &&& final(room)@ == room@.set(text, version)
                &&& r.1 matches Some(write) && write.0@ == text && write.1@ == files::place(
                    state@,
                    file_key@,
                )
            },
            None => r.1 is None,
        },
{
    let write = match room {
        Some(room) => {
            let content = match content {
                Some(c) => c,
                None => "".to_string(),
            };
            room.set(content.clone(), version);
            Some((content, paths::to_data_rel_path(state.data_dir(), file_key)))
        },
        None => None,
    };
    (Reply::Version(made), write)
}

// ----- Checkpoints -----

/// Who wants a checkpoint of which file, or a refusal.
pub fn api_checkpoint(state: &AppState, creds: &Credentials, path: Option<String>) -> (r: Result<
    (String, String),
    Reply,
>)
    ensures
        http::pair_or_reply(r) == user_path_asked(state@, creds@, outside::opt_text(path)),
{
    user_and_key(state, creds, path)
}

/// The version that a checkpoint keeps: the document as it stands.
pub open spec fn checkpoint(
    room: RoomView,
    username: Seq<char>,
    key: Seq<char>,
    message: Option<Seq<char>>,
) -> VersionRequestView {
    VersionRequestView {
        file_path: key,
        content: room.content,
        username,
        version: room.version,
        message,
        force: true,
    }
}

/// The version that a checkpoint keeps, or the answer where the room could not be loaded.
pub fn checkpoint_request(
    room: Option<&Room>,
    username: String,
    file_key: String,
    message: Option<String>,
) -> (r: Result<VersionRequest, Reply>)
    ensures
        match (room, r) {
            (Some(room), Ok(v)) => v@ == checkpoint(
                room@,
                username@,
                file_key@,
                outside::opt_text(message),
            ),
            (None, Err(reply)) => reply@ == ReplyView::Text(404, "File not found"@),
            _ => false,
        },
{
    match room {
        Some(room) => Ok(
            VersionRequest {
                file_path: file_key,
                content: room.content().to_string(),
                username,
                version: room.version(),
                message,
                force: true,
            },
        ),
        None => Err(Reply::Text(404, "File not found".to_string())),
    }
}

/// The answer to a request for a checkpoint.
pub fn api_checkpoint_done(made: Result<Option<VersionInfo>, String>) -> (r: Reply)
    ensures
        r@ == (match made {
            Ok(Some(v)) => ReplyView::Version(v@),
            Ok(None) => ReplyView::Text(500, "Failed to create checkpoint"@),
            Err(e) => failed("Failed to create checkpoint: "@, e@),
        }),
{
    match made {
        Ok(Some(v)) => Reply::Version(v),
        Ok(None) => Reply::Text(500, "Failed to create checkpoint".to_string()),
        Err(e) => fail("Failed to create checkpoint: ", e.as_str()),
    }
}

// ----- Remotes -----

/// Whether a remote may be set: `None` if so. This is an administrative function.
pub fn api_set_remote(state: &AppState, creds: &Credentials) -> (r: Option<Reply>)
    ensures
        r is None <==> auth::may_administer(state@, creds@),
        r matches Some(reply) ==> reply@ == ReplyView::Status(401),
{
    if auth::is_administrator(state, creds) {
        None
    } else {
        Some(Reply::Status(401))
    }
}

/// The answer to a request to set a remote.
pub fn api_set_remote_done(remote_name: String, url: String, done: Result<(), String>) -> (r: Reply)
    ensures
        r@ == (match done {
            Ok(()) => ReplyView::RemoteSet { remote_name: remote_name@, url: url@ },
            Err(e) => failed("Failed to set remote: "@, e@),
        }),
{
    match done {
        Ok(()) => Reply::RemoteSet { remote_name, url },
        Err(e) => fail("Failed to set remote: ", e.as_str()),
    }
}

/// What is pushed where, or a refusal.
pub open spec fn push_asked(
    state: StateView,
    c: CredentialsView,
    remote_name: Option<Seq<char>>,
    branch: Option<Seq<char>>,
) -> Result<(Seq<char>, Seq<char>), ReplyView> {
    if !auth::may_administer(state, c) {
        Err(ReplyView::Status(401))
    } else {
        Ok((remote_name.unwrap_or("origin"@), branch.unwrap_or("main"@)))
    }
}

/// What to push where, or a refusal: `main` to `origin` where the request does not say. This is an
/// administrative function.
pub fn api_push_to_remote(
    state: &AppState,
    creds: &Credentials,
    remote_name: Option<String>,
    branch: Option<String>,
) -> (r: Result<(String, String), Reply>)
    ensures
        http::pair_or_reply(r) == push_asked(
            state@,
            creds@,
            outside::opt_text(remote_name),
            outside::opt_text(branch),
        ),
{
    if !auth::is_administrator(state, creds) {
        return Err(Reply::Status(401));
    }
    let remote_name = match remote_name {
        Some(n) => n,
        None => "origin".to_string(),
    };
    let branch = match branch {
        Some(b) => b,
        None => "main".to_string(),
    };
    Ok((remote_name, branch))
}

/// The answer to a request to push.
pub fn api_push_done(remote: String, branch: String, done: Result<(), String>) -> (r: Reply)
    ensures
        r@ == (match done {
            Ok(()) => ReplyView::Pushed { remote: remote@, branch: branch@ },
            Err(e) => failed("Failed to push: "@, e@),
        }),
{
    match done {
        Ok(()) => Reply::Pushed { remote, branch },
        Err(e) => fail("Failed to push: ", e.as_str()),
    }
}

// ----- Laws -----

/// Restoring brings a room back to what its commit held: the version that is kept has the content
/// that its room then holds, under the room's new version, which is the next one. Where no version
/// was made the request fails, and no room is brought back.
pub proof fn restoring_brings_back(
    room: RoomView,
    key: Seq<char>,
    oid: Seq<char>,
    username: Seq<char>,
    content: Seq<char>,
    error: Seq<char>,
)
    requires
        room.version < u64::MAX,
    ensures
        ({
            let version = next_version(Some(room));
            let after = room.set(content, version);
            let req = git_versioning::restoring(
                git_versioning::RestoreRequestView {
                    file_path: key,
                    commit_oid: oid,
                    username,
                    version,
                },
                content,
            );
            &&& after.version == room.version + 1
            &&& after.members == room.members
            &&& req.content == after.content
            &&& req.version == after.version
        }),
        restore_made(Err(error)) == Err::<VersionInfoView, ReplyView>(
            failed("Failed to restore version: "@, error),
        ),
{
}

/// A checkpoint keeps the document as it stands, and asks for it so that it is always committed.
pub proof fn checkpoint_is_committed(
    m: git_versioning::ManagerView,
    room: RoomView,
    username: Seq<char>,
    key: Seq<char>,
    message: Option<Seq<char>>,
    now: u64,
    at: outside::Timestamp,
)
    ensures
        ({
            let req = checkpoint(room, username, key, message);
            let start = git_versioning::CreateEventView::Start { now };
            &&& git_versioning::create_step(m, req, start, at).1
                matches git_versioning::CreateActionView::Commit(plan)
            &&& plan.content == room.content
            &&& plan.file_path == key
        }),
{
}

/// A version that was made is brought back, and a restored document gets the next version, or the
/// first where there is no room.
pub proof fn made_versions_are_brought_back(made: VersionInfoView, room: RoomView)
    requires
        room.version < u64::MAX,
    ensures
        restore_made(Ok(made)) == Ok::<VersionInfoView, ReplyView>(made),
        next_version(Some(room)) == room.version + 1,
        next_version(None) == 1,
{
}

/// A checkpoint is the document as it stands, with its version, for its file, by the one who asks, with
/// the words that came with it.
pub proof fn checkpoints_are_exact(
    room: RoomView,
    username: Seq<char>,
    key: Seq<char>,
    message: Option<Seq<char>>,
)
    ensures
        ({
            let req = checkpoint(room, username, key, message);
            &&& req.content == room.content
            &&& req.version == room.version
            &&& req.file_path == key
            &&& req.username == username
            &&& req.message == message
            &&& req.force
        }),
{
}

/// A failure is answered with what failed and why, as it is.
pub proof fn failures_are_answered(what: Seq<char>, error: Seq<char>)
    ensures
        failed(what, error) == ReplyView::Text(500, what + error),
{
}

/// Whoever may administer pushes what is asked for to where it is asked to go, by default `main` to
/// `origin`, and nobody else pushes anything.
pub proof fn pushes_are_made_as_asked(
    state: StateView,
    c: CredentialsView,
    remote_name: Seq<char>,
    branch: Seq<char>,
)
    ensures
        auth::may_administer(state, c) ==> push_asked(state, c, Some(remote_name), Some(branch))
            == Ok::<(Seq<char>, Seq<char>), ReplyView>((remote_name, branch)),
        auth::may_administer(state, c) ==> push_asked(state, c, None, None) == Ok::<
            (Seq<char>, Seq<char>),
            ReplyView,
        >(("origin"@, "main"@)),
        !auth::may_administer(state, c) ==> push_asked(state, c, Some(remote_name), Some(branch))
            == Err::<(Seq<char>, Seq<char>), ReplyView>(ReplyView::Status(401)),
{
}

} // verus!
