//! Answers to requests.

use crate::git_versioning::{VersionInfo, VersionInfoView};
use crate::listing::{FsEntry, FsEntryView};
use crate::messages;
use vstd::prelude::*;

verus! {

/// What a request is answered.
pub enum Reply {
    /// A status and nothing else.
    Status(u16),
    /// A status and a text.
    Text(u16, String),
    /// Go to this place.
    Redirect(String),
    /// A web page.
    Html(Vec<u8>),
    /// Who the caller is.
    Login { username: String },
    /// The names of the diagrams.
    FileList(Vec<String>),
    /// A diagram and its version.
    File { name: String, version: u64, content: String },
    /// A diagram as XML that is not to be cached.
    Xml(String),
    /// What a directory holds.
    Entries(Vec<FsEntry>),
    /// The new name of a diagram.
    Name(String),
    /// Where a diagram stands.
    Path(String),
    /// A file to save, with the value of its `Content-Disposition`.
    Attachment { disposition: String, bytes: Vec<u8> },
    /// A diagram that a model has changed, and its version.
    AiResult { version: u64, content: String },
    /// The versions of a diagram.
    Versions { file: String, versions: Vec<VersionInfo> },
    /// One version of a diagram.
    Version(VersionInfo),
    /// A remote repository was set.
    RemoteSet { remote_name: String, url: String },
    /// A branch was pushed.
    Pushed { remote: String, branch: String },
}

pub enum ReplyView {
    Status(u16),
    Text(u16, Seq<char>),
    Redirect(Seq<char>),
    Html(Seq<u8>),
    Login { username: Seq<char> },
    FileList(Seq<Seq<char>>),
    File { name: Seq<char>, version: u64, content: Seq<char> },
    Xml(Seq<char>),
    Entries(Seq<FsEntryView>),
    Name(Seq<char>),
    Path(Seq<char>),
    Attachment { disposition: Seq<char>, bytes: Seq<u8> },
    AiResult { version: u64, content: Seq<char> },
    Versions { file: Seq<char>, versions: Seq<VersionInfoView> },
    Version(VersionInfoView),
    RemoteSet { remote_name: Seq<char>, url: Seq<char> },
    Pushed { remote: Seq<char>, branch: Seq<char> },
}

impl View for Reply {
    type V = ReplyView;

    open spec fn view(&self) -> ReplyView {
        match *self {
            Reply::Status(code) => ReplyView::Status(code),
            Reply::Text(code, s) => ReplyView::Text(code, s@),
            Reply::Redirect(s) => ReplyView::Redirect(s@),
            Reply::Html(b) => ReplyView::Html(b@),
            Reply::Login { username } => ReplyView::Login { username: username@ },
            Reply::FileList(names) => ReplyView::FileList(messages::strings(names@)),
            Reply::File { name, version, content } => ReplyView::File {
                name: name@,
                version,
                content: content@,
            },
            Reply::Xml(s) => ReplyView::Xml(s@),
            Reply::Entries(v) => ReplyView::Entries(crate::listing::entries_view(v@)),
            Reply::Name(s) => ReplyView::Name(s@),
            Reply::Path(s) => ReplyView::Path(s@),
            Reply::Attachment { disposition, bytes } => ReplyView::Attachment {
                disposition: disposition@,
                bytes: bytes@,
            },
            Reply::AiResult { version, content } => ReplyView::AiResult {
                version,
                content: content@,
            },
            Reply::Versions { file, versions } => ReplyView::Versions {
                file: file@,
                versions: crate::git_versioning::versions_view(versions@),
            },
            Reply::Version(v) => ReplyView::Version(v@),
            Reply::RemoteSet { remote_name, url } => ReplyView::RemoteSet {
                remote_name: remote_name@,
                url: url@,
            },
            Reply::Pushed { remote, branch } => ReplyView::Pushed {
                remote: remote@,
                branch: branch@,
            },
        }
    }
}

/// The reply, as a value of the model: a key to go on with, or the answer.
pub open spec fn key_or_reply(r: Result<String, Reply>) -> Result<Seq<char>, ReplyView> {
    match r {
        Ok(key) => Ok(key@),
        Err(reply) => Err(reply@),
    }
}

/// The same for two texts to go on with.
pub open spec fn pair_or_reply(r: Result<(String, String), Reply>) -> Result<
    (Seq<char>, Seq<char>),
    ReplyView,
> {
    match r {
        Ok(pair) => Ok((pair.0@, pair.1@)),
        Err(reply) => Err(reply@),
    }
}

pub open spec fn bad_request(text: Seq<char>) -> ReplyView {
    ReplyView::Text(400, text)
}

/// The answer to a request that cannot be met as it stands.
pub(crate) fn refuse(text: &str) -> (r: Reply)
    ensures
        r@ == bad_request(text@),
{
    Reply::Text(400, text.to_string())
}

} // verus!
