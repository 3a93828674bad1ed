//! Uploading a diagram with a form.

use crate::auth;
use crate::auth::Credentials;
use crate::http;
use crate::http::{Reply, ReplyView};
use crate::outside;
use crate::paths;
use crate::state::AppState;
use crate::text;
use vstd::prelude::*;

verus! {

/// Whether an upload is taken: `None` if so.
pub fn api_upload(state: &AppState, creds: &Credentials) -> (r: Option<Reply>)
    ensures
        r is None <==> auth::authorized(state@, creds@) is Some,
        r matches Some(reply) ==> reply@ == ReplyView::Status(401),
{
    if auth::get_authorized_user_from_header_or_query(state, creds).is_none() {
        Some(Reply::Status(401))
    } else {
        None
    }
}

// ----- The form -----

/// What a field of the form is for.
#[derive(Clone, Copy, PartialEq, Eq, Structural)]
pub enum FieldKind {
    File,
    Path,
    Other,
}

/// What a field of this name is for.
pub open spec fn kind_of(name: Seq<char>) -> FieldKind {
    if name == "file"@ {
        FieldKind::File
    } else if name == "path"@ {
        FieldKind::Path
    } else {
        FieldKind::Other
    }
}

/// What a field of this name is for.
pub fn field_kind(name: &str) -> (k: FieldKind)
    ensures
        k == kind_of(name@),
{
    if text::same_str(name, "file") {
        FieldKind::File
    } else if text::same_str(name, "path") {
        FieldKind::Path
    } else {
        FieldKind::Other
    }
}

/// What came of reading the next field.
pub enum Field {
    /// A file, with the name that the client gives it.
    File { filename: Option<String>, bytes: Vec<u8> },
    /// A file that could not be read.
    BadFile { error: String },
    /// A path.
    Path(String),
    /// A path that could not be read.
    BadPath,
    /// A field that means nothing here.
    Other,
    /// The form cannot be read on.
    BadForm { error: String },
}

pub enum FieldView {
    File { filename: Option<Seq<char>>, bytes: Seq<u8> },
    BadFile { error: Seq<char> },
    Path(Seq<char>),
    BadPath,
    Other,
    BadForm { error: Seq<char> },
}

impl View for Field {
    type V = FieldView;

    open spec fn view(&self) -> FieldView {
        match *self {
            Field::File { filename, bytes } => FieldView::File {
                filename: outside::opt_text(filename),
                bytes: bytes@,
            },
            Field::BadFile { error } => FieldView::BadFile { error: error@ },
            Field::Path(p) => FieldView::Path(p@),
            Field::BadPath => FieldView::BadPath,
            Field::Other => FieldView::Other,
            Field::BadForm { error } => FieldView::BadForm { error: error@ },
        }
    }
}

/// What has been read of a form.
pub struct UploadForm {
    data: Option<Vec<u8>>,
    filename: Option<String>,
    path: Option<String>,
}

pub struct UploadFormView {
    pub data: Option<Seq<u8>>,
    pub filename: Option<Seq<char>>,
    pub path: Option<Seq<char>>,
}

impl UploadFormView {
    /// The form after one more field: the last file counts, the last name that a file came with,
    /// and the last path.
    pub open spec fn with_field(self, field: FieldView) -> UploadFormView {
        match field {
            FieldView::File { filename, bytes } => UploadFormView {
                data: Some(bytes),
                filename: if filename is Some {
                    filename
                } else {
                    self.filename
                },
                ..self
            },
            FieldView::Path(p) => UploadFormView { path: Some(p), ..self },
            _ => self,
        }
    }
}

/// What a form that cannot be read is answered.
pub open spec fn field_refused(field: FieldView) -> Option<ReplyView> {
    match field {
        FieldView::BadFile { error } => Some(
            http::bad_request("error reading file: "@ + error),
        ),
        FieldView::BadForm { error } => Some(http::bad_request("error parsing form: "@ + error)),
        _ => None,
    }
}

impl UploadForm {
    pub closed spec fn view(&self) -> UploadFormView {
        UploadFormView {
            data: match self.data {
                Some(b) => Some(b@),
                None => None,
            },
            filename: outside::opt_text(self.filename),
            path: outside::opt_text(self.path),
        }
    }

    /// A form of which nothing has been read.
    pub fn new() -> (r: Self)
        ensures
            r@ == (UploadFormView { data: None, filename: None, path: None }),
    {
        UploadForm { data: None, filename: None, path: None }
    }

    /// Takes one more field. There is an answer where the form cannot be read.
    pub fn take_field(&mut self, field: Field) -> (r: Option<Reply>)
        ensures
            final(self)@ == old(self)@.with_field(field@),
            (match r {
                Some(reply) => Some(reply@),
                None => None,
            }) == field_refused(field@),
    {
        match field {
            Field::File { filename, bytes } => {
                if filename.is_some() {
                    self.filename = filename;
                }
                self.data = Some(bytes);
                None
            },
            Field::BadFile { error } => Some(
                http::refuse(text::concat("error reading file: ", error.as_str()).as_str()),
            ),
            Field::Path(p) => {
                self.path = Some(p);
                None
            },
            Field::BadPath => None,
            Field::Other => None,
            Field::BadForm { error } => Some(
                http::refuse(text::concat("error parsing form: ", error.as_str()).as_str()),
            ),
        }
    }
}

// ----- Where the file goes -----

/// Where an upload is asked to go: the path in the form, or else the path in the query, or else the
/// name of the file, or else a name made up for it.
pub open spec fn wanted_path(
    form: UploadFormView,
    query_path: Option<Seq<char>>,
    fresh: Seq<char>,
) -> Result<Seq<char>, ReplyView> {
    let asked = if form.path is Some {
        form.path
    } else {
        query_path
    };
    match (asked, form.filename) {
        (Some(p), _) => match paths::rel_path(p) {
            Some(safe) => Ok(safe),
            None => Err(http::bad_request("invalid path"@)),
        },
        (None, Some(name)) => match paths::rel_path(name) {
            Some(safe) => Ok(safe),
            None => if paths::plain_name(name) {
                Ok(name)
            } else {
                Err(http::bad_request("invalid filename"@))
            },
        },
        (None, None) => Ok(fresh + ".drawio"@),
    }
}

/// Where an upload goes: where it is asked to go, as a diagram.
pub open spec fn upload_path(
    form: UploadFormView,
    query_path: Option<Seq<char>>,
    fresh: Seq<char>,
) -> Result<Seq<char>, ReplyView> {
    match wanted_path(form, query_path, fresh) {
        Ok(p) => match paths::rel_path(paths::with_drawio(p)) {
            Some(safe) => Ok(safe),
            None => Err(http::bad_request("invalid final path"@)),
        },
        Err(reply) => Err(reply),
    }
}

/// What is stored: a key and a text, or a refusal.
pub open spec fn upload_plan(
    form: UploadFormView,
    query_path: Option<Seq<char>>,
    fresh: Seq<char>,
) -> Result<(Seq<char>, Seq<char>), ReplyView> {
    match form.data {
        None => Err(http::bad_request("missing file field"@)),
        Some(bytes) => match upload_path(form, query_path, fresh) {
            Err(reply) => Err(reply),
            Ok(key) => match outside::utf8_text(bytes) {
                Some(content) => Ok((key, content)),
                None => Err(http::bad_request("file must be valid UTF-8 text"@)),
            },
        },
    }
}

fn find_wanted(
    form_path: Option<String>,
    filename: Option<String>,
    query_path: Option<String>,
    fresh: &str,
    Ghost(form): Ghost<UploadFormView>,
) -> (r: Result<String, Reply>)
    requires
        form.path == outside::opt_text(form_path),
        form.filename == outside::opt_text(filename),
    ensures
        http::key_or_reply(r) == wanted_path(form, outside::opt_text(query_path), fresh@),
{
    let asked = match form_path {
        Some(p) => Some(p),
        None => query_path,
    };
    if let Some(p) = asked {
        return match paths::sanitize_rel_path(p.as_str()) {
            Some(safe) => Ok(safe),
            None => Err(http::refuse("invalid path")),
        };
    }
    if let Some(name) = filename {
        if let Some(safe) = paths::sanitize_rel_path(name.as_str()) {
            return Ok(safe);
        }
        return match paths::sanitize_name(name.as_str()) {
            Some(safe) => Ok(safe),
            None => Err(http::refuse("invalid filename")),
        };
    }
    Ok(text::concat(fresh, ".drawio"))
}

/// What to store of a form: a key and a text, or a refusal. `fresh` is the name made up for a file
/// that came without one.
pub fn place_upload(form: UploadForm, query_path: Option<String>, fresh: &str) -> (r: Result<
    (String, String),
    Reply,
>)
    ensures
        http::pair_or_reply(r) == upload_plan(form@, outside::opt_text(query_path), fresh@),
{
    let ghost whole = form@;
    let UploadForm { data, filename, path } = form;
    let bytes = match data {
        Some(bytes) => bytes,
        None => return Err(http::refuse("missing file field")),
    };
    let wanted = match find_wanted(path, filename, query_path, fresh, Ghost(whole)) {
        Ok(p) => p,
        Err(reply) => return Err(reply),
    };
    let full = paths::add_drawio(wanted.as_str());
    let key = match paths::sanitize_rel_path(full.as_str()) {
        Some(key) => key,
        None => return Err(http::refuse("invalid final path")),
    };
    match outside::string_from_utf8(bytes) {
        Some(content) => Ok((key, content)),
        None => Err(http::refuse("file must be valid UTF-8 text")),
    }
}

/// What to store of a form that has been read. A file without a path and a name gets a random one.
pub fn finish_upload(form: UploadForm, query_path: Option<String>) -> (r: Result<
    (String, String),
    Reply,
>)
    ensures
        exists|fresh: Seq<char>|
            outside::random_uuid(fresh) && http::pair_or_reply(r) == #[trigger] upload_plan(
                form@,
                outside::opt_text(query_path),
                fresh,
            ),
{
    let fresh = outside::fresh_uuid();
    place_upload(form, query_path, fresh.as_str())
}

/// The answer to an upload, once the file was written or could not be.
pub fn upload_written(file_key: String, written: bool) -> (r: Reply)
    ensures
        r@ == (if written {
            ReplyView::Path(file_key@)
        } else {
            ReplyView::Status(500)
        }),
{
    if written {
        Reply::Path(file_key)
    } else {
        Reply::Status(500)
    }
}

// ----- Laws -----

/// An upload always lands on a diagram below the data directory: the path it is given is clean and
/// ends with `.drawio`, and where it is asked to go decides alone whether it is refused.
pub proof fn uploads_are_diagrams(
    form: UploadFormView,
    query_path: Option<Seq<char>>,
    fresh: Seq<char>,
)
    requires
        outside::random_uuid(fresh),
    ensures
        upload_path(form, query_path, fresh) is Ok <==> wanted_path(
            form,
            query_path,
            fresh,
        ) is Ok,
        upload_path(form, query_path, fresh) matches Ok(key) ==> paths::clean(key)
            && paths::is_drawio(key) && key == paths::with_drawio(
            wanted_path(form, query_path, fresh)->Ok_0,
        ),
{
    if wanted_path(form, query_path, fresh) is Ok {
        let p = wanted_path(form, query_path, fresh)->Ok_0;
        let asked = if form.path is Some {
            form.path
        } else {
            query_path
        };
        if asked is None && form.filename is None {
            reveal_strlit(".drawio");
            reveal_strlit(".");
            reveal_strlit("..");
            assert forall|i: int| 0 <= i < p.len() implies paths::name_char(#[trigger] p[i]) by {
                if i < fresh.len() {
                    assert(p[i] == fresh[i]);
                } else {
                    assert(p[i] == ".drawio"@[i - fresh.len()]);
                }
            }
            paths::diagram_name_is_clean(p);
        } else if asked is None && paths::rel_path(form.filename->0) is None {
            paths::diagram_name_is_clean(p);
        } else {
            paths::diagram_path_is_clean(p);
        }
        let full = paths::with_drawio(p);
        paths::lemma_clean_ends(full);
        text::lemma_trimmed_fixed(full, text::Class::Only('/'));
    }
}

/// A file that comes without a path or a name is stored under a name made up for it.
pub proof fn nameless_upload_gets_fresh_name(data: Seq<u8>, fresh: Seq<char>)
    requires
        outside::random_uuid(fresh),
    ensures
        upload_path(
            UploadFormView { data: Some(data), filename: None, path: None },
            None,
            fresh,
        ) == Ok::<Seq<char>, ReplyView>(fresh + ".drawio"@),
{
    let form = UploadFormView { data: Some(data), filename: None, path: None };
    uploads_are_diagrams(form, None, fresh);
    let p = fresh + ".drawio"@;
    reveal_strlit(".drawio");
    assert(!p.contains('/')) by {
        if p.contains('/') {
            let i = choose|i: int| 0 <= i < p.len() && p[i] == '/';
            if i < 36 {
                assert(p[i] == fresh[i]);
            } else {
                assert(p[i] == ".drawio"@[i - 36]);
            }
        }
    }
    text::lemma_pieces_single(p, '/');
    assert(p.subrange(p.len() - 7, p.len() as int) =~= ".drawio"@);
}

/// The last file of a form counts, whole, and the last path; a field that is neither changes nothing.
pub proof fn last_fields_count(
    form: UploadFormView,
    bytes: Seq<u8>,
    filename: Option<Seq<char>>,
    path: Seq<char>,
    field: FieldView,
)
    ensures
        form.with_field(FieldView::File { filename, bytes }).data == Some(bytes),
        form.with_field(FieldView::File { filename, bytes }).path == form.path,
        filename is Some ==> form.with_field(FieldView::File { filename, bytes }).filename
            == filename,
        filename is None ==> form.with_field(FieldView::File { filename, bytes }).filename
            == form.filename,
        form.with_field(FieldView::Path(path)).path == Some(path),
        form.with_field(FieldView::Path(path)).data == form.data,
        form.with_field(FieldView::Path(path)).filename == form.filename,
        field !is File && field !is Path ==> form.with_field(field) == form,
        field_refused(field) is Some <==> field is BadFile || field is BadForm,
{
}

/// What a field is for is said by its name, and only `file` and `path` mean anything.
pub proof fn fields_are_named(name: Seq<char>)
    ensures
        kind_of(name) == FieldKind::File <==> name == "file"@,
        kind_of(name) == FieldKind::Path <==> name == "path"@,
{
    reveal_strlit("file");
    reveal_strlit("path");
    assert("file"@[0] != "path"@[0]);
}

/// Every text is stored as it is, where it is asked to go: under the path in the form, or else the path
/// in the query, or else the name of the file, with the suffix of diagrams added if it is missing.
pub proof fn texts_are_stored_where_asked(
    form: UploadFormView,
    query_path: Option<Seq<char>>,
    fresh: Seq<char>,
    content: Seq<char>,
    asked: Seq<char>,
)
    requires
        form.data == Some(vstd::utf8::encode_utf8(content)),
        paths::clean(asked),
        form.path == Some(asked) || (form.path is None && query_path == Some(asked)) || (
        form.path is None && query_path is None && form.filename == Some(asked)),
    ensures
        upload_plan(form, query_path, fresh) == Ok::<(Seq<char>, Seq<char>), ReplyView>(
            (
                if text::has_suffix(asked, ".drawio"@) {
                    asked
                } else {
                    asked + ".drawio"@
                },
                content,
            ),
        ),
{
    vstd::utf8::encode_utf8_valid_utf8(content);
    vstd::utf8::encode_utf8_decode_utf8(content);
    paths::lemma_clean_ends(asked);
    text::lemma_trimmed_fixed(asked, text::Class::Only('/'));
    paths::diagram_path_is_clean(asked);
    paths::suffix_is_added_if_missing(asked);
    let full = paths::with_drawio(asked);
    paths::lemma_clean_ends(full);
    text::lemma_trimmed_fixed(full, text::Class::Only('/'));
}

/// What is no upload is refused, and says why: no file, a path that leads elsewhere, or bytes that are
/// no text.
pub proof fn bad_uploads_are_refused(
    form: UploadFormView,
    query_path: Option<Seq<char>>,
    fresh: Seq<char>,
)
    ensures
        form.data is None ==> upload_plan(form, query_path, fresh) == Err::<
            (Seq<char>, Seq<char>),
            ReplyView,
        >(ReplyView::Text(400, "missing file field"@)),
        form.data is Some && form.path is Some && paths::rel_path(form.path->0) is None
            ==> upload_plan(form, query_path, fresh) == Err::<(Seq<char>, Seq<char>), ReplyView>(
            ReplyView::Text(400, "invalid path"@),
        ),
        form.data is Some && !vstd::utf8::valid_utf8(form.data->0) ==> upload_plan(
            form,
            query_path,
            fresh,
        ) is Err,
{
}

/// A path in the query or the name of a file that leads elsewhere is refused too, and so is a field
/// that could not be read, with the reason.
pub proof fn bad_places_are_refused(
    form: UploadFormView,
    query: Seq<char>,
    fresh: Seq<char>,
    error: Seq<char>,
)
    requires
        form.data is Some,
        form.path is None,
    ensures
        paths::rel_path(query) is None ==> upload_plan(form, Some(query), fresh) == Err::<
            (Seq<char>, Seq<char>),
            ReplyView,
        >(ReplyView::Text(400, "invalid path"@)),
        form.filename is Some && paths::rel_path(form.filename->0) is None && !paths::plain_name(
            form.filename->0,
        ) ==> upload_plan(form, None, fresh) == Err::<(Seq<char>, Seq<char>), ReplyView>(
            ReplyView::Text(400, "invalid filename"@),
        ),
        field_refused(FieldView::BadFile { error }) == Some(
            ReplyView::Text(400, "error reading file: "@ + error),
        ),
        field_refused(FieldView::BadForm { error }) == Some(
            ReplyView::Text(400, "error parsing form: "@ + error),
        ),
{
}

/// Bytes that are no text are refused for that, once it is clear where they were to go.
pub proof fn bytes_that_are_no_text_are_refused(
    form: UploadFormView,
    query_path: Option<Seq<char>>,
    fresh: Seq<char>,
)
    requires
        outside::random_uuid(fresh),
        form.data is Some,
        !vstd::utf8::valid_utf8(form.data->0),
        wanted_path(form, query_path, fresh) is Ok,
    ensures
        upload_plan(form, query_path, fresh) == Err::<(Seq<char>, Seq<char>), ReplyView>(
            ReplyView::Text(400, "file must be valid UTF-8 text"@),
        ),
{
    uploads_are_diagrams(form, query_path, fresh);
}

} // verus!
