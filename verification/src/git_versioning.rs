//! The history of the diagrams, kept in a Git repository.

use crate::outside;
use crate::outside::Timestamp;
use crate::paths;
use crate::text;
use crate::text::Class;
use vstd::hash_map::StringHashMap;
use vstd::prelude::*;
use vstd::string::StringExecFns;

verus! {

/// One version of a diagram: a commit, read back.
pub struct VersionInfo {
    pub commit_oid: String,
    pub version: u64,
    pub timestamp: Timestamp,
    pub username: String,
    pub message: String,
    pub file_path: String,
}

pub struct VersionInfoView {
    pub commit_oid: Seq<char>,
    pub version: u64,
    pub timestamp: Timestamp,
    pub username: Seq<char>,
    pub message: Seq<char>,
    pub file_path: Seq<char>,
}

impl View for VersionInfo {
    type V = VersionInfoView;

    open spec fn view(&self) -> VersionInfoView {
        VersionInfoView {
            commit_oid: self.commit_oid@,
            version: self.version,
            timestamp: self.timestamp,
            username: self.username@,
            message: self.message@,
            file_path: self.file_path@,
        }
    }
}

/// A version that is to be kept.
pub struct VersionRequest {
    pub file_path: String,
    pub content: String,
    pub username: String,
    pub version: u64,
    pub message: Option<String>,
    /// Keep it in any case, not only if enough has changed.
    pub force: bool,
}

pub struct VersionRequestView {
    pub file_path: Seq<char>,
    pub content: Seq<char>,
    pub username: Seq<char>,
    pub version: u64,
    pub message: Option<Seq<char>>,
    pub force: bool,
}

impl View for VersionRequest {
    type V = VersionRequestView;

    open spec fn view(&self) -> VersionRequestView {
        VersionRequestView {
            file_path: self.file_path@,
            content: self.content@,
            username: self.username@,
            version: self.version,
            message: outside::opt_text(self.message),
            force: self.force,
        }
    }
}

pub open spec fn versions_view(v: Seq<VersionInfo>) -> Seq<VersionInfoView> {
    v.map_values(|i: VersionInfo| i@)
}

// ----- The repository -----

/// What the server remembers of the last commit of a file.
pub struct FileCommitState {
    pub last_commit_time: u64,
    pub last_content_hash: String,
    pub last_commit_oid: Option<String>,
}

pub struct FileCommitStateView {
    pub last_commit_time: u64,
    pub last_content_hash: Seq<char>,
    pub last_commit_oid: Option<Seq<char>>,
}

impl View for FileCommitState {
    type V = FileCommitStateView;

    open spec fn view(&self) -> FileCommitStateView {
        FileCommitStateView {
            last_commit_time: self.last_commit_time,
            last_content_hash: self.last_content_hash@,
            last_commit_oid: outside::opt_text(self.last_commit_oid),
        }
    }
}

/// Keeps the history of the diagrams below a directory.
pub struct GitVersionManager {
    data_dir: String,
    file_states: StringHashMap<FileCommitState>,
    min_commit_interval: u64,
    min_content_change_percent: u64,
}

pub struct ManagerView {
    pub data_dir: Seq<char>,
    /// File to what is remembered of its last commit.
    pub states: Map<Seq<char>, FileCommitStateView>,
    /// In nanoseconds.
    pub min_interval: u64,
    pub min_percent: u64,
}

/// One minute, in nanoseconds.
pub const MIN_COMMIT_INTERVAL: u64 = 60_000_000_000;

/// How much has to change, in percent.
pub const MIN_CHANGE_PERCENT: u64 = 5;

/// What has to be done before a repository can be used.
pub enum SetupStep {
    /// Make a repository in the directory.
    Init,
    /// Set a value of its configuration.
    Configure { key: String, value: String },
    /// Write a file.
    Write { path: String, text: String },
}

pub enum SetupStepView {
    Init,
    Configure { key: Seq<char>, value: Seq<char> },
    Write { path: Seq<char>, text: Seq<char> },
}

impl View for SetupStep {
    type V = SetupStepView;

    open spec fn view(&self) -> SetupStepView {
        match *self {
            SetupStep::Init => SetupStepView::Init,
            SetupStep::Configure { key, value } => SetupStepView::Configure {
                key: key@,
                value: value@,
            },
            SetupStep::Write { path, text } => SetupStepView::Write { path: path@, text: text@ },
        }
    }
}

pub open spec fn steps_view(v: Seq<SetupStep>) -> Seq<SetupStepView> {
    v.map_values(|s: SetupStep| s@)
}

/// What has to be done, given what is there.
pub open spec fn setup(data_dir: Seq<char>, has_repository: bool, has_attributes: bool) -> Seq<
    SetupStepView,
> {
    let init = if has_repository {
        seq![]
    } else {
        seq![SetupStepView::Init]
    };
    let configure = seq![
        SetupStepView::Configure { key: "user.name"@, value: "Draw.io Server"@ },
        SetupStepView::Configure { key: "user.email"@, value: "server@drawio.local"@ },
    ];
    let attributes = if has_attributes {
        seq![]
    } else {
        seq![
            SetupStepView::Write {
                path: paths::joined(data_dir, ".gitattributes"@),
                text: "*.drawio -diff -merge\n"@,
            },
        ]
    };
    init + configure + attributes
}

// ----- How much has changed -----

/// The digest that tells two contents apart.
pub open spec fn digest(content: Seq<char>) -> Seq<char> {
    text::hex(outside::sha256(vstd::utf8::encode_utf8(content)))
}

/// A number of percent, as a fraction.
#[derive(Clone, Copy, PartialEq, Eq, Structural)]
pub struct Percent {
    pub parts: u128,
    pub of: u128,
}

/// A number of percent that is written as a fraction is less than `limit`.
pub open spec fn below(percent: (nat, nat), limit: u64) -> bool {
    percent.0 < limit * percent.1
}

impl View for Percent {
    type V = (nat, nat);

    open spec fn view(&self) -> (nat, nat) {
        (self.parts as nat, self.of as nat)
    }
}

impl Percent {
    /// Whether it is less than `limit` percent.
    pub fn is_below(self, limit: u64) -> (b: bool)
        requires
            self.of <= u64::MAX,
        ensures
            b == below(self@, limit),
    {
        assert(limit * self.of <= u64::MAX * u64::MAX) by (nonlinear_arith)
            requires
                0 <= limit <= u64::MAX,
                0 <= self.of <= u64::MAX,
        ;
        self.parts < (limit as u128) * self.of
    }
}

/// How much has changed: all of it where either content is empty, nothing where they are equal,
/// and else by how much the length differs from the shorter one, in bytes, but at least a tenth.
pub open spec fn change(old_content: Seq<char>, new_content: Seq<char>) -> (nat, nat) {
    let a = vstd::utf8::encode_utf8(old_content).len();
    let b = vstd::utf8::encode_utf8(new_content).len();
    let shorter = if a < b {
        a
    } else {
        b
    };
    let difference = if a < b {
        b - a
    } else {
        a - b
    };
    if shorter == 0 {
        (100, 1)
    } else if old_content == new_content {
        (0, 1)
    } else if 100 * difference >= 10 * shorter {
        ((100 * difference) as nat, shorter)
    } else {
        (10, 1)
    }
}

// ----- Whether to commit -----

/// What to do about a new content.
pub enum Decision {
    Commit,
    Skip,
    /// It depends on what the commit `oid` holds.
    Compare { oid: String },
}

pub enum DecisionView {
    Commit,
    Skip,
    Compare { oid: Seq<char> },
}

impl View for Decision {
    type V = DecisionView;

    open spec fn view(&self) -> DecisionView {
        match *self {
            Decision::Commit => DecisionView::Commit,
            Decision::Skip => DecisionView::Skip,
            Decision::Compare { oid } => DecisionView::Compare { oid: oid@ },
        }
    }
}

/// What to do about a new content. It is kept if the caller insists, if the file is new, or if the
/// last commit is old enough; otherwise what has changed since decides.
pub open spec fn decision(m: ManagerView, req: VersionRequestView, now: u64) -> DecisionView {
    if req.force || !m.states.contains_key(req.file_path) {
        DecisionView::Commit
    } else {
        let last = m.states[req.file_path];
        if !outside::younger_than(last.last_commit_time, now, m.min_interval) {
            DecisionView::Commit
        } else if last.last_content_hash == digest(req.content) {
            DecisionView::Skip
        } else {
            match last.last_commit_oid {
                Some(oid) => DecisionView::Compare { oid },
                None => DecisionView::Commit,
            }
        }
    }
}

/// Whether a content is kept once the one before it was looked up. If that failed, it is.
pub open spec fn differs(m: ManagerView, old_content: Option<Seq<char>>, new_content: Seq<char>) -> bool {
    match old_content {
        Some(old_content) => !below(change(old_content, new_content), m.min_percent),
        None => true,
    }
}

// ----- Commits -----

/// The message of a commit.
pub open spec fn commit_message(req: VersionRequestView, at: Timestamp) -> Seq<char> {
    "Version "@ + text::decimal(req.version as nat) + " by "@ + req.username + "\n\n"@
        + req.message.unwrap_or(""@) + "\n\nMetadata:\n- File: "@ + req.file_path
        + "\n- Version: "@ + text::decimal(req.version as nat) + "\n- User: "@ + req.username
        + "\n- Timestamp: "@ + outside::rfc3339(at.seconds, at.nanoseconds)
}

/// A commit that is to be made: write the content to `full_path`, stage `file_path`, and commit
/// with this author and this message on top of what is there.
pub struct CommitPlan {
    pub full_path: String,
    pub file_path: String,
    pub content: String,
    pub author: String,
    pub email: String,
    pub message: String,
}

pub struct CommitPlanView {
    pub full_path: Seq<char>,
    pub file_path: Seq<char>,
    pub content: Seq<char>,
    pub author: Seq<char>,
    pub email: Seq<char>,
    pub message: Seq<char>,
}

impl View for CommitPlan {
    type V = CommitPlanView;

    open spec fn view(&self) -> CommitPlanView {
        CommitPlanView {
            full_path: self.full_path@,
            file_path: self.file_path@,
            content: self.content@,
            author: self.author@,
            email: self.email@,
            message: self.message@,
        }
    }
}

/// The commit of a version.
pub open spec fn plan(m: ManagerView, req: VersionRequestView, at: Timestamp) -> CommitPlanView {
    CommitPlanView {
        full_path: paths::joined(m.data_dir, req.file_path),
        file_path: req.file_path,
        content: req.content,
        author: req.username,
        email: req.username + "@drawio.local"@,
        message: commit_message(req, at),
    }
}

/// What is remembered once a version was committed.
pub open spec fn remembered(
    m: ManagerView,
    req: VersionRequestView,
    oid: Seq<char>,
    now: u64,
) -> ManagerView {
    ManagerView {
        states: m.states.insert(
            req.file_path,
            FileCommitStateView {
                last_commit_time: now,
                last_content_hash: digest(req.content),
                last_commit_oid: Some(oid),
            },
        ),
        ..m
    }
}

/// The version that a commit holds.
pub open spec fn info(req: VersionRequestView, oid: Seq<char>, at: Timestamp) -> VersionInfoView {
    VersionInfoView {
        commit_oid: oid,
        version: req.version,
        timestamp: at,
        username: req.username,
        message: req.message.unwrap_or(""@),
        file_path: req.file_path,
    }
}

/// What became of the last thing asked for.
pub enum CreateEvent {
    /// Nothing was asked for yet.
    Start { now: u64 },
    /// The content of the last commit, if it could be had.
    OldContent(Option<String>),
    /// The commit was made.
    Committed { oid: String, now: u64 },
    /// The commit could not be made.
    Failed(String),
}

/// What to do next.
pub enum CreateAction {
    /// Look up the file in the commit `oid`.
    ReadOld { oid: String },
    Commit(CommitPlan),
    /// A version was made, or none had to be.
    Done(Option<VersionInfo>),
    Fail(String),
}

pub enum CreateEventView {
    Start { now: u64 },
    OldContent(Option<Seq<char>>),
    Committed { oid: Seq<char>, now: u64 },
    Failed(Seq<char>),
}

pub enum CreateActionView {
    ReadOld { oid: Seq<char> },
    Commit(CommitPlanView),
    Done(Option<VersionInfoView>),
    Fail(Seq<char>),
}

impl View for CreateEvent {
    type V = CreateEventView;

    open spec fn view(&self) -> CreateEventView {
        match *self {
            CreateEvent::Start { now } => CreateEventView::Start { now },
            CreateEvent::OldContent(c) => CreateEventView::OldContent(outside::opt_text(c)),
            CreateEvent::Committed { oid, now } => CreateEventView::Committed { oid: oid@, now },
            CreateEvent::Failed(e) => CreateEventView::Failed(e@),
        }
    }
}

impl View for CreateAction {
    type V = CreateActionView;

    open spec fn view(&self) -> CreateActionView {
        match *self {
            CreateAction::ReadOld { oid } => CreateActionView::ReadOld { oid: oid@ },
            CreateAction::Commit(p) => CreateActionView::Commit(p@),
            CreateAction::Done(v) => CreateActionView::Done(
                match v {
                    Some(i) => Some(i@),
                    None => None,
                },
            ),
            CreateAction::Fail(e) => CreateActionView::Fail(e@),
        }
    }
}

/// One step of keeping a version, at the moment `at`.
pub open spec fn create_step(
    m: ManagerView,
    req: VersionRequestView,
    event: CreateEventView,
    at: Timestamp,
) -> (ManagerView, CreateActionView) {
    match event {
        CreateEventView::Start { now } => match decision(m, req, now) {
            DecisionView::Commit => (m, CreateActionView::Commit(plan(m, req, at))),
            DecisionView::Skip => (m, CreateActionView::Done(None)),
            DecisionView::Compare { oid } => (m, CreateActionView::ReadOld { oid }),
        },
        CreateEventView::OldContent(old_content) => if differs(m, old_content, req.content) {
            (m, CreateActionView::Commit(plan(m, req, at)))
        } else {
            (m, CreateActionView::Done(None))
        },
        CreateEventView::Committed { oid, now } => (
            remembered(m, req, oid, now),
            CreateActionView::Done(Some(info(req, oid, at))),
        ),
        CreateEventView::Failed(e) => (m, CreateActionView::Fail(e)),
    }
}

// ----- Reading commits -----

/// A commit as it was found: what the file is in the tree before it, unless it is the first commit,
/// and in its own, each by the name of its object.
pub struct CommitRecord {
    pub oid: String,
    pub first: bool,
    pub entry_before: Option<String>,
    pub entry: Option<String>,
    pub message: String,
    pub seconds: i64,
}

pub struct CommitRecordView {
    pub oid: Seq<char>,
    pub first: bool,
    pub entry_before: Option<Seq<char>>,
    pub entry: Option<Seq<char>>,
    pub message: Seq<char>,
    pub seconds: i64,
}

impl View for CommitRecord {
    type V = CommitRecordView;

    open spec fn view(&self) -> CommitRecordView {
        CommitRecordView {
            oid: self.oid@,
            first: self.first,
            entry_before: outside::opt_text(self.entry_before),
            entry: outside::opt_text(self.entry),
            message: self.message@,
            seconds: self.seconds,
        }
    }
}

pub open spec fn records_view(v: Seq<CommitRecord>) -> Seq<CommitRecordView> {
    v.map_values(|c: CommitRecord| c@)
}

/// The commit changed the file: it is there in the first commit, or not the same as before.
pub open spec fn touches(c: CommitRecordView) -> bool {
    if c.first {
        c.entry is Some
    } else {
        c.entry_before != c.entry
    }
}

/// The version that a message names: the second word of its first line.
pub open spec fn message_version(lines: Seq<Seq<char>>) -> u64 {
    if lines.len() == 0 {
        0
    } else {
        match text::second_word(lines[0]) {
            Some(w) => match text::number(w) {
                Some(n) => n,
                None => 0,
            },
            None => 0,
        }
    }
}

/// The user that a message names: what stands behind the first ` by ` of its first line.
pub open spec fn message_user(lines: Seq<Seq<char>>) -> Seq<char> {
    if lines.len() == 0 {
        "unknown"@
    } else {
        text::second_field(lines[0], " by "@).unwrap_or("unknown"@)
    }
}

/// What the user said in a message: its third line.
pub open spec fn message_words(lines: Seq<Seq<char>>) -> Seq<char> {
    if lines.len() > 2 {
        lines[2]
    } else {
        ""@
    }
}

/// When a commit was made, or `now` where that has no date.
pub open spec fn commit_time(seconds: i64, now: Timestamp) -> Timestamp {
    if outside::FIRST_SECOND <= seconds <= outside::LAST_SECOND {
        Timestamp { seconds, nanoseconds: 0 }
    } else {
        now
    }
}

/// The version of a file that a commit holds.
pub open spec fn version_of(file_path: Seq<char>, c: CommitRecordView, now: Timestamp) -> VersionInfoView {
    let lines = text::lines_of(c.message);
    VersionInfoView {
        commit_oid: c.oid,
        version: message_version(lines),
        timestamp: commit_time(c.seconds, now),
        username: message_user(lines),
        message: message_words(lines),
        file_path,
    }
}

/// The versions of a file among some commits, in their order.
pub open spec fn history(
    file_path: Seq<char>,
    commits: Seq<CommitRecordView>,
    now: Timestamp,
) -> Seq<VersionInfoView>
    decreases commits.len(),
{
    if commits.len() == 0 {
        seq![]
    } else {
        let before = history(file_path, commits.drop_last(), now);
        if touches(commits.last()) {
            before.push(version_of(file_path, commits.last(), now))
        } else {
            before
        }
    }
}

fn same_entry(a: &Option<String>, b: &Option<String>) -> (r: bool)
    ensures
        r == (outside::opt_text(*a) == outside::opt_text(*b)),
{
    match (a, b) {
        (Some(x), Some(y)) => text::same_str(x.as_str(), y.as_str()),
        (None, None) => true,
        _ => false,
    }
}

fn is_touching(c: &CommitRecord) -> (b: bool)
    ensures
        b == touches(c@),
{
    if c.first {
        c.entry.is_some()
    } else {
        !same_entry(&c.entry_before, &c.entry)
    }
}

fn read_version(lines: &Vec<Vec<char>>) -> (n: u64)
    ensures
        n == message_version(text::texts(lines@)),
{
    if lines.len() == 0 {
        return 0;
    }
    assert(text::texts(lines@)[0] == lines@[0]@);
    match text::word_two(&lines[0]) {
        Some(w) => match text::parse_number(&w) {
            Some(n) => n,
            None => 0,
        },
        None => 0,
    }
}

fn read_user(lines: &Vec<Vec<char>>) -> (r: String)
    ensures
        r@ == message_user(text::texts(lines@)),
{
    if lines.len() == 0 {
        return "unknown".to_string();
    }
    assert(text::texts(lines@)[0] == lines@[0]@);
    let by = text::chars_of(" by ");
    match text::field_two(&lines[0], &by) {
        Some(u) => outside::string_of(&u),
        None => "unknown".to_string(),
    }
}

fn read_words(lines: &Vec<Vec<char>>) -> (r: String)
    ensures
        r@ == message_words(text::texts(lines@)),
{
    if lines.len() > 2 {
        assert(text::texts(lines@)[2] == lines@[2]@);
        outside::string_of(&lines[2])
    } else {
        "".to_string()
    }
}

/// The version of a file that a commit holds.
pub fn read_commit(file_path: &str, c: &CommitRecord, now: Timestamp) -> (r: VersionInfo)
    ensures
        r@ == version_of(file_path@, c@, now),
{
    let chars = text::chars_of(c.message.as_str());
    let lines = text::lines(&chars);
    let timestamp = if outside::second_has_date(c.seconds) {
        Timestamp { seconds: c.seconds, nanoseconds: 0 }
    } else {
        now
    };
    VersionInfo {
        commit_oid: c.oid.clone(),
        version: read_version(&lines),
        timestamp,
        username: read_user(&lines),
        message: read_words(&lines),
        file_path: file_path.to_string(),
    }
}

// ----- The manager -----

impl GitVersionManager {
    pub closed spec fn view(&self) -> ManagerView {
        ManagerView {
            data_dir: self.data_dir@,
            states: self.file_states@.map_values(|s: FileCommitState| s@),
            min_interval: self.min_commit_interval,
            min_percent: self.min_content_change_percent,
        }
    }

    /// A manager for a directory, and what has to be done there before it is used.
    pub fn new(data_dir: String, has_repository: bool, has_attributes: bool) -> (r: (
        Self,
        Vec<SetupStep>,
    ))
        ensures
            r.0@ == (ManagerView {
                data_dir: data_dir@,
                states: Map::empty(),
                min_interval: MIN_COMMIT_INTERVAL,
                min_percent: MIN_CHANGE_PERCENT,
            }),
            steps_view(r.1@) == setup(data_dir@, has_repository, has_attributes),
    {
        let mut steps: Vec<SetupStep> = Vec::new();
        if !has_repository {
            steps.push(SetupStep::Init);
        }
        steps.push(
            SetupStep::Configure {
                key: "user.name".to_string(),
                value: "Draw.io Server".to_string(),
            },
        );
        steps.push(
            SetupStep::Configure {
                key: "user.email".to_string(),
                value: "server@drawio.local".to_string(),
            },
        );
        if !has_attributes {
            steps.push(
                SetupStep::Write {
                    path: paths::to_data_path(data_dir.as_str(), ".gitattributes"),
                    text: "*.drawio -diff -merge\n".to_string(),
                },
            );
        }
        assert(steps_view(steps@) =~= setup(data_dir@, has_repository, has_attributes));
        let m = GitVersionManager {
            data_dir,
            file_states: StringHashMap::new(),
            min_commit_interval: MIN_COMMIT_INTERVAL,
            min_content_change_percent: MIN_CHANGE_PERCENT,
        };
        assert(m@.states =~= Map::empty());
        (m, steps)
    }

    /// The SHA-256 digest of a content, in base sixteen.
    pub fn content_hash(content: &str) -> (r: String)
        ensures
            r@ == digest(content@),
    {
        let bytes = outside::sha256_digest(content.as_bytes());
        outside::string_of(&text::to_hex(&bytes))
    }

    /// How much has changed.
    pub fn content_change_percent(old_content: &str, new_content: &str) -> (r: Percent)
        ensures
            r@ == change(old_content@, new_content@),
            0 < r.of <= u64::MAX,
    {
        let a: usize = old_content.as_bytes().len();
        let b: usize = new_content.as_bytes().len();
        let shorter: u128 = if a < b {
            a as u128
        } else {
            b as u128
        };
        let difference: u128 = if a < b {
            (b - a) as u128
        } else {
            (a - b) as u128
        };
        if shorter == 0 {
            Percent { parts: 100, of: 1 }
        } else if text::same_str(old_content, new_content) {
            Percent { parts: 0, of: 1 }
        } else if 100 * difference >= 10 * shorter {
            Percent { parts: 100 * difference, of: shorter }
        } else {
            Percent { parts: 10, of: 1 }
        }
    }

    /// Whether to keep a new content, as far as that can be said without looking at the last one.
    pub fn should_commit(&self, req: &VersionRequest, now: u64) -> (r: Decision)
        ensures
            r@ == decision(self@, req@, now),
    {
        if req.force {
            return Decision::Commit;
        }
        match self.file_states.get(req.file_path.as_str()) {
            None => Decision::Commit,
            Some(last) => {
                assert(self@.states[req.file_path@] == last@);
                if !outside::is_younger_than(last.last_commit_time, now, self.min_commit_interval) {
                    return Decision::Commit;
                }
                let new_hash = Self::content_hash(req.content.as_str());
                if text::same_str(last.last_content_hash.as_str(), new_hash.as_str()) {
                    return Decision::Skip;
                }
                match &last.last_commit_oid {
                    Some(oid) => Decision::Compare { oid: oid.clone() },
                    None => Decision::Commit,
                }
            },
        }
    }

    /// Whether to keep a new content, once the last one was looked up.
    pub fn has_changed(&self, old_content: Option<String>, new_content: &str) -> (b: bool)
        ensures
            b == differs(self@, outside::opt_text(old_content), new_content@),
    {
        match old_content {
            Some(old_content) => !Self::content_change_percent(
                old_content.as_str(),
                new_content,
            ).is_below(self.min_content_change_percent),
            None => true,
        }
    }

    /// The commit of a version.
    pub fn plan_commit(&self, req: &VersionRequest, at: Timestamp) -> (r: CommitPlan)
        requires
            at.valid(),
        ensures
            r@ == plan(self@, req@, at),
    {
        let number = text::decimal_string(req.version);
        let words = match &req.message {
            Some(m) => m.clone(),
            None => "".to_string(),
        };
        let moment = outside::rfc3339_of(at);
        let message = "Version ".to_string().concat(number.as_str()).concat(" by ").concat(
            req.username.as_str(),
        ).concat("\n\n").concat(words.as_str()).concat("\n\nMetadata:\n- File: ").concat(
            req.file_path.as_str(),
        ).concat("\n- Version: ").concat(number.as_str()).concat("\n- User: ").concat(
            req.username.as_str(),
        ).concat("\n- Timestamp: ").concat(moment.as_str());
        CommitPlan {
            full_path: paths::to_data_path(self.data_dir.as_str(), req.file_path.as_str()),
            file_path: req.file_path.clone(),
            content: req.content.clone(),
            author: req.username.clone(),
            email: text::concat(req.username.as_str(), "@drawio.local"),
            message,
        }
    }

    fn remember(&mut self, req: &VersionRequest, oid: &str, now: u64)
        ensures
            final(self)@ == remembered(old(self)@, req@, oid@, now),
    {
        let last = FileCommitState {
            last_commit_time: now,
            last_content_hash: Self::content_hash(req.content.as_str()),
            last_commit_oid: Some(oid.to_string()),
        };
        let ghost l = last;
        let ghost before = self.file_states@;
        self.file_states.insert(req.file_path.clone(), last);
        assert(before.insert(req.file_path@, l).map_values(|s: FileCommitState| s@)
            =~= before.map_values(|s: FileCommitState| s@).insert(req.file_path@, l@));
    }

    /// One step of keeping a version, at the moment `at`.
    pub fn create_version_at(&mut self, req: &VersionRequest, event: CreateEvent, at: Timestamp) -> (r:
        CreateAction)
        requires
            at.valid(),
        ensures
            (final(self)@, r@) == create_step(old(self)@, req@, event@, at),
    {
        match event {
            CreateEvent::Start { now } => match self.should_commit(req, now) {
                Decision::Commit => CreateAction::Commit(self.plan_commit(req, at)),
                Decision::Skip => CreateAction::Done(None),
                Decision::Compare { oid } => CreateAction::ReadOld { oid },
            },
            CreateEvent::OldContent(old_content) => {
                if self.has_changed(old_content, req.content.as_str()) {
                    CreateAction::Commit(self.plan_commit(req, at))
                } else {
                    CreateAction::Done(None)
                }
            },
            CreateEvent::Committed { oid, now } => {
                self.remember(req, oid.as_str(), now);
                let message = match &req.message {
                    Some(m) => m.clone(),
                    None => "".to_string(),
                };
                CreateAction::Done(
                    Some(
                        VersionInfo {
                            commit_oid: oid,
                            version: req.version,
                            timestamp: at,
                            username: req.username.clone(),
                            message,
                            file_path: req.file_path.clone(),
                        },
                    ),
                )
            },
            CreateEvent::Failed(e) => CreateAction::Fail(e),
        }
    }

    /// One step of keeping a version, now.
    pub fn create_version(&mut self, req: &VersionRequest, event: CreateEvent) -> (r: CreateAction)
        ensures
            exists|at: Timestamp|
                at.valid() && (final(self)@, r@) == #[trigger] create_step(
                    old(self)@,
                    req@,
                    event@,
                    at,
                ),
    {
        self.create_version_at(req, event, outside::utc_now())
    }

    /// The versions of a file, from the commits that lead to the present, the latest first.
    pub fn list_versions_at(&self, file_path: &str, commits: &Vec<CommitRecord>, now: Timestamp) -> (r:
        Vec<VersionInfo>)
        ensures
            versions_view(r@) == history(file_path@, records_view(commits@), now),
    {
        let ghost all = records_view(commits@);
        let mut r: Vec<VersionInfo> = Vec::new();
        let mut i: usize = 0;
        assert(versions_view(r@) =~= history(file_path@, all.take(0), now));
        while i < commits.len()
            invariant
                i <= commits@.len(),
                all == records_view(commits@),
                versions_view(r@) == history(file_path@, all.take(i as int), now),
            decreases commits@.len() - i,
        {
            let ghost kept = r@;
            assert(all.take(i + 1).drop_last() =~= all.take(i as int));
            if is_touching(&commits[i]) {
                let v = read_commit(file_path, &commits[i], now);
                let ghost seen = v@;
                r.push(v);
                assert(versions_view(r@) =~= versions_view(kept).push(seen));
            }
            i = i + 1;
        }
        assert(all.take(i as int) =~= all);
        r
    }

    /// The versions of a file, from the commits that lead to the present, the latest first.
    pub fn list_versions(&self, file_path: &str, commits: &Vec<CommitRecord>) -> (r: Vec<
        VersionInfo,
    >)
        ensures
            exists|now: Timestamp|
                now.valid() && versions_view(r@) == #[trigger] history(
                    file_path@,
                    records_view(commits@),
                    now,
                ),
    {
        self.list_versions_at(file_path, commits, outside::utc_now())
    }

    /// Where to look up what a file was: in which commit, and under which path.
    pub fn get_version_content(&self, file_path: &str, commit_oid: &str) -> (r: Result<
        (String, String),
        String,
    >)
        ensures
            (match r {
                Ok((oid, path)) => Ok((oid@, path@)),
                Err(e) => Err(e@),
            }) == lookup(file_path@, commit_oid@),
    {
        match outside::parse_oid(commit_oid) {
            Some(oid) => Ok((oid, file_path.to_string())),
            None => Err("Invalid commit OID".to_string()),
        }
    }

    /// The text that was found in a commit.
    pub fn version_content(&self, bytes: Vec<u8>) -> (r: Result<String, String>)
        ensures
            (match r {
                Ok(s) => Ok(s@),
                Err(e) => Err(e@),
            }) == blob_text(bytes@),
    {
        match outside::string_from_utf8(bytes) {
            Some(s) => Ok(s),
            None => Err("Invalid UTF-8 in file content".to_string()),
        }
    }

    /// One step of bringing back what a commit holds: look it up, keep it as a new version, and hand
    /// that on. Where the lookup fails, nothing is kept.
    pub fn restore_version(&self, req: &RestoreRequest, event: RestoreEvent) -> (r: RestoreAction)
        ensures
            r@ == restore_step(req@, event@),
    {
        match event {
            RestoreEvent::Start => RestoreAction::LookUp {
                file_path: req.file_path.clone(),
                commit_oid: req.commit_oid.clone(),
            },
            RestoreEvent::Found(Ok(content)) => RestoreAction::Keep(
                VersionRequest {
                    file_path: req.file_path.clone(),
                    content,
                    username: req.username.clone(),
                    version: req.version,
                    message: Some(text::concat("Restored from commit ", req.commit_oid.as_str())),
                    force: true,
                },
            ),
            RestoreEvent::Found(Err(e)) => RestoreAction::Fail(e),
            RestoreEvent::Made(Ok(Some(made))) => RestoreAction::Done(made),
            RestoreEvent::Made(Ok(None)) => RestoreAction::Fail(
                "Failed to create restore commit".to_string(),
            ),
            RestoreEvent::Made(Err(e)) => RestoreAction::Fail(e),
        }
    }

    /// What to push, and where: a branch, to the branch of the same name.
    pub fn push_to_remote(&self, remote_name: &str, branch: &str) -> (r: PushPlan)
        ensures
            r@ == push_plan(remote_name@, branch@),
    {
        PushPlan {
            remote_name: remote_name.to_string(),
            refspec: text::concat3("refs/heads/", branch, ":refs/heads/").concat(branch),
            missing: text::concat3(
                "Remote '",
                remote_name,
                "' not found. Configure it with: git remote add ",
            ).concat(remote_name).concat(" <url>"),
        }
    }

    /// How to set a remote: one of that name is removed first.
    pub fn set_remote(&self, remote_name: &str, url: &str, exists: bool) -> (r: Vec<RemoteStep>)
        ensures
            remote_steps_view(r@) == remote_steps(remote_name@, url@, exists),
    {
        let mut steps: Vec<RemoteStep> = Vec::new();
        if exists {
            steps.push(RemoteStep::Delete { remote_name: remote_name.to_string() });
        }
        steps.push(
            RemoteStep::Create { remote_name: remote_name.to_string(), url: url.to_string() },
        );
        assert(remote_steps_view(steps@) =~= remote_steps(remote_name@, url@, exists));
        steps
    }

    /// Tidies up. There is nothing to do yet, and it always succeeds.
    pub fn gc(&self) -> (r: Result<(), String>)
        ensures
            r is Ok,
    {
        Ok(())
    }
}

// ----- Remotes -----

/// A push: what to push to which remote, and the error where there is no such remote.
pub struct PushPlan {
    pub remote_name: String,
    pub refspec: String,
    pub missing: String,
}

pub struct PushPlanView {
    pub remote_name: Seq<char>,
    pub refspec: Seq<char>,
    pub missing: Seq<char>,
}

impl View for PushPlan {
    type V = PushPlanView;

    open spec fn view(&self) -> PushPlanView {
        PushPlanView {
            remote_name: self.remote_name@,
            refspec: self.refspec@,
            missing: self.missing@,
        }
    }
}

pub open spec fn push_plan(remote_name: Seq<char>, branch: Seq<char>) -> PushPlanView {
    PushPlanView {
        remote_name,
        refspec: "refs/heads/"@ + branch + ":refs/heads/"@ + branch,
        missing: "Remote '"@ + remote_name + "' not found. Configure it with: git remote add "@
            + remote_name + " <url>"@,
    }
}

/// A step towards a remote.
pub enum RemoteStep {
    Delete { remote_name: String },
    Create { remote_name: String, url: String },
}

pub enum RemoteStepView {
    Delete { remote_name: Seq<char> },
    Create { remote_name: Seq<char>, url: Seq<char> },
}

impl View for RemoteStep {
    type V = RemoteStepView;

    open spec fn view(&self) -> RemoteStepView {
        match *self {
            RemoteStep::Delete { remote_name } => RemoteStepView::Delete {
                remote_name: remote_name@,
            },
            RemoteStep::Create { remote_name, url } => RemoteStepView::Create {
                remote_name: remote_name@,
                url: url@,
            },
        }
    }
}

pub open spec fn remote_steps_view(v: Seq<RemoteStep>) -> Seq<RemoteStepView> {
    v.map_values(|s: RemoteStep| s@)
}

/// How a remote is set.
pub open spec fn remote_steps(remote_name: Seq<char>, url: Seq<char>, exists: bool) -> Seq<
    RemoteStepView,
> {
    let create = RemoteStepView::Create { remote_name, url };
    if exists {
        seq![RemoteStepView::Delete { remote_name }, create]
    } else {
        seq![create]
    }
}

// ----- Looking up -----

/// Where to look up what a file was: in which commit, and under which path.
pub open spec fn lookup(file_path: Seq<char>, commit_oid: Seq<char>) -> Result<
    (Seq<char>, Seq<char>),
    Seq<char>,
> {
    if outside::oid_text(commit_oid) {
        Ok((outside::full_oid(commit_oid), file_path))
    } else {
        Err("Invalid commit OID"@)
    }
}

/// The text that was found in a commit.
pub open spec fn blob_text(bytes: Seq<u8>) -> Result<Seq<char>, Seq<char>> {
    match outside::utf8_text(bytes) {
        Some(text) => Ok(text),
        None => Err("Invalid UTF-8 in file content"@),
    }
}

// ----- Restoring -----

/// A commit from which a file is to be brought back, by whom, and as which version.
pub struct RestoreRequest {
    pub file_path: String,
    pub commit_oid: String,
    pub username: String,
    pub version: u64,
}

pub struct RestoreRequestView {
    pub file_path: Seq<char>,
    pub commit_oid: Seq<char>,
    pub username: Seq<char>,
    pub version: u64,
}

impl View for RestoreRequest {
    type V = RestoreRequestView;

    open spec fn view(&self) -> RestoreRequestView {
        RestoreRequestView {
            file_path: self.file_path@,
            commit_oid: self.commit_oid@,
            username: self.username@,
            version: self.version,
        }
    }
}

/// What became of the last thing asked for.
pub enum RestoreEvent {
    /// Nothing was asked for yet.
    Start,
    /// What the commit holds, or why that cannot be had.
    Found(Result<String, String>),
    /// The version that was made, if one was, or why it could not be.
    Made(Result<Option<VersionInfo>, String>),
}

/// What to do next.
pub enum RestoreAction {
    /// Look up the file in the commit.
    LookUp { file_path: String, commit_oid: String },
    /// Keep this version.
    Keep(VersionRequest),
    Done(VersionInfo),
    Fail(String),
}

pub enum RestoreEventView {
    Start,
    Found(Result<Seq<char>, Seq<char>>),
    Made(Result<Option<VersionInfoView>, Seq<char>>),
}

pub enum RestoreActionView {
    LookUp { file_path: Seq<char>, commit_oid: Seq<char> },
    Keep(VersionRequestView),
    Done(VersionInfoView),
    Fail(Seq<char>),
}

impl View for RestoreEvent {
    type V = RestoreEventView;

    open spec fn view(&self) -> RestoreEventView {
        match *self {
            RestoreEvent::Start => RestoreEventView::Start,
            RestoreEvent::Found(Ok(content)) => RestoreEventView::Found(Ok(content@)),
            RestoreEvent::Found(Err(e)) => RestoreEventView::Found(Err(e@)),
            RestoreEvent::Made(Ok(Some(made))) => RestoreEventView::Made(Ok(Some(made@))),
            RestoreEvent::Made(Ok(None)) => RestoreEventView::Made(Ok(None)),
            RestoreEvent::Made(Err(e)) => RestoreEventView::Made(Err(e@)),
        }
    }
}

impl View for RestoreAction {
    type V = RestoreActionView;

    open spec fn view(&self) -> RestoreActionView {
        match *self {
            RestoreAction::LookUp { file_path, commit_oid } => RestoreActionView::LookUp {
                file_path: file_path@,
                commit_oid: commit_oid@,
            },
            RestoreAction::Keep(req) => RestoreActionView::Keep(req@),
            RestoreAction::Done(made) => RestoreActionView::Done(made@),
            RestoreAction::Fail(e) => RestoreActionView::Fail(e@),
        }
    }
}

/// The version that brings back what a commit holds.
pub open spec fn restoring(req: RestoreRequestView, content: Seq<char>) -> VersionRequestView {
    VersionRequestView {
        file_path: req.file_path,
        content,
        username: req.username,
        version: req.version,
        message: Some("Restored from commit "@ + req.commit_oid),
        force: true,
    }
}

/// One step of bringing back what a commit holds.
pub open spec fn restore_step(req: RestoreRequestView, event: RestoreEventView) -> RestoreActionView {
    match event {
        RestoreEventView::Start => RestoreActionView::LookUp {
            file_path: req.file_path,
            commit_oid: req.commit_oid,
        },
        RestoreEventView::Found(Ok(content)) => RestoreActionView::Keep(restoring(req, content)),
        RestoreEventView::Found(Err(e)) => RestoreActionView::Fail(e),
        RestoreEventView::Made(Ok(Some(made))) => RestoreActionView::Done(made),
        RestoreEventView::Made(Ok(None)) => RestoreActionView::Fail(
            "Failed to create restore commit"@,
        ),
        RestoreEventView::Made(Err(e)) => RestoreActionView::Fail(e),
    }
}

// ----- Laws -----

proof fn lemma_message_lines(req: VersionRequestView, at: Timestamp)
    requires
        !req.username.contains('\n'),
        !req.message.unwrap_or(""@).contains('\n'),
    ensures
        ({
            let head = "Version "@ + text::decimal(req.version as nat) + " by "@ + req.username;
            let lines = text::lines_of(commit_message(req, at));
            &&& lines.len() > 2
            &&& lines[0] == text::without_cr(head)
            &&& lines[2] == text::without_cr(req.message.unwrap_or(""@))
        }),
{
    let number = text::decimal(req.version as nat);
    let words = req.message.unwrap_or(""@);
    let head = "Version "@ + number + " by "@ + req.username;
    let rest = "\nMetadata:\n- File: "@ + req.file_path + "\n- Version: "@ + number
        + "\n- User: "@ + req.username + "\n- Timestamp: "@ + outside::rfc3339(
        at.seconds,
        at.nanoseconds,
    );
    reveal_strlit("\n\n");
    reveal_strlit("\n\nMetadata:\n- File: ");
    reveal_strlit("\nMetadata:\n- File: ");
    reveal_strlit("Version ");
    reveal_strlit(" by ");
    assert("\n\nMetadata:\n- File: "@ =~= seq!['\n'] + "\nMetadata:\n- File: "@);
    assert("\n\n"@ =~= seq!['\n'] + seq!['\n']);
    let empty = Seq::<char>::empty();
    let tail = words.push('\n') + rest;
    let middle = empty.push('\n') + tail;
    assert(commit_message(req, at) =~= head.push('\n') + middle);
    text::lemma_decimal(req.version as nat);
    assert(!head.contains('\n')) by {
        if head.contains('\n') {
            let i = choose|i: int| 0 <= i < head.len() && head[i] == '\n';
            if i < 8 {
                assert(head[i] == "Version "@[i]);
            } else if i < 8 + number.len() {
                assert(head[i] == number[i - 8]);
            } else if i < 12 + number.len() {
                assert(head[i] == " by "@[i - 8 - number.len()]);
            } else {
                assert(head[i] == req.username[i - 12 - number.len()]);
            }
        }
    }
    text::lemma_pieces_concat(head, middle, '\n');
    text::lemma_pieces_concat(empty, tail, '\n');
    text::lemma_pieces_concat(words, rest, '\n');
    text::lemma_pieces_single(head, '\n');
    text::lemma_pieces_single(empty, '\n');
    text::lemma_pieces_single(words, '\n');
    text::lemma_pieces_nonempty(rest, '\n');
    let p = text::pieces(commit_message(req, at), '\n');
    assert(p[0] == head);
    assert(p[2] == words);
    assert(p.len() > 3);
}

proof fn lemma_head(number: Seq<char>, username: Seq<char>)
    requires
        number.len() > 0,
        text::all_digits(number),
        !text::stands_in(username, " by "@),
    ensures
        ({
            let head = "Version "@ + number + " by "@ + username;
            &&& text::second_word(head) == Some(number)
            &&& text::second_field(head, " by "@) == Some(username)
        }),
{
    let head = "Version "@ + number + " by "@ + username;
    reveal_strlit("Version ");
    reveal_strlit(" by ");
    let n = number.len() as int;
    assert forall|i: int| 0 <= i < n implies head[8 + i] == number[i] by {}
    assert(head[8] == number[0]);
    // The second word.
    text::lemma_prefix_len(head, Class::Space, 0);
    assert(text::trim_front(head, Class::Space) =~= head);
    text::lemma_prefix_len(head, Class::NotSpace, 7);
    let a = text::trim_front(head, Class::NotSpace);
    assert(a =~= head.skip(7));
    assert(a[0] == ' ');
    assert(a[1] == number[0]);
    text::lemma_prefix_len(a, Class::Space, 1);
    let b = text::trim_front(a, Class::Space);
    assert(b =~= head.skip(8));
    assert(b[n] == ' ');
    assert forall|i: int| 0 <= i < n implies Class::NotSpace.holds(#[trigger] b[i]) by {
        assert(b[i] == number[i]);
    }
    text::lemma_prefix_len(b, Class::NotSpace, n);
    assert(text::front(b, Class::NotSpace) =~= number);
    // What stands behind ` by `.
    let sep = " by "@;
    assert(head.subrange(8 + n, 12 + n) =~= sep);
    assert forall|j: int| 0 <= j < 8 + n implies !text::occurs_at(head, sep, j) by {
        if text::occurs_at(head, sep, j) {
            let w = head.subrange(j, j + 4);
            assert(w[0] == ' ' && w[1] == 'b');
            assert(head[j] == ' ' && head[j + 1] == 'b');
            if j < 8 {
                assert(head[j] == "Version "@[j]);
                assert(j == 7);
                assert(head[8] == number[0]);
            } else {
                assert(head[j] == number[j - 8]);
            }
        }
    }
    assert(text::first_occurs_at(head, sep, 8 + n));
    text::lemma_first_index(head, sep, 8 + n);
    assert(head.skip(12 + n) =~= username);
}

/// What a commit says of a version is what is read back from it: the number, the user and the
/// user's words. It holds for users whose name is on one line and holds no ` by `, and for words
/// on one line; neither ends with a carriage return.
pub proof fn versions_are_read_back(
    req: VersionRequestView,
    at: Timestamp,
    oid: Seq<char>,
    first: bool,
    entry_before: Option<Seq<char>>,
    entry: Option<Seq<char>>,
    seconds: i64,
    now: Timestamp,
)
    requires
        !req.username.contains('\n'),
        !text::stands_in(req.username, " by "@),
        text::without_cr(req.username) == req.username,
        !req.message.unwrap_or(""@).contains('\n'),
        text::without_cr(req.message.unwrap_or(""@)) == req.message.unwrap_or(""@),
    ensures
        ({
            let c = CommitRecordView {
                oid,
                first,
                entry_before,
                entry,
                message: commit_message(req, at),
                seconds,
            };
            version_of(req.file_path, c, now) == info(req, oid, commit_time(seconds, now))
        }),
{
    let number = text::decimal(req.version as nat);
    let head = "Version "@ + number + " by "@ + req.username;
    lemma_message_lines(req, at);
    reveal_strlit(" by ");
    if req.username.len() == 0 {
        assert(head.last() == " by "@[3]);
    } else {
        assert(head.last() == req.username.last());
    }
    text::lemma_decimal(req.version as nat);
    lemma_head(number, req.username);
    text::number_reads_decimal(req.version);
}

/// A content that is written as UTF-8 is read as it was.
pub proof fn contents_are_read_back(content: Seq<char>)
    ensures
        outside::utf8_text(vstd::utf8::encode_utf8(content)) == Some(content),
{
    vstd::utf8::encode_utf8_valid_utf8(content);
    vstd::utf8::encode_utf8_decode_utf8(content);
}

/// A version is read back as it was kept, as far as the library has a part in it: the bytes that its
/// commit writes are the text's, and where the repository gives these bytes back, they are read as
/// that text.
pub proof fn kept_content_is_read_back(
    m: ManagerView,
    req: VersionRequestView,
    at: Timestamp,
    bytes: Seq<u8>,
)
    requires
        bytes == vstd::utf8::encode_utf8(plan(m, req, at).content),
    ensures
        outside::utf8_text(bytes) == Some(req.content),
{
    contents_are_read_back(req.content);
}

/// A failed lookup or a failed commit ends a restoration with the same error, and a version is asked
/// for only once the content is there.
pub proof fn failed_restoration_keeps_nothing(
    req: RestoreRequestView,
    event: RestoreEventView,
    error: Seq<char>,
)
    ensures
        restore_step(req, RestoreEventView::Found(Err(error))) == RestoreActionView::Fail(error),
        restore_step(req, RestoreEventView::Made(Err(error))) == RestoreActionView::Fail(error),
        restore_step(req, event) is Keep <==> (event matches RestoreEventView::Found(found)
            && found is Ok),
        restore_step(req, event) is Done <==> (event matches RestoreEventView::Made(made) && made
            matches Ok(m) && m is Some),
{
}

/// Restoring makes a new version of the old content. For every text that the commit holds: the
/// version that is kept is committed in any case; its commit writes that text to the file's place
/// and stages it; the bytes written are read back as that text; and what comes out is the new commit
/// with the version and the user that were asked for, and the commit it was restored from.
pub proof fn restoration_brings_back_the_content(
    m: ManagerView,
    req: RestoreRequestView,
    content: Seq<char>,
    now: u64,
    at: Timestamp,
    new_oid: Seq<char>,
    later: u64,
    later_at: Timestamp,
)
    ensures
        ({
            let kept = restoring(req, content);
            let made = info(kept, new_oid, later_at);
            let committed = CreateEventView::Committed { oid: new_oid, now: later };
            &&& restore_step(req, RestoreEventView::Start) == (RestoreActionView::LookUp {
                file_path: req.file_path,
                commit_oid: req.commit_oid,
            })
            &&& restore_step(req, RestoreEventView::Found(Ok(content))) == RestoreActionView::Keep(
                kept,
            )
            &&& create_step(m, kept, CreateEventView::Start { now }, at) == (
                m,
                CreateActionView::Commit(plan(m, kept, at)),
            )
            &&& plan(m, kept, at).content == content
            &&& plan(m, kept, at).file_path == req.file_path
            &&& plan(m, kept, at).full_path == paths::joined(m.data_dir, req.file_path)
            &&& outside::utf8_text(vstd::utf8::encode_utf8(plan(m, kept, at).content)) == Some(
                content,
            )
            &&& create_step(m, kept, committed, later_at) == (
                remembered(m, kept, new_oid, later),
                CreateActionView::Done(Some(made)),
            )
            &&& restore_step(req, RestoreEventView::Made(Ok(Some(made))))
                == RestoreActionView::Done(made)
            &&& made.commit_oid == new_oid
            &&& made.version == req.version
            &&& made.username == req.username
            &&& made.file_path == req.file_path
            &&& made.message == "Restored from commit "@ + req.commit_oid
        }),
{
    contents_are_read_back(content);
}

/// A restored version is read back with the commit that it was restored from.
pub proof fn restorations_are_read_back(
    req: RestoreRequestView,
    content: Seq<char>,
    at: Timestamp,
    c: CommitRecordView,
    now: Timestamp,
)
    requires
        outside::oid_text(req.commit_oid),
        !req.username.contains('\n'),
        !text::stands_in(req.username, " by "@),
        text::without_cr(req.username) == req.username,
        c.message == commit_message(restoring(req, content), at),
    ensures
        version_of(req.file_path, c, now).version == req.version,
        version_of(req.file_path, c, now).username == req.username,
        version_of(req.file_path, c, now).message == "Restored from commit "@ + req.commit_oid,
{
    let words = "Restored from commit "@ + req.commit_oid;
    reveal_strlit("Restored from commit ");
    assert(outside::hex_letter(req.commit_oid.last()));
    assert(words.last() == req.commit_oid.last());
    assert(!words.contains('\n')) by {
        if words.contains('\n') {
            let i = choose|i: int| 0 <= i < words.len() && words[i] == '\n';
            if i < 21 {
                assert(words[i] == "Restored from commit "@[i]);
            } else {
                assert(words[i] == req.commit_oid[i - 21]);
            }
        }
    }
    versions_are_read_back(
        restoring(req, content),
        at,
        c.oid,
        c.first,
        c.entry_before,
        c.entry,
        c.seconds,
        now,
    );
}

/// Whoever insists gets a version: a checkpoint and a restored version are always committed.
pub proof fn forced_versions_are_committed(
    m: ManagerView,
    req: VersionRequestView,
    now: u64,
    at: Timestamp,
)
    requires
        req.force,
    ensures
        create_step(m, req, CreateEventView::Start { now }, at) == (
            m,
            CreateActionView::Commit(plan(m, req, at)),
        ),
{
}

/// No change is lost for being small: two contents that differ differ by a tenth or more.
pub proof fn every_change_counts(m: ManagerView, old_content: Seq<char>, new_content: Seq<char>)
    requires
        m.min_percent <= 10,
        old_content != new_content,
    ensures
        differs(m, Some(old_content), new_content),
{
    let a = vstd::utf8::encode_utf8(old_content).len();
    let b = vstd::utf8::encode_utf8(new_content).len();
    let c = change(old_content, new_content);
    let shorter = if a < b {
        a
    } else {
        b
    };
    let difference = if a < b {
        b - a
    } else {
        a - b
    };
    assert(c.1 == 1 ==> m.min_percent * c.1 == m.min_percent) by (nonlinear_arith);
    if shorter != 0 && 100 * difference >= 10 * shorter {
        assert(m.min_percent * shorter <= 10 * shorter) by (nonlinear_arith)
            requires
                m.min_percent <= 10,
                0 <= shorter,
        ;
    }
}

/// Without looking at what was committed, a version is skipped only if its content was committed
/// less than the least interval ago, and nobody insists.
pub proof fn skipped_only_if_known(
    m: ManagerView,
    req: VersionRequestView,
    now: u64,
    at: Timestamp,
)
    ensures
        create_step(m, req, CreateEventView::Start { now }, at).1 == CreateActionView::Done(None)
            <==> (!req.force && m.states.contains_key(req.file_path) && outside::younger_than(
            m.states[req.file_path].last_commit_time,
            now,
            m.min_interval,
        ) && m.states[req.file_path].last_content_hash == digest(req.content)),
{
}

/// A content that was just committed is not committed again within the minute.
pub proof fn unchanged_content_is_skipped(
    m: ManagerView,
    req: VersionRequestView,
    oid: Seq<char>,
    begun: u64,
    now: u64,
    at: Timestamp,
)
    requires
        !req.force,
        now - begun < m.min_interval,
    ensures
        create_step(remembered(m, req, oid, begun), req, CreateEventView::Start { now }, at).1
            == CreateActionView::Done(None),
{
}

/// Committing one file leaves what is remembered of every other file as it is.
pub proof fn files_are_remembered_apart(
    m: ManagerView,
    req: VersionRequestView,
    event: CreateEventView,
    at: Timestamp,
    other: Seq<char>,
)
    requires
        other != req.file_path,
    ensures
        ({
            let after = create_step(m, req, event, at).0;
            &&& after.states.contains_key(other) == m.states.contains_key(other)
            &&& m.states.contains_key(other) ==> after.states[other] == m.states[other]
        }),
{
}

/// Histories add up: the versions among some commits and then others are the versions among the ones
/// and then the versions among the others, however many there are.
pub proof fn histories_add_up(
    file_path: Seq<char>,
    a: Seq<CommitRecordView>,
    b: Seq<CommitRecordView>,
    now: Timestamp,
)
    ensures
        history(file_path, a + b, now) == history(file_path, a, now) + history(file_path, b, now),
    decreases b.len(),
{
    if b.len() == 0 {
        assert(a + b =~= a);
        assert(history(file_path, a, now) + history(file_path, b, now) =~= history(
            file_path,
            a,
            now,
        ));
    } else {
        assert((a + b).drop_last() =~= a + b.drop_last());
        histories_add_up(file_path, a, b.drop_last(), now);
        assert(history(file_path, a + b, now) =~= history(file_path, a, now) + history(
            file_path,
            b,
            now,
        ));
    }
}

/// One commit is one version of the file if it made, changed or removed it, and none otherwise. The
/// version names the commit and the file, and has the commit's time where that has a date.
pub proof fn one_commit_is_one_version(
    file_path: Seq<char>,
    c: CommitRecordView,
    now: Timestamp,
)
    ensures
        ({
            let found = history(file_path, seq![c], now);
            let changed = if c.first {
                c.entry is Some
            } else {
                c.entry_before != c.entry
            };
            &&& found.len() == if changed {
                1nat
            } else {
                0nat
            }
            &&& changed ==> found[0].commit_oid == c.oid && found[0].file_path == file_path
            &&& changed && outside::FIRST_SECOND <= c.seconds <= outside::LAST_SECOND
                ==> found[0].timestamp.seconds == c.seconds && found[0].timestamp.nanoseconds == 0
            &&& changed && !(outside::FIRST_SECOND <= c.seconds <= outside::LAST_SECOND)
                ==> found[0].timestamp == now
        }),
{
    assert(seq![c].drop_last() =~= Seq::<CommitRecordView>::empty());
    assert(history(file_path, Seq::<CommitRecordView>::empty(), now).len() == 0);
}

/// The list of versions is complete: every commit that made, changed or removed the file is in it,
/// and it has exactly as many versions as there are such commits, in the order of the commits.
pub proof fn every_version_is_listed(
    file_path: Seq<char>,
    commits: Seq<CommitRecordView>,
    now: Timestamp,
)
    ensures
        ({
            let changing = commits.filter(
                |c: CommitRecordView|
                    if c.first {
                        c.entry is Some
                    } else {
                        c.entry_before != c.entry
                    },
            );
            let listed = history(file_path, commits, now);
            &&& listed.len() == changing.len()
            &&& forall|j: int|
                0 <= j < listed.len() ==> (#[trigger] listed[j]).commit_oid == changing[j].oid
                    && listed[j].file_path == file_path
            &&& forall|i: int|
                0 <= i < commits.len() && (if (#[trigger] commits[i]).first {
                    commits[i].entry is Some
                } else {
                    commits[i].entry_before != commits[i].entry
                }) ==> exists|j: int|
                    0 <= j < listed.len() && (#[trigger] listed[j]).commit_oid == commits[i].oid
        }),
    decreases commits.len(),
{
    let test = |c: CommitRecordView|
        if c.first {
            c.entry is Some
        } else {
            c.entry_before != c.entry
        };
    reveal(Seq::filter);
    let listed = history(file_path, commits, now);
    if commits.len() > 0 {
        let others = commits.drop_last();
        every_version_is_listed(file_path, others, now);
        assert(commits =~= others + seq![commits.last()]);
        histories_add_up(file_path, others, seq![commits.last()], now);
        one_commit_is_one_version(file_path, commits.last(), now);
        let before = history(file_path, others, now);
        let last = history(file_path, seq![commits.last()], now);
        assert(listed == before + last);
        assert forall|i: int| 0 <= i < commits.len() && test(#[trigger] commits[i]) implies exists|
            j: int,
        |
            0 <= j < listed.len() && (#[trigger] listed[j]).commit_oid == commits[i].oid by {
            if i < others.len() {
                assert(others[i] == commits[i]);
                let j = choose|j: int|
                    0 <= j < before.len() && (#[trigger] before[j]).commit_oid == commits[i].oid;
                assert(listed[j] == before[j]);
            } else {
                assert(listed[before.len() as int] == last[0]);
            }
        }
    }
}

/// Of a message that the server did not write, what is missing is made up: no user is the user
/// `unknown`, no number is the version zero, and no third line is no words.
pub proof fn foreign_messages_are_read(message: Seq<char>, c: CommitRecordView, now: Timestamp)
    requires
        c.message == message,
    ensures
        ({
            let lines = text::lines_of(message);
            let v = version_of(c.oid, c, now);
            &&& lines.len() == 0 || !text::stands_in(lines[0], " by "@) ==> v.username
                == "unknown"@
            &&& lines.len() == 0 || text::second_word(lines[0]) is None || text::number(
                text::second_word(lines[0])->0,
            ) is None ==> v.version == 0
            &&& lines.len() <= 2 ==> v.message == ""@
            &&& lines.len() > 2 ==> v.message == lines[2]
        }),
{
}

/// The first version of a file is committed, and so is every version that comes a minute or more
/// after the last. One that comes sooner with another digest is held against the last commit.
pub proof fn versions_are_due(
    m: ManagerView,
    req: VersionRequestView,
    now: u64,
    at: Timestamp,
)
    requires
        m.min_interval == 60_000_000_000u64,
    ensures
        ({
            let next = create_step(m, req, CreateEventView::Start { now }, at).1;
            let known = m.states.contains_key(req.file_path);
            let last = m.states[req.file_path];
            &&& !known ==> next is Commit
            &&& known && last.last_commit_time + 60_000_000_000u64 <= now ==> next is Commit
            &&& known && !req.force && now < last.last_commit_time + 60_000_000_000u64
                && last.last_content_hash != digest(req.content) ==> (
            match last.last_commit_oid {
                Some(oid) => next == CreateActionView::ReadOld { oid },
                None => next is Commit,
            })
        }),
{
}

/// Once the last content is there, a new one is committed exactly if it is another one, or empty; and
/// it is committed where the last cannot be had.
pub proof fn changed_contents_are_committed(
    m: ManagerView,
    req: VersionRequestView,
    old_content: Seq<char>,
    at: Timestamp,
)
    requires
        1 <= m.min_percent <= 10,
    ensures
        ({
            let found = CreateEventView::OldContent(Some(old_content));
            let next = create_step(m, req, found, at).1;
            &&& old_content != req.content || req.content.len() == 0 ==> next is Commit
            &&& old_content == req.content && req.content.len() > 0 ==> next
                == CreateActionView::Done(None)
            &&& create_step(m, req, CreateEventView::OldContent(None), at).1 is Commit
        }),
{
    let n = vstd::utf8::encode_utf8(req.content).len();
    if old_content != req.content {
        every_change_counts(m, old_content, req.content);
    } else if req.content.len() == 0 {
        assert(n == 0);
        assert(m.min_percent * 1 <= 10) by (nonlinear_arith)
            requires
                m.min_percent <= 10,
        ;
    } else {
        lemma_text_has_bytes(req.content);
        assert(m.min_percent * 1 >= 1) by (nonlinear_arith)
            requires
                m.min_percent >= 1,
        ;
    }
}

proof fn lemma_text_has_bytes(s: Seq<char>)
    requires
        s.len() > 0,
    ensures
        vstd::utf8::encode_utf8(s).len() > 0,
{
    assert(vstd::utf8::encode_scalar(s[0] as u32).len() > 0);
}

/// A commit holds what was asked for: the content, for that file, at its place, by that user.
pub proof fn commits_hold_what_was_asked(m: ManagerView, req: VersionRequestView, at: Timestamp)
    ensures
        ({
            let p = plan(m, req, at);
            &&& p.content == req.content
            &&& p.file_path == req.file_path
            &&& p.full_path == paths::joined(m.data_dir, req.file_path)
            &&& p.author == req.username
            &&& p.email == req.username + "@drawio.local"@
            &&& text::stands_in(
                p.message,
                "- File: "@ + req.file_path + "\n- Version: "@ + text::decimal(req.version as nat)
                    + "\n- User: "@ + req.username,
            )
            &&& text::has_suffix(
                p.message,
                "\n- User: "@ + req.username + "\n- Timestamp: "@ + outside::rfc3339(
                    at.seconds,
                    at.nanoseconds,
                ),
            )
        }),
{
    let number = text::decimal(req.version as nat);
    let words = req.message.unwrap_or(""@);
    let p = plan(m, req, at).message;
    let head = "Version "@ + number + " by "@ + req.username + "\n\n"@ + words
        + "\n\nMetadata:\n"@;
    let file = "- File: "@ + req.file_path + "\n- Version: "@ + number + "\n- User: "@
        + req.username;
    let tail = "\n- User: "@ + req.username + "\n- Timestamp: "@ + outside::rfc3339(
        at.seconds,
        at.nanoseconds,
    );
    reveal_strlit("\n\nMetadata:\n- File: ");
    reveal_strlit("\n\nMetadata:\n");
    reveal_strlit("- File: ");
    assert("\n\nMetadata:\n- File: "@ =~= "\n\nMetadata:\n"@ + "- File: "@);
    let stamp = "\n- Timestamp: "@ + outside::rfc3339(at.seconds, at.nanoseconds);
    assert(p =~= head + file + stamp);
    assert(p.subrange(head.len() as int, (head.len() + file.len()) as int) =~= file);
    assert(text::occurs_at(p, file, head.len() as int));
    assert(p.subrange(p.len() - tail.len(), p.len() as int) =~= tail);
}

/// What is remembered of a commit is what it was: its moment, its content's digest and its name. What
/// comes out of it says what was asked for.
pub proof fn commits_are_remembered(
    m: ManagerView,
    req: VersionRequestView,
    oid: Seq<char>,
    now: u64,
    at: Timestamp,
)
    ensures
        ({
            let (after, next) = create_step(
                m,
                req,
                CreateEventView::Committed { oid, now },
                at,
            );
            &&& after.states.contains_key(req.file_path)
            &&& after.states[req.file_path].last_commit_time == now
            &&& after.states[req.file_path].last_content_hash == digest(req.content)
            &&& after.states[req.file_path].last_commit_oid == Some(oid)
            &&& after.data_dir == m.data_dir
            &&& after.min_interval == m.min_interval
            &&& after.min_percent == m.min_percent
            &&& next == CreateActionView::Done(
                Some(
                    VersionInfoView {
                        commit_oid: oid,
                        version: req.version,
                        timestamp: at,
                        username: req.username,
                        message: match req.message {
                            Some(words) => words,
                            None => ""@,
                        },
                        file_path: req.file_path,
                    },
                ),
            )
        }),
{
}

/// A directory is set up once: a repository is made and a file of attributes written where there is
/// none, and the server's name and address are set in any case, in this order.
pub proof fn repositories_are_set_up(data_dir: Seq<char>, has_repository: bool, has_attributes: bool)
    ensures
        ({
            let steps = setup(data_dir, has_repository, has_attributes);
            let skipped: int = if has_repository {
                0
            } else {
                1
            };
            &&& steps.len() == skipped + 2 + (if has_attributes {
                0int
            } else {
                1int
            })
            &&& !has_repository ==> steps[0] is Init
            &&& steps[skipped] == (SetupStepView::Configure {
                key: "user.name"@,
                value: "Draw.io Server"@,
            })
            &&& steps[skipped + 1] == (SetupStepView::Configure {
                key: "user.email"@,
                value: "server@drawio.local"@,
            })
            &&& !has_attributes ==> steps[skipped + 2] == (SetupStepView::Write {
                path: paths::joined(data_dir, ".gitattributes"@),
                text: "*.drawio -diff -merge\n"@,
            })
        }),
{
}

/// A branch is pushed to the branch of its name, and a remote is made anew with the address that is
/// given, whether or not there was one.
pub proof fn remotes_are_followed(remote_name: Seq<char>, branch: Seq<char>, url: Seq<char>, there: bool)
    ensures
        push_plan(remote_name, branch).remote_name == remote_name,
        push_plan(remote_name, branch).refspec == "refs/heads/"@ + branch + ":refs/heads/"@
            + branch,
        remote_steps(remote_name, url, there).last() == (RemoteStepView::Create {
            remote_name,
            url,
        }),
        remote_steps(remote_name, url, there).len() == (if there {
            2nat
        } else {
            1nat
        }),
        there ==> remote_steps(remote_name, url, there)[0] == (RemoteStepView::Delete {
            remote_name,
        }),
{
}

/// A digest is that of the content's bytes, in base sixteen, whole.
pub proof fn digests_are_of_the_bytes(content: Seq<char>)
    ensures
        digest(content) == text::hex(outside::sha256(vstd::utf8::encode_utf8(content))),
        digest(content).len() == 2 * outside::sha256(vstd::utf8::encode_utf8(content)).len(),
{
    lemma_hex_len(outside::sha256(vstd::utf8::encode_utf8(content)));
}

proof fn lemma_hex_len(bytes: Seq<u8>)
    ensures
        text::hex(bytes).len() == 2 * bytes.len(),
    decreases bytes.len(),
{
    if bytes.len() > 0 {
        lemma_hex_len(bytes.drop_last());
    }
}

/// How much has changed does not depend on which content came first. Two contents that are not empty
/// and not equal differ by a tenth or by the difference of their lengths against the shorter one,
/// whichever is more.
pub proof fn changes_are_measured(a: Seq<char>, b: Seq<char>)
    ensures
        change(a, b) == change(b, a),
        ({
            let x = vstd::utf8::encode_utf8(a).len();
            let y = vstd::utf8::encode_utf8(b).len();
            &&& x == 0 || y == 0 ==> change(a, b) == (100nat, 1nat)
            &&& x > 0 && a == b ==> change(a, b).0 == 0
            &&& 0 < x <= y && a != b && 10 * (y - x) >= x ==> change(a, b) == (
                (100 * (y - x)) as nat,
                x,
            )
            &&& 0 < x <= y && a != b && 10 * (y - x) < x ==> change(a, b) == (10nat, 1nat)
        }),
{
}

/// The limits are one minute and five percent.
pub proof fn limits_are_as_documented()
    ensures
        MIN_COMMIT_INTERVAL == 60 * 1_000_000_000,
        MIN_CHANGE_PERCENT == 5,
{
}

/// A commit is looked up by its name of forty digits in small letters as it is, for every file; and a
/// text that was committed is found as it was.
pub proof fn commits_are_looked_up(file_path: Seq<char>, oid: Seq<char>, content: Seq<char>)
    requires
        oid.len() == 40,
        forall|i: int| 0 <= i < 40 ==> ('0' <= #[trigger] oid[i] <= '9' || 'a' <= oid[i] <= 'f'),
    ensures
        lookup(file_path, oid) == Ok::<(Seq<char>, Seq<char>), Seq<char>>((oid, file_path)),
        blob_text(vstd::utf8::encode_utf8(content)) == Ok::<Seq<char>, Seq<char>>(content),
{
    assert(outside::full_oid(oid) =~= oid);
    contents_are_read_back(content);
}

/// What names no commit is refused, and so is what is no text.
pub proof fn bad_lookups_are_refused(file_path: Seq<char>, oid: Seq<char>, bytes: Seq<u8>)
    ensures
        oid.len() == 0 || oid.len() > 40 ==> lookup(file_path, oid) == Err::<
            (Seq<char>, Seq<char>),
            Seq<char>,
        >("Invalid commit OID"@),
        !vstd::utf8::valid_utf8(bytes) ==> blob_text(bytes) == Err::<Seq<char>, Seq<char>>(
            "Invalid UTF-8 in file content"@,
        ),
{
}

} // verus!
