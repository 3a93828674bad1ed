//! What a directory of diagrams holds.

use crate::auth;
use crate::auth::{Credentials, CredentialsView};
use crate::http;
use crate::http::{Reply, ReplyView};
use crate::messages;
use crate::outside;
use crate::paths;
use crate::state::{AppState, StateView};
use crate::text;
use vstd::prelude::*;

verus! {

/// A directory or a diagram.
pub struct FsEntry {
    pub name: String,
    pub path: String,
    pub is_dir: bool,
    pub size: Option<u64>,
    pub modified_ms: Option<i64>,
}

pub struct FsEntryView {
    pub name: Seq<char>,
    pub path: Seq<char>,
    pub is_dir: bool,
    pub size: Option<u64>,
    pub modified_ms: Option<i64>,
}

impl View for FsEntry {
    type V = FsEntryView;

    open spec fn view(&self) -> FsEntryView {
        FsEntryView {
            name: self.name@,
            path: self.path@,
            is_dir: self.is_dir,
            size: self.size,
            modified_ms: self.modified_ms,
        }
    }
}

pub open spec fn entries_view(v: Seq<FsEntry>) -> Seq<FsEntryView> {
    v.map_values(|e: FsEntry| e@)
}

// ----- The diagrams of the data directory -----

/// A directory entry: its name, where that is a text, and whether it is a regular file.
pub struct FoundFile {
    pub name: Option<String>,
    pub is_file: bool,
}

pub struct FoundFileView {
    pub name: Option<Seq<char>>,
    pub is_file: bool,
}

impl View for FoundFile {
    type V = FoundFileView;

    open spec fn view(&self) -> FoundFileView {
        FoundFileView { name: outside::opt_text(self.name), is_file: self.is_file }
    }
}

pub open spec fn found_view(v: Seq<FoundFile>) -> Seq<FoundFileView> {
    v.map_values(|e: FoundFile| e@)
}

/// The names of the diagrams among some entries, in their order.
pub open spec fn diagrams(found: Seq<FoundFileView>) -> Seq<Seq<char>>
    decreases found.len(),
{
    if found.len() == 0 {
        seq![]
    } else {
        let e = found.last();
        let before = diagrams(found.drop_last());
        match e.name {
            Some(name) => if e.is_file && paths::is_drawio(name) {
                before.push(name)
            } else {
                before
            },
            None => before,
        }
    }
}

/// Whether the diagrams may be listed: `None` if so.
pub fn list_files(state: &AppState, creds: &Credentials) -> (r: Option<Reply>)
    ensures
        r is None <==> auth::may_read(state@, creds@),
        r matches Some(reply) ==> reply@ == ReplyView::Status(401),
{
    if auth::is_reader(state, creds) {
        None
    } else {
        Some(Reply::Status(401))
    }
}

/// The list of the diagrams. Where the directory could not be read, nothing was found.
pub fn list_files_found(found: Vec<FoundFile>) -> (r: Reply)
    ensures
        r@ == ReplyView::FileList(diagrams(found_view(found@))),
{
    let mut names: Vec<String> = Vec::new();
    let mut i: usize = 0;
    let ghost all = found_view(found@);
    assert(messages::strings(names@) =~= diagrams(all.take(0)));
    while i < found.len()
        invariant
            i <= found@.len(),
            all == found_view(found@),
            messages::strings(names@) == diagrams(all.take(i as int)),
        decreases found@.len() - i,
    {
        let ghost kept = names@;
        let e = &found[i];
        if let Some(name) = &e.name {
            if e.is_file && paths::ends_with_drawio(name.as_str()) {
                names.push(name.clone());
                assert(messages::strings(names@) =~= messages::strings(kept).push(name@));
            }
        }
        assert(all.take(i + 1).drop_last() =~= all.take(i as int));
        i = i + 1;
    }
    assert(all.take(i as int) =~= all);
    Reply::FileList(names)
}

// ----- A directory -----

/// What an entry of a directory is.
#[derive(Clone, Copy, PartialEq, Eq, Structural)]
pub enum EntryKind {
    Directory,
    File,
    LinkToDirectory,
    LinkToFile,
    /// Neither, or nobody can tell.
    Other,
}

/// An entry as it was found. `modified` counts milliseconds from the start of 1970.
pub struct RawEntry {
    pub name: String,
    pub kind: EntryKind,
    pub len: u64,
    pub modified: Option<u128>,
}

pub struct RawEntryView {
    pub name: Seq<char>,
    pub kind: EntryKind,
    pub len: u64,
    pub modified: Option<u128>,
}

impl View for RawEntry {
    type V = RawEntryView;

    open spec fn view(&self) -> RawEntryView {
        RawEntryView {
            name: self.name@,
            kind: self.kind,
            len: self.len,
            modified: self.modified,
        }
    }
}

pub open spec fn raw_view(v: Seq<RawEntry>) -> Seq<RawEntryView> {
    v.map_values(|e: RawEntry| e@)
}

/// The path of an entry below the directory `dir`.
pub open spec fn entry_path(dir: Seq<char>, name: Seq<char>) -> Seq<char> {
    if dir.len() == 0 {
        name
    } else {
        dir + "/"@ + name
    }
}

/// What is shown of an entry: a directory, or a diagram, or nothing. A link counts as what it
/// leads to, and has no size.
pub open spec fn shown(dir: Seq<char>, e: RawEntryView) -> Option<FsEntryView> {
    let is_dir = e.kind == EntryKind::Directory || e.kind == EntryKind::LinkToDirectory;
    let is_file = e.kind == EntryKind::File || e.kind == EntryKind::LinkToFile;
    if is_dir || (is_file && paths::is_drawio(e.name)) {
        Some(
            FsEntryView {
                name: e.name,
                path: entry_path(dir, e.name),
                is_dir,
                size: if e.kind == EntryKind::File {
                    Some(e.len)
                } else {
                    None
                },
                modified_ms: match e.modified {
                    Some(ms) => Some(ms as i64),
                    None => None,
                },
            },
        )
    } else {
        None
    }
}

/// What is shown of some entries, in their order.
pub open spec fn all_shown(dir: Seq<char>, raw: Seq<RawEntryView>) -> Seq<FsEntryView>
    decreases raw.len(),
{
    if raw.len() == 0 {
        seq![]
    } else {
        let before = all_shown(dir, raw.drop_last());
        match shown(dir, raw.last()) {
            Some(e) => before.push(e),
            None => before,
        }
    }
}

/// What is shown of an entry.
pub fn show(dir: &str, e: &RawEntry) -> (r: Option<FsEntry>)
    ensures
        match r {
            Some(s) => shown(dir@, e@) == Some(s@),
            None => shown(dir@, e@) is None,
        },
{
    let is_dir = e.kind == EntryKind::Directory || e.kind == EntryKind::LinkToDirectory;
    let is_file = e.kind == EntryKind::File || e.kind == EntryKind::LinkToFile;
    if !(is_dir || (is_file && paths::ends_with_drawio(e.name.as_str()))) {
        return None;
    }
    let n: usize = text::chars_of(dir).len();
    let path = if n == 0 {
        e.name.clone()
    } else {
        text::concat3(dir, "/", e.name.as_str())
    };
    let size = if e.kind == EntryKind::File {
        Some(e.len)
    } else {
        None
    };
    let modified_ms = match e.modified {
        Some(ms) => Some(
            #[verifier::truncate]
            (ms as i64),
        ),
        None => None,
    };
    Some(FsEntry { name: e.name.clone(), path, is_dir, size, modified_ms })
}

// ----- Order -----

/// An entry with the text that it is sorted by.
pub struct Keyed {
    pub key: Vec<char>,
    pub entry: FsEntry,
}

pub struct KeyedView {
    pub key: Seq<char>,
    pub entry: FsEntryView,
}

impl View for Keyed {
    type V = KeyedView;

    open spec fn view(&self) -> KeyedView {
        KeyedView { key: self.key@, entry: self.entry@ }
    }
}

pub open spec fn keyed_view(v: Seq<Keyed>) -> Seq<KeyedView> {
    v.map_values(|e: Keyed| e@)
}

impl KeyedView {
    /// What an entry is sorted by.
    pub open spec fn rank(self) -> (bool, Seq<char>) {
        (self.entry.is_dir, self.key)
    }

    /// Directories come first; within each group the keys decide.
    pub open spec fn goes_before(self, other: KeyedView) -> bool {
        (self.entry.is_dir && !other.entry.is_dir) || (self.entry.is_dir == other.entry.is_dir
            && text::before(self.key, other.key))
    }
}

/// No entry goes before one that stands to its left.
pub open spec fn in_order(s: Seq<KeyedView>) -> bool {
    forall|i: int, j: int|
        0 <= i < j < s.len() ==> !(#[trigger] s[j]).goes_before(#[trigger] s[i])
}

/// The entries of one rank, in their order.
pub open spec fn of_rank(s: Seq<KeyedView>, rank: (bool, Seq<char>)) -> Seq<KeyedView>
    decreases s.len(),
{
    if s.len() == 0 {
        seq![]
    } else if s[0].rank() == rank {
        seq![s[0]] + of_rank(s.drop_first(), rank)
    } else {
        of_rank(s.drop_first(), rank)
    }
}

/// `r` holds what `s` holds, in order, and entries of one rank stand as they stood in `s`.
pub open spec fn sorts(s: Seq<KeyedView>, r: Seq<KeyedView>) -> bool {
    &&& in_order(r)
    &&& r.len() == s.len()
    &&& forall|rank: (bool, Seq<char>)| #[trigger] of_rank(r, rank) == of_rank(s, rank)
}

proof fn lemma_of_rank_add(a: Seq<KeyedView>, b: Seq<KeyedView>, rank: (bool, Seq<char>))
    ensures
        of_rank(a + b, rank) == of_rank(a, rank) + of_rank(b, rank),
    decreases a.len(),
{
    if a.len() == 0 {
        assert(a + b =~= b);
        assert(of_rank(a, rank) + of_rank(b, rank) =~= of_rank(b, rank));
    } else {
        assert((a + b).drop_first() =~= a.drop_first() + b);
        lemma_of_rank_add(a.drop_first(), b, rank);
        assert(of_rank(a + b, rank) =~= of_rank(a, rank) + of_rank(b, rank));
    }
}

proof fn lemma_of_rank_one(x: KeyedView, rank: (bool, Seq<char>))
    ensures
        of_rank(seq![x], rank) == if x.rank() == rank {
            seq![x]
        } else {
            seq![]
        },
{
    assert(seq![x].drop_first() =~= seq![]);
    assert(of_rank(seq![], rank) =~= Seq::<KeyedView>::empty());
    assert(seq![x] + Seq::<KeyedView>::empty() =~= seq![x]);
}

proof fn lemma_of_rank_none(s: Seq<KeyedView>, rank: (bool, Seq<char>))
    requires
        forall|i: int| 0 <= i < s.len() ==> (#[trigger] s[i]).rank() != rank,
    ensures
        of_rank(s, rank) == Seq::<KeyedView>::empty(),
    decreases s.len(),
{
    if s.len() > 0 {
        assert(s[0].rank() != rank);
        assert forall|i: int| 0 <= i < s.drop_first().len() implies (
        #[trigger] s.drop_first()[i]).rank() != rank by {
            assert(s.drop_first()[i] == s[i + 1]);
        }
        lemma_of_rank_none(s.drop_first(), rank);
    }
}

proof fn lemma_of_rank_some(s: Seq<KeyedView>, i: int)
    requires
        0 <= i < s.len(),
    ensures
        of_rank(s, s[i].rank()).len() > 0,
{
    let rank = s[i].rank();
    assert(s =~= s.take(i) + (seq![s[i]] + s.skip(i + 1)));
    lemma_of_rank_add(s.take(i), seq![s[i]] + s.skip(i + 1), rank);
    lemma_of_rank_add(seq![s[i]], s.skip(i + 1), rank);
    lemma_of_rank_one(s[i], rank);
}

proof fn lemma_goes_before(a: KeyedView, b: KeyedView, c: KeyedView)
    ensures
        !(a.goes_before(b) && b.goes_before(a)),
        a.goes_before(b) || b.goes_before(a) || a.rank() == b.rank(),
        a.rank() == b.rank() ==> !a.goes_before(b),
        !b.goes_before(a) && !c.goes_before(b) ==> !c.goes_before(a),
        a.goes_before(b) && !c.goes_before(b) ==> a.goes_before(c),
{
    text::lemma_before_total(a.key, b.key);
    text::lemma_before_total(b.key, c.key);
    text::lemma_before_total(a.key, c.key);
    if text::before(a.key, b.key) && text::before(b.key, c.key) {
        text::lemma_before_chain(a.key, b.key, c.key);
    }
    if text::before(c.key, a.key) && text::before(a.key, b.key) {
        text::lemma_before_chain(c.key, a.key, b.key);
    }
    if text::before(b.key, c.key) && text::before(c.key, a.key) {
        text::lemma_before_chain(b.key, c.key, a.key);
    }
}

/// One more entry, put behind those that it does not go before.
proof fn lemma_put_in(s: Seq<KeyedView>, r: Seq<KeyedView>, x: KeyedView, p: int)
    requires
        sorts(s, r),
        0 <= p <= r.len(),
        forall|i: int| p <= i < r.len() ==> x.goes_before(#[trigger] r[i]),
        p > 0 ==> !x.goes_before(r[p - 1]),
    ensures
        sorts(s.push(x), r.insert(p, x)),
{
    let t = r.insert(p, x);
    assert(t =~= r.take(p) + (seq![x] + r.skip(p)));
    assert forall|i: int, j: int| 0 <= i < j < t.len() implies !(
    #[trigger] t[j]).goes_before(#[trigger] t[i]) by {
        if j == p {
            if i < p - 1 {
                lemma_goes_before(r[i], r[p - 1], x);
            }
        } else if i == p {
            lemma_goes_before(x, t[j], x);
            assert(t[j] == r[j - 1]);
        } else if i < p && p < j {
            assert(t[j] == r[j - 1]);
        } else if i > p {
            assert(t[i] == r[i - 1] && t[j] == r[j - 1]);
        }
    }
    assert forall|rank: (bool, Seq<char>)| #[trigger] of_rank(t, rank) == of_rank(
        s.push(x),
        rank,
    ) by {
        lemma_of_rank_add(r.take(p), seq![x] + r.skip(p), rank);
        lemma_of_rank_add(seq![x], r.skip(p), rank);
        lemma_of_rank_add(r.take(p), r.skip(p), rank);
        assert(r =~= r.take(p) + r.skip(p));
        assert(s.push(x) =~= s + seq![x]);
        lemma_of_rank_add(s, seq![x], rank);
        lemma_of_rank_one(x, rank);
        assert(of_rank(r, rank) == of_rank(s, rank));
        if x.rank() == rank {
            assert forall|i: int| 0 <= i < r.skip(p).len() implies (
            #[trigger] r.skip(p)[i]).rank() != rank by {
                assert(r.skip(p)[i] == r[p + i]);
                lemma_goes_before(x, r[p + i], x);
            }
            lemma_of_rank_none(r.skip(p), rank);
        }
        assert(of_rank(t, rank) =~= of_rank(s.push(x), rank));
    }
}

/// Sorts entries: directories first, then by the keys. Entries of one rank keep their order.
pub fn sort_entries(v: Vec<Keyed>) -> (r: Vec<Keyed>)
    ensures
        sorts(keyed_view(v@), keyed_view(r@)),
        r@.len() == v@.len(),
{
    let mut v = v;
    let ghost all = keyed_view(v@);
    let mut r: Vec<Keyed> = Vec::new();
    let mut todo: Vec<Keyed> = Vec::new();
    while v.len() > 0
        invariant
            keyed_view(v@) + keyed_view(todo@).reverse() == all,
            v@.len() + todo@.len() == all.len(),
        decreases v@.len(),
    {
        let ghost left = v@;
        let ghost held = todo@;
        if let Some(e) = v.pop() {
            todo.push(e);
            assert(keyed_view(v@) + keyed_view(todo@).reverse() =~= keyed_view(left) + keyed_view(
                held,
            ).reverse());
        }
    }
    assert(keyed_view(todo@).reverse() =~= all);
    let ghost mut done: int = 0;
    assert(keyed_view(r@) =~= all.take(0));
    assert(sorts(all.take(0), keyed_view(r@)));
    while todo.len() > 0
        invariant
            0 <= done <= all.len(),
            r@.len() == done,
            done + todo@.len() == all.len(),
            keyed_view(todo@).reverse() == all.skip(done),
            sorts(all.take(done), keyed_view(r@)),
        decreases todo@.len(),
    {
        let ghost before = keyed_view(r@);
        let ghost held = keyed_view(todo@);
        let m: usize = r.len();
        if let Some(e) = todo.pop() {
            let mut p: usize = m;
            while p > 0 && sorted_before(&e, &r[p - 1])
                invariant
                    p <= m,
                    m == r@.len(),
                    before == keyed_view(r@),
                    forall|i: int| p <= i < m ==> e@.goes_before(#[trigger] before[i]),
                decreases p,
            {
                p = p - 1;
                assert(before[p as int] == r@[p as int]@);
            }
            proof {
                if p > 0 {
                    assert(before[p - 1] == r@[p - 1]@);
                }
                lemma_put_in(all.take(done), before, e@, p as int);
                assert(held.reverse()[0] == e@);
                assert(all.skip(done)[0] == all[done]);
                assert(all.take(done).push(e@) =~= all.take(done + 1));
                assert(keyed_view(todo@).reverse() =~= held.reverse().drop_first());
                assert(all.skip(done + 1) =~= all.skip(done).drop_first());
            }
            let ghost x = e@;
            r.insert(p, e);
            assert(keyed_view(r@) =~= before.insert(p as int, x));
            proof {
                done = done + 1;
            }
        }
    }
    assert(all.take(done) =~= all);
    r
}

fn sorted_before(a: &Keyed, b: &Keyed) -> (r: bool)
    ensures
        r == a@.goes_before(b@),
{
    if a.entry.is_dir != b.entry.is_dir {
        a.entry.is_dir
    } else {
        text::is_before(&a.key, &b.key)
    }
}

/// Sorting leaves nothing open: there is only one way to sort some entries.
pub proof fn sorting_is_determined(s: Seq<KeyedView>, a: Seq<KeyedView>, b: Seq<KeyedView>)
    requires
        sorts(s, a),
        sorts(s, b),
    ensures
        a == b,
    decreases a.len(),
{
    if a.len() == 0 {
        if b.len() > 0 {
            lemma_of_rank_some(b, 0);
            assert(of_rank(b, b[0].rank()) == of_rank(s, b[0].rank()));
            assert(of_rank(a, b[0].rank()) == of_rank(s, b[0].rank()));
        }
        assert(a =~= b);
    } else {
        let ra = a[0].rank();
        lemma_of_rank_some(a, 0);
        assert(of_rank(a, ra) == of_rank(s, ra));
        assert(of_rank(b, ra) == of_rank(s, ra));
        if b.len() == 0 {
            assert(of_rank(b, ra).len() == 0);
        }
        let rb = b[0].rank();
        lemma_of_rank_some(b, 0);
        assert(of_rank(b, rb) == of_rank(s, rb));
        assert(of_rank(a, rb) == of_rank(s, rb));
        if ra != rb {
            lemma_first_of_rank(a, rb);
            lemma_first_of_rank(b, ra);
            let i = choose|i: int| 0 <= i < a.len() && (#[trigger] a[i]).rank() == rb;
            let j = choose|j: int| 0 <= j < b.len() && (#[trigger] b[j]).rank() == ra;
            assert(!a[i].goes_before(a[0]));
            assert(!b[j].goes_before(b[0]));
            lemma_goes_before(a[0], b[0], a[0]);
            assert(a[0].goes_before(b[0]) == b[j].goes_before(b[0]));
            assert(b[0].goes_before(a[0]) == a[i].goes_before(a[0]));
        }
        assert(of_rank(a, ra)[0] == a[0]);
        assert(of_rank(b, ra)[0] == b[0]);
        let s2 = a.drop_first();
        assert forall|rank: (bool, Seq<char>)| #[trigger] of_rank(b.drop_first(), rank) == of_rank(
            s2,
            rank,
        ) by {
            assert(of_rank(a, rank) == of_rank(s, rank));
            assert(of_rank(b, rank) == of_rank(s, rank));
            if rank == ra {
                assert(of_rank(a, rank).drop_first() =~= of_rank(a.drop_first(), rank));
                assert(of_rank(b, rank).drop_first() =~= of_rank(b.drop_first(), rank));
            }
        }
        assert(in_order(a.drop_first())) by {
            assert forall|i: int, j: int| 0 <= i < j < s2.len() implies !(
            #[trigger] s2[j]).goes_before(#[trigger] s2[i]) by {
                assert(!a[j + 1].goes_before(a[i + 1]));
            }
        }
        assert(in_order(b.drop_first())) by {
            let b2 = b.drop_first();
            assert forall|i: int, j: int| 0 <= i < j < b2.len() implies !(
            #[trigger] b2[j]).goes_before(#[trigger] b2[i]) by {
                assert(!b[j + 1].goes_before(b[i + 1]));
            }
        }
        sorting_is_determined(s2, a.drop_first(), b.drop_first());
        assert(a =~= seq![a[0]] + a.drop_first());
        assert(b =~= seq![b[0]] + b.drop_first());
    }
}

proof fn lemma_first_of_rank(s: Seq<KeyedView>, rank: (bool, Seq<char>))
    requires
        of_rank(s, rank).len() > 0,
    ensures
        exists|i: int| 0 <= i < s.len() && (#[trigger] s[i]).rank() == rank,
{
    if forall|i: int| 0 <= i < s.len() ==> (#[trigger] s[i]).rank() != rank {
        lemma_of_rank_none(s, rank);
    }
}

// ----- The listing of a directory -----

/// An entry under the key that listings are sorted by: its name in lower case.
pub open spec fn with_key(e: FsEntryView) -> KeyedView {
    KeyedView { key: outside::lowercase(e.name), entry: e }
}

/// Some entries under their keys.
pub open spec fn with_keys(v: Seq<FsEntryView>) -> Seq<KeyedView> {
    v.map_values(|e: FsEntryView| with_key(e))
}

/// `r` lists what is shown of `raw`: directories first, then by name in lower case, and otherwise
/// as found.
pub open spec fn lists(dir: Seq<char>, raw: Seq<RawEntryView>, r: Seq<FsEntryView>) -> bool {
    sorts(with_keys(all_shown(dir, raw)), with_keys(r))
}

/// Which directory is asked for: none, or a path that leads nowhere else.
pub open spec fn listed_dir(
    state: StateView,
    c: CredentialsView,
    path: Option<Seq<char>>,
) -> Result<Seq<char>, ReplyView> {
    let rel = path.unwrap_or(""@);
    if !auth::may_read(state, c) {
        Err(ReplyView::Status(401))
    } else {
        match paths::rel_path(rel) {
            Some(safe) => Ok(safe),
            None => if rel.len() == 0 {
                Ok(""@)
            } else {
                Err(http::bad_request("invalid path"@))
            },
        }
    }
}

/// Which directory to list, or a refusal.
pub fn api_list(state: &AppState, creds: &Credentials, path: Option<String>) -> (r: Result<
    String,
    Reply,
>)
    ensures
        http::key_or_reply(r) == listed_dir(state@, creds@, outside::opt_text(path)),
{
    if !auth::is_reader(state, creds) {
        return Err(Reply::Status(401));
    }
    let rel = match path {
        Some(p) => p,
        None => "".to_string(),
    };
    match paths::sanitize_rel_path(rel.as_str()) {
        Some(safe) => Ok(safe),
        None => {
            let n: usize = text::chars_of(rel.as_str()).len();
            proof {
                reveal_strlit("");
            }
            if n == 0 {
                Ok("".to_string())
            } else {
                Err(http::refuse("invalid path"))
            }
        },
    }
}

/// The listing of the directory `dir`, from what was found in it. Where it could not be read,
/// nothing was found.
pub fn api_list_found(dir: &str, found: Vec<RawEntry>) -> (r: Reply)
    ensures
        r@ matches ReplyView::Entries(entries) && lists(dir@, raw_view(found@), entries),
{
    let ghost raw = raw_view(found@);
    let mut keyed: Vec<Keyed> = Vec::new();
    let mut i: usize = 0;
    assert(keyed_view(keyed@) =~= with_keys(all_shown(dir@, raw.take(0))));
    while i < found.len()
        invariant
            i <= found@.len(),
            raw == raw_view(found@),
            keyed_view(keyed@) == with_keys(all_shown(dir@, raw.take(i as int))),
        decreases found@.len() - i,
    {
        let ghost kept = keyed@;
        assert(raw.take(i + 1).drop_last() =~= raw.take(i as int));
        let ghost before = all_shown(dir@, raw.take(i as int));
        if let Some(entry) = show(dir, &found[i]) {
            let key = text::chars_of(outside::to_lowercase(entry.name.as_str()).as_str());
            let ghost e = entry@;
            keyed.push(Keyed { key, entry });
            assert(with_keys(before.push(e)) =~= with_keys(before).push(with_key(e)));
            assert(keyed_view(keyed@) =~= keyed_view(kept).push(with_key(e)));
        }
        i = i + 1;
    }
    assert(raw.take(i as int) =~= raw);
    let ghost unsorted = keyed_view(keyed@);
    let mut sorted = sort_entries(keyed);
    let ghost result = keyed_view(sorted@);
    proof {
        assert forall|j: int| 0 <= j < result.len() implies #[trigger] result[j] == with_key(
            result[j].entry,
        ) by {
            lemma_from_source(unsorted, result, j);
        }
    }
    let mut entries: Vec<FsEntry> = Vec::new();
    let ghost whole = sorted@;
    while sorted.len() > 0
        invariant
            result == keyed_view(whole),
            forall|j: int|
                0 <= j < result.len() ==> #[trigger] result[j] == with_key(result[j].entry),
            sorted@ == whole.take(sorted@.len() as int),
            sorted@.len() <= whole.len(),
            entries@.len() + sorted@.len() == whole.len(),
            forall|j: int|
                0 <= j < entries@.len() ==> (#[trigger] entries@[j])@ == result[whole.len() - 1
                    - j].entry,
        decreases sorted@.len(),
    {
        let ghost k = sorted@.len() as int;
        if let Some(item) = sorted.pop() {
            assert(item == whole[k - 1]);
            assert(result[k - 1] == item@);
            entries.push(item.entry);
            assert(sorted@ =~= whole.take(k - 1));
        }
    }
    let ghost backward = entries@;
    let mut out: Vec<FsEntry> = Vec::new();
    while entries.len() > 0
        invariant
            result == keyed_view(whole),
            backward.len() == whole.len(),
            entries@ == backward.take(entries@.len() as int),
            entries@.len() <= backward.len(),
            out@.len() + entries@.len() == whole.len(),
            forall|j: int|
                0 <= j < backward.len() ==> (#[trigger] backward[j])@ == result[whole.len() - 1
                    - j].entry,
            forall|j: int| 0 <= j < out@.len() ==> (#[trigger] out@[j])@ == result[j].entry,
        decreases entries@.len(),
    {
        let ghost k = entries@.len() as int;
        if let Some(e) = entries.pop() {
            assert(e == backward[k - 1]);
            out.push(e);
            assert(entries@ =~= backward.take(k - 1));
        }
    }
    assert(with_keys(entries_view(out@)) =~= result);
    Reply::Entries(out)
}

/// What is sorted comes from what was there.
proof fn lemma_from_source(s: Seq<KeyedView>, r: Seq<KeyedView>, j: int)
    requires
        sorts(s, r),
        0 <= j < r.len(),
    ensures
        s.contains(r[j]),
{
    let rank = r[j].rank();
    lemma_of_rank_member(r, rank, j);
    assert(of_rank(r, rank) == of_rank(s, rank));
    lemma_of_rank_within(s, rank, r[j]);
}

proof fn lemma_of_rank_member(s: Seq<KeyedView>, rank: (bool, Seq<char>), j: int)
    requires
        0 <= j < s.len(),
        s[j].rank() == rank,
    ensures
        of_rank(s, rank).contains(s[j]),
{
    assert(s =~= s.take(j) + (seq![s[j]] + s.skip(j + 1)));
    lemma_of_rank_add(s.take(j), seq![s[j]] + s.skip(j + 1), rank);
    lemma_of_rank_add(seq![s[j]], s.skip(j + 1), rank);
    lemma_of_rank_one(s[j], rank);
    let k = of_rank(s.take(j), rank).len() as int;
    assert(of_rank(s, rank)[k] == s[j]);
}

proof fn lemma_of_rank_within(s: Seq<KeyedView>, rank: (bool, Seq<char>), x: KeyedView)
    requires
        of_rank(s, rank).contains(x),
    ensures
        s.contains(x),
    decreases s.len(),
{
    if s.len() > 0 {
        if s[0].rank() == rank && x == s[0] {
            assert(s.contains(s[0]));
        } else {
            let k = choose|k: int| 0 <= k < of_rank(s, rank).len() && of_rank(s, rank)[k] == x;
            if s[0].rank() == rank {
                assert(of_rank(s.drop_first(), rank)[k - 1] == x);
            } else {
                assert(of_rank(s.drop_first(), rank)[k] == x);
            }
            lemma_of_rank_within(s.drop_first(), rank, x);
            let i = choose|i: int| 0 <= i < s.drop_first().len() && s.drop_first()[i] == x;
            assert(s[i + 1] == x);
        }
    }
}

// ----- Laws -----

/// In a listing no file stands before a directory.
pub proof fn directories_come_first(
    dir: Seq<char>,
    raw: Seq<RawEntryView>,
    r: Seq<FsEntryView>,
    i: int,
    j: int,
)
    requires
        lists(dir, raw, r),
        0 <= i < j < r.len(),
        r[j].is_dir,
    ensures
        r[i].is_dir,
{
    let s = with_keys(r);
    assert(s[i].entry == r[i] && s[j].entry == r[j]);
    assert(!s[j].goes_before(s[i]));
}

proof fn lemma_shown_from(dir: Seq<char>, raw: Seq<RawEntryView>, k: int)
    requires
        0 <= k < all_shown(dir, raw).len(),
    ensures
        exists|i: int|
            0 <= i < raw.len() && shown(dir, #[trigger] raw[i]) == Some(all_shown(dir, raw)[k]),
    decreases raw.len(),
{
    let before = all_shown(dir, raw.drop_last());
    if k < before.len() {
        lemma_shown_from(dir, raw.drop_last(), k);
        let i = choose|i: int|
            0 <= i < raw.drop_last().len() && shown(dir, #[trigger] raw.drop_last()[i]) == Some(
                before[k],
            );
        assert(raw[i] == raw.drop_last()[i]);
    } else {
        assert(raw[raw.len() - 1] == raw.last());
    }
}

/// A listing shows nothing that was not found, and of what was found only directories and diagrams,
/// each under the path of the directory that is listed.
pub proof fn listed_entries_were_found(
    dir: Seq<char>,
    raw: Seq<RawEntryView>,
    r: Seq<FsEntryView>,
    j: int,
)
    requires
        lists(dir, raw, r),
        0 <= j < r.len(),
    ensures
        exists|i: int| 0 <= i < raw.len() && shown(dir, #[trigger] raw[i]) == Some(r[j]),
        r[j].is_dir || paths::is_drawio(r[j].name),
        r[j].path == entry_path(dir, r[j].name),
{
    let all = all_shown(dir, raw);
    let keyed = with_keys(all);
    lemma_from_source(keyed, with_keys(r), j);
    let k = choose|k: int| 0 <= k < keyed.len() && keyed[k] == with_keys(r)[j];
    assert(keyed[k].entry == all[k] && with_keys(r)[j].entry == r[j]);
    lemma_shown_from(dir, raw, k);
}

/// What is sorted is there after sorting.
proof fn lemma_from_result(s: Seq<KeyedView>, r: Seq<KeyedView>, i: int)
    requires
        sorts(s, r),
        0 <= i < s.len(),
    ensures
        r.contains(s[i]),
{
    let rank = s[i].rank();
    lemma_of_rank_member(s, rank, i);
    assert(of_rank(r, rank) == of_rank(s, rank));
    lemma_of_rank_within(r, rank, s[i]);
}

proof fn lemma_all_shown(dir: Seq<char>, raw: Seq<RawEntryView>)
    ensures
        all_shown(dir, raw).len() == raw.filter(|e: RawEntryView| is_listed(e)).len(),
        forall|i: int|
            0 <= i < raw.len() && is_listed(#[trigger] raw[i]) ==> exists|k: int|
                0 <= k < all_shown(dir, raw).len() && Some(#[trigger] all_shown(dir, raw)[k])
                    == shown(dir, raw[i]),
    decreases raw.len(),
{
    reveal(Seq::filter);
    if raw.len() > 0 {
        let others = raw.drop_last();
        lemma_all_shown(dir, others);
        let before = all_shown(dir, others);
        let all = all_shown(dir, raw);
        assert forall|i: int| 0 <= i < raw.len() && is_listed(#[trigger] raw[i]) implies exists|
            k: int,
        |
            0 <= k < all.len() && Some(#[trigger] all[k]) == shown(dir, raw[i]) by {
            if i < others.len() {
                assert(others[i] == raw[i]);
                let k = choose|k: int|
                    0 <= k < before.len() && Some(#[trigger] before[k]) == shown(dir, raw[i]);
                assert(all[k] == before[k]);
            } else {
                assert(raw.last() == raw[i]);
                assert(all[before.len() as int] == shown(dir, raw[i])->0);
            }
        }
    }
}

/// A listing is to hold this: a directory or a link to one, or a file or a link to one whose name is
/// that of a diagram, whatever else is known of it.
pub open spec fn is_listed(e: RawEntryView) -> bool {
    match e.kind {
        EntryKind::Directory => true,
        EntryKind::LinkToDirectory => true,
        EntryKind::File => text::has_suffix(e.name, ".drawio"@),
        EntryKind::LinkToFile => text::has_suffix(e.name, ".drawio"@),
        EntryKind::Other => false,
    }
}

/// A listing is complete: every directory and every diagram that was found is in it, whatever its size
/// or age, with its name and its place, and there are no more entries than that. A file has its size,
/// and everything has its time.
pub proof fn everything_is_listed(
    dir: Seq<char>,
    raw: Seq<RawEntryView>,
    r: Seq<FsEntryView>,
    i: int,
)
    requires
        lists(dir, raw, r),
        0 <= i < raw.len(),
    ensures
        r.len() == raw.filter(|e: RawEntryView| is_listed(e)).len(),
        is_listed(raw[i]) ==> exists|j: int|
            {
                &&& 0 <= j < r.len()
                &&& (#[trigger] r[j]).name == raw[i].name
                &&& r[j].path == (if dir.len() == 0 {
                    raw[i].name
                } else {
                    dir + "/"@ + raw[i].name
                })
                &&& r[j].is_dir == (raw[i].kind == EntryKind::Directory || raw[i].kind
                    == EntryKind::LinkToDirectory)
                &&& r[j].size == (if raw[i].kind == EntryKind::File {
                    Some(raw[i].len)
                } else {
                    None
                })
                &&& r[j].modified_ms is Some == raw[i].modified is Some
                &&& raw[i].modified is Some && raw[i].modified->0 <= i64::MAX ==> r[j].modified_ms
                    is Some && r[j].modified_ms->0 == raw[i].modified->0
            },
{
    lemma_all_shown(dir, raw);
    let all = all_shown(dir, raw);
    let keyed = with_keys(all);
    if is_listed(raw[i]) {
        let k = choose|k: int|
            0 <= k < all.len() && Some(#[trigger] all[k]) == shown(dir, raw[i]);
        assert(keyed[k].entry == all[k]);
        lemma_from_result(keyed, with_keys(r), k);
        let j = choose|j: int| 0 <= j < with_keys(r).len() && with_keys(r)[j] == keyed[k];
        assert(with_keys(r)[j].entry == r[j]);
        assert(r[j] == all[k]);
    }
}

/// Names that differ in their lower-case forms stand in the order of these, within the directories and
/// within the files.
pub proof fn names_are_in_order(
    dir: Seq<char>,
    raw: Seq<RawEntryView>,
    r: Seq<FsEntryView>,
    i: int,
    j: int,
)
    requires
        lists(dir, raw, r),
        0 <= i < j < r.len(),
        r[i].is_dir == r[j].is_dir,
    ensures
        outside::lowercase(r[i].name) == outside::lowercase(r[j].name) || text::before(
            outside::lowercase(r[i].name),
            outside::lowercase(r[j].name),
        ),
{
    let s = with_keys(r);
    assert(s[i] == with_key(r[i]) && s[j] == with_key(r[j]));
    assert(!s[j].goes_before(s[i]));
    text::lemma_before_total(s[i].key, s[j].key);
}

/// The names of all diagrams are listed, every regular file whose name is a text that ends so, and no
/// other, in the order in which they were found.
pub proof fn every_diagram_is_named(found: Seq<FoundFileView>, i: int)
    requires
        0 <= i < found.len(),
    ensures
        diagrams(found).len() == found.filter(
            |e: FoundFileView|
                e.is_file && e.name is Some && text::has_suffix(e.name->0, ".drawio"@),
        ).len(),
        forall|k: int|
            0 <= k < diagrams(found).len() ==> Some(#[trigger] diagrams(found)[k]) == found.filter(
                |e: FoundFileView|
                    e.is_file && e.name is Some && text::has_suffix(e.name->0, ".drawio"@),
            )[k].name,
        found[i].is_file && found[i].name is Some && text::has_suffix(found[i].name->0, ".drawio"@)
            ==> diagrams(found).contains(found[i].name->0),
{
    lemma_diagrams(found);
}

proof fn lemma_diagrams(found: Seq<FoundFileView>)
    ensures
        ({
            let kept = found.filter(
                |e: FoundFileView|
                    e.is_file && e.name is Some && text::has_suffix(e.name->0, ".drawio"@),
            );
            &&& diagrams(found).len() == kept.len()
            &&& forall|k: int|
                0 <= k < kept.len() ==> Some(#[trigger] diagrams(found)[k]) == kept[k].name
            &&& forall|i: int|
                0 <= i < found.len() && (#[trigger] found[i]).is_file && found[i].name is Some
                    && text::has_suffix(found[i].name->0, ".drawio"@) ==> diagrams(found).contains(
                    found[i].name->0,
                )
        }),
    decreases found.len(),
{
    reveal(Seq::filter);
    if found.len() > 0 {
        let others = found.drop_last();
        lemma_diagrams(others);
        let before = diagrams(others);
        let all = diagrams(found);
        assert forall|i: int|
            0 <= i < found.len() && (#[trigger] found[i]).is_file && found[i].name is Some
                && text::has_suffix(found[i].name->0, ".drawio"@) implies all.contains(
            found[i].name->0,
        ) by {
            if i < others.len() {
                assert(others[i] == found[i]);
                let k = choose|k: int| 0 <= k < before.len() && before[k] == found[i].name->0;
                assert(all[k] == found[i].name->0);
            } else {
                assert(all[before.len() as int] == found[i].name->0);
            }
        }
    }
}

/// Whoever may read may list: the directory of the diagrams itself, where no path is given, and every
/// directory below it.
pub proof fn directories_can_be_listed(state: StateView, c: CredentialsView, path: Seq<char>)
    requires
        auth::may_read(state, c),
        paths::clean(path),
    ensures
        listed_dir(state, c, Some(path)) == Ok::<Seq<char>, ReplyView>(path),
        listed_dir(state, c, None) matches Ok(dir) && dir.len() == 0,
        listed_dir(state, c, Some(""@)) matches Ok(dir) && dir.len() == 0,
{
    reveal_strlit("");
    paths::lemma_clean_ends(path);
    text::lemma_trimmed_fixed(path, text::Class::Only('/'));
    let none = ""@;
    text::lemma_trimmed_fixed(none, text::Class::Only('/'));
}

} // verus!
