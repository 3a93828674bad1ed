//! File names, paths below the data directory, and the keys that rooms are known by.

use crate::outside;
use crate::outside::string_of;
use crate::text;
use crate::text::Class;
use vstd::prelude::*;
use vstd::slice::slice_subrange;

verus! {

/// What may stand in a file name.
pub open spec fn name_char(c: char) -> bool {
    text::alphanumeric(c) || c == '.' || c == '-' || c == '_'
}

/// What may stand in a directory or file name of a path.
pub open spec fn path_char(c: char) -> bool {
    name_char(c) || c == ' ' || c == '(' || c == ')' || c == '+' || c == ','
}

/// A text made of what may stand in a file name.
pub open spec fn name_text(s: Seq<char>) -> bool {
    forall|i: int| 0 <= i < s.len() ==> name_char(#[trigger] s[i])
}

/// A file name: a text made of what may stand in one, and not a name of a directory relative to
/// another.
pub open spec fn plain_name(s: Seq<char>) -> bool {
    name_text(s) && s != "."@ && s != ".."@
}

/// An ordinary name in a path: not empty, not a name of a directory relative to another, and made
/// of what may stand in one.
pub open spec fn component(s: Seq<char>) -> bool {
    &&& s.len() > 0
    &&& s != "."@
    &&& s != ".."@
    &&& forall|i: int| 0 <= i < s.len() ==> path_char(#[trigger] s[i])
}

/// Ordinary names, divided by single slashes.
pub open spec fn clean(s: Seq<char>) -> bool {
    forall|i: int| 0 <= i < text::pieces(s, '/').len() ==> component(#[trigger] text::pieces(s, '/')[i])
}

/// A path without the slashes around it, if what remains is clean.
pub open spec fn rel_path(s: Seq<char>) -> Option<Seq<char>> {
    let t = text::trimmed(s, Class::Only('/'));
    if clean(t) {
        Some(t)
    } else {
        None
    }
}

fn is_name_char(c: char) -> (b: bool)
    ensures
        b == name_char(c),
{
    text::is_alphanumeric(c) || c == '.' || c == '-' || c == '_'
}

fn is_path_char(c: char) -> (b: bool)
    ensures
        b == path_char(c),
{
    is_name_char(c) || c == ' ' || c == '(' || c == ')' || c == '+' || c == ','
}

/// A file name without directories: letters, digits, dots, hyphens and underscores, but neither a
/// single dot nor two.
pub fn sanitize_name(name: &str) -> (r: Option<String>)
    ensures
        outside::opt_text(r) == (if plain_name(name@) {
            Some(name@)
        } else {
            None
        }),
{
    if text::same_str(name, ".") || text::same_str(name, "..") {
        return None;
    }
    let v = text::chars_of(name);
    let mut i: usize = 0;
    while i < v.len()
        invariant
            v@ == name@,
            i <= v@.len(),
            forall|j: int| 0 <= j < i ==> name_char(#[trigger] v@[j]),
        decreases v@.len() - i,
    {
        if !is_name_char(v[i]) {
            assert(!name_char(name@[i as int]));
            return None;
        }
        i = i + 1;
    }
    Some(string_of(v.as_slice()))
}

fn is_component(s: &[char]) -> (b: bool)
    ensures
        b == component(s@),
{
    let dot = text::chars_of(".");
    let dots = text::chars_of("..");
    if s.len() == 0 || text::same(s, dot.as_slice()) || text::same(s, dots.as_slice()) {
        return false;
    }
    let mut i: usize = 0;
    while i < s.len()
        invariant
            i <= s@.len(),
            forall|j: int| 0 <= j < i ==> path_char(#[trigger] s@[j]),
        decreases s@.len() - i,
    {
        if !is_path_char(s[i]) {
            assert(!path_char(s@[i as int]));
            return false;
        }
        i = i + 1;
    }
    true
}

fn is_clean(s: &[char]) -> (b: bool)
    ensures
        b == clean(s@),
{
    let parts = text::split(s, '/');
    let ghost ps = text::pieces(s@, '/');
    assert(text::texts(parts@).len() == parts@.len());
    let mut i: usize = 0;
    while i < parts.len()
        invariant
            i <= parts@.len(),
            text::texts(parts@) == ps,
            ps == text::pieces(s@, '/'),
            ps.len() == parts@.len(),
            forall|j: int| 0 <= j < i ==> component(#[trigger] ps[j]),
        decreases parts@.len() - i,
    {
        assert(ps[i as int] == parts@[i as int]@);
        if !is_component(parts[i].as_slice()) {
            assert(!component(text::pieces(s@, '/')[i as int]));
            return false;
        }
        i = i + 1;
    }
    true
}

/// A path below the data directory: ordinary names divided by slashes. Slashes around it are taken
/// away.
pub fn sanitize_rel_path(path: &str) -> (r: Option<String>)
    ensures
        match r {
            Some(s) => rel_path(path@) == Some(s@),
            None => rel_path(path@) is None,
        },
{
    let v = text::chars_of(path);
    let t = text::strip(v.as_slice(), Class::Only('/'));
    if is_clean(t) {
        Some(string_of(t))
    } else {
        None
    }
}

/// The key of the room of a file in the data directory itself: its name.
pub fn to_file_key(raw: &str) -> (r: Option<String>)
    ensures
        outside::opt_text(r) == (if plain_name(raw@) {
            Some(raw@)
        } else {
            None
        }),
{
    sanitize_name(raw)
}

/// `path` as seen from `dir`: an absolute path stands for itself, any other one is put behind `dir`
/// and a slash.
pub open spec fn joined(dir: Seq<char>, path: Seq<char>) -> Seq<char> {
    if path.len() > 0 && path[0] == '/' {
        path
    } else if dir.len() == 0 || dir.last() == '/' {
        dir + path
    } else {
        dir + seq!['/'] + path
    }
}

fn join_chars(dir: &[char], path: &[char]) -> (r: Vec<char>)
    ensures
        r@ == joined(dir@, path@),
{
    if path.len() > 0 && path[0] == '/' {
        return text::copy_of(path);
    }
    let mut v = text::copy_of(dir);
    if dir.len() > 0 && dir[dir.len() - 1] != '/' {
        v.push('/');
        assert(v@ =~= dir@ + seq!['/']);
    }
    text::append_to(&mut v, path);
    v
}

/// Where a file of the data directory lies.
pub fn to_data_path(data_dir: &str, name: &str) -> (r: String)
    ensures
        r@ == joined(data_dir@, name@),
{
    let dir = text::chars_of(data_dir);
    let path = text::chars_of(name);
    string_of(join_chars(dir.as_slice(), path.as_slice()).as_slice())
}

/// Where a path below the data directory leads, whatever slashes stand around it.
pub fn to_data_rel_path(data_dir: &str, rel: &str) -> (r: String)
    ensures
        r@ == joined(data_dir@, text::trimmed(rel@, Class::Only('/'))),
{
    let dir = text::chars_of(data_dir);
    let v = text::chars_of(rel);
    let path = text::strip(v.as_slice(), Class::Only('/'));
    string_of(join_chars(dir.as_slice(), path).as_slice())
}

/// What stands behind the last slash.
pub open spec fn last_name(s: Seq<char>) -> Seq<char> {
    text::pieces(s, '/').last()
}

fn last_of(s: &[char]) -> (r: Vec<char>)
    ensures
        r@ == last_name(s@),
{
    let parts = text::split(s, '/');
    let n: usize = parts.len();
    assert(text::texts(parts@).last() == parts@[n - 1]@);
    text::copy_of(parts[n - 1].as_slice())
}

/// The name of the file that a path leads to.
pub fn file_name(path: &str) -> (r: String)
    ensures
        r@ == last_name(path@),
{
    let v = text::chars_of(path);
    string_of(last_of(v.as_slice()).as_slice())
}

/// A file name that diagrams have.
pub open spec fn is_drawio(s: Seq<char>) -> bool {
    text::has_suffix(s, ".drawio"@)
}

/// Whether a name is one that diagrams have.
pub fn ends_with_drawio(s: &str) -> (b: bool)
    ensures
        b == is_drawio(s@),
{
    let v = text::chars_of(s);
    let suffix = text::chars_of(".drawio");
    text::ends_with(v.as_slice(), suffix.as_slice())
}

/// A path with the suffix of diagrams behind the last name, unless it is there already. A path that
/// ends with a slash has no last name to add it to.
pub open spec fn with_drawio(path: Seq<char>) -> Seq<char> {
    let last = last_name(path);
    if is_drawio(last) || (last.len() == 0 && path.len() > 0) {
        path
    } else {
        path + ".drawio"@
    }
}

/// Adds the suffix of diagrams where it is missing.
pub fn add_drawio(path: &str) -> (r: String)
    ensures
        r@ == with_drawio(path@),
{
    let mut v = text::chars_of(path);
    let last = last_of(v.as_slice());
    let suffix = text::chars_of(".drawio");
    if text::ends_with(last.as_slice(), suffix.as_slice()) || (last.len() == 0 && v.len() > 0) {
        string_of(v.as_slice())
    } else {
        text::append_to(&mut v, suffix.as_slice());
        string_of(v.as_slice())
    }
}

/// A path with slashes in place of backslashes, and without slashes at its front.
pub open spec fn watched_key(rel: Seq<char>) -> Seq<char> {
    text::trim_front(
        rel.map_values(
            |c: char|
                if c == '\\' {
                    '/'
                } else {
                    c
                },
        ),
        Class::Only('/'),
    )
}

/// The key of the room of a file that the watcher names by its path below the data directory.
pub fn watch_key(rel: &str) -> (r: String)
    ensures
        r@ == watched_key(rel@),
{
    let v = text::chars_of(rel);
    let mut out: Vec<char> = Vec::new();
    let mut i: usize = 0;
    while i < v.len()
        invariant
            v@ == rel@,
            i <= v@.len(),
            out@.len() == i,
            forall|j: int|
                0 <= j < i ==> #[trigger] out@[j] == (if v@[j] == '\\' {
                    '/'
                } else {
                    v@[j]
                }),
        decreases v@.len() - i,
    {
        out.push(
            if v[i] == '\\' {
                '/'
            } else {
                v[i]
            },
        );
        i = i + 1;
    }
    assert(out@ =~= rel@.map_values(
        |c: char|
            if c == '\\' {
                '/'
            } else {
                c
            },
    ));
    string_of(text::strip_front(out.as_slice(), Class::Only('/')))
}

// ----- Paths that lead to the same place -----

/// A name in a path that leads somewhere.
pub open spec fn leads(s: Seq<char>) -> bool {
    s.len() > 0 && s != "."@
}

/// What two ways of writing the same path have in common: whether it is absolute, whether it begins
/// with a single dot, and the names in it.
pub open spec fn route(path: Seq<char>) -> (bool, bool, Seq<Seq<char>>) {
    let p = text::pieces(path, '/');
    (path.len() > 0 && path[0] == '/', p[0] == "."@, p.filter(|s: Seq<char>| leads(s)))
}

fn names_in(path: &[char]) -> (r: Vec<Vec<char>>)
    ensures
        text::texts(r@) == text::pieces(path@, '/').filter(|s: Seq<char>| leads(s)),
{
    let parts = text::split(path, '/');
    let ghost ps = text::pieces(path@, '/');
    let ghost keep = |s: Seq<char>| leads(s);
    assert(text::texts(parts@).len() == parts@.len());
    let dot = text::chars_of(".");
    let mut out: Vec<Vec<char>> = Vec::new();
    let mut i: usize = 0;
    proof {
        reveal(Seq::filter);
        assert(text::texts(out@) =~= ps.take(0).filter(keep));
    }
    while i < parts.len()
        invariant
            i <= parts@.len(),
            dot@ == "."@,
            text::texts(parts@) == ps,
            ps.len() == parts@.len(),
            keep == |s: Seq<char>| leads(s),
            text::texts(out@) == ps.take(i as int).filter(keep),
        decreases parts@.len() - i,
    {
        let ghost before = text::texts(out@);
        let part = parts[i].as_slice();
        assert(ps[i as int] == part@);
        proof {
            reveal(Seq::filter);
            assert(ps.take(i + 1).drop_last() =~= ps.take(i as int));
            assert(ps.take(i + 1).last() == part@);
        }
        if part.len() > 0 && !text::same(part, dot.as_slice()) {
            out.push(text::copy_of(part));
            assert(text::texts(out@) =~= before.push(part@));
        }
        i = i + 1;
    }
    assert(ps.take(ps.len() as int) =~= ps);
    out
}

fn same_names(a: &Vec<Vec<char>>, b: &Vec<Vec<char>>) -> (r: bool)
    ensures
        r == (text::texts(a@) == text::texts(b@)),
{
    if a.len() != b.len() {
        assert(text::texts(a@).len() != text::texts(b@).len());
        return false;
    }
    let mut i: usize = 0;
    while i < a.len()
        invariant
            i <= a@.len(),
            a@.len() == b@.len(),
            forall|j: int| 0 <= j < i ==> (#[trigger] a@[j])@ == b@[j]@,
        decreases a@.len() - i,
    {
        if !text::same(a[i].as_slice(), b[i].as_slice()) {
            assert(text::texts(a@)[i as int] != text::texts(b@)[i as int]);
            return false;
        }
        i = i + 1;
    }
    assert(text::texts(a@) =~= text::texts(b@));
    true
}

/// Whether two paths are ways of writing the same one.
pub fn same_path(a: &str, b: &str) -> (r: bool)
    ensures
        r == (route(a@) == route(b@)),
{
    let x = text::chars_of(a);
    let y = text::chars_of(b);
    let absolute_a = x.len() > 0 && x[0] == '/';
    let absolute_b = y.len() > 0 && y[0] == '/';
    let dot = text::chars_of(".");
    let p = text::split(x.as_slice(), '/');
    let q = text::split(y.as_slice(), '/');
    assert(text::texts(p@)[0] == p@[0]@);
    assert(text::texts(q@)[0] == q@[0]@);
    let dot_a = text::same(p[0].as_slice(), dot.as_slice());
    let dot_b = text::same(q[0].as_slice(), dot.as_slice());
    absolute_a == absolute_b && dot_a == dot_b && same_names(
        &names_in(x.as_slice()),
        &names_in(y.as_slice()),
    )
}

// ----- Laws -----

/// What begins with a dividing character, or ends with one, has an empty piece there.
proof fn lemma_edge_pieces(s: Seq<char>)
    requires
        s.len() > 0,
    ensures
        s[0] == '/' ==> text::pieces(s, '/')[0].len() == 0,
        s.last() == '/' ==> text::pieces(s, '/').last().len() == 0,
    decreases s.len(),
{
    let t = s.drop_last();
    text::lemma_pieces_nonempty(t, '/');
    if s[0] == '/' {
        if t.len() > 0 {
            lemma_edge_pieces(t);
            assert(t[0] == '/');
            if text::pieces(t, '/').len() == 1 {
                lemma_first_piece_slash(t);
            }
        } else {
            assert(t =~= Seq::<char>::empty());
        }
    }
}

/// A text that begins with a slash has two pieces at least.
proof fn lemma_first_piece_slash(s: Seq<char>)
    requires
        s.len() > 0,
        s[0] == '/',
    ensures
        text::pieces(s, '/').len() >= 2,
    decreases s.len(),
{
    let t = s.drop_last();
    text::lemma_pieces_nonempty(t, '/');
    if t.len() > 0 {
        assert(t[0] == '/');
        lemma_first_piece_slash(t);
    }
}

/// A clean path has something in it, and no slash at either end.
pub proof fn lemma_clean_ends(s: Seq<char>)
    requires
        clean(s),
    ensures
        s.len() > 0,
        s[0] != '/',
        s.last() != '/',
{
    text::lemma_pieces_nonempty(s, '/');
    let p = text::pieces(s, '/');
    assert(component(p[0]));
    assert(component(p[p.len() - 1]));
    if s.len() > 0 {
        lemma_edge_pieces(s);
    }
}

/// A path that was cleaned once is accepted again, and stays as it is.
pub proof fn sanitizing_is_stable(path: Seq<char>)
    ensures
        rel_path(path) matches Some(t) ==> rel_path(t) == Some(t),
{
    if rel_path(path) is Some {
        let t = text::trimmed(path, Class::Only('/'));
        lemma_clean_ends(t);
        text::lemma_trimmed_fixed(t, Class::Only('/'));
    }
}

/// A cleaned path leads below the data directory: the place it names is written as the directory,
/// a slash where one is missing, and names of which none is empty and none leads up.
pub proof fn sanitized_path_stays_inside(dir: Seq<char>, path: Seq<char>)
    ensures
        rel_path(path) matches Some(t) ==> {
            &&& joined(dir, t) == (if dir.len() == 0 || dir.last() == '/' {
                dir + t
            } else {
                dir + seq!['/'] + t
            })
            &&& joined(dir, text::trimmed(t, Class::Only('/'))) == joined(dir, t)
            &&& forall|i: int|
                0 <= i < text::pieces(t, '/').len() ==> {
                    let name = #[trigger] text::pieces(t, '/')[i];
                    name.len() > 0 && name != "."@ && name != ".."@ && !name.contains('/')
                        && !name.contains('\\')
                }
        },
{
    if rel_path(path) is Some {
        let t = text::trimmed(path, Class::Only('/'));
        lemma_clean_ends(t);
        text::lemma_trimmed_fixed(t, Class::Only('/'));
        assert forall|i: int| 0 <= i < text::pieces(t, '/').len() implies ({
            let name = #[trigger] text::pieces(t, '/')[i];
            name.len() > 0 && name != "."@ && name != ".."@ && !name.contains('/')
                && !name.contains('\\')
        }) by {
            let name = text::pieces(t, '/')[i];
            assert(component(name));
            text::lemma_pieces_free(t, '/', i);
        }
    }
}

/// A file name is a path of one name, unless it is empty.
pub proof fn file_key_is_rel_path(name: Seq<char>)
    requires
        plain_name(name),
        name.len() > 0,
    ensures
        rel_path(name) == Some(name),
{
    if name.contains('/') {
        let i = choose|i: int| 0 <= i < name.len() && name[i] == '/';
        assert(name_char(name[i]));
    }
    assert(name_char(name[0]));
    assert(name_char(name[name.len() - 1]));
    text::lemma_trimmed_fixed(name, Class::Only('/'));
    text::lemma_pieces_single(name, '/');
    assert forall|i: int| 0 <= i < name.len() implies path_char(#[trigger] name[i]) by {
        assert(name_char(name[i]));
    }
}

/// What holds no dividing character belongs to the last piece.
proof fn lemma_pieces_append(a: Seq<char>, b: Seq<char>)
    requires
        !b.contains('/'),
    ensures
        text::pieces(a + b, '/') == text::pieces(a, '/').drop_last().push(
            text::pieces(a, '/').last() + b,
        ),
    decreases b.len(),
{
    let p = text::pieces(a, '/');
    text::lemma_pieces_nonempty(a, '/');
    if b.len() == 0 {
        assert(a + b =~= a);
        assert(p.last() + b =~= p.last());
        assert(p =~= p.drop_last().push(p.last()));
    } else {
        let c = b.drop_last();
        assert forall|x: char| c.contains(x) implies b.contains(x) by {
            let j = choose|j: int| 0 <= j < c.len() && c[j] == x;
            assert(b[j] == x);
        }
        lemma_pieces_append(a, c);
        assert((a + b).drop_last() =~= a + c);
        assert(b[b.len() - 1] == b.last());
        assert((p.last() + c).push(b.last()) =~= p.last() + b);
        let q = text::pieces(a + c, '/');
        assert(q.drop_last() =~= p.drop_last());
        assert(text::pieces(a + b, '/') =~= p.drop_last().push(p.last() + b));
    }
}

/// The last piece stands at the end.
proof fn lemma_last_piece(s: Seq<char>)
    ensures
        text::has_suffix(s, last_name(s)),
    decreases s.len(),
{
    let l = last_name(s);
    if s.len() == 0 {
        assert(s.subrange(0, 0) =~= l);
    } else {
        let t = s.drop_last();
        lemma_last_piece(t);
        text::lemma_pieces_nonempty(t, '/');
        if s.last() == '/' {
            assert(s.subrange(s.len() as int, s.len() as int) =~= l);
        } else {
            let m = last_name(t);
            assert(l =~= m.push(s.last()));
            assert(t.subrange(t.len() - m.len(), t.len() as int) =~= m);
            assert(s.subrange(s.len() - l.len(), s.len() as int) =~= l) by {
                assert forall|i: int| 0 <= i < l.len() implies s.subrange(
                    s.len() - l.len(),
                    s.len() as int,
                )[i] == l[i] by {
                    if i < m.len() {
                        assert(t.subrange(t.len() - m.len(), t.len() as int)[i] == m[i]);
                    }
                }
            }
        }
    }
}

/// A clean path to which the suffix of diagrams is added is clean and ends with it.
pub proof fn diagram_path_is_clean(path: Seq<char>)
    requires
        clean(path),
    ensures
        clean(with_drawio(path)),
        is_drawio(with_drawio(path)),
{
    let p = text::pieces(path, '/');
    let ext = ".drawio"@;
    reveal_strlit(".drawio");
    reveal_strlit(".");
    reveal_strlit("..");
    text::lemma_pieces_nonempty(path, '/');
    lemma_clean_ends(path);
    assert(component(p[p.len() - 1]));
    let last = last_name(path);
    if is_drawio(last) {
        lemma_last_piece(path);
        assert(path.subrange(path.len() - 7, path.len() as int) =~= last.subrange(
            last.len() - 7,
            last.len() as int,
        )) by {
            let whole = path.subrange(path.len() - last.len(), path.len() as int);
            assert(whole == last);
            let a = path.subrange(path.len() - 7, path.len() as int);
            let b = last.subrange(last.len() - 7, last.len() as int);
            assert forall|i: int| 0 <= i < 7 implies #[trigger] a[i] == b[i] by {
                assert(whole[last.len() - 7 + i] == last[last.len() - 7 + i]);
            }
        }
    } else {
        lemma_drawio_added(path);
    }
}

/// Adding the suffix of diagrams to a text whose pieces, but for the last, are ordinary names.
proof fn lemma_drawio_added(path: Seq<char>)
    requires
        forall|i: int|
            0 <= i < text::pieces(path, '/').len() - 1 ==> component(
                #[trigger] text::pieces(path, '/')[i],
            ),
        forall|i: int| 0 <= i < last_name(path).len() ==> path_char(#[trigger] last_name(path)[i]),
    ensures
        clean(path + ".drawio"@),
        is_drawio(path + ".drawio"@),
{
    let ext = ".drawio"@;
    reveal_strlit(".drawio");
    reveal_strlit(".");
    reveal_strlit("..");
    let p = text::pieces(path, '/');
    text::lemma_pieces_nonempty(path, '/');
    assert(!ext.contains('/'));
    lemma_pieces_append(path, ext);
    let s = path + ext;
    let q = text::pieces(s, '/');
    assert(s.subrange(s.len() - 7, s.len() as int) =~= ext);
    assert forall|i: int| 0 <= i < q.len() implies component(#[trigger] q[i]) by {
        if i < q.len() - 1 {
            assert(q[i] == p[i]);
        } else {
            let l = p.last() + ext;
            assert(q[i] == l);
            assert(l.len() >= 7);
            assert forall|j: int| 0 <= j < l.len() implies path_char(#[trigger] l[j]) by {
                if j < p.last().len() {
                    assert(l[j] == last_name(path)[j]);
                } else {
                    assert(l[j] == ext[j - p.last().len()]);
                }
            }
        }
    }
}

/// A file name to which the suffix of diagrams is added is a clean path that ends with it, even if
/// the name is empty.
pub proof fn diagram_name_is_clean(name: Seq<char>)
    requires
        plain_name(name),
    ensures
        clean(with_drawio(name)),
        is_drawio(with_drawio(name)),
{
    if name.contains('/') {
        let i = choose|i: int| 0 <= i < name.len() && name[i] == '/';
        assert(name_char(name[i]));
    }
    text::lemma_pieces_single(name, '/');
    assert forall|i: int| 0 <= i < name.len() implies path_char(#[trigger] name[i]) by {
        assert(name_char(name[i]));
    }
    if is_drawio(name) {
        reveal_strlit(".drawio");
        reveal_strlit(".");
        reveal_strlit("..");
    } else {
        lemma_drawio_added(name);
    }
}

/// The key of a file that the watcher names is its path, where that is written with plain slashes.
pub proof fn keys_of_plain_paths(rel: Seq<char>)
    requires
        !rel.contains('\\'),
        rel.len() > 0 ==> rel[0] != '/',
    ensures
        watched_key(rel) == rel,
{
    let same = rel.map_values(
        |c: char|
            if c == '\\' {
                '/'
            } else {
                c
            },
    );
    assert(same =~= rel) by {
        assert forall|i: int| 0 <= i < rel.len() implies same[i] == rel[i] by {
            assert(rel.contains(rel[i]));
        }
    }
    text::lemma_prefix_len(rel, Class::Only('/'), 0);
    assert(text::trim_front(rel, Class::Only('/')) =~= rel);
}

/// Letters and digits of ASCII, dots, hyphens and underscores may stand in a file name, and nothing
/// else; in a path also blanks, round brackets, plus signs and commas.
pub proof fn allowed_characters(c: char)
    ensures
        name_char(c) <==> ('a' <= c <= 'z' || 'A' <= c <= 'Z' || '0' <= c <= '9' || c == '.' || c
            == '-' || c == '_'),
        path_char(c) <==> ('a' <= c <= 'z' || 'A' <= c <= 'Z' || '0' <= c <= '9' || c == '.' || c
            == '-' || c == '_' || c == ' ' || c == '(' || c == ')' || c == '+' || c == ','),
{
}

/// Every name made of what may stand in one is accepted as it is, however long, but for the two that
/// lead elsewhere.
pub proof fn ordinary_names_are_accepted(name: Seq<char>)
    requires
        name != "."@,
        name != ".."@,
    ensures
        plain_name(name) <==> forall|i: int|
            0 <= i < name.len() ==> name_char(#[trigger] name[i]),
        name.len() > 0 && (forall|i: int| 0 <= i < name.len() ==> path_char(#[trigger] name[i]))
            ==> rel_path(name) == Some(name),
{
    if name.len() > 0 && (forall|i: int| 0 <= i < name.len() ==> path_char(#[trigger] name[i])) {
        if name.contains('/') {
            let i = choose|i: int| 0 <= i < name.len() && name[i] == '/';
            assert(path_char(name[i]));
        }
        assert(path_char(name[0]));
        assert(path_char(name[name.len() - 1]));
        text::lemma_trimmed_fixed(name, Class::Only('/'));
        text::lemma_pieces_single(name, '/');
    }
}

/// Paths are accepted as deep as they go: an accepted path, a slash and an ordinary name are an
/// accepted path.
pub proof fn deeper_paths_are_accepted(path: Seq<char>, name: Seq<char>)
    requires
        rel_path(path) == Some(path),
        component(name),
    ensures
        rel_path(path + seq!['/'] + name) == Some(path + seq!['/'] + name),
        last_name(path + seq!['/'] + name) == name,
{
    let whole = path + seq!['/'] + name;
    if name.contains('/') {
        let i = choose|i: int| 0 <= i < name.len() && name[i] == '/';
        assert(path_char(name[i]));
    }
    assert(whole =~= path.push('/') + name);
    text::lemma_pieces_concat(path, name, '/');
    text::lemma_pieces_single(name, '/');
    let p = text::pieces(path, '/');
    let q = text::pieces(whole, '/');
    assert(clean(path));
    assert(clean(whole)) by {
        assert forall|i: int| 0 <= i < q.len() implies component(#[trigger] q[i]) by {
            if i < p.len() {
                assert(q[i] == p[i]);
            } else {
                assert(q[i] == name);
            }
        }
    }
    lemma_clean_ends(whole);
    text::lemma_trimmed_fixed(whole, Class::Only('/'));
}

/// Slashes around a path do not matter.
pub proof fn slashes_around_do_not_matter(path: Seq<char>)
    ensures
        rel_path(seq!['/'] + path) == rel_path(path),
        rel_path(path.push('/')) == rel_path(path),
{
    let k = Class::Only('/');
    let left = seq!['/'] + path;
    assert(left.drop_first() =~= path);
    assert(left[0] == '/');
    assert(text::prefix_len(left, k) == 1 + text::prefix_len(path, k));
    text::lemma_prefix_len_is(path, k);
    assert(text::trim_front(left, k) =~= text::trim_front(path, k));
    let right = path.push('/');
    text::lemma_prefix_len_is(path, k);
    let n = text::prefix_len(path, k) as int;
    let t = text::trim_front(path, k);
    if n == path.len() {
        assert forall|j: int| 0 <= j < right.len() implies k.holds(right[j]) by {
            if j < path.len() {
                assert(right[j] == path[j]);
            }
        }
        text::lemma_prefix_len(right, k, right.len() as int);
        assert(text::trim_front(right, k) =~= t);
    } else {
        assert forall|j: int| 0 <= j < n implies k.holds(right[j]) by {
            assert(right[j] == path[j]);
        }
        assert(right[n] == path[n]);
        text::lemma_prefix_len(right, k, n);
        let u = text::trim_front(right, k);
        assert(u =~= t.push('/'));
        assert(u.drop_last() =~= t);
        assert(text::suffix_len(u, k) == 1 + text::suffix_len(t, k));
        text::lemma_suffix_len_is(t, k);
        assert(text::trim_back(u, k) =~= text::trim_back(t, k));
    }
}

/// A path is put behind the directory, with one slash between them; a path that begins with a slash
/// stands for itself.
pub proof fn paths_are_put_behind_the_directory(dir: Seq<char>, path: Seq<char>)
    requires
        dir.len() > 0,
        dir.last() != '/',
    ensures
        path.len() == 0 || path[0] != '/' ==> joined(dir, path) == dir + seq!['/'] + path,
        path.len() == 0 || path[0] != '/' ==> joined(dir.push('/'), path) == dir + seq!['/'] + path,
        path.len() > 0 && path[0] == '/' ==> joined(dir, path) == path,
{
    if path.len() == 0 || path[0] != '/' {
        assert(joined(dir.push('/'), path) =~= dir + seq!['/'] + path);
    }
}

proof fn lemma_before_last_piece(s: Seq<char>)
    ensures
        ({
            let n = last_name(s).len() as int;
            &&& n <= s.len()
            &&& n == s.len() || s[s.len() - n - 1] == '/'
            &&& s.subrange(s.len() - n, s.len() as int) == last_name(s)
        }),
    decreases s.len(),
{
    if s.len() > 0 {
        let t = s.drop_last();
        text::lemma_pieces_nonempty(t, '/');
        lemma_before_last_piece(t);
        let n = last_name(s).len() as int;
        if s.last() != '/' {
            let m = last_name(t).len() as int;
            assert(last_name(s) == last_name(t).push(s.last()));
            assert(s.subrange(s.len() - n, s.len() as int) =~= t.subrange(
                t.len() - m,
                t.len() as int,
            ).push(s.last()));
        } else {
            assert(s.subrange(s.len() - n, s.len() as int) =~= last_name(s));
        }
    } else {
        assert(s.subrange(0, 0) =~= last_name(s));
    }
}

/// A path gets the suffix of diagrams if it does not end with it, and stays as it is if it does.
pub proof fn suffix_is_added_if_missing(path: Seq<char>)
    requires
        path.len() == 0 || path.last() != '/',
    ensures
        with_drawio(path) == (if text::has_suffix(path, ".drawio"@) {
            path
        } else {
            path + ".drawio"@
        }),
{
    lemma_before_last_piece(path);
    reveal_strlit(".drawio");
    let last = last_name(path);
    let n = last.len() as int;
    let len = path.len() as int;
    assert forall|i: int| 0 <= i < n implies last[i] == path[len - n + i] by {
        assert(path.subrange(len - n, len)[i] == path[len - n + i]);
    }
    if text::has_suffix(last, ".drawio"@) {
        assert(path.subrange(len - 7, len) =~= last.subrange(n - 7, n));
    }
    if text::has_suffix(path, ".drawio"@) {
        let tail = path.subrange(len - 7, len);
        if n < 7 {
            assert(path[len - n - 1] == '/');
            assert(tail[6 - n] == path[len - n - 1]);
            assert(".drawio"@[6 - n] == '/');
        }
        assert(last.subrange(n - 7, n) =~= tail);
    }
}

} // verus!
