//! Text as sequences of characters: searching, splitting, trimming, numbers.

use crate::outside::string_of;
use vstd::prelude::*;
use vstd::string::StringExecFns;
use vstd::slice::slice_subrange;

verus! {

/// The characters of a string.
pub fn chars_of(s: &str) -> (v: Vec<char>)
    ensures
        v@ == s@,
{
    let mut v: Vec<char> = Vec::new();
    for c in it: s.chars()
        invariant
            v@ == it.seq().take(it.index()),
            it.seq() == s@,
    {
        v.push(c);
    }
    v
}

/// Two texts hold the same characters.
pub fn same(a: &[char], b: &[char]) -> (r: bool)
    ensures
        r == (a@ == b@),
{
    if a.len() != b.len() {
        return false;
    }
    let mut i: usize = 0;
    while i < a.len()
        invariant
            i <= a@.len(),
            a@.len() == b@.len(),
            forall|j: int| 0 <= j < i ==> a@[j] == b@[j],
        decreases a@.len() - i,
    {
        if a[i] != b[i] {
            return false;
        }
        i = i + 1;
    }
    assert(a@ =~= b@);
    true
}

/// Two strings hold the same characters.
pub fn same_str(a: &str, b: &str) -> (r: bool)
    ensures
        r == (a@ == b@),
{
    let x = chars_of(a);
    let y = chars_of(b);
    same(x.as_slice(), y.as_slice())
}

/// A copy of some characters.
pub fn copy_of(s: &[char]) -> (v: Vec<char>)
    ensures
        v@ == s@,
{
    let mut v: Vec<char> = Vec::new();
    append_to(&mut v, s);
    assert(v@ =~= s@);
    v
}

/// Appends `s` to `v`.
pub fn append_to(v: &mut Vec<char>, s: &[char])
    ensures
        final(v)@ == old(v)@ + s@,
{
    let ghost before = v@;
    let mut i: usize = 0;
    while i < s.len()
        invariant
            i <= s@.len(),
            v@ == before + s@.take(i as int),
        decreases s@.len() - i,
    {
        v.push(s[i]);
        i = i + 1;
        assert(s@.take(i as int) =~= s@.take(i - 1).push(s@[i - 1]));
    }
    assert(s@.take(s@.len() as int) =~= s@);
}

/// One text behind another.
pub fn concat(a: &str, b: &str) -> (r: String)
    ensures
        r@ == a@ + b@,
{
    a.to_string().concat(b)
}

/// Three texts, one behind another.
pub fn concat3(a: &str, b: &str, c: &str) -> (r: String)
    ensures
        r@ == a@ + b@ + c@,
{
    a.to_string().concat(b).concat(c)
}

// ----- Searching -----

/// `p` stands in `s` at position `i`.
pub open spec fn occurs_at(s: Seq<char>, p: Seq<char>, i: int) -> bool {
    0 <= i && i + p.len() <= s.len() && s.subrange(i, i + p.len()) == p
}

/// `p` stands at `i`, and nowhere before.
pub open spec fn first_occurs_at(s: Seq<char>, p: Seq<char>, i: int) -> bool {
    occurs_at(s, p, i) && forall|j: int| 0 <= j < i ==> !occurs_at(s, p, j)
}

/// `p` stands at `i`, and nowhere behind.
pub open spec fn last_occurs_at(s: Seq<char>, p: Seq<char>, i: int) -> bool {
    occurs_at(s, p, i) && forall|j: int| i < j ==> !occurs_at(s, p, j)
}

/// `p` stands somewhere in `s`.
pub open spec fn stands_in(s: Seq<char>, p: Seq<char>) -> bool {
    exists|i: int| occurs_at(s, p, i)
}

/// `s` begins with `p`.
pub open spec fn has_prefix(s: Seq<char>, p: Seq<char>) -> bool {
    occurs_at(s, p, 0)
}

/// `s` ends with `p`.
pub open spec fn has_suffix(s: Seq<char>, p: Seq<char>) -> bool {
    occurs_at(s, p, s.len() - p.len())
}

/// Where `p` first stands in `s`.
pub open spec fn first_index(s: Seq<char>, p: Seq<char>) -> Option<int> {
    if stands_in(s, p) {
        Some(choose|i: int| first_occurs_at(s, p, i))
    } else {
        None
    }
}

/// Where `p` last stands in `s`.
pub open spec fn last_index(s: Seq<char>, p: Seq<char>) -> Option<int> {
    if stands_in(s, p) {
        Some(choose|i: int| last_occurs_at(s, p, i))
    } else {
        None
    }
}

/// The number of disjoint places where `p` stands in `s`, taken from the left, from `i` on.
pub open spec fn occurrences_from(s: Seq<char>, p: Seq<char>, i: int) -> nat
    decreases s.len() - i,
{
    if i < 0 || p.len() == 0 || i + p.len() > s.len() {
        0
    } else if occurs_at(s, p, i) {
        1 + occurrences_from(s, p, i + p.len())
    } else {
        occurrences_from(s, p, i + 1)
    }
}

/// Where a text occurs first is the index of its first occurrence.
pub proof fn lemma_first_index(s: Seq<char>, p: Seq<char>, i: int)
    requires
        first_occurs_at(s, p, i),
    ensures
        first_index(s, p) == Some(i),
{
    let k = choose|i: int| first_occurs_at(s, p, i);
    assert(first_occurs_at(s, p, k));
    if k < i {
        assert(!occurs_at(s, p, k));
    }
    if i < k {
        assert(!occurs_at(s, p, i));
    }
}

/// Where a text occurs last is the index of its last occurrence.
pub proof fn lemma_last_index(s: Seq<char>, p: Seq<char>, i: int)
    requires
        last_occurs_at(s, p, i),
    ensures
        last_index(s, p) == Some(i),
{
    let k = choose|i: int| last_occurs_at(s, p, i);
    assert(last_occurs_at(s, p, k));
    if i < k {
        assert(!occurs_at(s, p, k));
    }
    if k < i {
        assert(!occurs_at(s, p, i));
    }
}

/// Whatever stands in a text stands in it first somewhere.
pub proof fn lemma_has_first(s: Seq<char>, p: Seq<char>, i: int)
    requires
        occurs_at(s, p, i),
    ensures
        exists|k: int| k <= i && first_occurs_at(s, p, k),
    decreases i,
{
    if forall|j: int| 0 <= j < i ==> !occurs_at(s, p, j) {
        assert(first_occurs_at(s, p, i));
    } else {
        let j = choose|j: int| 0 <= j < i && occurs_at(s, p, j);
        lemma_has_first(s, p, j);
    }
}

/// Whatever stands in a text stands in it last somewhere.
pub proof fn lemma_has_last(s: Seq<char>, p: Seq<char>, i: int)
    requires
        occurs_at(s, p, i),
    ensures
        exists|k: int| i <= k && last_occurs_at(s, p, k),
    decreases s.len() - i,
{
    if forall|j: int| i < j ==> !occurs_at(s, p, j) {
        assert(last_occurs_at(s, p, i));
    } else {
        let j = choose|j: int| i < j && occurs_at(s, p, j);
        lemma_has_last(s, p, j);
    }
}

/// What `first_index` names, where it names something.
pub proof fn lemma_first_index_is(s: Seq<char>, p: Seq<char>)
    ensures
        first_index(s, p) matches Some(i) ==> first_occurs_at(s, p, i),
{
    if stands_in(s, p) {
        let i = choose|i: int| occurs_at(s, p, i);
        lemma_has_first(s, p, i);
    }
}

fn occurs(s: &[char], p: &[char], i: usize) -> (b: bool)
    requires
        i + p@.len() <= s@.len(),
    ensures
        b == occurs_at(s@, p@, i as int),
{
    let n: usize = s.len();
    let mut k: usize = 0;
    while k < p.len()
        invariant
            k <= p@.len(),
            n == s@.len(),
            i + p@.len() <= n,
            forall|j: int| 0 <= j < k ==> s@[i + j] == p@[j],
        decreases p@.len() - k,
    {
        if s[i + k] != p[k] {
            assert(s@.subrange(i as int, i + p@.len())[k as int] != p@[k as int]);
            return false;
        }
        k = k + 1;
    }
    assert(s@.subrange(i as int, i + p@.len()) =~= p@);
    true
}

/// The first position of `p` in `s`.
pub fn find(s: &[char], p: &[char]) -> (r: Option<usize>)
    ensures
        match r {
            Some(i) => first_index(s@, p@) == Some(i as int) && first_occurs_at(s@, p@, i as int),
            None => first_index(s@, p@) is None && !stands_in(s@, p@),
        },
{
    let n: usize = s.len();
    let m: usize = p.len();
    if m > n {
        return None;
    }
    let mut i: usize = 0;
    while i < n - m
        invariant
            n == s@.len(),
            m == p@.len(),
            i <= n - m,
            m <= n,
            forall|j: int| 0 <= j < i ==> !occurs_at(s@, p@, j),
        decreases n - m - i,
    {
        if occurs(s, p, i) {
            proof {
                lemma_first_index(s@, p@, i as int);
            }
            return Some(i);
        }
        i = i + 1;
    }
    if occurs(s, p, i) {
        proof {
            lemma_first_index(s@, p@, i as int);
        }
        return Some(i);
    }
    None
}

/// The last position of `p` in `s`.
pub fn rfind(s: &[char], p: &[char]) -> (r: Option<usize>)
    ensures
        match r {
            Some(i) => last_index(s@, p@) == Some(i as int) && last_occurs_at(s@, p@, i as int),
            None => last_index(s@, p@) is None && !stands_in(s@, p@),
        },
{
    let n: usize = s.len();
    let m: usize = p.len();
    if m > n {
        return None;
    }
    let mut i: usize = n - m;
    while i > 0
        invariant
            n == s@.len(),
            m == p@.len(),
            i <= n - m,
            m <= n,
            forall|j: int| i < j ==> !occurs_at(s@, p@, j),
        decreases i,
    {
        if occurs(s, p, i) {
            proof {
                lemma_last_index(s@, p@, i as int);
            }
            return Some(i);
        }
        i = i - 1;
    }
    if occurs(s, p, i) {
        proof {
            lemma_last_index(s@, p@, i as int);
        }
        return Some(i);
    }
    None
}

/// Whether `p` stands somewhere in `s`.
pub fn contains(s: &[char], p: &[char]) -> (b: bool)
    ensures
        b == stands_in(s@, p@),
{
    match find(s, p) {
        Some(i) => {
            assert(occurs_at(s@, p@, i as int));
            true
        },
        None => false,
    }
}

/// Whether `s` begins with `p`.
pub fn starts_with(s: &[char], p: &[char]) -> (b: bool)
    ensures
        b == has_prefix(s@, p@),
{
    p.len() <= s.len() && occurs(s, p, 0)
}

/// Whether `s` ends with `p`.
pub fn ends_with(s: &[char], p: &[char]) -> (b: bool)
    ensures
        b == has_suffix(s@, p@),
{
    p.len() <= s.len() && occurs(s, p, s.len() - p.len())
}

/// The number of disjoint places where `p` stands in `s`.
pub fn count(s: &[char], p: &[char]) -> (c: usize)
    requires
        p@.len() > 0,
    ensures
        c == occurrences_from(s@, p@, 0),
{
    let n: usize = s.len();
    let m: usize = p.len();
    let mut i: usize = 0;
    let mut c: usize = 0;
    while i <= n && m <= n - i
        invariant
            n == s@.len(),
            m == p@.len(),
            m > 0,
            i <= n,
            c <= i,
            occurrences_from(s@, p@, 0) == c + occurrences_from(s@, p@, i as int),
        decreases n - i,
    {
        if occurs(s, p, i) {
            i = i + m;
            c = c + 1;
        } else {
            i = i + 1;
        }
    }
    c
}

// ----- Character classes -----

/// The characters with Unicode's `White_Space` property.
pub open spec fn space(c: char) -> bool {
    ||| '\u{9}' <= c <= '\u{d}'
    ||| c == '\u{20}'
    ||| c == '\u{85}'
    ||| c == '\u{a0}'
    ||| c == '\u{1680}'
    ||| '\u{2000}' <= c <= '\u{200a}'
    ||| c == '\u{2028}'
    ||| c == '\u{2029}'
    ||| c == '\u{202f}'
    ||| c == '\u{205f}'
    ||| c == '\u{3000}'
}

/// Whether a character is white space.
pub fn is_space(c: char) -> (b: bool)
    ensures
        b == space(c),
{
    ('\u{9}' <= c && c <= '\u{d}') || c == '\u{20}' || c == '\u{85}' || c == '\u{a0}' || c
        == '\u{1680}' || ('\u{2000}' <= c && c <= '\u{200a}') || c == '\u{2028}' || c == '\u{2029}'
        || c == '\u{202f}' || c == '\u{205f}' || c == '\u{3000}'
}

/// ASCII letters and digits.
pub open spec fn alphanumeric(c: char) -> bool {
    'a' <= c <= 'z' || 'A' <= c <= 'Z' || '0' <= c <= '9'
}

/// Whether a character is a letter or digit of ASCII.
pub fn is_alphanumeric(c: char) -> (b: bool)
    ensures
        b == alphanumeric(c),
{
    ('a' <= c && c <= 'z') || ('A' <= c && c <= 'Z') || ('0' <= c && c <= '9')
}

/// A set of characters that text is trimmed of or divided by.
#[derive(Clone, Copy)]
pub enum Class {
    Space,
    NotSpace,
    Only(char),
}

impl Class {
    /// A character belongs to the class.
    pub open spec fn holds(self, c: char) -> bool {
        match self {
            Class::Space => space(c),
            Class::NotSpace => !space(c),
            Class::Only(x) => c == x,
        }
    }

    /// Whether a character belongs to the class.
    pub fn test(self, c: char) -> (b: bool)
        ensures
            b == self.holds(c),
    {
        match self {
            Class::Space => is_space(c),
            Class::NotSpace => !is_space(c),
            Class::Only(x) => c == x,
        }
    }
}

// ----- Trimming -----

/// How many characters at the front of `s` belong to `k`.
pub open spec fn prefix_len(s: Seq<char>, k: Class) -> nat
    decreases s.len(),
{
    if s.len() > 0 && k.holds(s[0]) {
        1 + prefix_len(s.drop_first(), k)
    } else {
        0
    }
}

/// How many characters at the end of `s` belong to `k`.
pub open spec fn suffix_len(s: Seq<char>, k: Class) -> nat
    decreases s.len(),
{
    if s.len() > 0 && k.holds(s.last()) {
        1 + suffix_len(s.drop_last(), k)
    } else {
        0
    }
}

/// `s` without the characters of `k` at its front.
pub open spec fn trim_front(s: Seq<char>, k: Class) -> Seq<char> {
    s.skip(prefix_len(s, k) as int)
}

/// `s` without the characters of `k` at its end.
pub open spec fn trim_back(s: Seq<char>, k: Class) -> Seq<char> {
    s.take(s.len() - suffix_len(s, k))
}

/// `s` without the characters of `k` at either end.
pub open spec fn trimmed(s: Seq<char>, k: Class) -> Seq<char> {
    trim_back(trim_front(s, k), k)
}

/// The longest front of `s` that belongs to `k`.
pub open spec fn front(s: Seq<char>, k: Class) -> Seq<char> {
    s.take(prefix_len(s, k) as int)
}

/// The first character that does not belong to `k` ends the front.
pub proof fn lemma_prefix_len(s: Seq<char>, k: Class, n: int)
    requires
        0 <= n <= s.len(),
        forall|j: int| 0 <= j < n ==> k.holds(s[j]),
        n < s.len() ==> !k.holds(s[n]),
    ensures
        prefix_len(s, k) == n,
    decreases s.len(),
{
    if n > 0 {
        let t = s.drop_first();
        assert forall|j: int| 0 <= j < n - 1 implies k.holds(t[j]) by {
            assert(t[j] == s[j + 1]);
        }
        lemma_prefix_len(t, k, n - 1);
    }
}

/// The last character that does not belong to `k` ends the back.
pub proof fn lemma_suffix_len(s: Seq<char>, k: Class, n: int)
    requires
        0 <= n <= s.len(),
        forall|j: int| s.len() - n <= j < s.len() ==> k.holds(s[j]),
        n < s.len() ==> !k.holds(s[s.len() - n - 1]),
    ensures
        suffix_len(s, k) == n,
    decreases s.len(),
{
    if n > 0 {
        lemma_suffix_len(s.drop_last(), k, n - 1);
    }
}

/// What the two lengths say of the characters.
pub proof fn lemma_prefix_len_is(s: Seq<char>, k: Class)
    ensures
        prefix_len(s, k) <= s.len(),
        forall|j: int| 0 <= j < prefix_len(s, k) ==> k.holds(s[j]),
        prefix_len(s, k) < s.len() ==> !k.holds(s[prefix_len(s, k) as int]),
    decreases s.len(),
{
    if s.len() > 0 && k.holds(s[0]) {
        let t = s.drop_first();
        lemma_prefix_len_is(t, k);
        assert forall|j: int| 0 <= j < prefix_len(s, k) implies k.holds(s[j]) by {
            if j > 0 {
                assert(s[j] == t[j - 1]);
            }
        }
    }
}

/// What `suffix_len` counts.
pub proof fn lemma_suffix_len_is(s: Seq<char>, k: Class)
    ensures
        suffix_len(s, k) <= s.len(),
        forall|j: int| s.len() - suffix_len(s, k) <= j < s.len() ==> k.holds(s[j]),
        suffix_len(s, k) < s.len() ==> !k.holds(s[s.len() - suffix_len(s, k) - 1]),
    decreases s.len(),
{
    if s.len() > 0 && k.holds(s.last()) {
        let t = s.drop_last();
        lemma_suffix_len_is(t, k);
        assert forall|j: int| s.len() - suffix_len(s, k) <= j < s.len() implies k.holds(s[j]) by {
            if j < s.len() - 1 {
                assert(s[j] == t[j]);
            }
        }
    }
}

/// A trimmed text neither begins nor ends with what it was trimmed of.
pub proof fn lemma_trimmed_ends(s: Seq<char>, k: Class)
    ensures
        trimmed(s, k).len() > 0 ==> !k.holds(trimmed(s, k)[0]) && !k.holds(trimmed(s, k).last()),
{
    lemma_prefix_len_is(s, k);
    let t = trim_front(s, k);
    lemma_suffix_len_is(t, k);
    if trimmed(s, k).len() > 0 {
        assert(trimmed(s, k)[0] == t[0]);
    }
}

/// A text with nothing to trim at either end stays as it is.
pub proof fn lemma_trimmed_fixed(s: Seq<char>, k: Class)
    requires
        s.len() > 0 ==> !k.holds(s[0]) && !k.holds(s.last()),
    ensures
        trimmed(s, k) == s,
{
    assert(prefix_len(s, k) == 0);
    assert(trim_front(s, k) =~= s);
    assert(suffix_len(s, k) == 0);
    assert(trim_back(s, k) =~= s);
}

/// Counts the characters of `k` at the front.
pub fn count_front(s: &[char], k: Class) -> (n: usize)
    ensures
        n == prefix_len(s@, k),
        n <= s@.len(),
{
    let mut n: usize = 0;
    while n < s.len() && k.test(s[n])
        invariant
            n <= s@.len(),
            forall|j: int| 0 <= j < n ==> k.holds(s@[j]),
        decreases s@.len() - n,
    {
        n = n + 1;
    }
    proof {
        lemma_prefix_len(s@, k, n as int);
    }
    n
}

/// Drops the characters of `k` at the front.
pub fn strip_front(s: &[char], k: Class) -> (r: &[char])
    ensures
        r@ == trim_front(s@, k),
{
    let n = count_front(s, k);
    let r = slice_subrange(s, n, s.len());
    assert(r@ =~= s@.skip(n as int));
    r
}

/// Drops the characters of `k` at the end.
pub fn strip_back(s: &[char], k: Class) -> (r: &[char])
    ensures
        r@ == trim_back(s@, k),
{
    let len: usize = s.len();
    let mut n: usize = len;
    while n > 0 && k.test(s[n - 1])
        invariant
            len == s@.len(),
            n <= len,
            forall|j: int| n <= j < len ==> k.holds(s@[j]),
        decreases n,
    {
        n = n - 1;
    }
    proof {
        lemma_suffix_len(s@, k, len - n);
    }
    let r = slice_subrange(s, 0, n);
    assert(r@ =~= s@.take(n as int));
    r
}

/// Drops the characters of `k` at either end.
pub fn strip(s: &[char], k: Class) -> (r: &[char])
    ensures
        r@ == trimmed(s@, k),
{
    strip_back(strip_front(s, k), k)
}

// ----- Splitting -----

/// The pieces of `s` between the places where `c` stands. There is always at least one.
pub open spec fn pieces(s: Seq<char>, c: char) -> Seq<Seq<char>>
    decreases s.len(),
{
    if s.len() == 0 {
        seq![Seq::<char>::empty()]
    } else {
        let r = pieces(s.drop_last(), c);
        if s.last() == c {
            r.push(Seq::<char>::empty())
        } else {
            r.drop_last().push(r.last().push(s.last()))
        }
    }
}

/// The views of a vector of texts.
pub open spec fn texts(v: Seq<Vec<char>>) -> Seq<Seq<char>> {
    v.map_values(|t: Vec<char>| t@)
}

/// There is always a piece.
pub proof fn lemma_pieces_nonempty(s: Seq<char>, c: char)
    ensures
        pieces(s, c).len() >= 1,
    decreases s.len(),
{
    if s.len() > 0 {
        lemma_pieces_nonempty(s.drop_last(), c);
    }
}

/// No piece holds the character that divides.
pub proof fn lemma_pieces_free(s: Seq<char>, c: char, i: int)
    requires
        0 <= i < pieces(s, c).len(),
    ensures
        !pieces(s, c)[i].contains(c),
    decreases s.len(),
{
    if s.len() > 0 {
        let t = s.drop_last();
        let r = pieces(t, c);
        lemma_pieces_nonempty(t, c);
        if i < r.len() {
            lemma_pieces_free(t, c, i);
        }
        lemma_pieces_free(t, c, r.len() - 1);
        let p = pieces(s, c)[i];
        if p.contains(c) {
            let j = choose|j: int| 0 <= j < p.len() && p[j] == c;
            if s.last() != c && i == r.len() - 1 {
                if j < r.last().len() {
                    assert(r.last()[j] == c);
                    assert(r[r.len() - 1].contains(c));
                }
            }
        }
    }
}

/// A text without the dividing character is its only piece.
pub proof fn lemma_pieces_single(s: Seq<char>, c: char)
    requires
        !s.contains(c),
    ensures
        pieces(s, c) == seq![s],
    decreases s.len(),
{
    if s.len() > 0 {
        assert forall|x: char| s.drop_last().contains(x) implies s.contains(x) by {
            let j = choose|j: int| 0 <= j < s.drop_last().len() && s.drop_last()[j] == x;
            assert(s[j] == x);
        }
        lemma_pieces_single(s.drop_last(), c);
        assert(s[s.len() - 1] == s.last());
        assert(s.drop_last().push(s.last()) =~= s);
        assert(pieces(s, c) =~= seq![s]);
    } else {
        assert(s =~= Seq::<char>::empty());
    }
}

/// Behind a dividing character a new piece begins.
pub proof fn lemma_pieces_concat(a: Seq<char>, b: Seq<char>, c: char)
    ensures
        pieces(a.push(c) + b, c) == pieces(a, c) + pieces(b, c),
    decreases b.len(),
{
    let s = a.push(c) + b;
    if b.len() == 0 {
        assert(s =~= a.push(c));
        assert(s.drop_last() =~= a);
        assert(pieces(s, c) =~= pieces(a, c) + pieces(b, c));
    } else {
        lemma_pieces_concat(a, b.drop_last(), c);
        lemma_pieces_nonempty(b.drop_last(), c);
        assert(s.drop_last() =~= a.push(c) + b.drop_last());
        assert(s.last() == b.last());
        assert(pieces(s, c) =~= pieces(a, c) + pieces(b, c));
    }
}

/// Divides `s` at every `c`.
pub fn split(s: &[char], c: char) -> (r: Vec<Vec<char>>)
    ensures
        texts(r@) == pieces(s@, c),
        r@.len() >= 1,
{
    let mut done: Vec<Vec<char>> = Vec::new();
    let mut cur: Vec<char> = Vec::new();
    let mut i: usize = 0;
    assert(texts(done@).push(cur@) =~= pieces(s@.take(0), c));
    while i < s.len()
        invariant
            i <= s@.len(),
            texts(done@).push(cur@) == pieces(s@.take(i as int), c),
        decreases s@.len() - i,
    {
        let ghost head = s@.take(i as int);
        let ghost next = s@.take(i + 1);
        let ghost before = texts(done@);
        let ghost part = cur@;
        assert(next.drop_last() =~= head);
        assert(next.last() == s@[i as int]);
        if s[i] == c {
            done.push(cur);
            cur = Vec::new();
            assert(texts(done@) =~= before.push(part));
            assert(texts(done@).push(cur@) =~= pieces(next, c));
        } else {
            cur.push(s[i]);
            assert(before.push(part).drop_last() =~= before);
            assert(texts(done@).push(cur@) =~= pieces(next, c));
        }
        i = i + 1;
    }
    assert(s@.take(s@.len() as int) =~= s@);
    let ghost before = texts(done@);
    let ghost part = cur@;
    done.push(cur);
    assert(texts(done@) =~= before.push(part));
    done
}

/// `line` without one carriage return at its end.
pub open spec fn without_cr(line: Seq<char>) -> Seq<char> {
    if line.len() > 0 && line.last() == '\r' {
        line.drop_last()
    } else {
        line
    }
}

/// The lines of a text: each ends with a line feed, before which a carriage return may stand. What
/// follows the last line feed is a line too, unless it is empty.
pub open spec fn lines_of(s: Seq<char>) -> Seq<Seq<char>> {
    let p = pieces(s, '\n');
    let ended = p.drop_last().map_values(|t: Seq<char>| without_cr(t));
    if p.last().len() == 0 {
        ended
    } else {
        ended.push(p.last())
    }
}

/// The lines of `s`.
pub fn lines(s: &[char]) -> (r: Vec<Vec<char>>)
    ensures
        texts(r@) == lines_of(s@),
{
    let p = split(s, '\n');
    let ghost ps = pieces(s@, '\n');
    let n: usize = p.len();
    assert(texts(p@).len() == n);
    let mut out: Vec<Vec<char>> = Vec::new();
    let mut i: usize = 0;
    while i < n - 1
        invariant
            n == p@.len(),
            n >= 1,
            i <= n - 1,
            texts(p@) == ps,
            out@.len() == i,
            forall|j: int| 0 <= j < i ==> (#[trigger] out@[j])@ == without_cr(ps[j]),
        decreases n - 1 - i,
    {
        let line = &p[i];
        assert(ps[i as int] == line@);
        let len: usize = line.len();
        if len > 0 && line[len - 1] == '\r' {
            let cut = slice_subrange(line.as_slice(), 0, len - 1);
            assert(cut@ =~= line@.drop_last());
            out.push(copy_of(cut));
        } else {
            out.push(copy_of(line.as_slice()));
        }
        i = i + 1;
    }
    let last = &p[n - 1];
    assert(ps.last() == last@);
    let ghost ended = ps.drop_last().map_values(|t: Seq<char>| without_cr(t));
    assert(texts(out@) =~= ended);
    if last.len() > 0 {
        out.push(copy_of(last.as_slice()));
        assert(texts(out@) =~= ended.push(ps.last()));
    }
    out
}

/// The second of the words that whitespace divides a text into.
pub open spec fn second_word(s: Seq<char>) -> Option<Seq<char>> {
    let after_first = trim_front(trim_front(s, Class::Space), Class::NotSpace);
    let w = front(trim_front(after_first, Class::Space), Class::NotSpace);
    if w.len() == 0 {
        None
    } else {
        Some(w)
    }
}

/// The second word.
pub fn word_two(s: &[char]) -> (r: Option<Vec<char>>)
    ensures
        match r {
            Some(w) => second_word(s@) == Some(w@),
            None => second_word(s@) is None,
        },
{
    let a = strip_front(strip_front(strip_front(s, Class::Space), Class::NotSpace), Class::Space);
    let n = count_front(a, Class::NotSpace);
    if n == 0 {
        None
    } else {
        let w = slice_subrange(a, 0, n);
        assert(w@ =~= a@.take(n as int));
        Some(copy_of(w))
    }
}

/// What stands between the first `sep` and the next one, or the end.
pub open spec fn second_field(s: Seq<char>, sep: Seq<char>) -> Option<Seq<char>> {
    match first_index(s, sep) {
        None => None,
        Some(i) => {
            let rest = s.skip(i + sep.len());
            match first_index(rest, sep) {
                None => Some(rest),
                Some(j) => Some(rest.take(j)),
            }
        },
    }
}

/// What stands between the first `sep` and the next one, or the end.
pub fn field_two(s: &[char], sep: &[char]) -> (r: Option<Vec<char>>)
    ensures
        match r {
            Some(w) => second_field(s@, sep@) == Some(w@),
            None => second_field(s@, sep@) is None,
        },
{
    match find(s, sep) {
        None => None,
        Some(i) => {
            let n: usize = s.len();
            let rest = slice_subrange(s, i + sep.len(), n);
            assert(rest@ =~= s@.skip(i + sep@.len()));
            match find(rest, sep) {
                None => Some(copy_of(rest)),
                Some(j) => {
                    let w = slice_subrange(rest, 0, j);
                    assert(w@ =~= rest@.take(j as int));
                    Some(copy_of(w))
                },
            }
        },
    }
}

// ----- Order -----

/// The order of texts by their first difference: the order of their characters' code points, which
/// is also that of their UTF-8 bytes.
pub open spec fn before(a: Seq<char>, b: Seq<char>) -> bool
    decreases a.len(),
{
    if b.len() == 0 {
        false
    } else if a.len() == 0 {
        true
    } else if a[0] != b[0] {
        a[0] < b[0]
    } else {
        before(a.drop_first(), b.drop_first())
    }
}

/// Whether `a` comes before `b`.
pub fn is_before(a: &[char], b: &[char]) -> (r: bool)
    ensures
        r == before(a@, b@),
{
    let mut i: usize = 0;
    assert(a@.skip(0) =~= a@);
    assert(b@.skip(0) =~= b@);
    while i < a.len() && i < b.len()
        invariant
            i <= a@.len(),
            i <= b@.len(),
            before(a@, b@) == before(a@.skip(i as int), b@.skip(i as int)),
        decreases a@.len() - i,
    {
        let ghost x = a@.skip(i as int);
        let ghost y = b@.skip(i as int);
        assert(x[0] == a@[i as int] && y[0] == b@[i as int]);
        assert(x.drop_first() =~= a@.skip(i + 1));
        assert(y.drop_first() =~= b@.skip(i + 1));
        if a[i] != b[i] {
            return a[i] < b[i];
        }
        i = i + 1;
    }
    i < b.len()
}

/// The order is strict and total.
pub proof fn lemma_before_total(a: Seq<char>, b: Seq<char>)
    ensures
        !(before(a, b) && before(b, a)),
        before(a, b) || before(b, a) || a == b,
        a == b ==> !before(a, b),
    decreases a.len(),
{
    if a.len() > 0 && b.len() > 0 && a[0] == b[0] {
        lemma_before_total(a.drop_first(), b.drop_first());
        if a.drop_first() == b.drop_first() {
            assert(a =~= seq![a[0]] + a.drop_first());
            assert(b =~= seq![b[0]] + b.drop_first());
        }
    } else if a.len() == 0 && b.len() == 0 {
        assert(a =~= b);
    }
}

/// The order is transitive.
pub proof fn lemma_before_chain(a: Seq<char>, b: Seq<char>, c: Seq<char>)
    requires
        before(a, b),
        before(b, c),
    ensures
        before(a, c),
    decreases a.len(),
{
    if a.len() > 0 && a[0] == b[0] && b[0] == c[0] {
        lemma_before_chain(a.drop_first(), b.drop_first(), c.drop_first());
    }
}

// ----- Numbers -----

/// A digit of base ten.
pub open spec fn digit_char(d: int) -> char {
    (('0' as int) + d) as char
}

/// A number in decimal.
pub open spec fn decimal(n: nat) -> Seq<char>
    decreases n,
{
    if n < 10 {
        seq![digit_char(n as int)]
    } else {
        decimal(n / 10).push(digit_char((n % 10) as int))
    }
}

/// Nothing but digits of base ten.
pub open spec fn all_digits(s: Seq<char>) -> bool {
    forall|i: int| 0 <= i < s.len() ==> '0' <= #[trigger] s[i] <= '9'
}

/// The number that decimal digits stand for.
pub open spec fn decimal_value(s: Seq<char>) -> nat
    decreases s.len(),
{
    if s.len() == 0 {
        0
    } else {
        10 * decimal_value(s.drop_last()) + ((s.last() as int) - ('0' as int)) as nat
    }
}

/// An unsigned number as text: digits, before which one plus sign may stand.
pub open spec fn number(s: Seq<char>) -> Option<u64> {
    let digits = if s.len() > 0 && s[0] == '+' {
        s.drop_first()
    } else {
        s
    };
    if digits.len() > 0 && all_digits(digits) && decimal_value(digits) <= u64::MAX {
        Some(decimal_value(digits) as u64)
    } else {
        None
    }
}

/// A number in decimal is made of digits, and they stand for it.
pub proof fn lemma_decimal(n: nat)
    ensures
        decimal(n).len() >= 1,
        all_digits(decimal(n)),
        decimal_value(decimal(n)) == n,
        n < 10 ==> decimal(n).len() == 1,
    decreases n,
{
    if n < 10 {
        let s = decimal(n);
        assert(s.drop_last() =~= Seq::<char>::empty());
        assert(decimal_value(s.drop_last()) == 0);
    } else {
        lemma_decimal(n / 10);
        let s = decimal(n);
        assert(s.drop_last() =~= decimal(n / 10));
        assert forall|i: int| 0 <= i < s.len() implies '0' <= #[trigger] s[i] <= '9' by {
            if i < s.len() - 1 {
                assert(s[i] == decimal(n / 10)[i]);
            }
        }
    }
}

/// A number that was written in decimal is read back as itself.
pub proof fn number_reads_decimal(n: u64)
    ensures
        number(decimal(n as nat)) == Some(n),
{
    lemma_decimal(n as nat);
    assert('0' <= decimal(n as nat)[0] <= '9');
}

/// More digits never stand for less.
pub proof fn lemma_decimal_value_grows(s: Seq<char>, n: int)
    requires
        all_digits(s),
        0 <= n <= s.len(),
    ensures
        decimal_value(s.take(n)) <= decimal_value(s),
    decreases s.len(),
{
    if n < s.len() {
        let t = s.drop_last();
        assert(all_digits(t)) by {
            assert forall|i: int| 0 <= i < t.len() implies '0' <= #[trigger] t[i] <= '9' by {
                assert(t[i] == s[i]);
            }
        }
        lemma_decimal_value_grows(t, n);
        assert(t.take(n) =~= s.take(n));
    } else {
        assert(s.take(n) =~= s);
    }
}

/// A digit of base ten.
pub fn digit(d: u8) -> (c: char)
    requires
        d < 10,
    ensures
        c == digit_char(d as int),
{
    (48u8 + d) as char
}

/// A number in decimal.
pub fn to_decimal(n: u64) -> (r: Vec<char>)
    ensures
        r@ == decimal(n as nat),
    decreases n,
{
    if n < 10 {
        let v = vec![digit(n as u8)];
        assert(v@ =~= decimal(n as nat));
        v
    } else {
        let mut v = to_decimal(n / 10);
        v.push(digit((n % 10) as u8));
        v
    }
}

/// A number in decimal, as a string.
pub fn decimal_string(n: u64) -> (r: String)
    ensures
        r@ == decimal(n as nat),
{
    string_of(to_decimal(n).as_slice())
}

/// Reads an unsigned number.
pub fn parse_number(s: &[char]) -> (r: Option<u64>)
    ensures
        r == number(s@),
{
    let len: usize = s.len();
    let start: usize = if len > 0 && s[0] == '+' {
        1
    } else {
        0
    };
    let ghost digits = s@.skip(start as int);
    assert(start == 1 ==> digits =~= s@.drop_first());
    assert(start == 0 ==> digits =~= s@);
    let ghost whole = number(s@);
    assert(whole == if digits.len() > 0 && all_digits(digits) && decimal_value(digits) <= u64::MAX {
        Some(decimal_value(digits) as u64)
    } else {
        None
    });
    if start == len {
        return None;
    }
    let mut n: u64 = 0;
    let mut i: usize = start;
    assert(digits.take(0) =~= Seq::<char>::empty());
    while i < len
        invariant
            len == s@.len(),
            start <= i <= len,
            digits == s@.skip(start as int),
            whole == number(s@),
            whole == if digits.len() > 0 && all_digits(digits) && decimal_value(digits)
                <= u64::MAX {
                Some(decimal_value(digits) as u64)
            } else {
                None
            },
            all_digits(digits.take(i - start)),
            n == decimal_value(digits.take(i - start)),
        decreases len - i,
    {
        let c = s[i];
        let ghost next = digits.take(i - start + 1);
        assert(next.drop_last() =~= digits.take(i - start));
        assert(next.last() == c);
        assert(next[i - start] == c);
        assert(digits[i - start] == c);
        if !('0' <= c && c <= '9') {
            assert(!all_digits(digits));
            return None;
        }
        let d: u64 = (c as u32 - '0' as u32) as u64;
        assert(decimal_value(next) == 10 * n + d);
        proof {
            assert forall|j: int| 0 <= j < next.len() implies '0' <= #[trigger] next[j] <= '9' by {
                if j < i - start {
                    assert(next[j] == digits.take(i - start)[j]);
                }
            }
            if all_digits(digits) {
                lemma_decimal_value_grows(digits, i - start + 1);
            }
        }
        if n > (u64::MAX - d) / 10 {
            assert(10 * n + d > u64::MAX);
            return None;
        }
        n = 10 * n + d;
        i = i + 1;
    }
    assert(digits.take(len - start) =~= digits);
    Some(n)
}

/// A digit of base sixteen, in lower case.
pub open spec fn hex_char(d: int) -> char {
    if d < 10 {
        digit_char(d)
    } else {
        (('a' as int) + d - 10) as char
    }
}

/// A byte as two digits of base sixteen.
pub open spec fn hex_byte(b: u8) -> Seq<char> {
    seq![hex_char((b / 16) as int), hex_char((b % 16) as int)]
}

/// Bytes as pairs of digits of base sixteen.
pub open spec fn hex(bytes: Seq<u8>) -> Seq<char>
    decreases bytes.len(),
{
    if bytes.len() == 0 {
        Seq::empty()
    } else {
        hex(bytes.drop_last()) + hex_byte(bytes.last())
    }
}

/// A digit of base sixteen.
pub fn hex_digit(d: u8) -> (c: char)
    requires
        d < 16,
    ensures
        c == hex_char(d as int),
{
    if d < 10 {
        digit(d)
    } else {
        (87u8 + d) as char
    }
}

/// Bytes as pairs of digits of base sixteen.
pub fn to_hex(bytes: &[u8]) -> (r: Vec<char>)
    ensures
        r@ == hex(bytes@),
{
    let mut v: Vec<char> = Vec::new();
    let mut i: usize = 0;
    assert(hex(bytes@.take(0)) =~= v@);
    while i < bytes.len()
        invariant
            i <= bytes@.len(),
            v@ == hex(bytes@.take(i as int)),
        decreases bytes@.len() - i,
    {
        let b = bytes[i];
        let ghost next = bytes@.take(i + 1);
        assert(next.drop_last() =~= bytes@.take(i as int));
        let ghost before = v@;
        v.push(hex_digit(b / 16));
        v.push(hex_digit(b % 16));
        assert(v@ =~= before + hex_byte(b));
        i = i + 1;
    }
    assert(bytes@.take(bytes@.len() as int) =~= bytes@);
    v
}

/// A line feed ends a line, and what follows are the other lines.
pub proof fn lines_follow_each_other(line: Seq<char>, rest: Seq<char>)
    requires
        !line.contains('\n'),
    ensures
        lines_of(line.push('\n') + rest) == seq![without_cr(line)] + lines_of(rest),
{
    lemma_pieces_concat(line, rest, '\n');
    lemma_pieces_single(line, '\n');
    lemma_pieces_nonempty(rest, '\n');
    let p = pieces(line.push('\n') + rest, '\n');
    let q = pieces(rest, '\n');
    assert(p =~= seq![line] + q);
    assert(p.last() == q.last());
    assert(p.drop_last() =~= seq![line] + q.drop_last());
    assert(lines_of(line.push('\n') + rest) =~= seq![without_cr(line)] + lines_of(rest));
}

/// A text without a line feed is one line, unless it is empty.
pub proof fn lone_line(line: Seq<char>)
    requires
        !line.contains('\n'),
    ensures
        lines_of(line) == if line.len() == 0 {
            Seq::<Seq<char>>::empty()
        } else {
            seq![line]
        },
{
    lemma_pieces_single(line, '\n');
    let p = pieces(line, '\n');
    assert(p.drop_last() =~= Seq::<Seq<char>>::empty());
    if line.len() > 0 {
        assert(lines_of(line) =~= seq![line]);
    } else {
        assert(lines_of(line) =~= Seq::<Seq<char>>::empty());
    }
}

/// Trimming takes off what belongs to the class at either end, however much it is, and nothing else.
pub proof fn trimming_takes_off_the_ends(a: Seq<char>, t: Seq<char>, b: Seq<char>, k: Class)
    requires
        forall|i: int| 0 <= i < a.len() ==> k.holds(#[trigger] a[i]),
        forall|i: int| 0 <= i < b.len() ==> k.holds(#[trigger] b[i]),
        t.len() > 0,
        !k.holds(t[0]),
        !k.holds(t.last()),
    ensures
        trimmed(a + t + b, k) == t,
        trim_front(a + t + b, k) == t + b,
        trim_back(a + t + b, k) == a + t,
{
    let s = a + t + b;
    let n = a.len() as int;
    let m = b.len() as int;
    assert(s[n] == t[0]);
    assert forall|j: int| 0 <= j < n implies k.holds(s[j]) by {
        assert(s[j] == a[j]);
    }
    lemma_prefix_len(s, k, n);
    assert(trim_front(s, k) =~= t + b);
    let u = t + b;
    assert(u[t.len() - 1] == t.last());
    assert forall|j: int| u.len() - m <= j < u.len() implies k.holds(u[j]) by {
        assert(u[j] == b[j - t.len()]);
    }
    lemma_suffix_len(u, k, m);
    assert(trim_back(u, k) =~= t);
    assert(s[s.len() - m - 1] == t.last());
    assert forall|j: int| s.len() - m <= j < s.len() implies k.holds(s[j]) by {
        assert(s[j] == b[j - n - t.len()]);
    }
    lemma_suffix_len(s, k, m);
    assert(trim_back(s, k) =~= a + t);
}

/// What belongs to the class altogether is trimmed to nothing.
pub proof fn trimming_can_leave_nothing(s: Seq<char>, k: Class)
    requires
        forall|i: int| 0 <= i < s.len() ==> k.holds(#[trigger] s[i]),
    ensures
        trimmed(s, k).len() == 0,
{
    assert forall|j: int| 0 <= j < s.len() implies k.holds(s[j]) by {}
    lemma_prefix_len(s, k, s.len() as int);
}

/// Where two texts part, the characters there decide which comes first; and a text comes before every
/// longer one that begins with it.
pub proof fn first_difference_decides(p: Seq<char>, a: char, x: Seq<char>, b: char, y: Seq<char>)
    ensures
        a != b ==> (before(p + seq![a] + x, p + seq![b] + y) <==> a < b),
        before(p, p + seq![a] + x),
        !before(p + seq![a] + x, p),
        !before(p, p),
    decreases p.len(),
{
    let s = p + seq![a] + x;
    let t = p + seq![b] + y;
    if p.len() > 0 {
        let q = p.drop_first();
        first_difference_decides(q, a, x, b, y);
        assert(s.drop_first() =~= q + seq![a] + x);
        assert(t.drop_first() =~= q + seq![b] + y);
        assert(s[0] == p[0] && t[0] == p[0]);
    } else {
        assert(s[0] == a && t[0] == b);
    }
}

/// Every run of digits that fits is read as the number it stands for, with a plus sign or without,
/// however many zeros lead it; nothing else is read.
pub proof fn digits_are_read(s: Seq<char>)
    requires
        s.len() > 0,
    ensures
        all_digits(s) && decimal_value(s) <= u64::MAX ==> number(s) == Some(decimal_value(s) as u64)
            && number(seq!['+'] + s) == Some(decimal_value(s) as u64),
        all_digits(s) && decimal_value(s) > u64::MAX ==> number(s) is None,
        s[0] != '+' && !all_digits(s) ==> number(s) is None,
        number(Seq::<char>::empty()) is None,
        forall|t: Seq<char>, d: int|
            0 <= d < 10 ==> decimal_value(#[trigger] t.push(digit_char(d))) == 10 * decimal_value(t)
                + d,
{
    assert((seq!['+'] + s).drop_first() =~= s);
    if all_digits(s) {
        assert('0' <= s[0] <= '9');
    }
    assert forall|t: Seq<char>, d: int| 0 <= d < 10 implies decimal_value(
        #[trigger] t.push(digit_char(d)),
    ) == 10 * decimal_value(t) + d by {
        assert(t.push(digit_char(d)).drop_last() =~= t);
    }
}

/// A byte is two digits of base sixteen, the higher first, and bytes follow each other.
pub proof fn bytes_are_two_digits(bytes: Seq<u8>, b: u8)
    ensures
        hex(Seq::<u8>::empty()).len() == 0,
        hex(bytes.push(b)) == hex(bytes) + seq![
            hex_char((b / 16) as int),
            hex_char((b % 16) as int),
        ],
        forall|d: int|
            0 <= d < 16 ==> #[trigger] hex_char(d) == "0123456789abcdef"@[d],
{
    reveal_strlit("0123456789abcdef");
    assert(bytes.push(b).drop_last() =~= bytes);
}

/// Occurrences are counted one after the other, without overlap.
pub proof fn occurrences_are_counted(s: Seq<char>, p: Seq<char>, i: int)
    requires
        p.len() > 0,
        0 <= i,
    ensures
        occurs_at(s, p, i) ==> occurrences_from(s, p, i) == 1 + occurrences_from(
            s,
            p,
            i + p.len(),
        ),
        !occurs_at(s, p, i) && i + p.len() <= s.len() ==> occurrences_from(s, p, i)
            == occurrences_from(s, p, i + 1),
        i + p.len() > s.len() ==> occurrences_from(s, p, i) == 0,
{
}

/// A separator divides a text into what stands before it and what stands behind: the second field is
/// what stands between the first separator and the next.
pub proof fn fields_are_divided(a: Seq<char>, b: Seq<char>, sep: Seq<char>)
    requires
        first_index(a + sep + b, sep) == Some(a.len() as int),
    ensures
        !stands_in(b, sep) ==> second_field(a + sep + b, sep) == Some(b),
        first_index(b, sep) matches Some(j) ==> second_field(a + sep + b, sep) == Some(b.take(j)),
{
    assert((a + sep + b).skip((a.len() + sep.len()) as int) =~= b);
}

/// The second word is what stands between the first run of blanks behind the first word and the next.
pub proof fn words_are_divided(blank: Seq<char>, one: Seq<char>, gap: Seq<char>, two: Seq<char>, rest: Seq<char>)
    requires
        forall|i: int| 0 <= i < blank.len() ==> space(#[trigger] blank[i]),
        forall|i: int| 0 <= i < gap.len() ==> space(#[trigger] gap[i]),
        forall|i: int| 0 <= i < one.len() ==> !space(#[trigger] one[i]),
        forall|i: int| 0 <= i < two.len() ==> !space(#[trigger] two[i]),
        one.len() > 0,
        gap.len() > 0,
        two.len() > 0,
        rest.len() > 0 ==> space(rest[0]),
    ensures
        second_word(blank + one + gap + two + rest) == Some(two),
{
    let s = blank + one + gap + two + rest;
    let a = one + gap + two + rest;
    let b = gap + two + rest;
    let c = two + rest;
    assert(s =~= blank + a);
    assert(s[blank.len() as int] == one[0]);
    assert forall|j: int| 0 <= j < blank.len() implies Class::Space.holds(s[j]) by {
        assert(s[j] == blank[j]);
    }
    lemma_prefix_len(s, Class::Space, blank.len() as int);
    assert(trim_front(s, Class::Space) =~= a);
    assert forall|j: int| 0 <= j < one.len() implies Class::NotSpace.holds(a[j]) by {
        assert(a[j] == one[j]);
    }
    assert(a[one.len() as int] == gap[0]);
    lemma_prefix_len(a, Class::NotSpace, one.len() as int);
    assert(trim_front(a, Class::NotSpace) =~= b);
    assert forall|j: int| 0 <= j < gap.len() implies Class::Space.holds(b[j]) by {
        assert(b[j] == gap[j]);
    }
    assert(b[gap.len() as int] == two[0]);
    lemma_prefix_len(b, Class::Space, gap.len() as int);
    assert(trim_front(b, Class::Space) =~= c);
    assert forall|j: int| 0 <= j < two.len() implies Class::NotSpace.holds(c[j]) by {
        assert(c[j] == two[j]);
    }
    if rest.len() > 0 {
        assert(c[two.len() as int] == rest[0]);
    }
    lemma_prefix_len(c, Class::NotSpace, two.len() as int);
    assert(front(c, Class::NotSpace) =~= two);
}

/// A text is the pieces that it is divided into, with the dividing character between them.
pub proof fn pieces_make_the_text(a: Seq<char>, b: Seq<char>, c: char)
    requires
        !a.contains(c),
    ensures
        pieces(a, c) == seq![a],
        pieces(a.push(c) + b, c) == seq![a] + pieces(b, c),
{
    lemma_pieces_single(a, c);
    lemma_pieces_concat(a, b, c);
}

/// A carriage return at the end of a line is no part of it, and one alone is taken off.
pub proof fn carriage_returns_are_taken_off(line: Seq<char>)
    ensures
        without_cr(line.push('\r')) == line,
        line.len() == 0 || line.last() != '\r' ==> without_cr(line) == line,
{
    assert(line.push('\r').drop_last() =~= line);
}

} // verus!
