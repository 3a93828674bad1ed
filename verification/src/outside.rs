//! What the library takes without proof from std and from other crates. Each item names the
//! outside function and says what is claimed of it; nothing here decides anything.

use dashmap::DashMap;
use vstd::prelude::*;

verus! {

// ----- std -----

/// `String::from_iter` over characters: the string that holds exactly these characters, in order.
#[verifier::external_body]
pub(crate) fn string_of(chars: &[char]) -> (r: String)
    ensures
        r@ == chars@,
{
    String::from_iter(chars)
}

/// The text that bytes encode in UTF-8, where they are valid.
pub open spec fn utf8_text(bytes: Seq<u8>) -> Option<Seq<char>> {
    if vstd::utf8::valid_utf8(bytes) {
        Some(vstd::utf8::decode_utf8(bytes))
    } else {
        None
    }
}

/// `String::from_utf8`: the string whose UTF-8 encoding the bytes are. There is one exactly when
/// the bytes are valid UTF-8.
#[verifier::external_body]
pub(crate) fn string_from_utf8(bytes: Vec<u8>) -> (r: Option<String>)
    ensures
        opt_text(r) == utf8_text(bytes@),
{
    String::from_utf8(bytes).ok()
}

/// What `String::from_utf8_lossy` makes of bytes.
pub uninterp spec fn utf8_lossy(bytes: Seq<u8>) -> Seq<char>;

/// `String::from_utf8_lossy`: a function of the bytes alone. Valid UTF-8 is decoded as it stands;
/// which replacement characters stand for invalid bytes is not said here.
#[verifier::external_body]
pub(crate) fn string_from_utf8_lossy(bytes: &[u8]) -> (r: String)
    ensures
        r@ == utf8_lossy(bytes@),
        vstd::utf8::valid_utf8(bytes@) ==> r@ == vstd::utf8::decode_utf8(bytes@),
{
    String::from_utf8_lossy(bytes).into_owned()
}

/// What `str::to_lowercase` makes of a text.
pub uninterp spec fn lowercase(s: Seq<char>) -> Seq<char>;

/// `str::to_lowercase`: a function of the text alone, by the tables of Unicode.
#[verifier::external_body]
pub(crate) fn to_lowercase(s: &str) -> (r: String)
    ensures
        r@ == lowercase(s@),
{
    s.to_lowercase()
}

// ----- dashmap -----

/// `dashmap::DashMap`, a hash map behind sharded locks.
#[verifier::external_type_specification]
#[verifier::external_body]
#[verifier::reject_recursive_types(K)]
#[verifier::reject_recursive_types(V)]
#[verifier::reject_recursive_types(S)]
pub struct ExDashMap<K, V, S>(dashmap::DashMap<K, V, S>);

/// The entries of a map from text to text.
pub uninterp spec fn text_entries(m: DashMap<String, String>) -> Map<Seq<char>, Seq<char>>;

/// The entries of a map from text to numbers.
pub uninterp spec fn number_entries(m: DashMap<String, u64>) -> Map<Seq<char>, u64>;

/// `DashMap::new`: a map without entries.
#[verifier::external_body]
pub(crate) fn text_map() -> (m: DashMap<String, String>)
    ensures
        (text_entries(m) == Map::<Seq<char>, Seq<char>>::empty()),
{
    DashMap::new()
}

/// `DashMap::get`: a copy of the value under `key`, where there is one.
#[verifier::external_body]
pub(crate) fn text_get(m: &DashMap<String, String>, key: &str) -> (r: Option<String>)
    ensures
        match r {
            Some(v) => text_entries(*m).contains_key(key@) && v@ == text_entries(*m)[key@],
            None => !text_entries(*m).contains_key(key@),
        },
{
    m.get(key).map(|e| e.value().clone())
}

/// `DashMap::insert`: puts `value` under `key`, in place of what stood there.
#[verifier::external_body]
pub(crate) fn text_insert(m: &mut DashMap<String, String>, key: String, value: String)
    ensures
        text_entries(*final(m)) == text_entries(*old(m)).insert(key@, value@),
{
    m.insert(key, value);
}

/// `DashMap::remove`: takes away the entry under `key`, where there is one.
#[verifier::external_body]
pub(crate) fn text_remove(m: &mut DashMap<String, String>, key: &str)
    ensures
        text_entries(*final(m)) == text_entries(*old(m)).remove(key@),
{
    m.remove(key);
}

/// `DashMap::iter`: a copy of every entry, each once, in an order that nothing promises.
#[verifier::external_body]
pub(crate) fn text_list(m: &DashMap<String, String>) -> (r: Vec<(String, String)>)
    ensures
        forall|i: int, j: int| 0 <= i < j < r@.len() ==> (#[trigger] r@[i]).0@ != (#[trigger] r@[j]).0@,
        forall|i: int|
            0 <= i < r@.len() ==> text_entries(*m).contains_key((#[trigger] r@[i]).0@)
                && text_entries(*m)[r@[i].0@] == r@[i].1@,
        forall|k: Seq<char>| #[trigger]
            text_entries(*m).contains_key(k) ==> exists|i: int|
                0 <= i < r@.len() && (#[trigger] r@[i]).0@ == k,
{
    m.iter().map(|e| (e.key().clone(), e.value().clone())).collect()
}

/// `DashMap::new`: a map without entries.
#[verifier::external_body]
pub(crate) fn number_map() -> (m: DashMap<String, u64>)
    ensures
        (number_entries(m) == Map::<Seq<char>, u64>::empty()),
{
    DashMap::new()
}

/// `DashMap::get`: the value under `key`, where there is one.
#[verifier::external_body]
pub(crate) fn number_get(m: &DashMap<String, u64>, key: &str) -> (r: Option<u64>)
    ensures
        match r {
            Some(v) => number_entries(*m).contains_key(key@) && v == number_entries(*m)[key@],
            None => !number_entries(*m).contains_key(key@),
        },
{
    m.get(key).map(|e| *e.value())
}

/// `DashMap::insert`: puts `value` under `key` and gives back what stood there before.
#[verifier::external_body]
pub(crate) fn number_insert(m: &mut DashMap<String, u64>, key: String, value: u64) -> (r: Option<u64>)
    ensures
        number_entries(*final(m)) == number_entries(*old(m)).insert(key@, value),
        match r {
            Some(v) => number_entries(*old(m)).contains_key(key@) && v == number_entries(*old(m))[key@],
            None => !number_entries(*old(m)).contains_key(key@),
        },
{
    m.insert(key, value)
}

/// `DashMap::remove`: takes away the entry under `key` and gives back its value.
#[verifier::external_body]
pub(crate) fn number_remove(m: &mut DashMap<String, u64>, key: &str) -> (r: Option<u64>)
    ensures
        number_entries(*final(m)) == number_entries(*old(m)).remove(key@),
        match r {
            Some(v) => number_entries(*old(m)).contains_key(key@) && v == number_entries(*old(m))[key@],
            None => !number_entries(*old(m)).contains_key(key@),
        },
{
    m.remove(key).map(|e| e.1)
}

/// `DashMap::iter`: a copy of every entry, each once, in an order that nothing promises.
#[verifier::external_body]
pub(crate) fn number_list(m: &DashMap<String, u64>) -> (r: Vec<(String, u64)>)
    ensures
        forall|i: int, j: int| 0 <= i < j < r@.len() ==> (#[trigger] r@[i]).0@ != (#[trigger] r@[j]).0@,
        forall|i: int|
            0 <= i < r@.len() ==> number_entries(*m).contains_key((#[trigger] r@[i]).0@)
                && number_entries(*m)[r@[i].0@] == r@[i].1,
        forall|k: Seq<char>| #[trigger]
            number_entries(*m).contains_key(k) ==> exists|i: int|
                0 <= i < r@.len() && (#[trigger] r@[i]).0@ == k,
{
    m.iter().map(|e| (e.key().clone(), *e.value())).collect()
}

/// A moment `time` is less than `age` before `now`.
pub open spec fn younger_than(time: u64, now: u64, age: u64) -> bool {
    now - time < age
}

/// Whether a moment is less than `age` before `now`.
pub fn is_younger_than(time: u64, now: u64, age: u64) -> (b: bool)
    ensures
        b == younger_than(time, now, age),
{
    now < time || now - time < age
}

/// `DashMap::retain`: keeps the entries whose value is a moment less than `age` before `now`.
#[verifier::external_body]
pub(crate) fn number_keep_younger(m: &mut DashMap<String, u64>, now: u64, age: u64)
    ensures
        number_entries(*final(m)) == number_entries(*old(m)).restrict(
            Set::new(
                |k: Seq<char>|
                    number_entries(*old(m)).contains_key(k) && younger_than(
                        number_entries(*old(m))[k],
                        now,
                        age,
                    ),
            ),
        ),
{
    m.retain(|_, time| is_younger_than(*time, now, age));
}

// ----- sha2 -----

/// The SHA-256 digest of some bytes.
pub uninterp spec fn sha256(data: Seq<u8>) -> Seq<u8>;

/// `sha2::Sha256`: the digest of `data`, which is thirty-two bytes long.
#[verifier::external_body]
pub(crate) fn sha256_digest(data: &[u8]) -> (r: Vec<u8>)
    ensures
        r@ == sha256(data@),
        r@.len() == 32,
{
    let mut hasher = <sha2::Sha256 as sha2::Digest>::new();
    sha2::Digest::update(&mut hasher, data);
    sha2::Digest::finalize(hasher).to_vec()
}

// ----- uuid -----

/// A lower-case digit of base sixteen.
pub open spec fn lower_hex(c: char) -> bool {
    '0' <= c <= '9' || 'a' <= c <= 'f'
}

/// The text of a random UUID: thirty-two digits in groups, with its version and its variant.
pub open spec fn random_uuid(s: Seq<char>) -> bool {
    &&& s.len() == 36
    &&& forall|i: int|
        0 <= i < 36 ==> (if i == 8 || i == 13 || i == 18 || i == 23 {
            #[trigger] s[i] == '-'
        } else {
            lower_hex(s[i])
        })
    &&& s[14] == '4'
    &&& (s[19] == '8' || s[19] == '9' || s[19] == 'a' || s[19] == 'b')
}

/// `uuid::Uuid::new_v4`, as text: some random UUID. Which one is left to chance.
#[verifier::external_body]
pub(crate) fn fresh_uuid() -> (r: String)
    ensures
        random_uuid(r@),
{
    uuid::Uuid::new_v4().to_string()
}

// ----- percent_encoding -----

/// The value of a digit of base sixteen.
pub open spec fn hex_value(b: u8) -> Option<u8> {
    if 48 <= b <= 57 {
        Some((b - 48) as u8)
    } else if 65 <= b <= 70 {
        Some((b - 55) as u8)
    } else if 97 <= b <= 102 {
        Some((b - 87) as u8)
    } else {
        None
    }
}

/// Bytes with every percent sign that two digits of base sixteen follow replaced, together with
/// them, by the byte that they name.
pub open spec fn percent_bytes(s: Seq<u8>) -> Seq<u8>
    decreases s.len(),
{
    if s.len() == 0 {
        Seq::empty()
    } else if s[0] == 37 && s.len() >= 3 && hex_value(s[1]) is Some && hex_value(s[2]) is Some {
        seq![(hex_value(s[1])->0 * 16 + hex_value(s[2])->0) as u8] + percent_bytes(s.skip(3))
    } else {
        seq![s[0]] + percent_bytes(s.skip(1))
    }
}

/// A text with its percent signs decoded, read as UTF-8 in which replacement characters stand for
/// what is not valid.
pub open spec fn percent_decoded(s: Seq<char>) -> Seq<char> {
    utf8_lossy(percent_bytes(vstd::utf8::encode_utf8(s)))
}

/// `percent_encoding::percent_decode_str` and its `decode_utf8_lossy`: every percent sign that two
/// digits follow is decoded, and the bytes are read as `String::from_utf8_lossy` reads them. Where
/// they are valid UTF-8, that is the text that they encode.
#[verifier::external_body]
pub(crate) fn percent_decode(s: &str) -> (r: String)
    ensures
        r@ == percent_decoded(s@),
        vstd::utf8::valid_utf8(percent_bytes(vstd::utf8::encode_utf8(s@))) ==> r@
            == vstd::utf8::decode_utf8(percent_bytes(vstd::utf8::encode_utf8(s@))),
{
    percent_encoding::percent_decode_str(s).decode_utf8_lossy().to_string()
}

// ----- serde_json -----

/// `serde_json::Error`, why a text is no JSON.
#[verifier::external_type_specification]
#[verifier::external_body]
pub struct ExJsonError(serde_json::Error);

/// `serde_json` accepts a text as JSON.
pub uninterp spec fn is_json(text: Seq<char>) -> bool;

/// The string that a JSON pointer leads to in a JSON text.
pub uninterp spec fn json_string(text: Seq<char>, pointer: Seq<char>) -> Option<Seq<char>>;

/// The truth value that a JSON pointer leads to in a JSON text.
pub uninterp spec fn json_bool(text: Seq<char>, pointer: Seq<char>) -> Option<bool>;

/// A text, if there is one.
pub open spec fn opt_text(s: Option<String>) -> Option<Seq<char>> {
    match s {
        Some(t) => Some(t@),
        None => None,
    }
}

/// `serde_json::from_str` to a `Value`, then `Value::pointer` and `Value::as_str`: a function of
/// the text and the pointer. It fails exactly on what is no JSON.
#[verifier::external_body]
pub(crate) fn json_string_at(text: &str, pointer: &str) -> (r: Result<
    Option<String>,
    serde_json::Error,
>)
    ensures
        r is Ok <==> is_json(text@),
        r matches Ok(s) ==> opt_text(s) == json_string(text@, pointer@),
{
    let value: serde_json::Value = serde_json::from_str(text)?;
    Ok(value.pointer(pointer).and_then(|v| v.as_str()).map(|v| v.to_string()))
}

/// `serde_json::from_str` to a `Value`, then `Value::pointer` and `Value::as_bool`: a function of
/// the text and the pointer. It fails exactly on what is no JSON.
#[verifier::external_body]
pub(crate) fn json_bool_at(text: &str, pointer: &str) -> (r: Result<
    Option<bool>,
    serde_json::Error,
>)
    ensures
        r is Ok <==> is_json(text@),
        r matches Ok(b) ==> b == json_bool(text@, pointer@),
{
    let value: serde_json::Value = serde_json::from_str(text)?;
    Ok(value.pointer(pointer).and_then(|v| v.as_bool()))
}

// ----- chrono -----

/// The first second that chrono has a date for, counted from the start of 1970.
pub const FIRST_SECOND: i64 = -8334601228800;

/// The last second that chrono has a date for, counted from the start of 1970.
pub const LAST_SECOND: i64 = 8210266876799;

/// A moment in universal time.
#[derive(Clone, Copy, PartialEq, Eq, Structural)]
pub struct Timestamp {
    pub seconds: i64,
    pub nanoseconds: u32,
}

impl Timestamp {
    /// A moment that has a date.
    pub open spec fn valid(self) -> bool {
        FIRST_SECOND <= self.seconds <= LAST_SECOND && self.nanoseconds < 1_000_000_000
    }
}

/// `chrono::DateTime::from_timestamp` with no nanoseconds: whether a second has a date.
#[verifier::external_body]
pub(crate) fn second_has_date(seconds: i64) -> (b: bool)
    ensures
        b == (FIRST_SECOND <= seconds <= LAST_SECOND),
{
    chrono::DateTime::from_timestamp(seconds, 0).is_some()
}

/// `chrono::Utc::now`: some moment that has a date. Which one is up to the clock.
#[verifier::external_body]
pub(crate) fn utc_now() -> (r: Timestamp)
    ensures
        r.valid(),
{
    let now = chrono::Utc::now();
    Timestamp { seconds: now.timestamp(), nanoseconds: now.timestamp_subsec_nanos() }
}

/// A moment as text, in the form of RFC 3339.
pub uninterp spec fn rfc3339(seconds: i64, nanoseconds: u32) -> Seq<char>;

/// `chrono::DateTime::to_rfc3339`: a function of the moment alone.
#[verifier::external_body]
pub(crate) fn rfc3339_of(at: Timestamp) -> (r: String)
    requires
        at.valid(),
    ensures
        r@ == rfc3339(at.seconds, at.nanoseconds),
{
    chrono::DateTime::from_timestamp(at.seconds, at.nanoseconds).unwrap().to_rfc3339()
}

// ----- git2 -----

/// A digit of base sixteen.
pub open spec fn hex_letter(c: char) -> bool {
    '0' <= c <= '9' || 'a' <= c <= 'f' || 'A' <= c <= 'F'
}

/// Up to forty digits of base sixteen.
pub open spec fn oid_text(s: Seq<char>) -> bool {
    1 <= s.len() <= 40 && forall|i: int| 0 <= i < s.len() ==> hex_letter(#[trigger] s[i])
}

/// The full name of the object that `s` names: forty lower-case digits, zeros behind the given ones.
pub open spec fn full_oid(s: Seq<char>) -> Seq<char> {
    Seq::new(
        40,
        |i: int|
            if i >= s.len() {
                '0'
            } else if 'A' <= s[i] <= 'F' {
                ((s[i] as int) + 32) as char
            } else {
                s[i]
            },
    )
}

/// `git2::Oid::from_str`, written out again: the object that up to forty digits name.
#[verifier::external_body]
pub(crate) fn parse_oid(s: &str) -> (r: Option<String>)
    ensures
        r is Some <==> oid_text(s@),
        r matches Some(t) ==> t@ == full_oid(s@),
{
    git2::Oid::from_str(s).ok().map(|oid| oid.to_string())
}

/// A moment is young until its age is reached, and one that is still to come is young too.
pub proof fn moments_grow_old(time: u64, now: u64, age: u64)
    ensures
        younger_than(time, now, age) <==> now < time + age,
{
}

} // verus!
