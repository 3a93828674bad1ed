//! The colour that stands for a member of a room.

use crate::outside::string_of;
use crate::text;
use vstd::prelude::*;

verus! {

/// The polynomial hash of a name's bytes, modulo 2^32.
pub open spec fn name_hash(bytes: Seq<u8>) -> int
    decreases bytes.len(),
{
    if bytes.len() == 0 {
        0
    } else {
        (name_hash(bytes.drop_last()) * 31 + bytes.last()) % 0x1_0000_0000
    }
}

/// How far apart two numbers are.
pub open spec fn distance(a: int, b: int) -> int {
    if a < b {
        b - a
    } else {
        a - b
    }
}

/// Ten thousand times the chroma of a saturation and a lightness in percent.
pub open spec fn chroma(s: int, l: int) -> int {
    (100 - distance(2 * l, 100)) * s
}

/// Six hundred thousand times the share of each of red, green and blue, before lightness is
/// matched: one of them has the whole chroma, one has a part of it that rises and falls with the
/// hue, one has none.
pub open spec fn shares(h: int, c: int) -> (int, int, int) {
    let full = 60 * c;
    let part = c * (60 - distance(h % 120, 60));
    if 0 <= h < 60 {
        (full, part, 0)
    } else if 60 <= h < 120 {
        (part, full, 0)
    } else if 120 <= h < 180 {
        (0, full, part)
    } else if 180 <= h < 240 {
        (0, part, full)
    } else if 240 <= h < 300 {
        (part, 0, full)
    } else {
        (full, 0, part)
    }
}

/// A channel's byte: its share of 255, rounded to the nearest, halves upwards.
pub open spec fn channel(share: int, s: int, l: int) -> int {
    (510 * (share + 30 * (200 * l - chroma(s, l))) + 600_000) / 1_200_000
}

/// The colour of a hue in degrees, and of a saturation and a lightness in percent.
pub open spec fn hsl_hex(h: int, s: int, l: int) -> Seq<char> {
    let (r, g, b) = shares(h, chroma(s, l));
    seq!['#'] + text::hex_byte(channel(r, s, l) as u8) + text::hex_byte(channel(g, s, l) as u8)
        + text::hex_byte(channel(b, s, l) as u8)
}

proof fn lemma_channel_fits(share: int, s: int, l: int)
    requires
        0 <= s <= 100,
        0 <= l <= 100,
        0 <= share <= 60 * chroma(s, l),
    ensures
        0 <= chroma(s, l) <= 10_000,
        0 <= 200 * l - chroma(s, l) <= 20_000,
        0 <= share + 30 * (200 * l - chroma(s, l)) <= 600_000,
        0 <= channel(share, s, l) <= 255,
{
    let d = 100 - distance(2 * l, 100);
    assert(0 <= d <= 100);
    assert(0 <= d * s <= d * 100 && d * s <= 10_000) by (nonlinear_arith)
        requires
            0 <= d <= 100,
            0 <= s <= 100,
    ;
    assert(d * 100 <= 200 * l);
    assert(d * 100 + 200 * l <= 20_000);
}

fn channel_byte(share: u64, c: u64, l: u64) -> (r: u8)
    requires
        c <= 10_000,
        l <= 100,
        c <= 200 * l,
        share <= 600_000,
        share + 30 * (200 * l - c) <= 600_000,
    ensures
        r == (510 * (share + 30 * (200 * l - c)) + 600_000) / 1_200_000,
{
    let n: u64 = (510 * (share + 30 * (200 * l - c)) + 600_000) / 1_200_000;
    assert(n <= 255);
    n as u8
}

/// The three shares of a hue.
fn divide(h: u32, c: u64) -> (r: (u64, u64, u64))
    requires
        h <= 360,
        c <= 10_000,
    ensures
        (r.0 as int, r.1 as int, r.2 as int) == shares(h as int, c as int),
        r.0 <= 60 * c,
        r.1 <= 60 * c,
        r.2 <= 60 * c,
{
    let k: u64 = (h % 120) as u64;
    let away: u64 = if k < 60 {
        60 - k
    } else {
        k - 60
    };
    assert(c * (60 - away) <= 60 * c && c * (60 - away) >= 0) by (nonlinear_arith)
        requires
            0 <= away <= 60,
            c >= 0,
    ;
    let full: u64 = 60 * c;
    let part: u64 = c * (60 - away);
    let none: u64 = 0;
    if h < 60 {
        (full, part, none)
    } else if h < 120 {
        (part, full, none)
    } else if h < 180 {
        (none, full, part)
    } else if h < 240 {
        (none, part, full)
    } else if h < 300 {
        (part, none, full)
    } else {
        (full, none, part)
    }
}

/// The bytes of red, green and blue.
fn hsl_to_rgb(h: u32, s: u32, l: u32) -> (v: Vec<u8>)
    requires
        h <= 360,
        s <= 100,
        l <= 100,
    ensures
        v@.len() == 3,
        ({
            let (r, g, b) = shares(h as int, chroma(s as int, l as int));
            &&& v@[0] == channel(r, s as int, l as int)
            &&& v@[1] == channel(g, s as int, l as int)
            &&& v@[2] == channel(b, s as int, l as int)
        }),
{
    let spread: u64 = if 2 * l < 100 {
        (100 - 2 * l) as u64
    } else {
        (2 * l - 100) as u64
    };
    let rise: u64 = 100 - spread;
    proof {
        lemma_channel_fits(0, s as int, l as int);
        assert(rise * s <= 10_000) by (nonlinear_arith)
            requires
                rise <= 100,
                s <= 100,
        ;
    }
    let c: u64 = rise * s as u64;
    assert(c == chroma(s as int, l as int));
    let (r, g, b) = divide(h, c);
    proof {
        lemma_channel_fits(r as int, s as int, l as int);
        lemma_channel_fits(g as int, s as int, l as int);
        lemma_channel_fits(b as int, s as int, l as int);
    }
    let red = channel_byte(r, c, l as u64);
    let green = channel_byte(g, c, l as u64);
    let blue = channel_byte(b, c, l as u64);
    vec![red, green, blue]
}

/// The colour of a hue in degrees, and of a saturation and a lightness in percent, as a hash sign
/// and six digits of base sixteen.
pub fn hsl_to_hex(h: u32, s: u32, l: u32) -> (r: String)
    requires
        h <= 360,
        s <= 100,
        l <= 100,
    ensures
        r@ == hsl_hex(h as int, s as int, l as int),
{
    let bytes = hsl_to_rgb(h, s, l);
    let mut v = vec!['#'];
    let digits = text::to_hex(bytes.as_slice());
    text::append_to(&mut v, digits.as_slice());
    proof {
        let x = bytes@;
        assert(text::hex(x) =~= text::hex_byte(x[0]) + text::hex_byte(x[1]) + text::hex_byte(x[2])) by {
            reveal_with_fuel(text::hex, 4);
            assert(x.drop_last().drop_last().drop_last() =~= Seq::<u8>::empty());
        }
        assert(v@ =~= seq!['#'] + text::hex_byte(x[0]) + text::hex_byte(x[1]) + text::hex_byte(x[2]));
    }
    string_of(v.as_slice())
}

/// The colour of a user: a hue that the name decides, always with the same saturation and
/// lightness.
pub open spec fn color_of(username: Seq<char>) -> Seq<char> {
    hsl_hex(name_hash(vstd::utf8::encode_utf8(username)) % 360, 65, 55)
}

/// The colour of a user, which the name alone decides.
pub fn color_for_username(username: &str) -> (r: String)
    ensures
        r@ == color_of(username@),
{
    let bytes = username.as_bytes();
    let mut hash: u32 = 0;
    let mut i: usize = 0;
    while i < bytes.len()
        invariant
            i <= bytes@.len(),
            hash == name_hash(bytes@.take(i as int)),
        decreases bytes@.len() - i,
    {
        let ghost next = bytes@.take(i + 1);
        assert(next.drop_last() =~= bytes@.take(i as int));
        hash = ((hash as u64 * 31 + bytes[i] as u64) % 0x1_0000_0000) as u32;
        i = i + 1;
    }
    assert(bytes@.take(bytes@.len() as int) =~= bytes@);
    hsl_to_hex(hash % 360, 65, 55)
}

/// The hues go round: the last is the first.
pub proof fn hues_go_round(s: int, l: int)
    ensures
        hsl_hex(360, s, l) == hsl_hex(0, s, l),
{
    assert(chroma(s, l) * (60 - distance(0, 60)) == 0) by (nonlinear_arith);
}

/// Without lightness every colour is black, and with all of it white.
pub proof fn extremes_are_black_and_white(h: int, s: int)
    ensures
        hsl_hex(h, s, 0) == "#000000"@,
        hsl_hex(h, s, 100) == "#ffffff"@,
{
    reveal_strlit("#000000");
    reveal_strlit("#ffffff");
    assert(chroma(s, 0) == 0 && chroma(s, 100) == 0) by (nonlinear_arith)
        requires
            distance(0, 100) == 100,
            distance(200, 100) == 100,
    ;
    assert(0 * (60 - distance(h % 120, 60)) == 0) by (nonlinear_arith);
    assert(hsl_hex(h, s, 0) =~= "#000000"@);
    assert(hsl_hex(h, s, 100) =~= "#ffffff"@);
}

/// Without saturation every colour is a grey: each channel has the lightness's share of 255, rounded
/// to the nearest.
pub proof fn unsaturated_is_grey(h: int, l: int)
    ensures
        ({
            let byte = ((510 * l + 100) / 200) as u8;
            hsl_hex(h, 0, l) == seq!['#'] + text::hex_byte(byte) + text::hex_byte(byte)
                + text::hex_byte(byte)
        }),
{
    assert(chroma(0, l) == 0) by (nonlinear_arith);
    assert(0 * (60 - distance(h % 120, 60)) == 0) by (nonlinear_arith);
    assert((510 * (30 * (200 * l)) + 600_000) / 1_200_000 == (510 * l + 100) / 200) by (
    nonlinear_arith);
}

/// The text of a colour is a hash sign and six lower-case digits of base sixteen, whoever it
/// stands for.
pub proof fn color_is_web_color(username: Seq<char>)
    ensures
        color_of(username).len() == 7,
        color_of(username)[0] == '#',
        forall|i: int| 1 <= i < 7 ==> crate::outside::lower_hex(#[trigger] color_of(username)[i]),
{
}

/// A third of the way round the hues, red, green and blue change places.
pub proof fn hues_rotate(h: int, c: int)
    requires
        0 <= h < 240,
    ensures
        shares(h + 120, c) == (shares(h, c).2, shares(h, c).0, shares(h, c).1),
{
    assert((h + 120) % 120 == h % 120);
}

/// From red to yellow green rises with the hue while red is full, and from yellow to green red falls in
/// the same way.
pub proof fn hues_rise_and_fall(h: int, c: int)
    ensures
        0 <= h < 60 ==> shares(h, c) == (60 * c, c * h, 0int),
        60 <= h < 120 ==> shares(h, c) == (c * (120 - h), 60 * c, 0int),
{
    if 0 <= h < 120 {
        assert(h % 120 == h);
    }
}

/// A channel is rounded to the nearest: twice its distance from the exact value is at most one.
pub proof fn channels_are_rounded(share: int, s: int, l: int)
    ensures
        ({
            let exact = 510 * (share + 30 * (200 * l - (100 - distance(2 * l, 100)) * s));
            let rounded = 1_200_000 * channel(share, s, l);
            -600_000 <= exact - rounded < 600_000
        }),
{
}

/// The hash of a name goes on with every byte.
pub proof fn hashes_go_on(bytes: Seq<u8>, b: u8)
    ensures
        name_hash(Seq::<u8>::empty()) == 0,
        name_hash(bytes.push(b)) == (31 * name_hash(bytes) + b) % 0x1_0000_0000,
{
    assert(bytes.push(b).drop_last() =~= bytes);
}

/// Red, green and blue stand in this order, two digits each.
pub proof fn channels_stand_in_order(h: int, s: int, l: int)
    ensures
        ({
            let (r, g, b) = shares(h, chroma(s, l));
            let c = hsl_hex(h, s, l);
            &&& c.len() == 7
            &&& c[0] == '#'
            &&& c.subrange(1, 3) == text::hex_byte(channel(r, s, l) as u8)
            &&& c.subrange(3, 5) == text::hex_byte(channel(g, s, l) as u8)
            &&& c.subrange(5, 7) == text::hex_byte(channel(b, s, l) as u8)
        }),
{
    let (r, g, b) = shares(h, chroma(s, l));
    let c = hsl_hex(h, s, l);
    assert(c.subrange(1, 3) =~= text::hex_byte(channel(r, s, l) as u8));
    assert(c.subrange(3, 5) =~= text::hex_byte(channel(g, s, l) as u8));
    assert(c.subrange(5, 7) =~= text::hex_byte(channel(b, s, l) as u8));
}

/// The colour of a user has the hue that the name's hash gives, and the same saturation and lightness
/// as everybody's.
pub proof fn users_differ_by_hue(username: Seq<char>)
    ensures
        color_of(username) == hsl_hex(
            name_hash(vstd::utf8::encode_utf8(username)) % 360,
            65,
            55,
        ),
{
}

} // verus!
