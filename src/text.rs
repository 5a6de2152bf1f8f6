use vstd::prelude::*;
use vstd::utf8::{decode_utf8, is_scalar, valid_utf8};

use crate::bytes::{trim_trailing_zeros, trimmed_len};

verus! {

/// A character with the Unicode White_Space property.
pub open spec fn is_white_space(c: char) -> bool {
    let v = c as u32;
    (0x09 <= v <= 0x0D) || v == 0x20 || v == 0x85 || v == 0xA0 || v == 0x1680 || (0x2000 <= v
        <= 0x200A) || v == 0x2028 || v == 0x2029 || v == 0x202F || v == 0x205F || v == 0x3000
}

/// A character that is cut from both ends of decoded text.
pub open spec fn is_trim_char(c: char) -> bool {
    c == '\0' || is_white_space(c)
}

pub open spec fn trim_start(s: Seq<char>) -> Seq<char>
    decreases s.len(),
{
    if s.len() > 0 && is_trim_char(s[0]) {
        trim_start(s.drop_first())
    } else {
        s
    }
}

pub open spec fn trim_end(s: Seq<char>) -> Seq<char>
    decreases s.len(),
{
    if s.len() > 0 && is_trim_char(s.last()) {
        trim_end(s.drop_last())
    } else {
        s
    }
}

/// `s` without its leading and trailing whitespace and NUL characters.
pub open spec fn trim_text(s: Seq<char>) -> Seq<char> {
    trim_end(trim_start(s))
}

/// Each byte taken as the character of the same code.
pub open spec fn latin1(b: Seq<u8>) -> Seq<char> {
    Seq::new(b.len(), |i: int| b[i] as char)
}

/// The 16-bit code unit made of two bytes in the given order.
pub open spec fn unit16(a: u8, b: u8, big_endian: bool) -> u16 {
    if big_endian {
        (a as int * 0x100 + b as int) as u16
    } else {
        (b as int * 0x100 + a as int) as u16
    }
}

/// The code units that `b` holds, up to its first zero unit or its end.
pub open spec fn utf16_units(b: Seq<u8>, big_endian: bool) -> Seq<u16>
    decreases b.len(),
{
    if b.len() < 2 || unit16(b[0], b[1], big_endian) == 0 {
        seq![]
    } else {
        seq![unit16(b[0], b[1], big_endian)] + utf16_units(b.skip(2), big_endian)
    }
}

pub open spec fn is_surrogate(u: u16) -> bool {
    0xD800 <= u <= 0xDFFF
}

/// The scalar value that a high and a low surrogate stand for.
pub open spec fn pair_scalar(hi: u16, lo: u16) -> u32 {
    (0x10000 + (hi - 0xD800) * 0x400 + (lo - 0xDC00)) as u32
}

pub open spec fn prepend(c: char, rest: Option<Seq<char>>) -> Option<Seq<char>> {
    match rest {
        Some(r) => Some(seq![c] + r),
        None => None,
    }
}

/// The text that the code units `u` encode in UTF-16, or `None` where a
/// surrogate stands unpaired.
pub open spec fn utf16_decode(u: Seq<u16>) -> Option<Seq<char>>
    decreases u.len(),
{
    if u.len() == 0 {
        Some(seq![])
    } else if !is_surrogate(u[0]) {
        prepend((u[0] as u32) as char, utf16_decode(u.drop_first()))
    } else if u[0] <= 0xDBFF && u.len() >= 2 && 0xDC00 <= u[1] <= 0xDFFF {
        prepend(pair_scalar(u[0], u[1]) as char, utf16_decode(u.skip(2)))
    } else {
        None
    }
}

pub open spec fn trim_opt(s: Option<Seq<char>>) -> Option<Seq<char>> {
    match s {
        Some(t) => Some(trim_text(t)),
        None => None,
    }
}

/// UTF-16 text in the given byte order, trimmed.
pub open spec fn utf16_text(b: Seq<u8>, big_endian: bool) -> Option<Seq<char>> {
    trim_opt(utf16_decode(utf16_units(b, big_endian)))
}

/// UTF-16 text whose byte order a leading byte-order mark gives
/// (little-endian where there is none).
pub open spec fn utf16_bom_text(b: Seq<u8>) -> Option<Seq<char>> {
    if b.len() < 2 {
        None
    } else if b[0] == 0xFF && b[1] == 0xFE {
        utf16_text(b.skip(2), false)
    } else if b[0] == 0xFE && b[1] == 0xFF {
        utf16_text(b.skip(2), true)
    } else {
        utf16_text(b, false)
    }
}

/// UTF-8 text, trimmed; `None` where `b` is not valid UTF-8.
pub open spec fn utf8_text(b: Seq<u8>) -> Option<Seq<char>> {
    if valid_utf8(b) {
        Some(trim_text(decode_utf8(b)))
    } else {
        None
    }
}

/// The payload of a text frame: the bytes after the encoding byte, cut to
/// `max_text` bytes.
pub open spec fn text_payload(f: Seq<u8>, max_text: nat) -> Seq<u8> {
    if f.len() - 1 > max_text {
        f.subrange(1, 1 + max_text as int)
    } else {
        f.subrange(1, f.len() as int)
    }
}

/// The text that an ID3v2 text frame holds.
pub open spec fn text_frame(f: Seq<u8>, max_text: nat) -> Option<Seq<char>> {
    if f.len() == 0 {
        None
    } else {
        let t = text_payload(f, max_text);
        if f[0] == 0 {
            Some(latin1(t.take(trimmed_len(t) as int)))
        } else if f[0] == 1 {
            utf16_bom_text(t)
        } else if f[0] == 2 {
            utf16_text(t, true)
        } else if f[0] == 3 {
            utf8_text(t)
        } else {
            None
        }
    }
}

/// Relies on char::from_u32: a character exactly for the Unicode scalar values.
#[verifier::external_body]
fn char_from_u32(v: u32) -> (r: Option<char>)
    ensures
        r == (if is_scalar(v) {
            Some(v as char)
        } else {
            None
        }),
{
    char::from_u32(v)
}

/// Relies on String::push: appends one character.
#[verifier::external_body]
fn push_char(s: &mut String, c: char)
    ensures
        final(s)@ == old(s)@.push(c),
{
    s.push(c)
}

/// Relies on std::str::from_utf8: succeeds exactly on valid UTF-8.
#[verifier::external_body]
fn utf8_str<'a>(b: &'a [u8]) -> (r: Option<&'a str>)
    ensures
        r is Some <==> valid_utf8(b@),
        r matches Some(s) ==> s@ == decode_utf8(b@),
{
    std::str::from_utf8(b).ok()
}

/// Relies on str::chars: the characters of the string, in order.
#[verifier::external_body]
fn str_chars(s: &str) -> (r: Vec<char>)
    ensures
        r@ == s@,
{
    s.chars().collect()
}

/// The string made of the characters `v`.
pub fn chars_to_string(v: &Vec<char>) -> (r: String)
    ensures
        r@ == v@,
{
    let mut s = String::new();
    let mut i: usize = 0;
    while i < v.len()
        invariant
            i <= v@.len(),
            s@ == v@.take(i as int),
        decreases v@.len() - i,
    {
        push_char(&mut s, v[i]);
        assert(v@.take(i as int).push(v@[i as int]) =~= v@.take(i + 1));
        i = i + 1;
    }
    assert(v@.take(v@.len() as int) =~= v@);
    s
}

/// The bytes `b[from..to]` taken as Latin-1 text.
pub fn latin1_chars(b: &[u8], from: usize, to: usize) -> (r: Vec<char>)
    requires
        from <= to <= b@.len(),
    ensures
        r@ == latin1(b@.subrange(from as int, to as int)),
{
    let mut out: Vec<char> = Vec::new();
    let mut i: usize = from;
    while i < to
        invariant
            from <= i <= to <= b@.len(),
            out@ =~= latin1(b@.subrange(from as int, i as int)),
        decreases to - i,
    {
        assert(is_scalar(b@[i as int] as u32));
        let c = char_from_u32(b[i] as u32).unwrap();
        out.push(c);
        i = i + 1;
        assert(out@ =~= latin1(b@.subrange(from as int, i as int)));
    }
    out
}

/// `s` without its leading and trailing whitespace and NUL characters.
pub fn trim_chars(s: &Vec<char>) -> (r: Vec<char>)
    ensures
        r@ == trim_text(s@),
{
    let n = s.len();
    let mut a: usize = 0;
    assert(s@.subrange(0, n as int) =~= s@);
    while a < n && is_trim(s[a])
        invariant
            a <= n == s@.len(),
            trim_start(s@) == trim_start(s@.subrange(a as int, n as int)),
        decreases n - a,
    {
        assert(s@.subrange(a as int, n as int).drop_first() =~= s@.subrange(a + 1, n as int));
        a = a + 1;
    }
    assert(trim_start(s@) == s@.subrange(a as int, n as int));
    let mut z: usize = n;
    while z > a && is_trim(s[z - 1])
        invariant
            a <= z <= n == s@.len(),
            trim_end(s@.subrange(a as int, n as int)) == trim_end(s@.subrange(a as int, z as int)),
        decreases z,
    {
        assert(s@.subrange(a as int, z as int).drop_last() =~= s@.subrange(a as int, z - 1));
        z = z - 1;
    }
    let mut out: Vec<char> = Vec::new();
    let mut i: usize = a;
    while i < z
        invariant
            a <= i <= z <= n == s@.len(),
            out@ =~= s@.subrange(a as int, i as int),
        decreases z - i,
    {
        out.push(s[i]);
        i = i + 1;
    }
    out
}

fn is_trim(c: char) -> (r: bool)
    ensures
        r == is_trim_char(c),
{
    let v = c as u32;
    c == '\0' || (0x09 <= v && v <= 0x0D) || v == 0x20 || v == 0x85 || v == 0xA0 || v == 0x1680
        || (0x2000 <= v && v <= 0x200A) || v == 0x2028 || v == 0x2029 || v == 0x202F || v == 0x205F
        || v == 0x3000
}

pub open spec fn concat_opt(p: Seq<char>, rest: Option<Seq<char>>) -> Option<Seq<char>> {
    match rest {
        Some(r) => Some(p + r),
        None => None,
    }
}

/// The code units of `b`, up to its first zero unit.
fn utf16_code_units(b: &[u8], big_endian: bool) -> (r: Vec<u16>)
    ensures
        r@ == utf16_units(b@, big_endian),
{
    let mut out: Vec<u16> = Vec::new();
    let mut i: usize = 0;
    assert(b@.skip(0) =~= b@);
    assert(out@ + utf16_units(b@, big_endian) =~= utf16_units(b@, big_endian));
    while b.len() - i >= 2
        invariant
            i <= b@.len(),
            utf16_units(b@, big_endian) == out@ + utf16_units(b@.skip(i as int), big_endian),
        decreases b@.len() - i,
    {
        let u: u16 = if big_endian {
            b[i] as u16 * 0x100 + b[i + 1] as u16
        } else {
            b[i + 1] as u16 * 0x100 + b[i] as u16
        };
        let ghost rest = b@.skip(i as int);
        assert(rest[0] == b@[i as int] && rest[1] == b@[i + 1]);
        assert(u == unit16(rest[0], rest[1], big_endian));
        if u == 0 {
            assert(out@ + utf16_units(rest, big_endian) =~= out@);
            return out;
        }
        assert(rest.skip(2) =~= b@.skip(i + 2));
        assert(out@.push(u) + utf16_units(b@.skip(i + 2), big_endian) =~= out@ + (seq![u]
            + utf16_units(b@.skip(i + 2), big_endian)));
        out.push(u);
        i = i + 2;
    }
    assert(out@ + utf16_units(b@.skip(i as int), big_endian) =~= out@);
    out
}

/// The text that the code units `u` encode in UTF-16.
fn decode_utf16_units(u: &Vec<u16>) -> (r: Option<Vec<char>>)
    ensures
        match r {
            Some(v) => utf16_decode(u@) == Some(v@),
            None => utf16_decode(u@) is None,
        },
{
    let mut out: Vec<char> = Vec::new();
    let mut i: usize = 0;
    assert(u@.skip(0) =~= u@);
    assert(utf16_decode(u@) is Some ==> out@ + utf16_decode(u@)->0 =~= utf16_decode(u@)->0);
    while i < u.len()
        invariant
            i <= u@.len(),
            utf16_decode(u@) == concat_opt(out@, utf16_decode(u@.skip(i as int))),
        decreases u@.len() - i,
    {
        let c = u[i];
        let ghost rest = u@.skip(i as int);
        assert(rest[0] == c);
        if c < 0xD800 || c > 0xDFFF {
            assert(is_scalar(c as u32));
            let ch = char_from_u32(c as u32);
            let x = ch.unwrap();
            assert(rest.drop_first() =~= u@.skip(i + 1));
            assert(out@.push(x) + utf16_decode(u@.skip(i + 1))->0 =~= out@ + (seq![x] + utf16_decode(u@.skip(i + 1))->0));
            out.push(x);
            i = i + 1;
        } else if c <= 0xDBFF && i + 1 < u.len() && u[i + 1] >= 0xDC00 && u[i + 1] <= 0xDFFF {
            let lo = u[i + 1];
            assert(rest[1] == lo);
            let v: u32 = 0x10000 + ((c - 0xD800) as u32) * 0x400 + (lo - 0xDC00) as u32;
            assert(v == pair_scalar(c, lo));
            assert(is_scalar(v));
            let ch = char_from_u32(v);
            let x = ch.unwrap();
            assert(rest.skip(2) =~= u@.skip(i + 2));
            assert(out@.push(x) + utf16_decode(u@.skip(i + 2))->0 =~= out@ + (seq![x] + utf16_decode(u@.skip(i + 2))->0));
            out.push(x);
            i = i + 2;
        } else {
            return None;
        }
    }
    assert(out@ + seq![] =~= out@);
    Some(out)
}

/// UTF-16 text of the given byte order in `b`, trimmed.
pub fn decode_utf16(b: &[u8], big_endian: bool) -> (r: Option<Vec<char>>)
    ensures
        match r {
            Some(v) => utf16_text(b@, big_endian) == Some(v@),
            None => utf16_text(b@, big_endian) is None,
        },
{
    let units = utf16_code_units(b, big_endian);
    match decode_utf16_units(&units) {
        Some(v) => Some(trim_chars(&v)),
        None => None,
    }
}

/// UTF-16 text after an optional byte-order mark, trimmed.
pub fn decode_utf16_with_bom(b: &[u8]) -> (r: Option<Vec<char>>)
    ensures
        match r {
            Some(v) => utf16_bom_text(b@) == Some(v@),
            None => utf16_bom_text(b@) is None,
        },
{
    if b.len() < 2 {
        None
    } else if b[0] == 0xFF && b[1] == 0xFE {
        assert(b@.subrange(2, b@.len() as int) =~= b@.skip(2));
        decode_utf16(&b[2..b.len()], false)
    } else if b[0] == 0xFE && b[1] == 0xFF {
        assert(b@.subrange(2, b@.len() as int) =~= b@.skip(2));
        decode_utf16(&b[2..b.len()], true)
    } else {
        decode_utf16(b, false)
    }
}

/// UTF-8 text in `b`, trimmed.
pub fn decode_utf8_text(b: &[u8]) -> (r: Option<Vec<char>>)
    ensures
        match r {
            Some(v) => utf8_text(b@) == Some(v@),
            None => utf8_text(b@) is None,
        },
{
    match utf8_str(b) {
        Some(s) => {
            let v = str_chars(s);
            Some(trim_chars(&v))
        },
        None => None,
    }
}

/// The text that an ID3v2 text frame holds; the payload after the
/// encoding byte is cut to `max_text_bytes` first.
pub fn parse_id3_text_frame(f: &[u8], max_text_bytes: usize) -> (r: Option<Vec<char>>)
    ensures
        match r {
            Some(v) => text_frame(f@, max_text_bytes as nat) == Some(v@),
            None => text_frame(f@, max_text_bytes as nat) is None,
        },
{
    if f.len() == 0 {
        return None;
    }
    let encoding = f[0];
    let end: usize = if f.len() - 1 > max_text_bytes {
        1 + max_text_bytes
    } else {
        f.len()
    };
    let t = &f[1..end];
    assert(t@ == text_payload(f@, max_text_bytes as nat));
    if encoding == 0 {
        let n = trim_trailing_zeros(t, 0, t.len());
        assert(t@.subrange(0, t@.len() as int) =~= t@);
        let v = latin1_chars(t, 0, n);
        assert(t@.subrange(0, n as int) =~= t@.take(n as int));
        Some(v)
    } else if encoding == 1 {
        decode_utf16_with_bom(t)
    } else if encoding == 2 {
        decode_utf16(t, true)
    } else if encoding == 3 {
        decode_utf8_text(t)
    } else {
        None
    }
}

/// What String::from_utf8_lossy makes of the bytes `b`.
pub uninterp spec fn lossy_text(b: Seq<u8>) -> Seq<char>;

/// Relies on String::from_utf8_lossy: each invalid sequence becomes U+FFFD,
/// and valid UTF-8 is decoded as it stands.
#[verifier::external_body]
pub(crate) fn lossy_string(b: &[u8]) -> (r: String)
    ensures
        r@ == lossy_text(b@),
        valid_utf8(b@) ==> r@ == decode_utf8(b@),
{
    String::from_utf8_lossy(b).into_owned()
}

} // verus!
