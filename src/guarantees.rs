//! What the decoder guarantees across calls and inputs, stated over the
//! specification functions and proved.
use vstd::prelude::*;

use crate::bytes::{be24_at, be32_at, synchsafe_at, trimmed_len};
use crate::decode;
use crate::flac::{apply_comment, is_flac};
use crate::id3::{apply_frame, has_id3v2, id3v1, id3v2_tag, id3v2_walk, KIND_TITLE};
use crate::mpeg::{frame_header_at, mpeg_scan, scan_limit, SCAN_WINDOW};
use crate::record::{empty_view, offer, MetadataView, PictureView, FRONT_COVER};
use crate::text::{
    is_surrogate, is_trim_char, latin1, pair_scalar, text_frame, text_payload, trim_end, trim_start,
    trim_text, unit16, utf16_bom_text, utf16_decode, utf16_text, utf16_units,
};
use vstd::utf8::{encode_utf8, encode_utf8_decode_utf8, encode_utf8_valid_utf8};

verus! {

/// A front cover found after a picture that is not one replaces it; any
/// picture found after a front cover leaves the front cover in place.
pub proof fn front_cover_wins(first: PictureView, second: PictureView)
    ensures
        first.pic_type != FRONT_COVER && second.pic_type == FRONT_COVER ==> offer(
            offer(None, Some(first)),
            Some(second),
        ) == Some(second),
        first.pic_type == FRONT_COVER ==> offer(offer(None, Some(first)), Some(second)) == Some(
            first,
        ),
{
}

/// An ID3v1 trailer leaves every text field that is already set as it is,
/// and touches neither the cover nor the audio information.
pub proof fn id3v1_fills_only_unset(b: Seq<u8>, m: MetadataView)
    ensures
        m.title is Some ==> id3v1(b, m).title == m.title,
        m.artist is Some ==> id3v1(b, m).artist == m.artist,
        m.album is Some ==> id3v1(b, m).album == m.album,
        id3v1(b, m).cover == m.cover,
        id3v1(b, m).audio == m.audio,
{
}

/// `n` as four big-endian bytes.
pub open spec fn be32_bytes(n: nat) -> Seq<u8> {
    seq![
        (n / 0x1000000) as u8,
        ((n / 0x10000) % 0x100) as u8,
        ((n / 0x100) % 0x100) as u8,
        (n % 0x100) as u8,
    ]
}

/// `n` as a four-byte synchsafe integer.
pub open spec fn synchsafe_bytes(n: nat) -> Seq<u8> {
    seq![
        ((n / 0x200000) % 0x80) as u8,
        ((n / 0x4000) % 0x80) as u8,
        ((n / 0x80) % 0x80) as u8,
        (n % 0x80) as u8,
    ]
}

proof fn lemma_be32_bytes(n: nat)
    requires
        n < 0x100000000,
    ensures
        be32_at(be32_bytes(n), 0) == n,
{
    let b = be32_bytes(n);
    assert(b[0] == n / 0x1000000);
    assert(b[1] == (n / 0x10000) % 0x100);
    assert(b[2] == (n / 0x100) % 0x100);
    assert(b[3] == n % 0x100);
    assert(n == (n / 0x100) * 0x100 + n % 0x100);
    assert(n / 0x100 == (n / 0x10000) * 0x100 + (n / 0x100) % 0x100);
    assert(n / 0x10000 == (n / 0x1000000) * 0x100 + (n / 0x10000) % 0x100);
}

proof fn lemma_synchsafe_bytes(n: nat)
    requires
        n < 0x10000000,
    ensures
        synchsafe_at(synchsafe_bytes(n), 0) == n,
{
    let b = synchsafe_bytes(n);
    assert(b[0] == (n / 0x200000) % 0x80);
    assert(b[1] == (n / 0x4000) % 0x80);
    assert(b[2] == (n / 0x80) % 0x80);
    assert(b[3] == n % 0x80);
    assert(n == (n / 0x80) * 0x80 + n % 0x80);
    assert(n / 0x80 == (n / 0x4000) * 0x80 + (n / 0x80) % 0x80);
    assert(n / 0x4000 == (n / 0x200000) * 0x80 + (n / 0x4000) % 0x80);
    assert(n / 0x200000 < 0x80);
}

/// An ID3v2.3 TIT2 frame: id, size, flags, encoding byte, payload.
pub open spec fn tit2_frame(encoding: u8, payload: Seq<u8>) -> Seq<u8> {
    seq![0x54u8, 0x49u8, 0x54u8, 0x32u8] + be32_bytes(payload.len() + 1) + seq![
        0u8,
        0u8,
        encoding,
    ] + payload
}

/// An ID3v2.3 tag with no flags that holds one TIT2 frame.
pub open spec fn tit2_tag(encoding: u8, payload: Seq<u8>) -> Seq<u8> {
    seq![0x49u8, 0x44u8, 0x33u8, 3u8, 0u8, 0u8] + synchsafe_bytes(tit2_frame(encoding, payload).len())
        + tit2_frame(encoding, payload)
}

/// The header fields of a tag that holds one unflagged ID3v2.3 frame with
/// contents `data`, whose id starts with the bytes `w`, `x`, `y`, `z`.
pub open spec fn one_frame_v23(b: Seq<u8>, w: u8, x: u8, y: u8, z: u8, data: Seq<u8>) -> bool {
    &&& b.len() == 20 + data.len()
    &&& data.len() > 0
    &&& b[0] == 0x49 && b[1] == 0x44 && b[2] == 0x33 && b[3] == 3 && b[5] == 0
    &&& synchsafe_at(b, 6) == 10 + data.len()
    &&& b[10] == w && b[11] == x && b[12] == y && b[13] == z
    &&& be32_at(b, 14) == data.len()
    &&& b[19] == 0
    &&& b.subrange(20, b.len() as int) == data
}

proof fn lemma_tit2_tag_bytes(encoding: u8, payload: Seq<u8>)
    requires
        payload.len() + 11 < 0x10000000,
    ensures
        one_frame_v23(tit2_tag(encoding, payload), 0x54, 0x49, 0x54, 0x32, seq![encoding] + payload),
{
    let f = tit2_frame(encoding, payload);
    let b = tit2_tag(encoding, payload);
    let n: int = payload.len() as int + 1;
    let ss = synchsafe_bytes(f.len());
    let sz = be32_bytes(n as nat);
    lemma_synchsafe_bytes(f.len());
    lemma_be32_bytes(n as nat);
    assert(f.len() == 10 + n);
    assert(b.len() == 10 + f.len());
    assert(b[0] == 0x49 && b[1] == 0x44 && b[2] == 0x33 && b[3] == 3 && b[5] == 0);
    assert(b[6] == ss[0] && b[7] == ss[1] && b[8] == ss[2] && b[9] == ss[3]);
    assert(b[10] == 0x54 && b[11] == 0x49 && b[12] == 0x54 && b[13] == 0x32);
    assert(b[14] == sz[0] && b[15] == sz[1] && b[16] == sz[2] && b[17] == sz[3]);
    assert(b[19] == 0);
    assert(b.subrange(20, b.len() as int) =~= seq![encoding] + payload);
}

proof fn lemma_one_frame_walk(b: Seq<u8>, data: Seq<u8>, max_text: nat, max_cover: nat)
    requires
        one_frame_v23(b, 0x54, 0x49, 0x54, 0x32, data),
    ensures
        has_id3v2(b),
        !is_flac(b),
        id3v2_tag(b, max_text, max_cover, empty_view()) == apply_frame(
            empty_view(),
            KIND_TITLE,
            data,
            max_text,
            max_cover,
            false,
        ),
{
    reveal(id3v2_walk);
    let m1 = apply_frame(empty_view(), KIND_TITLE, data, max_text, max_cover, false);
    let end = b.len() as int;
    assert(id3v2_walk(b, 3, end, end, max_text, max_cover, m1) == m1);
    assert(id3v2_walk(b, 3, 10, end, max_text, max_cover, empty_view()) == m1);
}

proof fn lemma_tit2_tag_title(
    encoding: u8,
    payload: Seq<u8>,
    max_text: nat,
    max_cover: nat,
    s: Seq<char>,
)
    requires
        payload.len() + 11 < 0x10000000,
        text_frame(seq![encoding] + payload, max_text) == Some(s),
        s.len() > 0,
    ensures
        decode(tit2_tag(encoding, payload), max_text, max_cover).title == Some(s),
{
    lemma_tit2_tag_bytes(encoding, payload);
    lemma_one_frame_walk(tit2_tag(encoding, payload), seq![encoding] + payload, max_text, max_cover);
}

/// Each character, all of them below 256, as one byte.
pub open spec fn latin1_bytes(s: Seq<char>) -> Seq<u8> {
    Seq::new(s.len(), |i: int| (s[i] as u32) as u8)
}

proof fn lemma_trim_fixed(s: Seq<char>)
    requires
        s.len() > 0,
        !is_trim_char(s[0]),
        !is_trim_char(s.last()),
    ensures
        trim_text(s) == s,
{
    assert(trim_start(s) == s);
    assert(trim_end(s) == s);
}

proof fn lemma_payload(encoding: u8, payload: Seq<u8>, max_text: nat)
    requires
        payload.len() <= max_text,
    ensures
        text_payload(seq![encoding] + payload, max_text) == payload,
        (seq![encoding] + payload)[0] == encoding,
{
    assert((seq![encoding] + payload).subrange(1, payload.len() as int + 1) =~= payload);
}

proof fn lemma_latin1_bytes(s: Seq<char>)
    requires
        s.len() > 0,
        forall|i: int| 0 <= i < s.len() ==> (s[i] as u32) <= 0xFF,
        s.last() as u32 != 0 && s.last() as u32 != 0x20,
    ensures
        latin1(latin1_bytes(s).take(trimmed_len(latin1_bytes(s)) as int)) == s,
{
    let p = latin1_bytes(s);
    assert(p.last() == (s.last() as u32) as u8);
    assert(p.last() == s.last() as u32);
    assert(trimmed_len(p) == p.len());
    assert(p.take(p.len() as int) =~= p);
    assert forall|i: int| 0 <= i < s.len() implies #[trigger] latin1(p)[i] == s[i] by {
        vstd::utf8::char_u32_cast(s[i], s[i] as u32);
    }
    assert(latin1(p) =~= s);
}

/// A non-empty title of characters below 256, not ending in NUL or space,
/// stored as Latin-1 in the one TIT2 frame of an ID3v2.3 tag, decodes to
/// itself.
pub proof fn title_round_trip_latin1(s: Seq<char>, max_text: nat, max_cover: nat)
    requires
        s.len() > 0,
        forall|i: int| 0 <= i < s.len() ==> (s[i] as u32) <= 0xFF,
        s.last() as u32 != 0 && s.last() as u32 != 0x20,
        s.len() <= max_text,
        s.len() + 11 < 0x10000000,
    ensures
        decode(tit2_tag(0, latin1_bytes(s)), max_text, max_cover).title == Some(s),
{
    let p = latin1_bytes(s);
    lemma_payload(0, p, max_text);
    lemma_latin1_bytes(s);
    lemma_tit2_tag_title(0, p, max_text, max_cover, s);
}

/// A non-empty title with no whitespace or NUL at either end, stored as
/// UTF-8 in the one TIT2 frame of an ID3v2.3 tag, decodes to itself.
pub proof fn title_round_trip_utf8(s: Seq<char>, max_text: nat, max_cover: nat)
    requires
        s.len() > 0,
        !is_trim_char(s[0]),
        !is_trim_char(s.last()),
        encode_utf8(s).len() <= max_text,
        encode_utf8(s).len() + 11 < 0x10000000,
    ensures
        decode(tit2_tag(3, encode_utf8(s)), max_text, max_cover).title == Some(s),
{
    let p = encode_utf8(s);
    lemma_payload(3, p, max_text);
    encode_utf8_valid_utf8(s);
    encode_utf8_decode_utf8(s);
    lemma_trim_fixed(s);
    lemma_tit2_tag_title(3, p, max_text, max_cover, s);
}

/// The UTF-16 code units of `s`.
pub open spec fn utf16_encode(s: Seq<char>) -> Seq<u16>
    decreases s.len(),
{
    if s.len() == 0 {
        seq![]
    } else {
        let c = s[0] as u32;
        let head = if c < 0x10000 {
            seq![c as u16]
        } else {
            seq![(0xD800 + (c - 0x10000) / 0x400) as u16, (0xDC00 + (c - 0x10000) % 0x400) as u16]
        };
        head + utf16_encode(s.drop_first())
    }
}

/// Each code unit as two bytes in the given order.
pub open spec fn unit_bytes(u: Seq<u16>, big_endian: bool) -> Seq<u8>
    decreases u.len(),
{
    if u.len() == 0 {
        seq![]
    } else {
        let x = u[0];
        let two = if big_endian {
            seq![(x / 0x100) as u8, (x % 0x100) as u8]
        } else {
            seq![(x % 0x100) as u8, (x / 0x100) as u8]
        };
        two + unit_bytes(u.drop_first(), big_endian)
    }
}

/// `s` as UTF-16 bytes in the given order.
pub open spec fn utf16_bytes(s: Seq<char>, big_endian: bool) -> Seq<u8> {
    unit_bytes(utf16_encode(s), big_endian)
}

pub open spec fn has_no_nul(s: Seq<char>) -> bool {
    forall|i: int| 0 <= i < s.len() ==> s[i] as u32 != 0
}

proof fn lemma_unit_bytes(u: Seq<u16>, big_endian: bool)
    requires
        forall|i: int| 0 <= i < u.len() ==> u[i] != 0,
    ensures
        utf16_units(unit_bytes(u, big_endian), big_endian) == u,
    decreases u.len(),
{
    if u.len() > 0 {
        let b = unit_bytes(u, big_endian);
        let x = u[0];
        let rest = u.drop_first();
        assert(forall|i: int| 0 <= i < rest.len() ==> rest[i] == u[i + 1]);
        lemma_unit_bytes(rest, big_endian);
        assert(x == (x / 0x100) * 0x100 + x % 0x100);
        assert(unit16(b[0], b[1], big_endian) == x);
        assert(b.skip(2) =~= unit_bytes(rest, big_endian));
        assert(seq![x] + rest =~= u);
    }
}

proof fn lemma_encode_no_zero(s: Seq<char>)
    requires
        has_no_nul(s),
    ensures
        forall|i: int| 0 <= i < utf16_encode(s).len() ==> utf16_encode(s)[i] != 0,
    decreases s.len(),
{
    if s.len() > 0 {
        let rest = s.drop_first();
        assert(forall|i: int| 0 <= i < rest.len() ==> rest[i] == s[i + 1]);
        lemma_encode_no_zero(rest);
        let c = s[0] as u32;
        assert(c != 0);
        let head = if c < 0x10000 {
            seq![c as u16]
        } else {
            seq![(0xD800 + (c - 0x10000) / 0x400) as u16, (0xDC00 + (c - 0x10000) % 0x400) as u16]
        };
        let u = utf16_encode(s);
        vstd::utf8::char_is_scalar(s[0]);
        if c < 0x10000 {
            assert(head[0] == c);
        } else {
            assert(head[0] >= 0xD800 && head[1] >= 0xDC00);
        }
        assert(u == head + utf16_encode(rest));
        assert forall|i: int| 0 <= i < u.len() implies u[i] != 0 by {
            if i >= head.len() {
                assert(u[i] == utf16_encode(rest)[i - head.len()]);
            }
        }
    }
}

proof fn lemma_utf16_round_trip(s: Seq<char>)
    ensures
        utf16_decode(utf16_encode(s)) == Some(s),
    decreases s.len(),
{
    if s.len() > 0 {
        let c = s[0] as u32;
        let rest = s.drop_first();
        let u = utf16_encode(s);
        vstd::utf8::char_is_scalar(s[0]);
        vstd::utf8::char_u32_cast(s[0], c);
        lemma_utf16_round_trip(rest);
        if c < 0x10000 {
            assert(u[0] == c as u16);
            assert(!is_surrogate(u[0]));
            assert(u.drop_first() =~= utf16_encode(rest));
            assert((u[0] as u32) == c);
        } else {
            let hi = (0xD800 + (c - 0x10000) / 0x400) as u16;
            let lo = (0xDC00 + (c - 0x10000) % 0x400) as u16;
            assert(u[0] == hi && u[1] == lo);
            assert(c - 0x10000 == ((c - 0x10000) / 0x400) * 0x400 + (c - 0x10000) % 0x400);
            assert(pair_scalar(hi, lo) == c);
            assert(u.skip(2) =~= utf16_encode(rest));
        }
        assert(seq![s[0]] + rest =~= s);
    }
}

proof fn lemma_utf16_text(s: Seq<char>, big_endian: bool)
    requires
        s.len() > 0,
        has_no_nul(s),
        !is_trim_char(s[0]),
        !is_trim_char(s.last()),
    ensures
        utf16_text(utf16_bytes(s, big_endian), big_endian) == Some(s),
{
    lemma_encode_no_zero(s);
    lemma_unit_bytes(utf16_encode(s), big_endian);
    lemma_utf16_round_trip(s);
    lemma_trim_fixed(s);
}

/// A non-empty title with no NUL in it and no whitespace at either end,
/// stored as UTF-16 after a byte-order mark, in either byte order, in the
/// one TIT2 frame of an ID3v2.3 tag, decodes to itself.
pub proof fn title_round_trip_utf16_bom(
    s: Seq<char>,
    big_endian: bool,
    max_text: nat,
    max_cover: nat,
)
    requires
        s.len() > 0,
        has_no_nul(s),
        !is_trim_char(s[0]),
        !is_trim_char(s.last()),
        utf16_bytes(s, big_endian).len() + 2 <= max_text,
        utf16_bytes(s, big_endian).len() + 13 < 0x10000000,
    ensures
        decode(
            tit2_tag(
                1,
                (if big_endian {
                    seq![0xFEu8, 0xFFu8]
                } else {
                    seq![0xFFu8, 0xFEu8]
                }) + utf16_bytes(s, big_endian),
            ),
            max_text,
            max_cover,
        ).title == Some(s),
{
    let bom = if big_endian {
        seq![0xFEu8, 0xFFu8]
    } else {
        seq![0xFFu8, 0xFEu8]
    };
    let p = bom + utf16_bytes(s, big_endian);
    lemma_payload(1, p, max_text);
    lemma_utf16_text(s, big_endian);
    assert(p.skip(2) =~= utf16_bytes(s, big_endian));
    assert(utf16_bom_text(p) == Some(s));
    lemma_tit2_tag_title(1, p, max_text, max_cover, s);
}

/// A non-empty title with no NUL in it and no whitespace at either end,
/// stored as big-endian UTF-16 without a byte-order mark in the one TIT2
/// frame of an ID3v2.3 tag, decodes to itself.
pub proof fn title_round_trip_utf16be(s: Seq<char>, max_text: nat, max_cover: nat)
    requires
        s.len() > 0,
        has_no_nul(s),
        !is_trim_char(s[0]),
        !is_trim_char(s.last()),
        utf16_bytes(s, true).len() <= max_text,
        utf16_bytes(s, true).len() + 11 < 0x10000000,
    ensures
        decode(tit2_tag(2, utf16_bytes(s, true)), max_text, max_cover).title == Some(s),
{
    let p = utf16_bytes(s, true);
    lemma_payload(2, p, max_text);
    lemma_utf16_text(s, true);
    lemma_tit2_tag_title(2, p, max_text, max_cover, s);
}

proof fn lemma_scan_reaches(b: Seq<u8>, i: int, limit: int, k: int)
    requires
        0 <= i <= k < limit,
        limit + 3 <= b.len(),
        frame_header_at(b, k) is Some,
        forall|j: int| i <= j < k ==> frame_header_at(b, j) is None,
    ensures
        mpeg_scan(b, i, limit) == frame_header_at(b, k),
    decreases k - i,
{
    if i < k {
        lemma_scan_reaches(b, i + 1, limit, k);
    }
}

proof fn lemma_scan_misses(b: Seq<u8>, i: int, limit: int)
    requires
        0 <= i,
        forall|j: int| i <= j < limit ==> frame_header_at(b, j) is None,
    ensures
        mpeg_scan(b, i, limit) is None,
    decreases limit - i,
{
    if i < limit {
        lemma_scan_misses(b, i + 1, limit);
    }
}

/// A valid MPEG frame header at any position `k` of the scan window that
/// starts at `start` is found, as long as none comes before it.
pub proof fn header_in_window_found(b: Seq<u8>, start: int, k: int)
    requires
        0 <= start <= k < scan_limit(b.len() as int, start),
        frame_header_at(b, k) is Some,
        forall|j: int| start <= j < k ==> frame_header_at(b, j) is None,
    ensures
        mpeg_scan(b, start, scan_limit(b.len() as int, start)) == frame_header_at(b, k),
{
    lemma_scan_reaches(b, start, scan_limit(b.len() as int, start), k);
}

/// What lies beyond the scan window is never looked at: where no valid
/// header stands within the window, none is found.
pub proof fn header_beyond_window_missed(b: Seq<u8>, start: int)
    requires
        0 <= start,
        forall|j: int| start <= j < start + SCAN_WINDOW ==> frame_header_at(b, j) is None,
    ensures
        mpeg_scan(b, start, scan_limit(b.len() as int, start)) is None,
{
    lemma_scan_misses(b, start, scan_limit(b.len() as int, start));
}

/// A frame whose declared size runs past the end of the tag ends the walk:
/// the record keeps what the frames before it gave, and nothing else.
pub proof fn oversized_frame_ends_walk(
    b: Seq<u8>,
    version: u8,
    off: int,
    end: int,
    max_text: nat,
    max_cover: nat,
    m: MetadataView,
)
    requires
        0 <= off < end <= b.len(),
        version == 2 ==> off + 6 <= end && be24_at(b, off + 3) + off + 6 > end,
        version != 2 ==> off + 10 <= end && (if version == 4 {
            synchsafe_at(b, off + 4)
        } else {
            be32_at(b, off + 4)
        }) + off + 10 > end,
    ensures
        id3v2_walk(b, version, off, end, max_text, max_cover, m) == m,
{
    reveal(id3v2_walk);
}

/// A Vorbis comment never changes a text field that is set already: the
/// first value of each key wins.
pub proof fn vorbis_first_value_wins(m: MetadataView, entry: Seq<u8>)
    ensures
        m.title is Some ==> apply_comment(m, entry).title == m.title,
        m.artist is Some ==> apply_comment(m, entry).artist == m.artist,
        m.album is Some ==> apply_comment(m, entry).album == m.album,
{
}

} // verus!
