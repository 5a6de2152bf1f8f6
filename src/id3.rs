use vstd::prelude::*;
use vstd::slice::slice_to_vec;

use crate::bytes::{
    be24_at, be32_at, be_u24, be_u32, find_zero, find_zero_utf16, synchsafe_at, synchsafe_u32,
    trim_trailing_zeros, trimmed_len, zero16_from, zero_from,
};
use crate::record::{
    fill, fill_text, offer, offer_picture, Metadata, MetadataView, Picture, PictureView,
};
use crate::text::{latin1, latin1_chars, lossy_string, lossy_text, parse_id3_text_frame, text_frame};

verus! {

/// Size of the ID3v2 tag header.
pub const ID3V2_HEADER_SIZE: usize = 10;

/// Size of the ID3v1 trailer.
pub const ID3V1_SIZE: usize = 128;

/// Frame kinds that the walker acts on.
pub const KIND_TITLE: u8 = 0;
pub const KIND_ARTIST: u8 = 1;
pub const KIND_ALBUM: u8 = 2;
pub const KIND_PICTURE: u8 = 3;
pub const KIND_OTHER: u8 = 4;

/// Position just past a picture's description, which starts at `d` and ends
/// with one zero byte (encodings 0 and 3) or two (the others).
pub open spec fn desc_next(f: Seq<u8>, encoding: u8, d: int) -> Option<int> {
    if encoding == 0 || encoding == 3 {
        match zero_from(f, d) {
            Some(e) => Some(e + 1),
            None => None,
        }
    } else {
        match zero16_from(f, d) {
            Some(e) => Some(e + 2),
            None => None,
        }
    }
}

/// The image bytes from `next` to the end of the frame, where there are
/// some and no more than `max_cover`.
pub open spec fn image_after(f: Seq<u8>, next: Option<int>, max_cover: nat) -> Option<Seq<u8>> {
    match next {
        Some(n) => {
            let img = f.subrange(n, f.len() as int);
            if img.len() == 0 || img.len() > max_cover {
                None
            } else {
                Some(img)
            }
        },
        None => None,
    }
}

/// The picture of an ID3v2.3/2.4 APIC frame.
pub open spec fn apic_frame(f: Seq<u8>, max_cover: nat) -> Option<PictureView> {
    if f.len() < 4 {
        None
    } else {
        match zero_from(f, 1) {
            None => None,
            Some(me) => if me + 1 >= f.len() {
                None
            } else {
                match image_after(f, desc_next(f, f[0], me + 2), max_cover) {
                    Some(img) => Some(
                        PictureView {
                            mime: lossy_text(f.subrange(1, me)),
                            data: img,
                            pic_type: f[me + 1],
                        },
                    ),
                    None => None,
                }
            },
        }
    }
}

/// The MIME type that an ID3v2.2 image format code stands for.
pub open spec fn pic_mime(a: u8, b: u8, c: u8) -> Seq<char> {
    if a == 0x50 && b == 0x4E && c == 0x47 {
        "image/png"@
    } else if a == 0x4A && b == 0x50 && c == 0x47 {
        "image/jpeg"@
    } else if a == 0x47 && b == 0x49 && c == 0x46 {
        "image/gif"@
    } else {
        "image/unknown"@
    }
}

/// The picture of an ID3v2.2 PIC frame.
pub open spec fn pic_frame(f: Seq<u8>, max_cover: nat) -> Option<PictureView> {
    if f.len() < 5 {
        None
    } else {
        match image_after(f, desc_next(f, f[0], 5), max_cover) {
            Some(img) => Some(
                PictureView { mime: pic_mime(f[1], f[2], f[3]), data: img, pic_type: f[4] },
            ),
            None => None,
        }
    }
}

pub open spec fn id3_is(b: Seq<u8>, off: int, x: u8, y: u8, z: u8) -> bool {
    b[off] == x && b[off + 1] == y && b[off + 2] == z
}

pub open spec fn id4_is(b: Seq<u8>, off: int, w: u8, x: u8, y: u8, z: u8) -> bool {
    b[off] == w && b[off + 1] == x && b[off + 2] == y && b[off + 3] == z
}

/// The kind of the frame whose id starts at `off`: three bytes in ID3v2.2
/// (TT2, TP1, TAL, PIC), four in later versions (TIT2, TPE1, TALB, APIC).
pub open spec fn frame_kind(b: Seq<u8>, off: int, v22: bool) -> u8 {
    if v22 {
        if id3_is(b, off, 0x54, 0x54, 0x32) {
            KIND_TITLE
        } else if id3_is(b, off, 0x54, 0x50, 0x31) {
            KIND_ARTIST
        } else if id3_is(b, off, 0x54, 0x41, 0x4C) {
            KIND_ALBUM
        } else if id3_is(b, off, 0x50, 0x49, 0x43) {
            KIND_PICTURE
        } else {
            KIND_OTHER
        }
    } else {
        if id4_is(b, off, 0x54, 0x49, 0x54, 0x32) {
            KIND_TITLE
        } else if id4_is(b, off, 0x54, 0x50, 0x45, 0x31) {
            KIND_ARTIST
        } else if id4_is(b, off, 0x54, 0x41, 0x4C, 0x42) {
            KIND_ALBUM
        } else if id4_is(b, off, 0x41, 0x50, 0x49, 0x43) {
            KIND_PICTURE
        } else {
            KIND_OTHER
        }
    }
}

/// The record once one frame of the given kind and contents is applied.
pub open spec fn apply_frame(
    m: MetadataView,
    kind: u8,
    f: Seq<u8>,
    max_text: nat,
    max_cover: nat,
    v22: bool,
) -> MetadataView {
    if kind == KIND_TITLE {
        MetadataView { title: fill(m.title, text_frame(f, max_text)), ..m }
    } else if kind == KIND_ARTIST {
        MetadataView { artist: fill(m.artist, text_frame(f, max_text)), ..m }
    } else if kind == KIND_ALBUM {
        MetadataView { album: fill(m.album, text_frame(f, max_text)), ..m }
    } else if kind == KIND_PICTURE {
        let p = if v22 {
            pic_frame(f, max_cover)
        } else {
            apic_frame(f, max_cover)
        };
        MetadataView { cover: offer(m.cover, p), ..m }
    } else {
        m
    }
}

/// The record once the frames from `off` up to `end` are applied. A zero
/// id, a zero size or a frame running past `end` ends the walk; a frame
/// with compression, encryption or grouping is passed over.
#[verifier::opaque]
pub open spec fn id3v2_walk(
    b: Seq<u8>,
    version: u8,
    off: int,
    end: int,
    max_text: nat,
    max_cover: nat,
    m: MetadataView,
) -> MetadataView
    decreases end - off,
{
    if off < 0 || off >= end || end > b.len() {
        m
    } else if version == 2 {
        if off + 6 > end || id3_is(b, off, 0, 0, 0) {
            m
        } else {
            let size = be24_at(b, off + 3);
            let d = off + 6;
            if size == 0 || d + size > end {
                m
            } else {
                id3v2_walk(
                    b,
                    version,
                    d + size,
                    end,
                    max_text,
                    max_cover,
                    apply_frame(
                        m,
                        frame_kind(b, off, true),
                        b.subrange(d, d + size),
                        max_text,
                        max_cover,
                        true,
                    ),
                )
            }
        }
    } else {
        if off + 10 > end || id4_is(b, off, 0, 0, 0, 0) {
            m
        } else {
            let size = if version == 4 {
                synchsafe_at(b, off + 4)
            } else {
                be32_at(b, off + 4)
            };
            let d = off + 10;
            if size == 0 || d + size > end {
                m
            } else if b[off + 9] % 16 != 0 {
                id3v2_walk(b, version, d + size, end, max_text, max_cover, m)
            } else {
                id3v2_walk(
                    b,
                    version,
                    d + size,
                    end,
                    max_text,
                    max_cover,
                    apply_frame(
                        m,
                        frame_kind(b, off, false),
                        b.subrange(d, d + size),
                        max_text,
                        max_cover,
                        false,
                    ),
                )
            }
        }
    }
}

/// Whether the buffer starts with an ID3v2 tag header.
pub open spec fn has_id3v2(b: Seq<u8>) -> bool {
    b.len() >= 10 && id3_is(b, 0, 0x49, 0x44, 0x33)
}

/// The size of the ID3v2 tag body, from the header.
pub open spec fn id3v2_size(b: Seq<u8>) -> int {
    synchsafe_at(b, 6)
}

/// Where the first frame starts: after the header and, where the flag
/// says so in versions 3 and 4, after the extended header.
pub open spec fn id3v2_first_frame(b: Seq<u8>) -> int {
    if (b[5] / 64) % 2 == 1 && b.len() >= 14 && b[3] >= 3 {
        10 + if b[3] == 4 {
            synchsafe_at(b, 10)
        } else {
            be32_at(b, 10)
        }
    } else {
        10
    }
}

/// The record once the ID3v2 tag at the start of `b` is applied.
pub open spec fn id3v2_tag(b: Seq<u8>, max_text: nat, max_cover: nat, m: MetadataView) -> MetadataView {
    if b.len() < 10 {
        m
    } else {
        let off = id3v2_first_frame(b);
        let end = if off + id3v2_size(b) > b.len() {
            b.len() as int
        } else {
            off + id3v2_size(b)
        };
        id3v2_walk(b, b[3], off, end, max_text, max_cover, m)
    }
}

/// The Latin-1 text of the 30-byte ID3v1 field at `s`, trailing NUL and
/// space bytes removed.
pub open spec fn v1_field(b: Seq<u8>, s: int) -> Seq<char> {
    let f = b.subrange(s, s + 30);
    latin1(f.take(trimmed_len(f) as int))
}

/// The record once an ID3v1 trailer, where `b` ends with one, fills the
/// text fields still unset.
pub open spec fn id3v1(b: Seq<u8>, m: MetadataView) -> MetadataView {
    if b.len() < 128 {
        m
    } else {
        let s = b.len() - 128;
        if !id3_is(b, s, 0x54, 0x41, 0x47) {
            m
        } else {
            MetadataView {
                title: fill(m.title, Some(v1_field(b, s + 3))),
                artist: fill(m.artist, Some(v1_field(b, s + 33))),
                album: fill(m.album, Some(v1_field(b, s + 63))),
                ..m
            }
        }
    }
}

/// The bytes from `next` to the end of the frame, where there are some and
/// no more than `max_cover_bytes`.
fn image_bytes(f: &[u8], next: Option<usize>, max_cover_bytes: usize) -> (r: Option<Vec<u8>>)
    requires
        next matches Some(n) ==> n <= f@.len(),
    ensures
        match r {
            Some(v) => image_after(
                f@,
                match next {
                    Some(n) => Some(n as int),
                    None => None,
                },
                max_cover_bytes as nat,
            ) == Some(v@),
            None => image_after(
                f@,
                match next {
                    Some(n) => Some(n as int),
                    None => None,
                },
                max_cover_bytes as nat,
            ) is None,
        },
{
    match next {
        Some(n) => {
            let len = f.len() - n;
            if len == 0 || len > max_cover_bytes {
                None
            } else {
                Some(slice_to_vec(&f[n..f.len()]))
            }
        },
        None => None,
    }
}

/// Position just past a picture's description starting at `d`.
fn desc_end(f: &[u8], encoding: u8, d: usize) -> (r: Option<usize>)
    requires
        d <= f@.len(),
    ensures
        match r {
            Some(n) => desc_next(f@, encoding, d as int) == Some(n as int) && n <= f@.len(),
            None => desc_next(f@, encoding, d as int) is None,
        },
{
    if encoding == 0 || encoding == 3 {
        match find_zero(f, d) {
            Some(e) => {
                proof {
                    lemma_zero_from_bounds(f@, d as int);
                    assert(zero_from(f@, d as int) == Some(e as int));
                    assert(f@.len() == f.len());
                }
                Some(e + 1)
            },
            None => None,
        }
    } else {
        match find_zero_utf16(f, d) {
            Some(e) => {
                proof {
                    lemma_zero16_from_bounds(f@, d as int);
                    assert(zero16_from(f@, d as int) == Some(e as int));
                    assert(f@.len() == f.len());
                }
                Some(e + 2)
            },
            None => None,
        }
    }
}

proof fn lemma_zero_from_bounds(b: Seq<u8>, i: int)
    ensures
        zero_from(b, i) is Some ==> i <= zero_from(b, i)->0 < b.len(),
    decreases b.len() - i,
{
    if 0 <= i < b.len() && b[i] != 0 {
        lemma_zero_from_bounds(b, i + 1);
    }
}

proof fn lemma_zero16_from_bounds(b: Seq<u8>, i: int)
    ensures
        zero16_from(b, i) is Some ==> i <= zero16_from(b, i)->0 && zero16_from(b, i)->0 + 1 < b.len(),
    decreases b.len() - i,
{
    if 0 <= i && i + 1 < b.len() && !(b[i] == 0 && b[i + 1] == 0) {
        lemma_zero16_from_bounds(b, i + 2);
    }
}

/// The picture of an ID3v2.3/2.4 APIC frame: encoding, NUL-terminated MIME
/// type, picture type, description, then the image.
pub fn parse_apic_frame(f: &[u8], max_cover_bytes: usize) -> (r: Option<Picture>)
    ensures
        match r {
            Some(p) => apic_frame(f@, max_cover_bytes as nat) == Some(p@),
            None => apic_frame(f@, max_cover_bytes as nat) is None,
        },
{
    if f.len() < 4 {
        return None;
    }
    let encoding = f[0];
    let mime_end = match find_zero(f, 1) {
        Some(e) => e,
        None => {
            return None;
        },
    };
    proof { lemma_zero_from_bounds(f@, 1); }
    if mime_end + 1 >= f.len() {
        return None;
    }
    let pic_type = f[mime_end + 1];
    let next = desc_end(f, encoding, mime_end + 2);
    match image_bytes(f, next, max_cover_bytes) {
        Some(data) => {
            let mime = lossy_string(&f[1..mime_end]);
            Some(Picture { mime, data, pic_type })
        },
        None => None,
    }
}

/// The picture of an ID3v2.2 PIC frame, whose MIME type is a three-letter
/// image format code.
pub fn parse_pic_frame(f: &[u8], max_cover_bytes: usize) -> (r: Option<Picture>)
    ensures
        match r {
            Some(p) => pic_frame(f@, max_cover_bytes as nat) == Some(p@),
            None => pic_frame(f@, max_cover_bytes as nat) is None,
        },
{
    if f.len() < 5 {
        return None;
    }
    let encoding = f[0];
    let pic_type = f[4];
    let next = desc_end(f, encoding, 5);
    match image_bytes(f, next, max_cover_bytes) {
        Some(data) => {
            let mime = if f[1] == 0x50 && f[2] == 0x4E && f[3] == 0x47 {
                "image/png".to_owned()
            } else if f[1] == 0x4A && f[2] == 0x50 && f[3] == 0x47 {
                "image/jpeg".to_owned()
            } else if f[1] == 0x47 && f[2] == 0x49 && f[3] == 0x46 {
                "image/gif".to_owned()
            } else {
                "image/unknown".to_owned()
            };
            Some(Picture { mime, data, pic_type })
        },
        None => None,
    }
}

/// The kind of the frame whose id starts at `off`.
fn frame_kind_at(b: &[u8], off: usize, v22: bool) -> (r: u8)
    requires
        off + 4 <= b@.len(),
    ensures
        r == frame_kind(b@, off as int, v22),
{
    let (w, x, y, z) = (b[off], b[off + 1], b[off + 2], b[off + 3]);
    if v22 {
        if w == 0x54 && x == 0x54 && y == 0x32 {
            KIND_TITLE
        } else if w == 0x54 && x == 0x50 && y == 0x31 {
            KIND_ARTIST
        } else if w == 0x54 && x == 0x41 && y == 0x4C {
            KIND_ALBUM
        } else if w == 0x50 && x == 0x49 && y == 0x43 {
            KIND_PICTURE
        } else {
            KIND_OTHER
        }
    } else {
        if w == 0x54 && x == 0x49 && y == 0x54 && z == 0x32 {
            KIND_TITLE
        } else if w == 0x54 && x == 0x50 && y == 0x45 && z == 0x31 {
            KIND_ARTIST
        } else if w == 0x54 && x == 0x41 && y == 0x4C && z == 0x42 {
            KIND_ALBUM
        } else if w == 0x41 && x == 0x50 && y == 0x49 && z == 0x43 {
            KIND_PICTURE
        } else {
            KIND_OTHER
        }
    }
}

/// Applies one frame of the given kind to the record.
fn apply_id3_frame(
    meta: &mut Metadata,
    kind: u8,
    f: &[u8],
    max_text_bytes: usize,
    max_cover_bytes: usize,
    v22: bool,
)
    ensures
        final(meta)@ == apply_frame(
            old(meta)@,
            kind,
            f@,
            max_text_bytes as nat,
            max_cover_bytes as nat,
            v22,
        ),
{
    if kind == KIND_TITLE {
        if meta.title.is_none() {
            let v = parse_id3_text_frame(f, max_text_bytes);
            fill_text(&mut meta.title, v);
        }
    } else if kind == KIND_ARTIST {
        if meta.artist.is_none() {
            let v = parse_id3_text_frame(f, max_text_bytes);
            fill_text(&mut meta.artist, v);
        }
    } else if kind == KIND_ALBUM {
        if meta.album.is_none() {
            let v = parse_id3_text_frame(f, max_text_bytes);
            fill_text(&mut meta.album, v);
        }
    } else if kind == KIND_PICTURE {
        let p = if v22 {
            parse_pic_frame(f, max_cover_bytes)
        } else {
            parse_apic_frame(f, max_cover_bytes)
        };
        offer_picture(&mut meta.cover, p);
    }
}

/// Applies the ID3v2 tag at the start of `bytes`: its text frames fill the
/// unset text fields, its pictures are offered to the cover.
pub fn parse_id3v2(bytes: &[u8], max_text_bytes: usize, max_cover_bytes: usize, meta: &mut Metadata)
    ensures
        final(meta)@ == id3v2_tag(bytes@, max_text_bytes as nat, max_cover_bytes as nat, old(meta)@),
{
    proof {
        reveal(id3v2_walk);
    }
    let len = bytes.len();
    if len < ID3V2_HEADER_SIZE {
        return;
    }
    let version = bytes[3];
    let flags = bytes[5];
    let size = synchsafe_u32(bytes, 6) as usize;
    let mut offset: usize = ID3V2_HEADER_SIZE;
    if (flags / 64) % 2 == 1 && len >= 14 && version >= 3 {
        let ext = if version == 4 {
            synchsafe_u32(bytes, 10)
        } else {
            be_u32(bytes, 10)
        } as usize;
        if ext > len - 10 {
            return;
        }
        offset = 10 + ext;
    }
    assert(offset == id3v2_first_frame(bytes@));
    let end: usize = if size > len - offset {
        len
    } else {
        offset + size
    };
    let ghost m0 = meta@;
    let ghost off0 = offset as int;
    let ghost mt = max_text_bytes as nat;
    let ghost mc = max_cover_bytes as nat;
    while offset < end
        invariant
            offset <= end <= bytes@.len(),
            bytes@.len() >= 10,
            version == bytes@[3],
            mt == max_text_bytes as nat,
            mc == max_cover_bytes as nat,
            id3v2_walk(bytes@, version, off0, end as int, mt, mc, m0) == id3v2_walk(
                bytes@,
                version,
                offset as int,
                end as int,
                mt,
                mc,
                meta@,
            ),
        decreases end - offset,
    {
        let next = id3v2_step(bytes, version, offset, end, max_text_bytes, max_cover_bytes, meta);
        offset = next;
    }
    proof {
        reveal(id3v2_walk);
    }
}

/// Handles the frame at `offset` and says where the walk goes on; `end`
/// where it stops.
fn id3v2_step(
    bytes: &[u8],
    version: u8,
    offset: usize,
    end: usize,
    max_text_bytes: usize,
    max_cover_bytes: usize,
    meta: &mut Metadata,
) -> (next: usize)
    requires
        offset < end <= bytes@.len(),
    ensures
        offset < next <= end,
        id3v2_walk(
            bytes@,
            version,
            offset as int,
            end as int,
            max_text_bytes as nat,
            max_cover_bytes as nat,
            old(meta)@,
        ) == id3v2_walk(
            bytes@,
            version,
            next as int,
            end as int,
            max_text_bytes as nat,
            max_cover_bytes as nat,
            final(meta)@,
        ),
{
    proof {
        reveal(id3v2_walk);
    }
    let v22 = version == 2;
    let header: usize = if v22 {
        6
    } else {
        10
    };
    if end - offset < header {
        return end;
    }
    if bytes[offset] == 0 && bytes[offset + 1] == 0 && bytes[offset + 2] == 0 && (v22 || bytes[offset
        + 3] == 0) {
        return end;
    }
    let fsize = if v22 {
        be_u24(bytes, offset + 3)
    } else if version == 4 {
        synchsafe_u32(bytes, offset + 4)
    } else {
        be_u32(bytes, offset + 4)
    } as usize;
    let d = offset + header;
    if fsize == 0 || fsize > end - d {
        return end;
    }
    if !v22 && bytes[offset + 9] % 16 != 0 {
        return d + fsize;
    }
    let kind = frame_kind_at(bytes, offset, v22);
    apply_id3_frame(meta, kind, &bytes[d..d + fsize], max_text_bytes, max_cover_bytes, v22);
    d + fsize
}

/// The text of the 30-byte ID3v1 field at `s`.
fn v1_field_chars(b: &[u8], s: usize) -> (r: Vec<char>)
    requires
        s + 30 <= b@.len(),
    ensures
        r@ == v1_field(b@, s as int),
{
    assert(b@.len() == b.len());
    let n = trim_trailing_zeros(b, s, s + 30);
    assert(b@.subrange(s as int, s + n) =~= b@.subrange(s as int, s + 30).take(n as int));
    latin1_chars(b, s, s + n)
}

/// Fills the text fields still unset from an ID3v1 trailer, where the
/// buffer ends with one.
pub fn parse_id3v1(bytes: &[u8], meta: &mut Metadata)
    ensures
        final(meta)@ == id3v1(bytes@, old(meta)@),
{
    if bytes.len() < ID3V1_SIZE {
        return;
    }
    let s = bytes.len() - ID3V1_SIZE;
    if !(bytes[s] == 0x54 && bytes[s + 1] == 0x41 && bytes[s + 2] == 0x47) {
        return;
    }
    if meta.title.is_none() {
        let v = v1_field_chars(bytes, s + 3);
        fill_text(&mut meta.title, Some(v));
    }
    if meta.artist.is_none() {
        let v = v1_field_chars(bytes, s + 33);
        fill_text(&mut meta.artist, Some(v));
    }
    if meta.album.is_none() {
        let v = v1_field_chars(bytes, s + 63);
        fill_text(&mut meta.album, Some(v));
    }
}

} // verus!
