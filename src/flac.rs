use vstd::prelude::*;
use vstd::slice::slice_to_vec;

use crate::bytes::{be24_at, be32_at, be_u24, be_u32, byte_from, find_byte, le32_at, le_u32};
use crate::record::{
    fill, fill_text, offer, offer_picture, AudioInfo, Metadata, MetadataView, Picture, PictureView,
};
use crate::text::{decode_utf8_text, lossy_string, lossy_text, utf8_text};

verus! {

/// Block types that the walker acts on.
pub const BLOCK_STREAMINFO: u8 = 0;
pub const BLOCK_VORBIS_COMMENT: u8 = 4;
pub const BLOCK_PICTURE: u8 = 6;

/// Whether the buffer starts with the FLAC marker `fLaC`.
pub open spec fn is_flac(b: Seq<u8>) -> bool {
    b.len() >= 4 && b[0] == 0x66 && b[1] == 0x4C && b[2] == 0x61 && b[3] == 0x43
}

/// The audio information once a STREAMINFO block is read: a 20-bit
/// sample rate from byte 10, a 3-bit channel count less one and a 5-bit
/// bit depth less one after it. Each value is taken only where it is sane.
pub open spec fn streaminfo(blk: Seq<u8>, a: AudioInfo) -> AudioInfo {
    if blk.len() < 18 {
        a
    } else {
        let sr = blk[10] as int * 0x1000 + blk[11] as int * 0x10 + (blk[12] / 16) as int;
        let ch = ((blk[12] / 2) % 8) as int + 1;
        let bd = (blk[12] % 2) as int * 16 + (blk[13] / 16) as int + 1;
        AudioInfo {
            sample_rate: if sr > 0 {
                Some(sr as u32)
            } else {
                a.sample_rate
            },
            bit_depth: if 1 <= bd <= 32 {
                Some(bd as u16)
            } else {
                a.bit_depth
            },
            channels: if 1 <= ch <= 8 {
                Some(ch as u8)
            } else {
                a.channels
            },
            ..a
        }
    }
}

pub open spec fn ascii_upper(c: u8) -> u8 {
    if 0x61 <= c <= 0x7A {
        (c - 32) as u8
    } else {
        c
    }
}

/// Whether `key` equals `name` (upper case) but for the case of ASCII letters.
pub open spec fn key_is(key: Seq<u8>, name: Seq<u8>) -> bool {
    key.len() == name.len() && forall|i: int| 0 <= i < key.len() ==> ascii_upper(key[i]) == name[i]
}

pub open spec fn title_key() -> Seq<u8> {
    seq![0x54, 0x49, 0x54, 0x4C, 0x45]
}

pub open spec fn artist_key() -> Seq<u8> {
    seq![0x41, 0x52, 0x54, 0x49, 0x53, 0x54]
}

pub open spec fn album_key() -> Seq<u8> {
    seq![0x41, 0x4C, 0x42, 0x55, 0x4D]
}

/// The record once one `KEY=VALUE` comment is applied.
pub open spec fn apply_comment(m: MetadataView, entry: Seq<u8>) -> MetadataView {
    match byte_from(entry, 0, 0x3D) {
        None => m,
        Some(e) => {
            let key = entry.take(e);
            let value = utf8_text(entry.subrange(e + 1, entry.len() as int));
            if key_is(key, title_key()) {
                MetadataView { title: fill(m.title, value), ..m }
            } else if key_is(key, artist_key()) {
                MetadataView { artist: fill(m.artist, value), ..m }
            } else if key_is(key, album_key()) {
                MetadataView { album: fill(m.album, value), ..m }
            } else {
                m
            }
        },
    }
}

/// The record once at most `count` length-prefixed comments from `off` are
/// applied, each cut to `max_text` bytes; a comment running past the block
/// ends the walk.
pub open spec fn vorbis_entries(
    d: Seq<u8>,
    off: int,
    count: int,
    max_text: nat,
    m: MetadataView,
) -> MetadataView
    decreases count,
{
    if count <= 0 || off < 0 || off + 4 > d.len() {
        m
    } else {
        let len = le32_at(d, off);
        let s = off + 4;
        if s + len > d.len() {
            m
        } else {
            let cut = if len > max_text {
                max_text as int
            } else {
                len
            };
            vorbis_entries(d, s + len, count - 1, max_text, apply_comment(m, d.subrange(s, s + cut)))
        }
    }
}

/// The record once a VORBIS_COMMENT block is applied: the vendor string is
/// passed over, then the comments.
pub open spec fn vorbis_comment(d: Seq<u8>, max_text: nat, m: MetadataView) -> MetadataView {
    if d.len() < 8 {
        m
    } else {
        let off = 4 + le32_at(d, 0);
        if off + 4 > d.len() {
            m
        } else {
            vorbis_entries(d, off + 4, le32_at(d, off), max_text, m)
        }
    }
}

/// The picture of a FLAC PICTURE block.
pub open spec fn flac_picture(d: Seq<u8>, max_cover: nat) -> Option<PictureView> {
    if d.len() < 32 {
        None
    } else {
        let raw = be32_at(d, 0);
        let pic_type: u8 = if raw > 255 {
            0
        } else {
            raw as u8
        };
        let ml = be32_at(d, 4);
        if 8 + ml + 4 > d.len() {
            None
        } else {
            let o1 = 8 + ml;
            let dl = be32_at(d, o1);
            if o1 + 4 + dl + 16 + 4 > d.len() {
                None
            } else {
                let o3 = o1 + 4 + dl + 16;
                let pl = be32_at(d, o3);
                let o4 = o3 + 4;
                if o4 + pl > d.len() || pl > max_cover || pl == 0 {
                    None
                } else {
                    Some(
                        PictureView {
                            mime: lossy_text(d.subrange(8, o1)),
                            data: d.subrange(o4, o4 + pl),
                            pic_type,
                        },
                    )
                }
            }
        }
    }
}

/// The record once one metadata block of the given type is applied.
pub open spec fn apply_block(
    m: MetadataView,
    block_type: u8,
    blk: Seq<u8>,
    max_text: nat,
    max_cover: nat,
) -> MetadataView {
    if block_type == BLOCK_STREAMINFO {
        MetadataView { audio: streaminfo(blk, m.audio), ..m }
    } else if block_type == BLOCK_VORBIS_COMMENT {
        vorbis_comment(blk, max_text, m)
    } else if block_type == BLOCK_PICTURE {
        MetadataView { cover: offer(m.cover, flac_picture(blk, max_cover)), ..m }
    } else {
        m
    }
}

/// The record once the metadata blocks from `off` are applied, up to the
/// one flagged last, the end of the buffer, or a block running past it.
#[verifier::opaque]
pub open spec fn flac_walk(
    b: Seq<u8>,
    off: int,
    max_text: nat,
    max_cover: nat,
    m: MetadataView,
) -> MetadataView
    decreases b.len() - off,
{
    if off < 0 || off + 4 > b.len() {
        m
    } else {
        let len = be24_at(b, off + 1);
        let s = off + 4;
        if s + len > b.len() {
            m
        } else {
            let m2 = apply_block(m, b[off] % 128, b.subrange(s, s + len), max_text, max_cover);
            if b[off] >= 128 {
                m2
            } else {
                flac_walk(b, s + len, max_text, max_cover, m2)
            }
        }
    }
}

/// The record once the FLAC metadata of `b` is applied.
pub open spec fn flac(b: Seq<u8>, max_text: nat, max_cover: nat, m: MetadataView) -> MetadataView {
    if is_flac(b) {
        flac_walk(b, 4, max_text, max_cover, m)
    } else {
        m
    }
}

/// Reads a STREAMINFO block into the audio information.
pub fn parse_flac_streaminfo(blk: &[u8], audio: &mut AudioInfo)
    ensures
        *final(audio) == streaminfo(blk@, *old(audio)),
{
    if blk.len() < 18 {
        return;
    }
    let sample_rate: u32 = blk[10] as u32 * 0x1000 + blk[11] as u32 * 0x10 + (blk[12] / 16) as u32;
    let channels: u8 = (blk[12] / 2) % 8 + 1;
    let bit_depth: u16 = (blk[12] % 2) as u16 * 16 + (blk[13] / 16) as u16 + 1;
    if sample_rate > 0 {
        audio.sample_rate = Some(sample_rate);
    }
    if bit_depth > 0 && bit_depth <= 32 {
        audio.bit_depth = Some(bit_depth);
    }
    if channels > 0 && channels <= 8 {
        audio.channels = Some(channels);
    }
}

fn key_matches(b: &[u8], from: usize, to: usize, name: &[u8]) -> (r: bool)
    requires
        from <= to <= b@.len(),
    ensures
        r == key_is(b@.subrange(from as int, to as int), name@),
{
    if to - from != name.len() {
        return false;
    }
    let mut i: usize = 0;
    while i < name.len()
        invariant
            i <= name@.len() == to - from,
            to <= b@.len(),
            forall|j: int|
                0 <= j < i ==> ascii_upper(#[trigger] b@.subrange(from as int, to as int)[j])
                    == name@[j],
        decreases name@.len() - i,
    {
        let c = b[from + i];
        let up: u8 = if 0x61 <= c && c <= 0x7A {
            c - 32
        } else {
            c
        };
        if up != name[i] {
            assert(b@.subrange(from as int, to as int)[i as int] == c);
            return false;
        }
        i = i + 1;
    }
    true
}

/// Applies one `KEY=VALUE` comment: TITLE, ARTIST and ALBUM, in any case,
/// fill the matching unset field with the trimmed UTF-8 value.
fn apply_vorbis_entry(entry: &[u8], meta: &mut Metadata)
    ensures
        final(meta)@ == apply_comment(old(meta)@, entry@),
{
    let eq = match find_byte(entry, 0x3D) {
        Some(e) => e,
        None => {
            return;
        },
    };
    assert(entry@.subrange(0, eq as int) =~= entry@.take(eq as int));
    assert(entry@.len() == entry.len());
    let value = &entry[eq + 1..entry.len()];
    let title: [u8; 5] = [0x54, 0x49, 0x54, 0x4C, 0x45];
    let artist: [u8; 6] = [0x41, 0x52, 0x54, 0x49, 0x53, 0x54];
    let album: [u8; 5] = [0x41, 0x4C, 0x42, 0x55, 0x4D];
    assert(title@ == title_key());
    assert(artist@ == artist_key());
    assert(album@ == album_key());
    if key_matches(entry, 0, eq, title.as_slice()) {
        if meta.title.is_none() {
            let v = decode_utf8_text(value);
            fill_text(&mut meta.title, v);
        }
    } else if key_matches(entry, 0, eq, artist.as_slice()) {
        if meta.artist.is_none() {
            let v = decode_utf8_text(value);
            fill_text(&mut meta.artist, v);
        }
    } else if key_matches(entry, 0, eq, album.as_slice()) {
        if meta.album.is_none() {
            let v = decode_utf8_text(value);
            fill_text(&mut meta.album, v);
        }
    }
}

/// Applies a VORBIS_COMMENT block: entries longer than `max_text_bytes`
/// are cut before the `=` is looked for, and the first value of each key
/// wins.
pub fn parse_vorbis_comment(d: &[u8], max_text_bytes: usize, meta: &mut Metadata)
    ensures
        final(meta)@ == vorbis_comment(d@, max_text_bytes as nat, old(meta)@),
{
    let len = d.len();
    if len < 8 {
        return;
    }
    let vendor = le_u32(d, 0) as usize;
    if vendor > len - 8 {
        return;
    }
    let mut offset: usize = 4 + vendor;
    let count = le_u32(d, offset);
    offset = offset + 4;
    let mut k: u32 = 0;
    let ghost mt = max_text_bytes as nat;
    while k < count
        invariant
            k <= count,
            offset <= len == d@.len(),
            mt == max_text_bytes as nat,
            vorbis_comment(d@, mt, old(meta)@) == vorbis_entries(
                d@,
                offset as int,
                count - k,
                mt,
                meta@,
            ),
        decreases count - k,
    {
        if len - offset < 4 {
            return;
        }
        let n = le_u32(d, offset) as usize;
        let s = offset + 4;
        if n > len - s {
            return;
        }
        let cut = if n > max_text_bytes {
            max_text_bytes
        } else {
            n
        };
        apply_vorbis_entry(&d[s..s + cut], meta);
        offset = s + n;
        k = k + 1;
    }
}

/// The picture of a FLAC PICTURE block: type, MIME type, description,
/// four dimension fields, then the image.
pub fn parse_flac_picture(d: &[u8], max_cover_bytes: usize) -> (r: Option<Picture>)
    ensures
        match r {
            Some(p) => flac_picture(d@, max_cover_bytes as nat) == Some(p@),
            None => flac_picture(d@, max_cover_bytes as nat) is None,
        },
{
    let len = d.len();
    if len < 32 {
        return None;
    }
    let raw = be_u32(d, 0);
    let pic_type: u8 = if raw > 255 {
        0
    } else {
        raw as u8
    };
    let ml = be_u32(d, 4) as usize;
    if ml > len - 12 {
        return None;
    }
    let o1 = 8 + ml;
    let dl = be_u32(d, o1) as usize;
    if len - o1 < 24 || dl > len - o1 - 24 {
        return None;
    }
    let o3 = o1 + 4 + dl + 16;
    let pl = be_u32(d, o3) as usize;
    let o4 = o3 + 4;
    if pl > len - o4 || pl > max_cover_bytes || pl == 0 {
        return None;
    }
    let mime = lossy_string(&d[8..o1]);
    let data = slice_to_vec(&d[o4..o4 + pl]);
    Some(Picture { mime, data, pic_type })
}

/// Applies one metadata block of the given type.
fn apply_flac_block(
    meta: &mut Metadata,
    block_type: u8,
    blk: &[u8],
    max_text_bytes: usize,
    max_cover_bytes: usize,
)
    ensures
        final(meta)@ == apply_block(
            old(meta)@,
            block_type,
            blk@,
            max_text_bytes as nat,
            max_cover_bytes as nat,
        ),
{
    if block_type == BLOCK_STREAMINFO {
        parse_flac_streaminfo(blk, &mut meta.audio);
    } else if block_type == BLOCK_VORBIS_COMMENT {
        parse_vorbis_comment(blk, max_text_bytes, meta);
    } else if block_type == BLOCK_PICTURE {
        let p = parse_flac_picture(blk, max_cover_bytes);
        offer_picture(&mut meta.cover, p);
    }
}

/// Applies the metadata blocks of a FLAC buffer, from the one after the
/// marker up to the one flagged last.
pub fn parse_flac(bytes: &[u8], max_text_bytes: usize, max_cover_bytes: usize, meta: &mut Metadata)
    ensures
        final(meta)@ == flac(bytes@, max_text_bytes as nat, max_cover_bytes as nat, old(meta)@),
{
    proof {
        reveal(flac_walk);
    }
    let len = bytes.len();
    if !(len >= 4 && bytes[0] == 0x66 && bytes[1] == 0x4C && bytes[2] == 0x61 && bytes[3] == 0x43) {
        return;
    }
    let mut offset: usize = 4;
    let ghost mt = max_text_bytes as nat;
    let ghost mc = max_cover_bytes as nat;
    while offset <= len && len - offset >= 4
        invariant
            4 <= offset,
            len == bytes@.len(),
            mt == max_text_bytes as nat,
            mc == max_cover_bytes as nat,
            flac(bytes@, mt, mc, old(meta)@) == flac_walk(bytes@, offset as int, mt, mc, meta@),
        decreases len - offset,
    {
        proof {
            reveal(flac_walk);
        }
        let header = bytes[offset];
        let n = be_u24(bytes, offset + 1) as usize;
        let s = offset + 4;
        if n > len - s {
            return;
        }
        apply_flac_block(meta, header % 128, &bytes[s..s + n], max_text_bytes, max_cover_bytes);
        if header >= 128 {
            return;
        }
        offset = s + n;
    }
}

} // verus!
