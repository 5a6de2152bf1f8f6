//! Reads descriptive metadata (title, artist, album, cover art) and the
//! basic characteristics of the audio stream from the bytes of an MP3 or a
//! FLAC file. Malformed input never fails a decode: what cannot be read is
//! left absent.
use vstd::prelude::*;

pub mod bytes;
pub mod text;
pub mod record;
pub mod id3;
pub mod mpeg;
pub mod flac;
pub mod guarantees;

use crate::bytes::synchsafe_u32;
use crate::flac::{flac, is_flac, parse_flac};
use crate::id3::{
    has_id3v2, id3v1, id3v2_size, id3v2_tag, parse_id3v1, parse_id3v2, ID3V2_HEADER_SIZE,
};
use crate::mpeg::{mpeg_audio, parse_mpeg_frame_header};
pub use crate::record::{keep_new, AudioInfo, Metadata, MetadataView, Picture, PictureView};
use crate::record::empty_view;

verus! {

/// Text longer than this many bytes is cut when no limit is given.
pub const MAX_TEXT_BYTES: usize = 16 * 1024;

/// Pictures larger than this many bytes are dropped when no limit is given.
pub const MAX_COVER_BYTES: usize = 4 * 1024 * 1024;

/// Where the scan for an MPEG frame header starts: just after the ID3v2
/// tag, if there is one.
pub open spec fn mpeg_start(b: Seq<u8>) -> int {
    if has_id3v2(b) {
        10 + id3v2_size(b)
    } else {
        0
    }
}

/// The record once an MP3 buffer is read: its ID3v2 tag, then the first
/// MPEG frame header after it, then an ID3v1 trailer for what is unset.
pub open spec fn mp3(b: Seq<u8>, max_text: nat, max_cover: nat, m: MetadataView) -> MetadataView {
    let tagged = if has_id3v2(b) {
        id3v2_tag(b, max_text, max_cover, m)
    } else {
        m
    };
    id3v1(b, MetadataView { audio: mpeg_audio(b, mpeg_start(b), tagged.audio), ..tagged })
}

/// What a decode of `b` finds: a buffer that starts with the FLAC marker
/// is read as FLAC, any other as MP3.
pub open spec fn decode(b: Seq<u8>, max_text: nat, max_cover: nat) -> MetadataView {
    if is_flac(b) {
        flac(b, max_text, max_cover, empty_view())
    } else {
        mp3(b, max_text, max_cover, empty_view())
    }
}

/// Reads an MP3 buffer into the record.
pub fn parse_mp3(bytes: &[u8], max_text_bytes: usize, max_cover_bytes: usize, meta: &mut Metadata)
    ensures
        final(meta)@ == mp3(bytes@, max_text_bytes as nat, max_cover_bytes as nat, old(meta)@),
{
    let mut start: usize = 0;
    if bytes.len() >= ID3V2_HEADER_SIZE && bytes[0] == 0x49 && bytes[1] == 0x44 && bytes[2] == 0x33 {
        let tag_size = synchsafe_u32(bytes, 6) as usize;
        start = ID3V2_HEADER_SIZE + tag_size;
        parse_id3v2(bytes, max_text_bytes, max_cover_bytes, meta);
    }
    parse_mpeg_frame_header(bytes, start, &mut meta.audio);
    parse_id3v1(bytes, meta);
}

/// Decodes the metadata of one buffer with the default limits.
pub fn parse_metadata(bytes: &[u8]) -> (r: Metadata)
    ensures
        r@ == decode(bytes@, MAX_TEXT_BYTES as nat, MAX_COVER_BYTES as nat),
{
    parse_metadata_with_limits(bytes, MAX_TEXT_BYTES, MAX_COVER_BYTES)
}

/// Decodes the metadata of one buffer: text is cut to `max_text_bytes`
/// bytes before it is decoded, and pictures over `max_cover_bytes` bytes
/// are dropped.
pub fn parse_metadata_with_limits(bytes: &[u8], max_text_bytes: usize, max_cover_bytes: usize) -> (r:
    Metadata)
    ensures
        r@ == decode(bytes@, max_text_bytes as nat, max_cover_bytes as nat),
{
    let mut meta = Metadata::new();
    if bytes.len() >= 4 && bytes[0] == 0x66 && bytes[1] == 0x4C && bytes[2] == 0x61 && bytes[3]
        == 0x43 {
        parse_flac(bytes, max_text_bytes, max_cover_bytes, &mut meta);
    } else {
        parse_mp3(bytes, max_text_bytes, max_cover_bytes, &mut meta);
    }
    meta
}

/// Decodes each buffer on its own; an element that holds no buffer gives
/// an absent record at its place.
pub fn parse_metadata_batch(
    buffers: &Vec<Option<Vec<u8>>>,
    max_text_bytes: usize,
    max_cover_bytes: usize,
) -> (r: Vec<Option<Metadata>>)
    ensures
        r@.len() == buffers@.len(),
        forall|i: int|
            0 <= i < buffers@.len() ==> match #[trigger] buffers@[i] {
                Some(b) => r@[i] is Some && r@[i]->0@ == decode(
                    b@,
                    max_text_bytes as nat,
                    max_cover_bytes as nat,
                ),
                None => r@[i] is None,
            },
{
    let mut out: Vec<Option<Metadata>> = Vec::new();
    let mut i: usize = 0;
    while i < buffers.len()
        invariant
            i <= buffers@.len(),
            out@.len() == i,
            forall|j: int|
                0 <= j < i ==> match #[trigger] buffers@[j] {
                    Some(b) => out@[j] is Some && out@[j]->0@ == decode(
                        b@,
                        max_text_bytes as nat,
                        max_cover_bytes as nat,
                    ),
                    None => out@[j] is None,
                },
        decreases buffers@.len() - i,
    {
        match &buffers[i] {
            Some(b) => {
                let meta = parse_metadata_with_limits(b.as_slice(), max_text_bytes, max_cover_bytes);
                out.push(Some(meta));
            },
            None => {
                out.push(None);
            },
        }
        i = i + 1;
    }
    out
}

} // verus!
