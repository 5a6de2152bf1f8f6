use vstd::prelude::*;

use crate::text::chars_to_string;

verus! {

/// Picture-type code of a front cover.
pub const FRONT_COVER: u8 = 3;

/// Characteristics of the audio stream; each is absent until found.
#[derive(Clone, Copy, Debug, PartialEq, Eq)]
pub struct AudioInfo {
    /// Samples per second.
    pub sample_rate: Option<u32>,
    /// Bits per sample.
    pub bit_depth: Option<u16>,
    /// Kilobits per second.
    pub bitrate: Option<u32>,
    pub channels: Option<u8>,
}

impl AudioInfo {
    pub fn new() -> (r: AudioInfo)
        ensures
            r == empty_audio(),
    {
        AudioInfo { sample_rate: None, bit_depth: None, bitrate: None, channels: None }
    }
}

pub open spec fn empty_audio() -> AudioInfo {
    AudioInfo { sample_rate: None, bit_depth: None, bitrate: None, channels: None }
}

/// An embedded image: its MIME type, its bytes and its picture-type code.
#[derive(Clone, Debug, PartialEq, Eq)]
pub struct Picture {
    pub mime: String,
    pub data: Vec<u8>,
    pub pic_type: u8,
}

pub struct PictureView {
    pub mime: Seq<char>,
    pub data: Seq<u8>,
    pub pic_type: u8,
}

impl View for Picture {
    type V = PictureView;

    open spec fn view(&self) -> PictureView {
        PictureView { mime: self.mime@, data: self.data@, pic_type: self.pic_type }
    }
}

/// What one decode call found in a buffer. Every field is absent until a
/// parser finds it.
#[derive(Clone, Debug, PartialEq, Eq)]
pub struct Metadata {
    pub title: Option<String>,
    pub artist: Option<String>,
    pub album: Option<String>,
    pub cover: Option<Picture>,
    pub audio: AudioInfo,
}

pub struct MetadataView {
    pub title: Option<Seq<char>>,
    pub artist: Option<Seq<char>>,
    pub album: Option<Seq<char>>,
    pub cover: Option<PictureView>,
    pub audio: AudioInfo,
}

pub open spec fn text_view(o: Option<String>) -> Option<Seq<char>> {
    match o {
        Some(s) => Some(s@),
        None => None,
    }
}

pub open spec fn chars_view(o: Option<Vec<char>>) -> Option<Seq<char>> {
    match o {
        Some(v) => Some(v@),
        None => None,
    }
}

pub open spec fn picture_view(o: Option<Picture>) -> Option<PictureView> {
    match o {
        Some(p) => Some(p@),
        None => None,
    }
}

impl View for Metadata {
    type V = MetadataView;

    open spec fn view(&self) -> MetadataView {
        MetadataView {
            title: text_view(self.title),
            artist: text_view(self.artist),
            album: text_view(self.album),
            cover: picture_view(self.cover),
            audio: self.audio,
        }
    }
}

pub open spec fn empty_view() -> MetadataView {
    MetadataView { title: None, artist: None, album: None, cover: None, audio: empty_audio() }
}

impl Metadata {
    /// A record in which nothing is found.
    pub fn new() -> (r: Metadata)
        ensures
            r@ == empty_view(),
    {
        Metadata { title: None, artist: None, album: None, cover: None, audio: AudioInfo::new() }
    }
}

/// Whether a newly found picture of type `new_type` replaces the one held
/// (of type `current_type`, if `has_current`).
pub open spec fn keeps_new(current_type: u8, new_type: u8, has_current: bool) -> bool {
    !has_current || (current_type != FRONT_COVER && new_type == FRONT_COVER)
}

/// The picture held once `found` has been offered to a record holding `cur`.
pub open spec fn offer(cur: Option<PictureView>, found: Option<PictureView>) -> Option<PictureView> {
    match found {
        Some(p) => match cur {
            Some(c) => if keeps_new(c.pic_type, p.pic_type, true) {
                Some(p)
            } else {
                cur
            },
            None => Some(p),
        },
        None => cur,
    }
}

/// A text field once `found` has been offered to it: only an unset field
/// takes a value, and only a non-empty one.
pub open spec fn fill(cur: Option<Seq<char>>, found: Option<Seq<char>>) -> Option<Seq<char>> {
    match cur {
        Some(_) => cur,
        None => match found {
            Some(v) => if v.len() > 0 {
                found
            } else {
                None
            },
            None => None,
        },
    }
}

/// The replacement rule for embedded pictures: the first picture is kept
/// until a front cover comes after a picture that is not one.
pub fn keep_new(current_type: u8, new_type: u8, has_current: bool) -> (r: bool)
    ensures
        r == keeps_new(current_type, new_type, has_current),
{
    !has_current || (current_type != FRONT_COVER && new_type == FRONT_COVER)
}

/// Offers a decoded text value to a text field.
pub fn fill_text(field: &mut Option<String>, found: Option<Vec<char>>)
    ensures
        text_view(*final(field)) == fill(text_view(*old(field)), chars_view(found)),
{
    if field.is_none() {
        match found {
            Some(v) => {
                if v.len() > 0 {
                    *field = Some(chars_to_string(&v));
                }
            },
            None => {},
        }
    }
}

/// Offers a decoded picture to the record's cover.
pub fn offer_picture(cover: &mut Option<Picture>, found: Option<Picture>)
    ensures
        picture_view(*final(cover)) == offer(picture_view(*old(cover)), picture_view(found)),
{
    match found {
        Some(p) => {
            let replace = match cover {
                Some(c) => keep_new(c.pic_type, p.pic_type, true),
                None => true,
            };
            if replace {
                *cover = Some(p);
            }
        },
        None => {},
    }
}

} // verus!
