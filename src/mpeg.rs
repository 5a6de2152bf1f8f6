use vstd::prelude::*;

use crate::record::AudioInfo;

verus! {

/// How far past its start the scan for a frame header goes.
pub const SCAN_WINDOW: usize = 8192;

/// Sample rate in Hz for a version index (0 = MPEG 2.5, 1 = reserved,
/// 2 = MPEG 2, 3 = MPEG 1) and a sample-rate index; 0 for the reserved
/// version.
pub open spec fn sample_rate_for(version: int, sr: int) -> u32 {
    if version == 3 {
        if sr == 0 {
            44100
        } else if sr == 1 {
            48000
        } else {
            32000
        }
    } else if version == 2 {
        if sr == 0 {
            22050
        } else if sr == 1 {
            24000
        } else {
            16000
        }
    } else if version == 0 {
        if sr == 0 {
            11025
        } else if sr == 1 {
            12000
        } else {
            8000
        }
    } else {
        0
    }
}

/// The bitrate table for a version and a layer index (3 = layer I,
/// 2 = layer II, 1 = layer III).
pub open spec fn bitrate_table(v1: bool, layer: int) -> int {
    if v1 {
        if layer == 3 {
            0
        } else if layer == 2 {
            1
        } else {
            2
        }
    } else if layer == 3 {
        3
    } else {
        4
    }
}

/// Bitrates in kbps of each table, by bitrate index.
pub open spec fn bitrate_row(t: int) -> Seq<u32> {
    if t == 0 {
        seq![0, 32, 64, 96, 128, 160, 192, 224, 256, 288, 320, 352, 384, 416, 448]
    } else if t == 1 {
        seq![0, 32, 48, 56, 64, 80, 96, 112, 128, 160, 192, 224, 256, 320, 384]
    } else if t == 2 {
        seq![0, 32, 40, 48, 56, 64, 80, 96, 112, 128, 160, 192, 224, 256, 320]
    } else if t == 3 {
        seq![0, 32, 48, 56, 64, 80, 96, 112, 128, 144, 160, 176, 192, 224, 256]
    } else {
        seq![0, 8, 16, 24, 32, 40, 48, 56, 64, 80, 96, 112, 128, 144, 160]
    }
}

/// The stream characteristics that a valid frame header at `i` gives:
/// the sync pattern (0xFF, then a byte with its top three bits set), then
/// no reserved version, layer or sample rate, and neither the free nor the
/// invalid bitrate index.
pub open spec fn frame_header_at(b: Seq<u8>, i: int) -> Option<AudioInfo> {
    if !(b[i] == 0xFF && b[i + 1] >= 0xE0) {
        None
    } else {
        let version = ((b[i + 1] / 8) % 4) as int;
        let layer = ((b[i + 1] / 2) % 4) as int;
        let br = (b[i + 2] / 16) as int;
        let sr = ((b[i + 2] / 4) % 4) as int;
        let mode = b[i + 3] / 64;
        if version == 1 || layer == 0 || sr == 3 || br == 0 || br == 15 || sample_rate_for(
            version,
            sr,
        ) == 0 {
            None
        } else {
            Some(
                AudioInfo {
                    sample_rate: Some(sample_rate_for(version, sr)),
                    bit_depth: Some(16),
                    bitrate: Some(bitrate_row(bitrate_table(version == 3, layer))[br]),
                    channels: Some(
                        if mode == 3 {
                            1
                        } else {
                            2
                        },
                    ),
                },
            )
        }
    }
}

/// Where the scan from `start` stops: the window's end, or the last
/// position that leaves room for a header.
pub open spec fn scan_limit(len: int, start: int) -> int {
    let end = if len >= 3 {
        len - 3
    } else {
        0
    };
    if start + SCAN_WINDOW < end {
        start + SCAN_WINDOW
    } else {
        end
    }
}

/// The first valid frame header at or after `i` and before `limit`.
pub open spec fn mpeg_scan(b: Seq<u8>, i: int, limit: int) -> Option<AudioInfo>
    decreases limit - i,
{
    if i < 0 || i >= limit || limit + 3 > b.len() {
        None
    } else {
        match frame_header_at(b, i) {
            Some(a) => Some(a),
            None => mpeg_scan(b, i + 1, limit),
        }
    }
}

/// The audio information once the scan from `start` has run: unchanged
/// where a sample rate is known already or no header is found.
pub open spec fn mpeg_audio(b: Seq<u8>, start: int, a: AudioInfo) -> AudioInfo {
    if a.sample_rate is Some {
        a
    } else {
        match mpeg_scan(b, start, scan_limit(b.len() as int, start)) {
            Some(found) => found,
            None => a,
        }
    }
}

fn sample_rate_of(version: u8, sr: u8) -> (r: u32)
    ensures
        r == sample_rate_for(version as int, sr as int),
{
    if version == 3 {
        if sr == 0 {
            44100
        } else if sr == 1 {
            48000
        } else {
            32000
        }
    } else if version == 2 {
        if sr == 0 {
            22050
        } else if sr == 1 {
            24000
        } else {
            16000
        }
    } else if version == 0 {
        if sr == 0 {
            11025
        } else if sr == 1 {
            12000
        } else {
            8000
        }
    } else {
        0
    }
}

fn bitrate_of(t: u8, index: usize) -> (r: u32)
    requires
        index < 15,
    ensures
        r == bitrate_row(t as int)[index as int],
{
    let row: Vec<u32> = if t == 0 {
        vec![0, 32, 64, 96, 128, 160, 192, 224, 256, 288, 320, 352, 384, 416, 448]
    } else if t == 1 {
        vec![0, 32, 48, 56, 64, 80, 96, 112, 128, 160, 192, 224, 256, 320, 384]
    } else if t == 2 {
        vec![0, 32, 40, 48, 56, 64, 80, 96, 112, 128, 160, 192, 224, 256, 320]
    } else if t == 3 {
        vec![0, 32, 48, 56, 64, 80, 96, 112, 128, 144, 160, 176, 192, 224, 256]
    } else {
        vec![0, 8, 16, 24, 32, 40, 48, 56, 64, 80, 96, 112, 128, 144, 160]
    };
    assert(row@ == bitrate_row(t as int));
    row[index]
}

/// The stream characteristics of a valid frame header at `i`.
pub fn frame_header(b: &[u8], i: usize) -> (r: Option<AudioInfo>)
    requires
        i + 4 <= b@.len(),
    ensures
        r == frame_header_at(b@, i as int),
{
    if !(b[i] == 0xFF && b[i + 1] >= 0xE0) {
        return None;
    }
    let b1 = b[i + 1];
    let b2 = b[i + 2];
    let b3 = b[i + 3];
    let version = (b1 / 8) % 4;
    let layer = (b1 / 2) % 4;
    let br = b2 / 16;
    let sr = (b2 / 4) % 4;
    let mode = b3 / 64;
    if version == 1 || layer == 0 || sr == 3 || br == 0 || br == 15 {
        return None;
    }
    let sample_rate = sample_rate_of(version, sr);
    if sample_rate == 0 {
        return None;
    }
    let t: u8 = if version == 3 {
        if layer == 3 {
            0
        } else if layer == 2 {
            1
        } else {
            2
        }
    } else if layer == 3 {
        3
    } else {
        4
    };
    let bitrate = bitrate_of(t, br as usize);
    let channels: u8 = if mode == 3 {
        1
    } else {
        2
    };
    Some(
        AudioInfo {
            sample_rate: Some(sample_rate),
            bit_depth: Some(16),
            bitrate: Some(bitrate),
            channels: Some(channels),
        },
    )
}

/// Scans byte by byte from `start`, within the window, for the first valid
/// MPEG frame header, and takes the stream characteristics from it. Does
/// nothing where a sample rate is known already.
pub fn parse_mpeg_frame_header(bytes: &[u8], start: usize, audio: &mut AudioInfo)
    ensures
        *final(audio) == mpeg_audio(bytes@, start as int, *old(audio)),
{
    if audio.sample_rate.is_some() {
        return;
    }
    let len = bytes.len();
    let end: usize = if len >= 3 {
        len - 3
    } else {
        0
    };
    let limit: usize = if end > start && end - start > SCAN_WINDOW {
        start + SCAN_WINDOW
    } else {
        end
    };
    assert(limit as int == scan_limit(bytes@.len() as int, start as int));
    let mut i: usize = start;
    while i < limit
        invariant
            start <= i,
            *audio == *old(audio),
            old(audio).sample_rate is None,
            limit as int == scan_limit(bytes@.len() as int, start as int),
            limit + 3 <= bytes@.len() || limit == 0,
            limit <= bytes@.len(),
            mpeg_scan(bytes@, start as int, limit as int) == mpeg_scan(
                bytes@,
                i as int,
                limit as int,
            ),
        decreases limit - i,
    {
        match frame_header(bytes, i) {
            Some(found) => {
                *audio = found;
                return;
            },
            None => {},
        }
        i = i + 1;
    }
}

} // verus!
