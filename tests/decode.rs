use metadata::{
    keep_new, parse_metadata, parse_metadata_batch, parse_metadata_with_limits, Metadata,
};

fn frame23(id: &[u8], data: &[u8]) -> Vec<u8> {
    let mut f = id.to_vec();
    f.extend_from_slice(&(data.len() as u32).to_be_bytes());
    f.extend_from_slice(&[0, 0]);
    f.extend_from_slice(data);
    f
}

fn synchsafe(n: usize) -> [u8; 4] {
    [
        ((n >> 21) & 0x7F) as u8,
        ((n >> 14) & 0x7F) as u8,
        ((n >> 7) & 0x7F) as u8,
        (n & 0x7F) as u8,
    ]
}

fn tag(version: u8, frames: &[Vec<u8>]) -> Vec<u8> {
    let body: Vec<u8> = frames.concat();
    let mut t = b"ID3".to_vec();
    t.extend_from_slice(&[version, 0, 0]);
    t.extend_from_slice(&synchsafe(body.len()));
    t.extend_from_slice(&body);
    t
}

fn title_of(buf: &[u8]) -> Option<String> {
    parse_metadata(buf).title
}

fn text_frame(encoding: u8, payload: &[u8]) -> Vec<u8> {
    let mut d = vec![encoding];
    d.extend_from_slice(payload);
    frame23(b"TIT2", &d)
}

fn apic(mime: &str, pic_type: u8, image: &[u8]) -> Vec<u8> {
    let mut d = vec![0u8];
    d.extend_from_slice(mime.as_bytes());
    d.push(0);
    d.push(pic_type);
    d.extend_from_slice(b"desc\0");
    d.extend_from_slice(image);
    frame23(b"APIC", &d)
}

fn id3v1(title: &str, artist: &str, album: &str) -> Vec<u8> {
    let mut t = b"TAG".to_vec();
    for s in [title, artist, album] {
        let mut f = s.as_bytes().to_vec();
        f.resize(30, 0);
        t.extend_from_slice(&f);
    }
    t.resize(128, 0);
    t
}

const MPEG1_L3_128K_44K: [u8; 4] = [0xFF, 0xFB, 0x90, 0x00];

fn streaminfo_block(sample_rate: u32, channels: u8, bits: u8) -> Vec<u8> {
    let mut b = vec![0u8; 34];
    b[10] = (sample_rate >> 12) as u8;
    b[11] = (sample_rate >> 4) as u8;
    b[12] = (((sample_rate & 0x0F) as u8) << 4) | ((channels - 1) << 1) | ((bits - 1) >> 4);
    b[13] = ((bits - 1) & 0x0F) << 4;
    b
}

fn flac_block(block_type: u8, last: bool, data: &[u8]) -> Vec<u8> {
    let n = data.len();
    let mut b = vec![
        block_type | if last { 0x80 } else { 0 },
        (n >> 16) as u8,
        (n >> 8) as u8,
        n as u8,
    ];
    b.extend_from_slice(data);
    b
}

fn vorbis(entries: &[&str]) -> Vec<u8> {
    let mut d = Vec::new();
    d.extend_from_slice(&3u32.to_le_bytes());
    d.extend_from_slice(b"enc");
    d.extend_from_slice(&(entries.len() as u32).to_le_bytes());
    for e in entries {
        d.extend_from_slice(&(e.len() as u32).to_le_bytes());
        d.extend_from_slice(e.as_bytes());
    }
    d
}

fn flac_file(blocks: &[Vec<u8>]) -> Vec<u8> {
    let mut f = b"fLaC".to_vec();
    for b in blocks {
        f.extend_from_slice(b);
    }
    f
}

#[test]
fn title_round_trip_latin1() {
    let buf = tag(3, &[text_frame(0, b"Caf\xe9 Song")]);
    assert_eq!(title_of(&buf), Some("Café Song".to_string()));
}

#[test]
fn title_round_trip_utf16_le_bom() {
    let mut p = vec![0xFF, 0xFE];
    for u in "Héllo 𝄞".encode_utf16() {
        p.extend_from_slice(&u.to_le_bytes());
    }
    let buf = tag(3, &[text_frame(1, &p)]);
    assert_eq!(title_of(&buf), Some("Héllo 𝄞".to_string()));
}

#[test]
fn title_round_trip_utf16_be_bom() {
    let mut p = vec![0xFE, 0xFF];
    for u in "Abc".encode_utf16() {
        p.extend_from_slice(&u.to_be_bytes());
    }
    let buf = tag(3, &[text_frame(1, &p)]);
    assert_eq!(title_of(&buf), Some("Abc".to_string()));
}

#[test]
fn title_round_trip_utf16_be_no_bom() {
    let mut p = Vec::new();
    for u in "Zürich".encode_utf16() {
        p.extend_from_slice(&u.to_be_bytes());
    }
    let buf = tag(3, &[text_frame(2, &p)]);
    assert_eq!(title_of(&buf), Some("Zürich".to_string()));
}

#[test]
fn title_round_trip_utf8() {
    let buf = tag(3, &[text_frame(3, "  日本語 \0".as_bytes())]);
    assert_eq!(title_of(&buf), Some("日本語".to_string()));
}

#[test]
fn utf16_unpaired_surrogate_is_absent() {
    let buf = tag(3, &[text_frame(1, &[0xFF, 0xFE, 0x00, 0xD8, 0x41, 0x00])]);
    assert_eq!(title_of(&buf), None);
}

#[test]
fn invalid_utf8_is_absent() {
    let buf = tag(3, &[text_frame(3, &[0x41, 0xC3, 0x28])]);
    assert_eq!(title_of(&buf), None);
}

#[test]
fn text_cut_to_limit() {
    let buf = tag(3, &[text_frame(0, b"abcdefgh")]);
    let m = parse_metadata_with_limits(&buf, 3, 1024);
    assert_eq!(m.title, Some("abc".to_string()));
}

#[test]
fn unknown_encoding_is_absent() {
    let buf = tag(3, &[text_frame(7, b"abc")]);
    assert_eq!(title_of(&buf), None);
}

#[test]
fn front_cover_replaces_earlier_picture() {
    let buf = tag(3, &[apic("image/png", 0, &[1, 2, 3]), apic("image/jpeg", 3, &[4, 5])]);
    let cover = parse_metadata(&buf).cover.unwrap();
    assert_eq!(cover.pic_type, 3);
    assert_eq!(cover.mime, "image/jpeg");
    assert_eq!(cover.data, vec![4, 5]);
}

#[test]
fn later_picture_keeps_front_cover() {
    let buf = tag(3, &[apic("image/jpeg", 3, &[4, 5]), apic("image/png", 0, &[1, 2, 3])]);
    let cover = parse_metadata(&buf).cover.unwrap();
    assert_eq!(cover.pic_type, 3);
    assert_eq!(cover.data, vec![4, 5]);
}

#[test]
fn first_picture_wins_without_front_cover() {
    let buf = tag(3, &[apic("image/png", 1, &[1]), apic("image/gif", 2, &[2])]);
    let cover = parse_metadata(&buf).cover.unwrap();
    assert_eq!(cover.pic_type, 1);
    assert_eq!(cover.mime, "image/png");
}

#[test]
fn keep_new_rule() {
    assert!(keep_new(0, 0, false));
    assert!(keep_new(0, 3, true));
    assert!(!keep_new(3, 3, true));
    assert!(!keep_new(3, 0, true));
    assert!(!keep_new(1, 2, true));
}

#[test]
fn oversized_cover_is_dropped() {
    let buf = tag(3, &[apic("image/png", 3, &[9; 20])]);
    assert!(parse_metadata_with_limits(&buf, 1024, 19).cover.is_none());
    assert!(parse_metadata_with_limits(&buf, 1024, 20).cover.is_some());
}

#[test]
fn pic_frame_format_codes() {
    for (code, mime) in [
        (b"PNG", "image/png"),
        (b"JPG", "image/jpeg"),
        (b"GIF", "image/gif"),
        (b"BMP", "image/unknown"),
    ] {
        let mut d = vec![0u8];
        d.extend_from_slice(code);
        d.push(3);
        d.extend_from_slice(b"d\0");
        d.extend_from_slice(&[7, 8]);
        let mut f = b"PIC".to_vec();
        f.extend_from_slice(&[0, 0, d.len() as u8]);
        f.extend_from_slice(&d);
        let buf = tag(2, &[f]);
        let cover = parse_metadata(&buf).cover.unwrap();
        assert_eq!(cover.mime, mime);
        assert_eq!(cover.data, vec![7, 8]);
    }
}

#[test]
fn id3v22_text_frames() {
    let mut f = b"TT2".to_vec();
    f.extend_from_slice(&[0, 0, 4, 0, b'A', b'b', b'c']);
    let mut g = b"TP1".to_vec();
    g.extend_from_slice(&[0, 0, 3, 0, b'X', b'y']);
    let buf = tag(2, &[f, g]);
    let m = parse_metadata(&buf);
    assert_eq!(m.title, Some("Abc".to_string()));
    assert_eq!(m.artist, Some("Xy".to_string()));
}

#[test]
fn id3v24_synchsafe_frame_size() {
    let mut f = b"TALB".to_vec();
    f.extend_from_slice(&synchsafe(4));
    f.extend_from_slice(&[0, 0, 0, b'D', b'i', b's']);
    let buf = tag(4, &[f]);
    assert_eq!(parse_metadata(&buf).album, Some("Dis".to_string()));
}

#[test]
fn transformed_frame_is_skipped() {
    let mut f = frame23(b"TIT2", b"\0Hidden");
    f[9] = 0x08;
    let buf = tag(3, &[f, frame23(b"TPE1", b"\0Seen")]);
    let m = parse_metadata(&buf);
    assert_eq!(m.title, None);
    assert_eq!(m.artist, Some("Seen".to_string()));
}

#[test]
fn id3v1_fills_only_missing_fields() {
    let mut buf = tag(3, &[text_frame(0, b"V2 Title")]);
    buf.extend_from_slice(&id3v1("V1 Title", "V1 Artist", "V1 Album"));
    let m = parse_metadata(&buf);
    assert_eq!(m.title, Some("V2 Title".to_string()));
    assert_eq!(m.artist, Some("V1 Artist".to_string()));
    assert_eq!(m.album, Some("V1 Album".to_string()));
}

#[test]
fn id3v1_alone() {
    let mut buf = vec![0u8; 50];
    buf.extend_from_slice(&id3v1("T", "", "Al  "));
    let m = parse_metadata(&buf);
    assert_eq!(m.title, Some("T".to_string()));
    assert_eq!(m.artist, None);
    assert_eq!(m.album, Some("Al".to_string()));
}

#[test]
fn streaminfo_decodes_exactly() {
    let buf = flac_file(&[flac_block(0, true, &streaminfo_block(44100, 2, 16))]);
    let a = parse_metadata(&buf).audio;
    assert_eq!(a.sample_rate, Some(44100));
    assert_eq!(a.channels, Some(2));
    assert_eq!(a.bit_depth, Some(16));
    assert_eq!(a.bitrate, None);
}

#[test]
fn streaminfo_other_values() {
    let buf = flac_file(&[flac_block(0, true, &streaminfo_block(96000, 6, 24))]);
    let a = parse_metadata(&buf).audio;
    assert_eq!(a.sample_rate, Some(96000));
    assert_eq!(a.channels, Some(6));
    assert_eq!(a.bit_depth, Some(24));
}

fn mpeg_at(offset: usize, len: usize) -> Vec<u8> {
    let mut buf = vec![0u8; len];
    buf[offset..offset + 4].copy_from_slice(&MPEG1_L3_128K_44K);
    buf
}

#[test]
fn mpeg_header_found_in_window() {
    for offset in [0usize, 1, 100, 4096, 8191] {
        let a = parse_metadata(&mpeg_at(offset, 9000)).audio;
        assert_eq!(a.sample_rate, Some(44100), "offset {}", offset);
        assert_eq!(a.bitrate, Some(128));
        assert_eq!(a.channels, Some(2));
        assert_eq!(a.bit_depth, Some(16));
    }
}

#[test]
fn mpeg_header_beyond_window_not_found() {
    for offset in [8192usize, 8500] {
        let a = parse_metadata(&mpeg_at(offset, 9000)).audio;
        assert_eq!(a.sample_rate, None);
        assert_eq!(a.bitrate, None);
    }
}

#[test]
fn mpeg_window_starts_after_id3v2() {
    let mut buf = tag(3, &[text_frame(0, b"T")]);
    let start = buf.len();
    buf.extend_from_slice(&vec![0u8; 8191]);
    buf.extend_from_slice(&[0xFF, 0xF3, 0x80, 0xC0]);
    buf.extend_from_slice(&[0u8; 10]);
    let a = parse_metadata(&buf).audio;
    assert!(start > 0);
    assert_eq!(a.sample_rate, Some(22050));
    assert_eq!(a.bitrate, Some(64));
    assert_eq!(a.channels, Some(1));
}

#[test]
fn mpeg_reserved_fields_rejected() {
    // reserved version, then a valid header one byte further on
    let buf = [0u8, 0xFF, 0xEB, 0x90, 0x00, 0xFF, 0xFB, 0x90, 0x40, 0, 0];
    let a = parse_metadata(&buf).audio;
    assert_eq!(a.sample_rate, Some(44100));
    assert_eq!(a.channels, Some(2));
    let free = [0xFFu8, 0xFB, 0x00, 0x00, 0, 0];
    assert_eq!(parse_metadata(&free).audio.sample_rate, None);
}

#[test]
fn vorbis_first_value_wins() {
    let buf = flac_file(&[flac_block(4, true, &vorbis(&["TITLE=Foo", "title=Bar", "Artist= Who ", "NOEQ"]))]);
    let m = parse_metadata(&buf);
    assert_eq!(m.title, Some("Foo".to_string()));
    assert_eq!(m.artist, Some("Who".to_string()));
    assert_eq!(m.album, None);
}

#[test]
fn vorbis_entry_cut_before_equals() {
    let buf = flac_file(&[flac_block(4, true, &vorbis(&["ALBUM=Long name"]))]);
    let m = parse_metadata_with_limits(&buf, 10, 1024);
    assert_eq!(m.album, Some("Long".to_string()));
    let m = parse_metadata_with_limits(&buf, 5, 1024);
    assert_eq!(m.album, None);
}

fn flac_picture(pic_type: u32, mime: &str, image: &[u8]) -> Vec<u8> {
    let mut d = Vec::new();
    d.extend_from_slice(&pic_type.to_be_bytes());
    d.extend_from_slice(&(mime.len() as u32).to_be_bytes());
    d.extend_from_slice(mime.as_bytes());
    d.extend_from_slice(&2u32.to_be_bytes());
    d.extend_from_slice(b"hi");
    d.extend_from_slice(&[0u8; 16]);
    d.extend_from_slice(&(image.len() as u32).to_be_bytes());
    d.extend_from_slice(image);
    d
}

#[test]
fn flac_pictures_and_blocks() {
    let buf = flac_file(&[
        flac_block(0, false, &streaminfo_block(48000, 1, 8)),
        flac_block(6, false, &flac_picture(1, "image/png", &[1, 2, 3, 4, 5, 6, 7, 8, 9, 10])),
        flac_block(6, false, &flac_picture(3, "image/jpeg", &[9; 12])),
        flac_block(1, true, &[0u8; 8]),
    ]);
    let m = parse_metadata(&buf);
    let cover = m.cover.unwrap();
    assert_eq!(cover.pic_type, 3);
    assert_eq!(cover.mime, "image/jpeg");
    assert_eq!(cover.data, vec![9; 12]);
    assert_eq!(m.audio.sample_rate, Some(48000));
    assert_eq!(m.audio.channels, Some(1));
    assert_eq!(m.audio.bit_depth, Some(8));
}

#[test]
fn flac_picture_type_out_of_range_is_zero() {
    let buf = flac_file(&[flac_block(6, true, &flac_picture(300, "image/png", &[1; 12]))]);
    assert_eq!(parse_metadata(&buf).cover.unwrap().pic_type, 0);
}

#[test]
fn flac_stops_at_last_block() {
    let buf = flac_file(&[
        flac_block(4, true, &vorbis(&["TITLE=First"])),
        flac_block(4, true, &vorbis(&["ARTIST=After"])),
    ]);
    let m = parse_metadata(&buf);
    assert_eq!(m.title, Some("First".to_string()));
    assert_eq!(m.artist, None);
}

#[test]
fn frame_past_tag_end_stops_cleanly() {
    let mut bad = frame23(b"TPE1", b"\0Artist");
    bad[4..8].copy_from_slice(&1000u32.to_be_bytes());
    let buf = tag(3, &[text_frame(0, b"Kept"), bad]);
    let m = parse_metadata(&buf);
    assert_eq!(m.title, Some("Kept".to_string()));
    assert_eq!(m.artist, None);
}

#[test]
fn batch_keeps_positions() {
    let mp3 = tag(3, &[text_frame(0, b"Song")]);
    let garbage = vec![0x13u8, 0x37, 0x00, 0x42, 0x99];
    let flac = flac_file(&[flac_block(4, true, &vorbis(&["TITLE=Flac"]))]);
    let out = parse_metadata_batch(&vec![Some(mp3), Some(garbage), Some(flac)], 1024, 1024);
    assert_eq!(out.len(), 3);
    assert_eq!(out[0].as_ref().unwrap().title, Some("Song".to_string()));
    assert_eq!(out[1], Some(Metadata::new()));
    assert_eq!(out[2].as_ref().unwrap().title, Some("Flac".to_string()));
}

#[test]
fn batch_absent_element() {
    let out = parse_metadata_batch(&vec![None, Some(vec![])], 16, 16);
    assert_eq!(out.len(), 2);
    assert_eq!(out[0], None);
    assert_eq!(out[1], Some(Metadata::new()));
}

#[test]
fn empty_buffer_is_all_absent() {
    assert_eq!(parse_metadata(&[]), Metadata::new());
}

#[test]
fn lossy_mime_decoding() {
    let buf = tag(3, &[apic("image/p\u{e9}g", 3, &[1])]);
    assert_eq!(parse_metadata(&buf).cover.unwrap().mime, "image/p\u{e9}g");
    let mut d = vec![0u8, b'a', 0xFF, b'b', 0, 3];
    d.extend_from_slice(b"\0\x05");
    let buf = tag(3, &[frame23(b"APIC", &d)]);
    assert_eq!(parse_metadata(&buf).cover.unwrap().mime, "a\u{fffd}b");
}

#[test]
fn extended_header_v23_skipped() {
    let frame = text_frame(0, b"Ext");
    let mut t = b"ID3".to_vec();
    t.extend_from_slice(&[3, 0, 0x40]);
    t.extend_from_slice(&synchsafe(6 + frame.len()));
    t.extend_from_slice(&[0, 0, 0, 6, 0, 0]);
    t.extend_from_slice(&frame);
    assert_eq!(title_of(&t), Some("Ext".to_string()));
}

#[test]
fn extended_header_v24_skipped() {
    let mut f = b"TIT2".to_vec();
    f.extend_from_slice(&synchsafe(4));
    f.extend_from_slice(&[0, 0, 3, b'V', b'4', b'!']);
    let mut t = b"ID3".to_vec();
    t.extend_from_slice(&[4, 0, 0x40]);
    t.extend_from_slice(&synchsafe(6 + f.len()));
    t.extend_from_slice(&[0, 0, 0, 6, 1, 0]);
    t.extend_from_slice(&f);
    assert_eq!(title_of(&t), Some("V4!".to_string()));
}

#[test]
fn mpeg1_layer2_mono() {
    let buf = [0xFFu8, 0xFD, 0x30, 0xC0, 0, 0];
    let a = parse_metadata(&buf).audio;
    assert_eq!(a.sample_rate, Some(44100));
    assert_eq!(a.bitrate, Some(56));
    assert_eq!(a.channels, Some(1));
}

#[test]
fn mpeg25_layer1() {
    let buf = [0xFFu8, 0xE6, 0x28, 0x00, 0, 0];
    let a = parse_metadata(&buf).audio;
    assert_eq!(a.sample_rate, Some(8000));
    assert_eq!(a.bitrate, Some(48));
    assert_eq!(a.channels, Some(2));
}

#[test]
fn empty_text_does_not_block_later_frame() {
    let buf = tag(3, &[text_frame(0, b"   "), text_frame(0, b"Real")]);
    assert_eq!(title_of(&buf), Some("Real".to_string()));
}
