use musikr::frames::{Frame, FrameFlags, FrameHeader};
use musikr::header::{SaveVersion, TagHeader, Version};
use musikr::raw;
use musikr::strings::Encoding;
use musikr::tag::Tag;
use musikr::text::{Text, TextFrame};

fn text_frame(id: &str, value: &str) -> Frame {
    Frame::Text(TextFrame {
        header: FrameHeader::with_flags(id, FrameFlags::new()),
        encoding: Encoding::Latin1,
        text: Text::One(String::from(value)),
    })
}

#[test]
fn header_parse_example() {
    let data = [0x49, 0x44, 0x33, 0x03, 0x00, 0xA0, 0x00, 0x08, 0x49, 0x30];
    let header = TagHeader::parse(&data).unwrap();
    assert_eq!(header.major, 3);
    assert_eq!(header.minor, 0);
    assert!(header.flags.unsync);
    assert!(!header.flags.extended);
    assert!(header.flags.experimental);
    assert_eq!(header.tag_size, 140464);
}

#[test]
fn open_applies_unsynchronization() {
    // A v2.3 tag with the unsynchronization flag: the stuffed body
    // decodes before frames are parsed.
    let mut body: Vec<u8> = Vec::new();
    body.extend_from_slice(b"TIT2");
    body.extend_from_slice(&[0x00, 0x00, 0x00, 0x03]);
    body.extend_from_slice(&[0x00, 0x00]);
    body.extend_from_slice(&[0x00, 0xFF, 0x01]);
    let stuffed = musikr::syncdata::encode(&body);

    let mut header = TagHeader::new_test(3);
    header.flags.unsync = true;
    let tag = Tag::from_parts(header, &stuffed);
    assert_eq!(tag.frames.len(), 1);
    assert!(tag.frames.contains_key(&String::from("TIT2")));
}

#[test]
fn open_clears_bad_extended_header_flag() {
    let mut header = TagHeader::new_test(4);
    header.flags.extended = true;
    // The body starts with an invalid extended header, then a frame.
    let mut body: Vec<u8> = Vec::new();
    body.extend_from_slice(b"TIT2");
    body.extend_from_slice(&[0x00, 0x00, 0x00, 0x05]);
    body.extend_from_slice(&[0x00, 0x00]);
    body.extend_from_slice(b"\x00Song");

    let tag = Tag::from_parts(header, &body);
    assert!(!tag.header.flags.extended);
    assert!(tag.extended_header.is_none());
    assert_eq!(tag.frames.len(), 1);
}

#[test]
fn save_padding_reuses_old_region() {
    // With a smaller body than the old tag, the padding fills the old
    // region: the final size equals the old size exactly.
    let mut tag = Tag::new();
    tag.frames.add(text_frame("TIT2", "Song"));
    let out = tag.render_file(500000, 2048).unwrap();
    assert_eq!(out.len(), 10 + 2048);
    assert_eq!(tag.size(), 2048);

    // With a larger body than the old tag, a fixed kibibyte is added.
    let mut tag2 = Tag::new();
    tag2.frames.add(text_frame("TIT2", "Song"));
    let out2 = tag2.render_file(500000, 0).unwrap();
    let body_len = out2.len() - 10;
    let declared = raw::syncsafe_decode(&out2[6..10]).unwrap();
    assert_eq!(declared as usize, body_len);
    let frame_bytes = body_len - 1024;
    assert_eq!(frame_bytes, 10 + 1 + 4);
}

#[test]
fn save_padding_boundary_uses_fixed_kibibyte() {
    // A body exactly as large as the old tag gets the fixed kibibyte,
    // as a larger one does; only a strictly smaller body reuses the
    // leftover space. The rendered frame takes fifteen bytes here.
    let mut tag = Tag::new();
    tag.frames.add(text_frame("TIT2", "Song"));
    let out = tag.render_file(500000, 15).unwrap();
    assert_eq!(out.len(), 10 + 15 + 1024);
    assert_eq!(tag.size(), 15 + 1024);

    // One byte of slack: the padding is that byte, under the cap of a
    // hundredth of the file.
    let mut tag2 = Tag::new();
    tag2.frames.add(text_frame("TIT2", "Song"));
    let out2 = tag2.render_file(500000, 16).unwrap();
    assert_eq!(out2.len(), 10 + 16);
    assert_eq!(tag2.size(), 16);
}

#[test]
fn empty_tag_renders_nothing() {
    let mut tag = Tag::new();
    let out = tag.render_file(1000, 500).unwrap();
    assert!(out.is_empty());
    assert_eq!(tag.size(), 0);
}

#[test]
fn round_trip_text_frame() {
    let mut tag = Tag::with_version(SaveVersion::V24);
    tag.frames.add(text_frame("TIT2", "Song"));
    let out = tag.render_file(0, 0).unwrap();

    let header = TagHeader::parse(&out[..10]).unwrap();
    assert_eq!(header.major, 4);
    let reopened = Tag::from_parts(header, &out[10..]);
    assert_eq!(reopened.version(), Version::V24);
    match reopened.frames.get(&String::from("TIT2")) {
        Some(Frame::Text(t)) => match &t.text {
            Text::One(s) => assert_eq!(s, "Song"),
            _ => panic!("expected a single value"),
        },
        _ => panic!("expected the reopened text frame"),
    }
}

#[test]
fn clear_empties_the_tag() {
    let mut tag = Tag::new();
    tag.frames.add(text_frame("TIT2", "Song"));
    tag.clear();
    assert_eq!(tag.frames.len(), 0);
    assert!(tag.extended_header.is_none());
    assert_eq!(tag.unknown_frames.frames().len(), 0);
}

#[test]
fn save_upgrades_old_versions() {
    let mut tag = Tag::with_version(SaveVersion::V23);
    tag.frames.add(text_frame("TIT2", "Song"));
    let out = tag.render_file(0, 0).unwrap();
    let header = TagHeader::parse(&out[..10]).unwrap();
    assert_eq!(header.major, 3);
    assert_eq!(tag.version(), Version::V23);
}
