use musikr::chapters::ChapterFrame;
use musikr::collections::FrameMap;
use musikr::events::{EventTimingCodesFrame, EventType};
use musikr::frames::{Frame, FrameFlags, FrameHeader};
use musikr::geob::GeneralObjectFrame;
use musikr::header::TagHeader;
use musikr::owner::{OwnershipFrame, TermsOfUseFrame};
use musikr::strings::Encoding;
use musikr::text::{Text, TextFrame, UserTextFrame, CreditsFrame};
use musikr::time::{Timestamp, TimestampFormat};
use musikr::url::{UrlFrame, UserUrlFrame};

fn text_frame(id: &str, value: &str) -> Frame {
    Frame::Text(TextFrame {
        header: FrameHeader::with_flags(id, FrameFlags::new()),
        encoding: Encoding::Latin1,
        text: Text::One(String::from(value)),
    })
}

#[test]
fn frame_map_key_collision_keeps_later() {
    let mut map = FrameMap::new();
    map.add(text_frame("TIT2", "first"));
    map.add(text_frame("TIT2", "second"));

    assert_eq!(map.len(), 1);
    match map.get(&String::from("TIT2")) {
        Some(Frame::Text(t)) => match &t.text {
            Text::One(s) => assert_eq!(s, "second"),
            _ => panic!("expected a single value"),
        },
        _ => panic!("expected the text frame"),
    }
}

#[test]
fn frame_map_keeps_distinct_keys() {
    let mut map = FrameMap::new();
    map.add(text_frame("TIT2", "title"));
    map.add(text_frame("TALB", "album"));
    assert_eq!(map.len(), 2);
    assert!(map.contains_key(&String::from("TIT2")));
    assert!(map.contains_key(&String::from("TALB")));

    let removed = map.remove(&String::from("TIT2"));
    assert!(removed.is_some());
    assert_eq!(map.len(), 1);
    assert!(!map.contains_key(&String::from("TIT2")));
}

#[test]
fn text_frame_splits_nul_separated_values() {
    let th = TagHeader::new_test(4);
    let mut frame = TextFrame::with_flags("TPE1", FrameFlags::new());
    frame.parse(&th, b"\x00One\x00Two").unwrap();
    match &frame.text {
        Text::Many(parts) => {
            assert_eq!(parts.len(), 2);
            assert_eq!(parts[0], "One");
            assert_eq!(parts[1], "Two");
        },
        _ => panic!("expected a multi-valued text"),
    }

    let mut single = TextFrame::with_flags("TIT2", FrameFlags::new());
    single.parse(&th, b"\x00Song").unwrap();
    match &single.text {
        Text::One(s) => assert_eq!(s, "Song"),
        _ => panic!("expected a single value"),
    }
}

#[test]
fn user_text_frame_reads_description() {
    let th = TagHeader::new_test(4);
    let mut frame = UserTextFrame::with_flags(FrameFlags::new());
    frame.parse(&th, b"\x00replaygain\x001.0 dB").unwrap();
    assert_eq!(frame.desc(), "replaygain");
    match frame.text() {
        Text::One(s) => assert_eq!(s, "1.0 dB"),
        _ => panic!("expected a single value"),
    }
}

#[test]
fn credits_frame_builds_role_map() {
    let th = TagHeader::new_test(4);
    let mut frame = CreditsFrame::with_flags("TIPL", FrameFlags::new());
    frame
        .parse(&th, b"\x00producer\x00Alice\x00mixer\x00Bob\x00")
        .unwrap();
    let people = frame.people();
    assert_eq!(people.len(), 2);
    assert_eq!(people[0].0, "producer");
    assert_eq!(people[0].1, "Alice");
    assert_eq!(people[1].0, "mixer");
    assert_eq!(people[1].1, "Bob");
    assert!(frame.is_involved_people());
    assert!(!frame.is_musician_credits());
}

#[test]
fn url_frames_read_links() {
    let th = TagHeader::new_test(4);
    let mut frame = UrlFrame::with_flags("WOAR", FrameFlags::new());
    frame.parse(&th, b"https://example.com").unwrap();
    assert_eq!(frame.url(), "https://example.com");

    let mut user = UserUrlFrame::with_flags(FrameFlags::new());
    user.parse(&th, b"\x00shop\x00https://example.com/shop").unwrap();
    assert_eq!(user.desc(), "shop");
    assert_eq!(user.url(), "https://example.com/shop");
}

#[test]
fn event_timing_codes_read_records() {
    let th = TagHeader::new_test(4);
    let mut frame = EventTimingCodesFrame::new();
    frame
        .parse(&th, &[0x02, 0x02, 0x00, 0x00, 0x01, 0x00, 0x03, 0x00, 0x00, 0x02, 0x00])
        .unwrap();
    assert_eq!(frame.time_format(), TimestampFormat::Millis);
    let events = frame.events();
    assert_eq!(events.len(), 2);
    assert_eq!(events[0].event_type, EventType::IntroStart);
    assert_eq!(events[0].timestamp, Timestamp::Millis(256));
    assert_eq!(events[1].event_type, EventType::MainPartStart);
    assert_eq!(events[1].timestamp, Timestamp::Millis(512));
}

#[test]
fn ownership_frame_reads_fixed_layout() {
    let th = TagHeader::new_test(4);
    let mut frame = OwnershipFrame::new();
    frame.parse(&th, b"\x00USD10.00\x0020040901Seller").unwrap();
    assert_eq!(frame.price_paid(), "USD10.00");
    assert_eq!(frame.purchase_date(), "20040901");
    assert_eq!(frame.seller(), "Seller");
}

#[test]
fn terms_of_use_frame_reads_language() {
    let th = TagHeader::new_test(4);
    let mut frame = TermsOfUseFrame::new();
    frame.parse(&th, b"\x00engAll rights reserved").unwrap();
    assert_eq!(frame.lang(), "eng");
    assert_eq!(frame.text(), "All rights reserved");
}

#[test]
fn general_object_frame_reads_strings_and_data() {
    let th = TagHeader::new_test(4);
    let data = b"\x00application/pdf\x00doc.pdf\x00notes\x00\x01\x02\x03";
    let frame = GeneralObjectFrame::from(
        &th,
        FrameHeader::with_flags("GEOB", FrameFlags::new()),
        &data[..],
    )
    .unwrap();
    assert_eq!(frame.mime(), "application/pdf");
    assert_eq!(frame.filename(), "doc.pdf");
    assert_eq!(frame.desc(), "notes");
    assert_eq!(frame.data(), &vec![0x01, 0x02, 0x03]);
}

#[test]
fn chapter_frame_parses_nested_frame() {
    let th = TagHeader::new_test(4);
    // element id, the sixteen time bytes, then a whole nested TIT2 frame.
    let mut body: Vec<u8> = Vec::new();
    body.extend_from_slice(b"chp1\x00");
    body.extend_from_slice(&[0, 0, 0, 0]);
    body.extend_from_slice(&[0, 0, 0x27, 0x10]);
    body.extend_from_slice(&[0xFF, 0xFF, 0xFF, 0xFF]);
    body.extend_from_slice(&[0xFF, 0xFF, 0xFF, 0xFF]);
    body.extend_from_slice(b"TIT2");
    body.extend_from_slice(&[0x00, 0x00, 0x00, 0x05]);
    body.extend_from_slice(&[0x00, 0x00]);
    body.extend_from_slice(b"\x00Song");

    let mut frame = ChapterFrame::new();
    frame.parse(&th, &body).unwrap();
    assert_eq!(frame.element_id(), "chp1");
    assert_eq!(frame.time().start_time, 0);
    assert_eq!(frame.time().end_time, 10000);
    assert_eq!(frame.frames().len(), 1);
    match frame.frames().get(&String::from("TIT2")) {
        Some(Frame::Text(t)) => match &t.text {
            Text::One(s) => assert_eq!(s, "Song"),
            _ => panic!("expected a single value"),
        },
        _ => panic!("expected the nested text frame"),
    }
}

#[test]
fn dropped_frame_advances_stream() {
    // A USER frame whose body is too short is dropped, but the following
    // frame still parses.
    let th = TagHeader::new_test(4);
    let mut body: Vec<u8> = Vec::new();
    body.extend_from_slice(b"USER");
    body.extend_from_slice(&[0x00, 0x00, 0x00, 0x02]);
    body.extend_from_slice(&[0x00, 0x00]);
    body.extend_from_slice(b"\x00e");
    body.extend_from_slice(b"TIT2");
    body.extend_from_slice(&[0x00, 0x00, 0x00, 0x05]);
    body.extend_from_slice(&[0x00, 0x00]);
    body.extend_from_slice(b"\x00Song");

    let tag = musikr::tag::Tag::from_parts(th, &body);
    assert_eq!(tag.frames.len(), 1);
    assert!(tag.frames.contains_key(&String::from("TIT2")));
}

#[test]
fn unknown_frame_is_kept_raw() {
    let th = TagHeader::new_test(4);
    let mut body: Vec<u8> = Vec::new();
    body.extend_from_slice(b"XYZ0");
    body.extend_from_slice(&[0x00, 0x00, 0x00, 0x03]);
    body.extend_from_slice(&[0x00, 0x00]);
    body.extend_from_slice(&[0xAA, 0xBB, 0xCC]);

    let tag = musikr::tag::Tag::from_parts(th, &body);
    assert_eq!(tag.frames.len(), 0);
    assert_eq!(tag.unknown_frames.frames().len(), 1);
    assert_eq!(tag.unknown_frames.frames()[0].id_str(), "XYZ0");
    assert_eq!(tag.unknown_frames.frames()[0].body, vec![0xAA, 0xBB, 0xCC]);
}
