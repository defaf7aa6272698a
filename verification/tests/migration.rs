use musikr::collections::FrameMap;
use musikr::compat;
use musikr::frames::{Frame, FrameFlags, FrameHeader};
use musikr::strings::Encoding;
use musikr::tag::Tag;
use musikr::text::{Text, TextFrame};

fn text_frame(id: &str, value: &str) -> Frame {
    Frame::Text(TextFrame {
        header: FrameHeader::with_flags(id, FrameFlags::new()),
        encoding: Encoding::Latin1,
        text: Text::One(String::from(value)),
    })
}

fn joined_text(map: &FrameMap, key: &str) -> String {
    match map.get(&String::from(key)) {
        Some(Frame::Text(t)) => t.text.joined(),
        _ => panic!("expected a text frame under {}", key),
    }
}

#[test]
fn upgrade_merges_date_parts_into_timestamp() {
    let mut map = FrameMap::new();
    map.add(text_frame("TYER", "2004"));
    compat::to_v4(&mut map);

    assert!(!map.contains_key(&String::from("TYER")));
    let merged = joined_text(&map, "TDRC");
    assert!(merged.starts_with("2004"));
    assert_eq!(merged, "2004");
}

#[test]
fn upgrade_composes_full_timestamp() {
    let mut map = FrameMap::new();
    map.add(text_frame("TYER", "2004"));
    map.add(text_frame("TDAT", "0109"));
    map.add(text_frame("TIME", "1230"));
    compat::to_v4(&mut map);

    assert_eq!(joined_text(&map, "TDRC"), "2004-09-01T12:30");
    assert!(!map.contains_key(&String::from("TDAT")));
    assert!(!map.contains_key(&String::from("TIME")));
}

#[test]
fn downgrade_drops_frames_without_analogue() {
    let mut map = FrameMap::new();
    map.add(text_frame("ASPI", "x"));
    map.add(text_frame("TIT2", "Song"));
    compat::to_v3(&mut map);

    assert!(!map.contains_key(&String::from("ASPI")));
    assert!(map.contains_key(&String::from("TIT2")));
}

#[test]
fn downgrade_splits_timestamp() {
    let mut map = FrameMap::new();
    map.add(text_frame("TDRC", "2004-09-01T12:30"));
    compat::to_v3(&mut map);

    assert!(!map.contains_key(&String::from("TDRC")));
    assert_eq!(joined_text(&map, "TYER"), "2004");
    assert_eq!(joined_text(&map, "TDAT"), "0109");
    assert_eq!(joined_text(&map, "TIME"), "1230");
}

#[test]
fn migration_keeps_unrelated_frames() {
    // Frames whose identifiers the tables do not name pass through a
    // migration unchanged, in either direction.
    let mut map = FrameMap::new();
    map.add(text_frame("TIT2", "Song"));
    map.add(text_frame("TALB", "Album"));
    compat::to_v4(&mut map);
    assert_eq!(joined_text(&map, "TIT2"), "Song");
    assert_eq!(joined_text(&map, "TALB"), "Album");
    compat::to_v3(&mut map);
    assert_eq!(joined_text(&map, "TIT2"), "Song");
    assert_eq!(joined_text(&map, "TALB"), "Album");
}

#[test]
fn rename_crosses_versions() {
    let mut map = FrameMap::new();
    map.add(text_frame("TORY", "1999"));
    compat::to_v4(&mut map);
    assert!(!map.contains_key(&String::from("TORY")));
    assert_eq!(joined_text(&map, "TDOR"), "1999");

    compat::to_v3(&mut map);
    assert!(!map.contains_key(&String::from("TDOR")));
    assert_eq!(joined_text(&map, "TORY"), "1999");
}

#[test]
fn tag_update_migrates_and_sets_version() {
    let mut tag = Tag::with_version(musikr::header::SaveVersion::V23);
    tag.frames.add(text_frame("TYER", "2004"));
    tag.update(musikr::header::SaveVersion::V24);

    assert_eq!(tag.header.major, 4);
    assert!(!tag.frames.contains_key(&String::from("TYER")));
    assert!(joined_text(&tag.frames, "TDRC").starts_with("2004"));
}
