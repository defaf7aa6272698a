use musikr::error::ParseError;
use musikr::raw;
use musikr::strings;
use musikr::strings::Encoding;
use musikr::syncdata;

#[test]
fn syncsafe_round_trip_values() {
    let values: Vec<u32> = vec![0, 1, 127, 128, 140464, 854058, 0x0FFFFFFF];
    for v in values {
        let encoded = raw::syncsafe_encode(v);
        assert_eq!(encoded.len(), 4);
        for b in &encoded {
            assert!(*b < 0x80);
        }
        let decoded = raw::syncsafe_decode(&encoded).unwrap();
        assert_eq!(decoded, v);
    }
}

#[test]
fn syncsafe_rejects_high_bits() {
    assert_eq!(
        raw::syncsafe_decode(&[0x80, 0x00, 0x00, 0x00]),
        Err(ParseError::MalformedData)
    );
    assert_eq!(
        raw::syncsafe_decode(&[0x00, 0x00, 0x00, 0xFF]),
        Err(ParseError::MalformedData)
    );
    assert_eq!(
        raw::syncsafe_decode(&[0x00, 0x90, 0x00, 0x01]),
        Err(ParseError::MalformedData)
    );
}

#[test]
fn syncsafe_decodes_examples() {
    assert_eq!(raw::syncsafe_decode(&[0x00, 0x08, 0x49, 0x30]).unwrap(), 140464);
    assert_eq!(raw::to_u32(&[0x00, 0x0A, 0x71, 0x7B]), 684411);
    assert_eq!(raw::to_u24(&[0x01, 0x00, 0x01]), 65537);
    assert_eq!(raw::to_u16(&[0x02, 0x01]), 513);
}

#[test]
fn unsync_decode_collapses_stuffing() {
    assert_eq!(syncdata::decode(&[0xFF, 0x00, 0x00, 0x01]), vec![0xFF, 0x00, 0x01]);
    assert_eq!(syncdata::decode(&[0xFF, 0x00, 0xFF, 0x00]), vec![0xFF, 0xFF]);
    assert_eq!(syncdata::decode(&[0x01, 0x02, 0x03]), vec![0x01, 0x02, 0x03]);
}

#[test]
fn unsync_round_trip() {
    let cases: Vec<Vec<u8>> = vec![
        vec![],
        vec![0xFF],
        vec![0xFF, 0x00, 0x01],
        vec![0xFF, 0xFF, 0xFF],
        vec![0x01, 0xFF, 0xE0, 0xFF],
    ];
    for b in cases {
        let encoded = syncdata::encode(&b);
        assert_eq!(syncdata::decode(&encoded), b);
    }
}

#[test]
fn latin1_terminated_decode() {
    let (s, size) = strings::get_terminated_string(Encoding::Latin1, &[0x41, 0x00, 0x42]);
    assert_eq!(s, "A");
    assert_eq!(size, 2);
}

#[test]
fn utf16_bom_terminated_decode() {
    let (s, size) = strings::get_terminated_string(
        Encoding::Utf16,
        &[0xFF, 0xFE, 0x41, 0x00, 0x00, 0x00],
    );
    assert_eq!(s, "A");
    assert_eq!(size, 6);
}

#[test]
fn unterminated_string_consumes_all() {
    let (s, size) = strings::get_terminated_string(Encoding::Latin1, &[0x41, 0x42]);
    assert_eq!(s, "AB");
    assert_eq!(size, 2);

    let (s2, size2) = strings::get_terminated_string(Encoding::Utf16Be, &[0x00, 0x41, 0x00, 0x42]);
    assert_eq!(s2, "AB");
    assert_eq!(size2, 4);

    // An odd-length two-byte buffer is still consumed whole; the trailing
    // byte takes no part in the text.
    let (s3, size3) = strings::get_terminated_string(Encoding::Utf16Be, &[0x00, 0x41, 0x41]);
    assert_eq!(s3, "A");
    assert_eq!(size3, 3);
}

#[test]
fn encoding_byte_mapping() {
    assert_eq!(Encoding::from_raw(0), Encoding::Latin1);
    assert_eq!(Encoding::from_raw(1), Encoding::Utf16);
    assert_eq!(Encoding::from_raw(2), Encoding::Utf16Be);
    assert_eq!(Encoding::from_raw(3), Encoding::Utf8);
    assert_eq!(Encoding::from_raw(9), Encoding::Utf8);

    assert!(Encoding::new(3).is_ok());
    assert_eq!(Encoding::new(4), Err(ParseError::MalformedData));

    assert_eq!(Encoding::Latin1.nul_size(), 1);
    assert_eq!(Encoding::Utf16.nul_size(), 2);
}

#[test]
fn latin1_encode_replaces_wide_chars() {
    assert_eq!(strings::latin1_encode("Ab"), vec![0x41, 0x62]);
    assert_eq!(strings::latin1_encode("\u{00E9}"), vec![0xE9]);
    assert_eq!(strings::latin1_encode("\u{20AC}"), vec![0x3F]);
}

#[test]
fn utf16_encode_writes_byte_order_mark() {
    let bytes = strings::encode_text(Encoding::Utf16, "A");
    assert_eq!(bytes, vec![0xFF, 0xFE, 0x41, 0x00]);

    let be = strings::encode_text(Encoding::Utf16Be, "A");
    assert_eq!(be, vec![0x00, 0x41]);

    let utf8 = strings::encode_text(Encoding::Utf8, "Song");
    assert_eq!(utf8, b"Song".to_vec());
}

#[test]
fn utf8_decode_handles_multibyte() {
    let s = strings::get_string(Encoding::Utf8, &[0xC3, 0xA9]);
    assert_eq!(s, "\u{00E9}");

    // Latin-1 reads the same bytes as two separate characters.
    let l = strings::get_string(Encoding::Latin1, &[0xC3, 0xA9]);
    assert_eq!(l, "\u{00C3}\u{00A9}");
}

#[test]
fn utf16_without_mark_uses_native_order() {
    let s = strings::get_string(Encoding::Utf16, &[0x41, 0x00]);
    assert!(s == "A" || s == "\u{4100}");
}
