//! Text encoding and decoding for frame bodies.
//!
//! Frame text is tagged with an encoding byte: Latin-1 (also covering
//! ASCII), UTF-16 with a byte-order mark, UTF-16 big-endian, or UTF-8.
//! Decoding a buffer never fails; malformed byte sequences degrade to the
//! Unicode replacement character. Terminated strings are read up to a NUL
//! terminator, one byte wide for the single-byte encodings and an aligned
//! two-byte pair for the UTF-16 ones.

use crate::error::{ParseError, ParseResult};
use vstd::prelude::*;
use vstd::slice::slice_subrange;

verus! {

/// A frame text encoding.
#[derive(Clone, Copy, Debug, PartialEq, Eq, Structural)]
pub enum Encoding {
    /// Latin-1 (ISO 8859-1); plain ASCII is decoded the same way.
    Latin1,
    /// UTF-16 with a byte-order mark deciding the endianness.
    Utf16,
    /// UTF-16 big-endian, without a byte-order mark.
    Utf16Be,
    /// UTF-16 little-endian. Not a format-level code: it appears when a
    /// byte-order mark written once at the start of a frame has to be
    /// reused for later strings of the same frame.
    Utf16Le,
    /// UTF-8.
    Utf8,
}

/// The encoding selected by a raw encoding byte, with unrecognized bytes
/// falling back to UTF-8.
pub open spec fn spec_encoding_from_raw(flag: u8) -> Encoding {
    if flag == 0 {
        Encoding::Latin1
    } else if flag == 1 {
        Encoding::Utf16
    } else if flag == 2 {
        Encoding::Utf16Be
    } else if flag == 3 {
        Encoding::Utf8
    } else {
        Encoding::Utf8
    }
}

/// The raw byte an encoding renders as.
pub open spec fn spec_encoding_code(enc: Encoding) -> u8 {
    match enc {
        Encoding::Latin1 => 0,
        Encoding::Utf16 => 1,
        Encoding::Utf16Le => 1,
        Encoding::Utf16Be => 2,
        Encoding::Utf8 => 3,
    }
}

/// The width in bytes of the encoding's NUL terminator.
pub open spec fn spec_nul_size(enc: Encoding) -> int {
    match enc {
        Encoding::Latin1 => 1,
        Encoding::Utf8 => 1,
        _ => 2,
    }
}

impl Encoding {
    /// Maps a raw encoding byte to an encoding, permissively: unrecognized
    /// bytes are treated as UTF-8.
    pub fn from_raw(flag: u8) -> (r: Encoding)
        ensures
            r == spec_encoding_from_raw(flag),
    {
        match flag {
            0 => Encoding::Latin1,
            1 => Encoding::Utf16,
            2 => Encoding::Utf16Be,
            3 => Encoding::Utf8,
            _ => Encoding::Utf8,
        }
    }

    /// Maps a raw encoding byte to an encoding, strictly: bytes outside
    /// the format's range fail with `MalformedData`.
    pub fn new(flag: u8) -> (r: ParseResult<Encoding>)
        ensures
            r is Ok <==> flag <= 3,
            r matches Ok(e) ==> e == spec_encoding_from_raw(flag),
            r matches Err(e) ==> e == ParseError::MalformedData,
    {
        match flag {
            0 => Ok(Encoding::Latin1),
            1 => Ok(Encoding::Utf16),
            2 => Ok(Encoding::Utf16Be),
            3 => Ok(Encoding::Utf8),
            _ => Err(ParseError::MalformedData),
        }
    }

    /// Reads the encoding byte at the start of a frame body.
    pub fn parse(data: &[u8]) -> (r: ParseResult<Encoding>)
        ensures
            r is Ok <==> data@.len() > 0 && data@[0] <= 3,
            r matches Ok(e) ==> e == spec_encoding_from_raw(data@[0]),
            r matches Err(e) ==> e == (if data@.len() == 0 {
                ParseError::NotEnoughData
            } else {
                ParseError::MalformedData
            }),
    {
        if data.len() == 0 {
            return Err(ParseError::NotEnoughData);
        }
        Encoding::new(data[0])
    }

    /// The width in bytes of this encoding's NUL terminator.
    pub fn nul_size(&self) -> (r: usize)
        ensures
            r as int == spec_nul_size(*self),
    {
        match self {
            Encoding::Latin1 => 1,
            Encoding::Utf8 => 1,
            _ => 2,
        }
    }

    /// The raw byte written for this encoding when a frame is rendered.
    /// The internal little-endian variant renders as UTF-16 with a
    /// byte-order mark, the form it stood for.
    pub fn render_code(&self) -> (r: u8)
        ensures
            r == spec_encoding_code(*self),
            spec_encoding_from_raw(r) == (if *self is Utf16Le {
                Encoding::Utf16
            } else {
                *self
            }),
    {
        match self {
            Encoding::Latin1 => 0,
            Encoding::Utf16 => 1,
            Encoding::Utf16Le => 1,
            Encoding::Utf16Be => 2,
            Encoding::Utf8 => 3,
        }
    }
}

impl Default for Encoding {
    /// A fresh frame starts with the Latin-1 encoding.
    fn default() -> (r: Self)
        ensures
            r == Encoding::Latin1,
    {
        Encoding::Latin1
    }
}

/// The Latin-1 reading of bytes: each byte is the Unicode code point of
/// the same value.
pub open spec fn spec_latin1_decode(b: Seq<u8>) -> Seq<char> {
    Seq::new(b.len(), |i: int| (b[i] as u32) as char)
}

/// The Latin-1 rendering of text: code points above `0xFF` become `'?'`.
pub open spec fn spec_latin1_encode(s: Seq<char>) -> Seq<u8> {
    Seq::new(s.len(), |i: int| if s[i] as u32 <= 0xFF {
        (s[i] as u32) as u8
    } else {
        0x3Fu8
    })
}

/// The UTF-16 code units read little-endian from consecutive byte pairs;
/// a trailing odd byte is ignored.
pub open spec fn spec_units_le(b: Seq<u8>) -> Seq<u16> {
    Seq::new(b.len() / 2, |i: int| ((b[2 * i + 1] as int) * 0x100 + (b[2 * i] as int)) as u16)
}

/// The UTF-16 code units read big-endian from consecutive byte pairs;
/// a trailing odd byte is ignored.
pub open spec fn spec_units_be(b: Seq<u8>) -> Seq<u16> {
    Seq::new(b.len() / 2, |i: int| ((b[2 * i] as int) * 0x100 + (b[2 * i + 1] as int)) as u16)
}

/// What `String::from_utf8_lossy` returns for the given bytes. The result
/// depends on the bytes alone.
pub uninterp spec fn utf8_lossy_of(b: Seq<u8>) -> Seq<char>;

/// What `String::from_utf16_lossy` returns for the given code units. The
/// result depends on the units alone.
pub uninterp spec fn utf16_lossy_of(u: Seq<u16>) -> Seq<char>;

/// Relies on `String::from_utf8_lossy`: valid UTF-8 decodes unchanged,
/// invalid sequences become replacement characters, and the result is a
/// function of the bytes alone.
#[verifier::external_body]
fn utf8_lossy(data: &[u8]) -> (r: String)
    ensures
        r@ == utf8_lossy_of(data@),
        vstd::utf8::valid_utf8(data@) ==> r@ == vstd::utf8::decode_utf8(data@),
        data@.len() == 0 ==> r@.len() == 0,
{
    String::from_utf8_lossy(data).into_owned()
}

/// Relies on `String::from_utf16_lossy`: code units outside the surrogate
/// range decode to the characters of the same code points, invalid data
/// becomes replacement characters, and the result is a function of the
/// units alone.
#[verifier::external_body]
fn utf16_lossy(units: &[u16]) -> (r: String)
    ensures
        r@ == utf16_lossy_of(units@),
        units@.len() == 0 ==> r@.len() == 0,
        (forall|i: int| 0 <= i < units@.len() ==> !(0xD800 <= #[trigger] units@[i] < 0xE000)) ==> (
        r@.len() == units@.len() && forall|i: int|
            0 <= i < units@.len() ==> #[trigger] r@[i] as u32 == units@[i] as u32),
{
    String::from_utf16_lossy(units)
}

/// Relies on `String::push`: appends exactly the given character.
#[verifier::external_body]
pub fn push_char(s: &mut String, c: char)
    ensures
        final(s)@ == old(s)@.push(c),
{
    s.push(c);
}

/// Relies on `u16::from_ne_bytes`: the machine's native byte order is
/// either little or big endian, so the result is one of the two readings.
#[verifier::external_body]
fn to_u16_ne(a: u8, b: u8) -> (r: u16)
    ensures
        r as int == (b as int) * 0x100 + (a as int) || r as int == (a as int) * 0x100 + (b as int),
{
    u16::from_ne_bytes([a, b])
}

/// Decodes bytes as Latin-1.
fn latin1_decode(data: &[u8]) -> (r: String)
    ensures
        r@ == spec_latin1_decode(data@),
{
    let mut out = String::new();
    let mut pos: usize = 0;
    while pos < data.len()
        invariant
            pos <= data@.len(),
            out@ == spec_latin1_decode(data@.take(pos as int)),
        decreases data@.len() - pos,
    {
        push_char(&mut out, data[pos] as char);
        pos = pos + 1;
        assert(out@ =~= spec_latin1_decode(data@.take(pos as int)));
    }
    assert(data@.take(pos as int) =~= data@);
    out
}

/// Renders text as Latin-1 bytes; characters above `0xFF` become `'?'`.
pub fn latin1_encode(s: &str) -> (r: Vec<u8>)
    ensures
        r@ == spec_latin1_encode(s@),
{
    let n = s.unicode_len();
    let mut out: Vec<u8> = Vec::new();
    let mut pos: usize = 0;
    while pos < n
        invariant
            pos <= n,
            n == s@.len(),
            out@ == spec_latin1_encode(s@.take(pos as int)),
        decreases n - pos,
    {
        let c = s.get_char(pos);
        let u = c as u32;
        if u <= 0xFF {
            out.push(u as u8);
        } else {
            out.push(0x3F);
        }
        pos = pos + 1;
        assert(out@ =~= spec_latin1_encode(s@.take(pos as int)));
    }
    assert(s@.take(pos as int) =~= s@);
    out
}

/// Collects UTF-16 code units from little-endian byte pairs.
fn utf16_units_le(data: &[u8]) -> (r: Vec<u16>)
    ensures
        r@ == spec_units_le(data@),
{
    let mut out: Vec<u16> = Vec::new();
    let mut pos: usize = 0;
    while pos + 1 < data.len()
        invariant
            pos == 2 * out@.len(),
            pos <= data@.len(),
            forall|j: int| 0 <= j < out@.len() ==> out@[j] == spec_units_le(data@)[j],
        decreases data@.len() - pos,
    {
        out.push((data[pos] as u16) + 0x100 * (data[pos + 1] as u16));
        pos = pos + 2;
    }
    assert(out@.len() == data@.len() / 2);
    assert(out@ =~= spec_units_le(data@));
    out
}

/// Collects UTF-16 code units from big-endian byte pairs.
fn utf16_units_be(data: &[u8]) -> (r: Vec<u16>)
    ensures
        r@ == spec_units_be(data@),
{
    let mut out: Vec<u16> = Vec::new();
    let mut pos: usize = 0;
    while pos + 1 < data.len()
        invariant
            pos == 2 * out@.len(),
            pos <= data@.len(),
            forall|j: int| 0 <= j < out@.len() ==> out@[j] == spec_units_be(data@)[j],
        decreases data@.len() - pos,
    {
        out.push(0x100 * (data[pos] as u16) + (data[pos + 1] as u16));
        pos = pos + 2;
    }
    assert(out@.len() == data@.len() / 2);
    assert(out@ =~= spec_units_be(data@));
    out
}

/// Collects UTF-16 code units in the machine's native byte order. Each
/// unit is one of the two endian readings of its byte pair.
fn utf16_units_ne(data: &[u8]) -> (r: Vec<u16>)
    ensures
        r@ == spec_units_le(data@) || r@ == spec_units_be(data@),
{
    // The native order is fixed for the whole machine, so deciding it once
    // keeps the result equal to one reading rather than a per-unit mixture.
    let probe = to_u16_ne(1, 0);
    if probe == 1 {
        utf16_units_le(data)
    } else {
        utf16_units_be(data)
    }
}

/// What `get_string` promises: the decoded text as a function of the
/// encoding and the bytes. For UTF-16 with a byte-order mark the mark
/// picks the unit order; without one the machine's native order is used,
/// so either reading may result.
pub open spec fn spec_get_string_post(enc: Encoding, b: Seq<u8>, r: Seq<char>) -> bool {
    match enc {
        Encoding::Latin1 => r == spec_latin1_decode(b),
        Encoding::Utf8 => r == utf8_lossy_of(b),
        Encoding::Utf16Be => r == utf16_lossy_of(spec_units_be(b)),
        Encoding::Utf16Le => r == utf16_lossy_of(spec_units_le(b)),
        Encoding::Utf16 => {
            if b.len() >= 2 && b[0] == 0xFF && b[1] == 0xFE {
                r == utf16_lossy_of(spec_units_le(b.skip(2)))
            } else if b.len() >= 2 && b[0] == 0xFE && b[1] == 0xFF {
                r == utf16_lossy_of(spec_units_be(b.skip(2)))
            } else {
                r == utf16_lossy_of(spec_units_le(b)) || r == utf16_lossy_of(spec_units_be(b))
            }
        },
    }
}

/// Decodes a whole buffer as text in the given encoding. Never fails:
/// malformed sequences decode to replacement characters.
pub fn get_string(encoding: Encoding, data: &[u8]) -> (r: String)
    ensures
        spec_get_string_post(encoding, data@, r@),
{
    match encoding {
        Encoding::Latin1 => latin1_decode(data),
        Encoding::Utf8 => utf8_lossy(data),
        Encoding::Utf16Be => {
            let units = utf16_units_be(data);
            utf16_lossy(units.as_slice())
        },
        Encoding::Utf16Le => {
            let units = utf16_units_le(data);
            utf16_lossy(units.as_slice())
        },
        Encoding::Utf16 => {
            if data.len() >= 2 && data[0] == 0xFF && data[1] == 0xFE {
                let units = utf16_units_le(slice_subrange(data, 2, data.len()));
                utf16_lossy(units.as_slice())
            } else if data.len() >= 2 && data[0] == 0xFE && data[1] == 0xFF {
                let units = utf16_units_be(slice_subrange(data, 2, data.len()));
                utf16_lossy(units.as_slice())
            } else {
                let units = utf16_units_ne(data);
                utf16_lossy(units.as_slice())
            }
        },
    }
}

/// The first index at or after `i` holding a zero byte.
pub open spec fn spec_find_nul1(b: Seq<u8>, i: int) -> Option<int>
    decreases b.len() - i when 0 <= i <= b.len()
{
    if i >= b.len() {
        None
    } else if b[i] == 0 {
        Some(i)
    } else {
        spec_find_nul1(b, i + 1)
    }
}

/// The first two-byte-aligned index at or after `i` holding a zero pair.
pub open spec fn spec_find_nul2(b: Seq<u8>, i: int) -> Option<int>
    decreases b.len() - i when 0 <= i
{
    if i + 1 >= b.len() {
        None
    } else if b[i] == 0 && b[i + 1] == 0 {
        Some(i)
    } else {
        spec_find_nul2(b, i + 2)
    }
}

/// The bytes of a terminated string and the count of bytes it consumes,
/// terminator included. Without a terminator the whole buffer is
/// consumed; for the two-byte encodings a trailing odd byte is consumed
/// but takes no part in the decoded text.
pub open spec fn spec_terminated(enc: Encoding, b: Seq<u8>) -> (Seq<u8>, int) {
    if spec_nul_size(enc) == 1 {
        match spec_find_nul1(b, 0) {
            Some(i) => (b.take(i), i + 1),
            None => (b, b.len() as int),
        }
    } else {
        match spec_find_nul2(b, 0) {
            Some(i) => (b.take(i), i + 2),
            None => (b.take(2 * ((b.len() / 2) as int)), b.len() as int),
        }
    }
}

/// Splits off a single-byte-terminated string: the bytes before the first
/// zero byte, and the size consumed including the terminator.
pub fn slice_nul_utf8(data: &[u8]) -> (r: (&[u8], usize))
    ensures
        r.1 <= data@.len(),
        match spec_find_nul1(data@, 0) {
            Some(i) => r.0@ == data@.take(i) && r.1 == i + 1,
            None => r.0@ == data@ && r.1 == data@.len(),
        },
{
    let mut pos: usize = 0;
    while pos < data.len()
        invariant
            pos <= data@.len(),
            spec_find_nul1(data@, 0) == spec_find_nul1(data@, pos as int),
        decreases data@.len() - pos,
    {
        if data[pos] == 0 {
            return (slice_subrange(data, 0, pos), pos + 1);
        }
        pos = pos + 1;
    }
    assert(data@.take(data@.len() as int) =~= data@);
    (slice_subrange(data, 0, data.len()), data.len())
}

/// Splits off a two-byte-terminated string: the bytes before the first
/// aligned zero pair, and the size consumed including the terminator.
/// Without a terminator the whole buffer is consumed, a trailing odd
/// byte included, though the string bytes end at the last whole pair.
pub fn slice_nul_utf16(data: &[u8]) -> (r: (&[u8], usize))
    ensures
        r.1 <= data@.len(),
        match spec_find_nul2(data@, 0) {
            Some(i) => r.0@ == data@.take(i) && r.1 == i + 2,
            None => r.0@ == data@.take(2 * ((data@.len() / 2) as int)) && r.1 == data@.len(),
        },
{
    let mut pos: usize = 0;
    while pos + 1 < data.len()
        invariant
            pos <= data@.len(),
            pos % 2 == 0,
            spec_find_nul2(data@, 0) == spec_find_nul2(data@, pos as int),
        decreases data@.len() - pos,
    {
        if data[pos] == 0 && data[pos + 1] == 0 {
            return (slice_subrange(data, 0, pos), pos + 2);
        }
        pos = pos + 2;
    }
    assert(pos as int == 2 * (data@.len() / 2)) by {
        assert(pos % 2 == 0 && pos <= data@.len() && pos + 1 >= data@.len());
    };
    (slice_subrange(data, 0, pos), data.len())
}

/// Reads a terminated string from the start of the buffer. Returns the
/// decoded text and the byte count consumed, terminator included; without
/// a terminator the remaining buffer is consumed whole.
pub fn get_terminated_string(encoding: Encoding, data: &[u8]) -> (r: (String, usize))
    ensures
        r.1 as int == spec_terminated(encoding, data@).1,
        r.1 <= data@.len(),
        spec_get_string_post(encoding, spec_terminated(encoding, data@).0, r.0@),
{
    let one_byte = match encoding {
        Encoding::Latin1 => true,
        Encoding::Utf8 => true,
        _ => false,
    };
    let (string_data, size) = if one_byte {
        slice_nul_utf8(data)
    } else {
        slice_nul_utf16(data)
    };
    let string = get_string(encoding, string_data);
    (string, size)
}

/// The UTF-16 code units of one character: one unit for the basic plane,
/// a surrogate pair above it.
pub open spec fn spec_char_units(c: char) -> Seq<u16> {
    if (c as u32) < 0x10000 {
        seq![(c as u32) as u16]
    } else {
        seq![
            (0xD800 + (((c as u32) - 0x10000) / 0x400)) as u16,
            (0xDC00 + (((c as u32) - 0x10000) % 0x400)) as u16,
        ]
    }
}

/// The UTF-16 code units of a character sequence.
pub open spec fn spec_utf16_units(s: Seq<char>) -> Seq<u16>
    decreases s.len(),
{
    if s.len() == 0 {
        Seq::empty()
    } else {
        spec_char_units(s[0]) + spec_utf16_units(s.skip(1))
    }
}

/// Appending a character appends its code units.
pub proof fn lemma_utf16_units_push(s: Seq<char>, c: char)
    ensures
        spec_utf16_units(s.push(c)) == spec_utf16_units(s) + spec_char_units(c),
    decreases s.len(),
{
    if s.len() == 0 {
        assert(s.push(c).skip(1) =~= Seq::<char>::empty());
        assert(s.push(c)[0] == c);
        assert(spec_utf16_units(Seq::<char>::empty()) == Seq::<u16>::empty());
        assert(spec_utf16_units(s.push(c)) == spec_char_units(c) + Seq::<u16>::empty());
        assert(spec_char_units(c) + Seq::<u16>::empty() =~= spec_utf16_units(s) + spec_char_units(
            c,
        ));
    } else {
        assert(s.push(c).skip(1) =~= s.skip(1).push(c));
        lemma_utf16_units_push(s.skip(1), c);
        assert(spec_utf16_units(s.push(c)) == spec_char_units(s[0]) + (spec_utf16_units(s.skip(1))
            + spec_char_units(c)));
        assert(spec_char_units(s[0]) + (spec_utf16_units(s.skip(1)) + spec_char_units(c)) =~= (
        spec_char_units(s[0]) + spec_utf16_units(s.skip(1))) + spec_char_units(c));
    }
}

/// The little-endian bytes of a sequence of code units.
pub open spec fn spec_le_bytes(us: Seq<u16>) -> Seq<u8> {
    Seq::new(2 * us.len(), |i: int| if i % 2 == 0 {
        ((us[i / 2] as u32) % 0x100) as u8
    } else {
        ((us[i / 2] as u32) / 0x100) as u8
    })
}

/// The big-endian bytes of a sequence of code units.
pub open spec fn spec_be_bytes(us: Seq<u16>) -> Seq<u8> {
    Seq::new(2 * us.len(), |i: int| if i % 2 == 0 {
        ((us[i / 2] as u32) / 0x100) as u8
    } else {
        ((us[i / 2] as u32) % 0x100) as u8
    })
}

/// The rendered bytes of text in the given encoding. UTF-16 with a
/// byte-order mark is written little-endian behind an `FF FE` mark, as is
/// the internal little-endian variant; big-endian UTF-16 is written bare.
pub open spec fn spec_encode_text(enc: Encoding, s: Seq<char>) -> Seq<u8> {
    match enc {
        Encoding::Latin1 => spec_latin1_encode(s),
        Encoding::Utf8 => vstd::utf8::encode_utf8(s),
        Encoding::Utf16Be => spec_be_bytes(spec_utf16_units(s)),
        _ => seq![0xFFu8, 0xFEu8] + spec_le_bytes(spec_utf16_units(s)),
    }
}

/// Collects the UTF-16 code units of a string.
#[verifier::loop_isolation(false)]
fn utf16_units_of_str(s: &str) -> (r: Vec<u16>)
    ensures
        r@ == spec_utf16_units(s@),
{
    let n = s.unicode_len();
    let mut out: Vec<u16> = Vec::new();
    let mut pos: usize = 0;
    assert(s@.take(0) =~= Seq::<char>::empty());
    while pos < n
        invariant
            pos <= n,
            out@ == spec_utf16_units(s@.take(pos as int)),
        decreases n - pos,
    {
        let c = s.get_char(pos);
        proof {
            vstd::utf8::char_is_scalar(c);
            lemma_utf16_units_push(s@.take(pos as int), c);
            assert(s@.take(pos as int).push(c) =~= s@.take(pos as int + 1));
        }
        let u = c as u32;
        if u < 0x10000 {
            out.push(u as u16);
        } else {
            out.push((0xD800 + ((u - 0x10000) / 0x400)) as u16);
            out.push((0xDC00 + ((u - 0x10000) % 0x400)) as u16);
            assert(out@ =~= spec_utf16_units(s@.take(pos as int)) + spec_char_units(c));
        }
        pos = pos + 1;
    }
    assert(s@.take(pos as int) =~= s@);
    out
}

/// Writes code units as little-endian byte pairs.
#[verifier::loop_isolation(false)]
fn le_bytes(units: &Vec<u16>) -> (r: Vec<u8>)
    ensures
        r@ == spec_le_bytes(units@),
{
    let mut out: Vec<u8> = Vec::new();
    let mut i: usize = 0;
    while i < units.len()
        invariant
            i <= units@.len(),
            out@.len() == 2 * i,
            forall|j: int| 0 <= j < out@.len() ==> out@[j] == spec_le_bytes(units@)[j],
        decreases units@.len() - i,
    {
        let u = units[i];
        out.push(((u as u32) % 0x100) as u8);
        out.push(((u as u32) / 0x100) as u8);
        i = i + 1;
    }
    assert(out@ =~= spec_le_bytes(units@));
    out
}

/// Writes code units as big-endian byte pairs.
#[verifier::loop_isolation(false)]
fn be_bytes(units: &Vec<u16>) -> (r: Vec<u8>)
    ensures
        r@ == spec_be_bytes(units@),
{
    let mut out: Vec<u8> = Vec::new();
    let mut i: usize = 0;
    while i < units.len()
        invariant
            i <= units@.len(),
            out@.len() == 2 * i,
            forall|j: int| 0 <= j < out@.len() ==> out@[j] == spec_be_bytes(units@)[j],
        decreases units@.len() - i,
    {
        let u = units[i];
        out.push(((u as u32) / 0x100) as u8);
        out.push(((u as u32) % 0x100) as u8);
        i = i + 1;
    }
    assert(out@ =~= spec_be_bytes(units@));
    out
}

/// Renders text as bytes in the given encoding.
pub fn encode_text(enc: Encoding, s: &str) -> (r: Vec<u8>)
    ensures
        r@ == spec_encode_text(enc, s@),
{
    match enc {
        Encoding::Latin1 => latin1_encode(s),
        Encoding::Utf8 => s.as_bytes_vec(),
        Encoding::Utf16Be => {
            let units = utf16_units_of_str(s);
            be_bytes(&units)
        },
        _ => {
            let units = utf16_units_of_str(s);
            let mut out: Vec<u8> = Vec::new();
            out.push(0xFF);
            out.push(0xFE);
            let mut rest = le_bytes(&units);
            out.append(&mut rest);
            assert(out@ =~= spec_encode_text(enc, s@));
            out
        },
    }
}

/// Appends the encoding's NUL terminator.
pub fn push_terminator(out: &mut Vec<u8>, enc: Encoding)
    ensures
        final(out)@ == old(out)@ + (if spec_nul_size(enc) == 1 {
            seq![0u8]
        } else {
            seq![0u8, 0u8]
        }),
{
    out.push(0);
    if enc.nul_size() == 2 {
        out.push(0);
        assert(out@ =~= old(out)@ + seq![0u8, 0u8]);
    } else {
        assert(out@ =~= old(out)@ + seq![0u8]);
    }
}

/// Compares two string slices by their characters.
pub fn str_eq(a: &str, b: &str) -> (r: bool)
    ensures
        r == (a@ == b@),
{
    let ab = a.as_bytes();
    let bb = b.as_bytes();
    proof {
        vstd::utf8::encode_utf8_valid_utf8(a@);
        vstd::utf8::encode_utf8_valid_utf8(b@);
        vstd::utf8::encode_utf8_decode_utf8(a@);
        vstd::utf8::encode_utf8_decode_utf8(b@);
    }
    if ab.len() != bb.len() {
        return false;
    }
    let mut pos: usize = 0;
    while pos < ab.len()
        invariant
            pos <= ab@.len(),
            ab@.len() == bb@.len(),
            ab@ == vstd::utf8::encode_utf8(a@),
            bb@ == vstd::utf8::encode_utf8(b@),
            vstd::utf8::decode_utf8(ab@) == a@,
            vstd::utf8::decode_utf8(bb@) == b@,
            forall|j: int| 0 <= j < pos ==> ab@[j] == bb@[j],
        decreases ab@.len() - pos,
    {
        if ab[pos] != bb[pos] {
            // The encodings differ, so the texts differ.
            assert(a@ != b@);
            return false;
        }
        pos = pos + 1;
    }
    assert(ab@ =~= bb@);
    assert(a@ == b@);
    true
}

} // verus!
