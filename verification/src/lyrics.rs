//! Unsynchronized and synchronized lyrics frames.

use crate::error::{ParseError, ParseResult};
use crate::frames::{FrameFlags, FrameHeader};
use crate::header::TagHeader;
use crate::raw;
use crate::raw::{spec_be_u16, spec_be_u32};
use crate::strings;
use crate::strings::{
    spec_encode_text, spec_encoding_code, spec_encoding_from_raw, spec_get_string_post,
    spec_latin1_decode, spec_latin1_encode, spec_nul_size, spec_terminated, utf8_lossy_of, Encoding,
};
use crate::text::spec_nul_bytes;
use crate::time::{spec_timestamp, spec_timestamp_format, Timestamp, TimestampFormat};
use vstd::prelude::*;
use vstd::slice::slice_subrange;

verus! {

/// An unsynchronized lyrics frame (`USLT`): an encoding byte, a
/// three-byte language code, a terminated description, then the lyrics to
/// the end of the body.
#[derive(Debug)]
pub struct UnsyncLyricsFrame {
    /// The frame envelope.
    pub header: FrameHeader,
    /// The text encoding of the body.
    pub encoding: Encoding,
    /// The language code.
    pub lang: String,
    /// The description that disambiguates this frame.
    pub desc: String,
    /// The lyrics text.
    pub lyrics: String,
}

/// What parsing an unsynchronized lyrics body promises.
pub open spec fn spec_unsync_lyrics_post(
    data: Seq<u8>,
    enc: Encoding,
    lang: Seq<char>,
    desc: Seq<char>,
    lyrics: Seq<char>,
) -> bool {
    let term = spec_terminated(enc, data.skip(4));
    &&& enc == spec_encoding_from_raw(data[0])
    &&& lang == spec_latin1_decode(data.subrange(1, 4))
    &&& spec_get_string_post(enc, term.0, desc)
    &&& spec_get_string_post(enc, data.skip(4).skip(term.1), lyrics)
}

impl UnsyncLyricsFrame {
    /// An empty frame.
    pub fn new() -> (r: UnsyncLyricsFrame)
        ensures
            r.header.id@ == "USLT"@,
    {
        Self::with_flags(FrameFlags::new())
    }

    /// An empty frame with the given flags.
    pub fn with_flags(flags: FrameFlags) -> (r: UnsyncLyricsFrame)
        ensures
            r.header.id@ == "USLT"@,
            r.header.flags == flags,
    {
        Self::with_header(FrameHeader::with_flags("USLT", flags))
    }

    /// An empty frame around the given header.
    pub(crate) fn with_header(header: FrameHeader) -> (r: UnsyncLyricsFrame)
        ensures
            r.header == header,
    {
        UnsyncLyricsFrame {
            header,
            encoding: Encoding::default(),
            lang: String::new(),
            desc: String::new(),
            lyrics: String::new(),
        }
    }

    /// The text encoding of the body.
    pub fn encoding(&self) -> (r: Encoding)
        ensures
            r == self.encoding,
    {
        self.encoding
    }

    /// The language code.
    pub fn lang(&self) -> (r: &String)
        ensures
            r@ == self.lang@,
    {
        &self.lang
    }

    /// The description.
    pub fn desc(&self) -> (r: &String)
        ensures
            r@ == self.desc@,
    {
        &self.desc
    }

    /// The lyrics text.
    pub fn lyrics(&self) -> (r: &String)
        ensures
            r@ == self.lyrics@,
    {
        &self.lyrics
    }

    /// Parses the frame body: an encoding byte, a three-byte language
    /// code, a terminated description, then the lyrics.
    pub fn parse(&mut self, _tag_header: &TagHeader, data: &[u8]) -> (r: ParseResult<()>)
        ensures
            r is Ok <==> (data@.len() >= 1 && data@[0] <= 3 && data@.len() as int >= spec_nul_size(
                spec_encoding_from_raw(data@[0]),
            ) + 5),
            r is Ok ==> final(self).header == old(self).header && spec_unsync_lyrics_post(
                data@,
                final(self).encoding,
                final(self).lang@,
                final(self).desc@,
                final(self).lyrics@,
            ),
            r matches Err(e) ==> *final(self) == *old(self) && (e == ParseError::NotEnoughData || e
                == ParseError::MalformedData) && (e == ParseError::MalformedData <==> (data@.len()
                >= 1 && data@[0] > 3)),
    {
        let encoding = match Encoding::parse(data) {
            Ok(e) => e,
            Err(e) => {
                return Err(e);
            },
        };
        if data.len() < encoding.nul_size() + 5 {
            return Err(ParseError::NotEnoughData);
        }
        let lang = strings::get_string(Encoding::Latin1, slice_subrange(data, 1, 4));
        let rest = slice_subrange(data, 4, data.len());
        let (desc, desc_size) = strings::get_terminated_string(encoding, rest);
        let lyrics = strings::get_string(encoding, slice_subrange(rest, desc_size, rest.len()));
        self.encoding = encoding;
        self.lang = lang;
        self.desc = desc;
        self.lyrics = lyrics;
        assert(rest@.skip(spec_terminated(encoding, data@.skip(4)).1) =~= data@.skip(4).skip(
            spec_terminated(encoding, data@.skip(4)).1,
        ));
        Ok(())
    }

    /// Renders the frame body: the encoding byte, the language code, the
    /// terminated description, then the lyrics.
    pub fn render_body(&self) -> (r: Vec<u8>)
        ensures
            r@ == seq![spec_encoding_code(self.encoding)] + spec_latin1_encode(self.lang@)
                + spec_encode_text(self.encoding, self.desc@) + spec_nul_bytes(self.encoding)
                + spec_encode_text(self.encoding, self.lyrics@),
    {
        let mut out: Vec<u8> = Vec::new();
        out.push(self.encoding.render_code());
        let mut lang = strings::latin1_encode(self.lang.as_str());
        out.append(&mut lang);
        let mut desc = strings::encode_text(self.encoding, self.desc.as_str());
        out.append(&mut desc);
        strings::push_terminator(&mut out, self.encoding);
        let mut lyrics = strings::encode_text(self.encoding, self.lyrics.as_str());
        out.append(&mut lyrics);
        assert(out@ =~= seq![spec_encoding_code(self.encoding)] + spec_latin1_encode(self.lang@)
            + spec_encode_text(self.encoding, self.desc@) + spec_nul_bytes(self.encoding)
            + spec_encode_text(self.encoding, self.lyrics@));
        out
    }
}

impl Default for UnsyncLyricsFrame {
    /// An empty frame.
    fn default() -> (r: Self)
        ensures
            r.header.id@ == "USLT"@,
    {
        Self::new()
    }
}

/// The kind of content a synchronized lyrics frame times. Unrecognized
/// bytes map to `Other` so that they stay representable.
#[derive(Clone, Copy, Debug, PartialEq, Eq, Structural)]
pub enum SyncedContentType {
    Other,
    Lyrics,
    TextTranscription,
    Movement,
    Events,
    Chord,
    Trivia,
    WebpageUrls,
    ImageUrls,
}

/// The content kind named by a raw content byte.
pub open spec fn spec_content_type(b: u8) -> SyncedContentType {
    if b == 1 {
        SyncedContentType::Lyrics
    } else if b == 2 {
        SyncedContentType::TextTranscription
    } else if b == 3 {
        SyncedContentType::Movement
    } else if b == 4 {
        SyncedContentType::Events
    } else if b == 5 {
        SyncedContentType::Chord
    } else if b == 6 {
        SyncedContentType::Trivia
    } else if b == 7 {
        SyncedContentType::WebpageUrls
    } else if b == 8 {
        SyncedContentType::ImageUrls
    } else {
        SyncedContentType::Other
    }
}

impl SyncedContentType {
    /// Maps a raw content byte to a content kind; unrecognized bytes are
    /// `Other`.
    pub fn new(b: u8) -> (r: SyncedContentType)
        ensures
            r == spec_content_type(b),
    {
        match b {
            1 => SyncedContentType::Lyrics,
            2 => SyncedContentType::TextTranscription,
            3 => SyncedContentType::Movement,
            4 => SyncedContentType::Events,
            5 => SyncedContentType::Chord,
            6 => SyncedContentType::Trivia,
            7 => SyncedContentType::WebpageUrls,
            8 => SyncedContentType::ImageUrls,
        _ => SyncedContentType::Other,
        }
    }

    /// The raw byte written for this content kind when a frame is
    /// rendered.
    pub fn render_code(&self) -> (r: u8)
        ensures
            r == spec_content_code(*self),
            spec_content_type(r) == *self,
    {
        match self {
            SyncedContentType::Other => 0,
            SyncedContentType::Lyrics => 1,
            SyncedContentType::TextTranscription => 2,
            SyncedContentType::Movement => 3,
            SyncedContentType::Events => 4,
            SyncedContentType::Chord => 5,
            SyncedContentType::Trivia => 6,
            SyncedContentType::WebpageUrls => 7,
            SyncedContentType::ImageUrls => 8,
        }
    }
}

impl Default for SyncedContentType {
    /// The fallback kind for unrecognized content bytes.
    fn default() -> (r: Self)
        ensures
            r == SyncedContentType::Other,
    {
        SyncedContentType::Other
    }
}

/// One timed lyric: its text and when it is sung.
#[derive(Debug)]
pub struct SyncedText {
    /// The lyric text.
    pub text: String,
    /// When the lyric is sung, in the frame's timestamp format.
    pub timestamp: Timestamp,
}

/// The encoding used when a frame's text carries no byte-order mark of
/// its own: for UTF-16 with a mark written only at the description, the
/// description's mark is remembered and reused.
pub open spec fn spec_implicit_encoding(enc: Encoding, data: Seq<u8>) -> Encoding {
    if enc is Utf16 && data.len() >= 9 {
        let bom = spec_be_u16(data[7], data[8]);
        if bom == 0xFFFE {
            Encoding::Utf16Le
        } else if bom == 0xFEFF {
            Encoding::Utf16Be
        } else {
            enc
        }
    } else {
        enc
    }
}

/// The lyric records read from the bytes after the description: each is
/// the byte region of a terminated text, the encoding it is decoded with
/// (the frame's own when the text carries a byte-order mark, the
/// remembered implicit one otherwise), and the four-byte timestamp after
/// it. Reading stops when no whole record remains.
pub open spec fn spec_lyric_items(enc: Encoding, imp: Encoding, b: Seq<u8>) -> Seq<
    (Seq<u8>, Encoding, u32),
>
    decreases b.len(),
{
    if b.len() < 2 {
        Seq::empty()
    } else {
        let bom = spec_be_u16(b[0], b[1]);
        let e2 = if bom != 0xFEFF && bom != 0xFFFE {
            imp
        } else {
            enc
        };
        let t = spec_terminated(e2, b);
        if t.1 + 4 > b.len() || t.1 < 0 {
            Seq::empty()
        } else {
            seq![(t.0, e2, spec_be_u32(b[t.1], b[t.1 + 1], b[t.1 + 2], b[t.1 + 3]) as u32)]
                + spec_lyric_items(enc, imp, b.skip(t.1 + 4))
        }
    }
}

/// A synchronized lyrics frame (`SYLT`): an encoding byte, a language
/// code, a timestamp format byte, a content kind byte, a terminated
/// description, then repeated records of a terminated lyric and its
/// timestamp.
#[derive(Debug)]
pub struct SyncedLyricsFrame {
    /// The frame envelope.
    pub header: FrameHeader,
    /// The text encoding of the body.
    pub encoding: Encoding,
    /// The language code.
    pub lang: String,
    /// The unit of the lyric timestamps.
    pub time_format: TimestampFormat,
    /// What kind of content the lyrics time.
    pub content_type: SyncedContentType,
    /// The description that disambiguates this frame.
    pub desc: String,
    /// The timed lyrics, in reading order.
    pub lyrics: Vec<SyncedText>,
}

/// What parsing a synchronized lyrics body promises for the fixed fields
/// and the description.
pub open spec fn spec_synced_head_post(
    data: Seq<u8>,
    enc: Encoding,
    lang: Seq<char>,
    tf: TimestampFormat,
    ct: SyncedContentType,
    desc: Seq<char>,
) -> bool {
    &&& enc == spec_encoding_from_raw(data[0])
    &&& lang == utf8_lossy_of(data.subrange(1, 4))
    &&& tf == spec_timestamp_format(data[5])
    &&& ct == spec_content_type(data[6])
    &&& spec_get_string_post(enc, spec_terminated(enc, data.skip(7)).0, desc)
}

/// What parsing promises for the lyric records: each holds a decoding of
/// its byte region in its record's encoding, and its timestamp in the
/// frame's format.
pub open spec fn spec_synced_lyrics_post(
    items: Seq<(Seq<u8>, Encoding, u32)>,
    tf: TimestampFormat,
    lyrics: Seq<SyncedText>,
) -> bool {
    &&& lyrics.len() == items.len()
    &&& forall|j: int|
        0 <= j < items.len() ==> spec_get_string_post(
            (#[trigger] items[j]).1,
            items[j].0,
            lyrics[j].text@,
        ) && lyrics[j].timestamp == spec_timestamp(tf, items[j].2)
}

impl SyncedLyricsFrame {
    /// An empty frame.
    pub fn new() -> (r: SyncedLyricsFrame)
        ensures
            r.header.id@ == "SYLT"@,
    {
        Self::with_flags(FrameFlags::new())
    }

    /// An empty frame with the given flags.
    pub fn with_flags(flags: FrameFlags) -> (r: SyncedLyricsFrame)
        ensures
            r.header.id@ == "SYLT"@,
            r.header.flags == flags,
    {
        Self::with_header(FrameHeader::with_flags("SYLT", flags))
    }

    /// An empty frame around the given header.
    pub(crate) fn with_header(header: FrameHeader) -> (r: SyncedLyricsFrame)
        ensures
            r.header == header,
    {
        SyncedLyricsFrame {
            header,
            encoding: Encoding::default(),
            lang: String::new(),
            time_format: TimestampFormat::Other,
            content_type: SyncedContentType::Other,
            desc: String::new(),
            lyrics: Vec::new(),
        }
    }

    /// The text encoding of the body.
    pub fn encoding(&self) -> (r: Encoding)
        ensures
            r == self.encoding,
    {
        self.encoding
    }

    /// The language code.
    pub fn lang(&self) -> (r: &String)
        ensures
            r@ == self.lang@,
    {
        &self.lang
    }

    /// The unit of the lyric timestamps.
    pub fn time_format(&self) -> (r: TimestampFormat)
        ensures
            r == self.time_format,
    {
        self.time_format
    }

    /// What kind of content the lyrics time.
    pub fn content_type(&self) -> (r: SyncedContentType)
        ensures
            r == self.content_type,
    {
        self.content_type
    }

    /// The description.
    pub fn desc(&self) -> (r: &String)
        ensures
            r@ == self.desc@,
    {
        &self.desc
    }

    /// The timed lyrics, in reading order.
    pub fn lyrics(&self) -> (r: &Vec<SyncedText>)
        ensures
            r == &self.lyrics,
    {
        &self.lyrics
    }

    /// Parses the frame body: the fixed fields, the terminated
    /// description, then the lyric records. A record whose text lacks a
    /// byte-order mark is decoded with the mark remembered from the
    /// description.
    #[verifier::rlimit(50)]
    pub fn parse(&mut self, _tag_header: &TagHeader, data: &[u8]) -> (r: ParseResult<()>)
        ensures
            r is Ok <==> (data@.len() >= 1 && data@[0] <= 3 && data@.len() as int >= spec_nul_size(
                spec_encoding_from_raw(data@[0]),
            ) + 6),
            r is Ok ==> final(self).header == old(self).header && spec_synced_head_post(
                data@,
                final(self).encoding,
                final(self).lang@,
                final(self).time_format,
                final(self).content_type,
                final(self).desc@,
            ) && spec_synced_lyrics_post(
                spec_lyric_items(
                    final(self).encoding,
                    spec_implicit_encoding(final(self).encoding, data@),
                    data@.skip(7 + spec_terminated(final(self).encoding, data@.skip(7)).1),
                ),
                final(self).time_format,
                final(self).lyrics@,
            ),
            r matches Err(e) ==> *final(self) == *old(self) && (e == ParseError::NotEnoughData || e
                == ParseError::MalformedData) && (e == ParseError::MalformedData <==> (data@.len()
                >= 1 && data@[0] > 3)),
    {
        let encoding = match Encoding::parse(data) {
            Ok(e) => e,
            Err(e) => {
                return Err(e);
            },
        };
        if data.len() < encoding.nul_size() + 6 {
            return Err(ParseError::NotEnoughData);
        }
        let lang = strings::get_string(Encoding::Utf8, slice_subrange(data, 1, 4));
        let time_format = TimestampFormat::new(data[5]);
        let content_type = SyncedContentType::new(data[6]);
        let desc_region = slice_subrange(data, 7, data.len());
        proof {
            crate::text::lemma_terminated_bound(encoding, desc_region@);
        }
        let (desc, desc_size) = strings::get_terminated_string(encoding, desc_region);

        // A tagger may write the byte-order mark only at the description.
        // Remember the order it names for lyrics that lack their own.
        let implicit_encoding = match encoding {
            Encoding::Utf16 => {
                if data.len() >= 9 {
                    let bom = raw::to_u16(slice_subrange(data, 7, 9));
                    if bom == 0xFFFE {
                        Encoding::Utf16Le
                    } else if bom == 0xFEFF {
                        Encoding::Utf16Be
                    } else {
                        encoding
                    }
                } else {
                    encoding
                }
            },
            _ => encoding,
        };
        assert(implicit_encoding == spec_implicit_encoding(encoding, data@));
        let ghost imp = implicit_encoding;
        let start = 7 + desc_size;
        let ghost all_items = spec_lyric_items(encoding, imp, data@.skip(start as int));
        let mut lyrics: Vec<SyncedText> = Vec::new();
        let ghost mut done: Seq<(Seq<u8>, Encoding, u32)> = Seq::empty();
        let mut pos: usize = start;
        assert(data@.skip(7).skip(desc_size as int) =~= data@.skip(start as int));
        assert(all_items =~= done + spec_lyric_items(encoding, imp, data@.skip(start as int)));
        loop
            invariant_except_break
                start <= pos <= data@.len(),
                all_items == done + spec_lyric_items(encoding, imp, data@.skip(pos as int)),
            invariant
                7 <= start <= data@.len(),
                all_items == spec_lyric_items(encoding, imp, data@.skip(start as int)),
                lyrics@.len() == done.len(),
                forall|j: int|
                    0 <= j < done.len() ==> spec_get_string_post(
                        (#[trigger] done[j]).1,
                        done[j].0,
                        lyrics@[j].text@,
                    ) && lyrics@[j].timestamp == spec_timestamp(
                        spec_timestamp_format(data@[5]),
                        done[j].2,
                    ),
                time_format == spec_timestamp_format(data@[5]),
                imp == implicit_encoding,
            ensures
                all_items == done,
            decreases data@.len() - pos,
        {
            let ghost rem = data@.skip(pos as int);
            if pos >= data.len() - 1 {
                assert(rem.len() < 2);
                assert(spec_lyric_items(encoding, imp, rem) =~= Seq::empty());
                assert(all_items =~= done);
                break ;
            }
            assert(rem[0] == data@[pos as int] && rem[1] == data@[pos as int + 1]);
            let pair = slice_subrange(data, pos, pos + 2);
            assert(pair@[0] == data@[pos as int] && pair@[1] == data@[pos as int + 1]);
            let bom = raw::to_u16(pair);
            assert(bom as int == spec_be_u16(rem[0], rem[1]));
            let enc2 = if bom != 0xFEFF && bom != 0xFFFE {
                implicit_encoding
            } else {
                encoding
            };
            assert(enc2 == (if spec_be_u16(rem[0], rem[1]) != 0xFEFF && spec_be_u16(rem[0], rem[1])
                != 0xFFFE {
                imp
            } else {
                encoding
            }));
            proof {
                crate::text::lemma_terminated_bound(enc2, rem);
            }
            let (text, text_size) = strings::get_terminated_string(
                enc2,
                slice_subrange(data, pos, data.len()),
            );
            let ghost t = spec_terminated(enc2, rem);
            let remaining = data.len() - pos;
            if remaining - text_size < 4 {
                assert(t.1 + 4 > rem.len());
                assert(spec_lyric_items(encoding, imp, rem) =~= Seq::empty());
                assert(all_items =~= done);
                break ;
            }
            let ts_pos = pos + text_size;
            let value = raw::to_u32(slice_subrange(data, ts_pos, ts_pos + 4));
            let timestamp = Timestamp::new(time_format, value);
            lyrics.push(SyncedText { text, timestamp });
            proof {
                assert(rem[t.1] == data@[pos + t.1] && rem[t.1 + 1] == data@[pos + t.1 + 1]
                    && rem[t.1 + 2] == data@[pos + t.1 + 2] && rem[t.1 + 3] == data@[pos + t.1
                    + 3]);
                let item = (t.0, enc2, spec_be_u32(rem[t.1], rem[t.1 + 1], rem[t.1 + 2], rem[t.1 + 3]) as u32);
                assert(spec_lyric_items(encoding, imp, rem) =~= seq![item] + spec_lyric_items(
                    encoding,
                    imp,
                    rem.skip(t.1 + 4),
                ));
                done = done.push(item);
                assert(done + spec_lyric_items(encoding, imp, rem.skip(t.1 + 4)) =~= (
                done.drop_last() + (seq![item] + spec_lyric_items(encoding, imp, rem.skip(t.1 + 4)))));
                assert(data@.skip((ts_pos + 4) as int) =~= rem.skip(t.1 + 4));
            }
            pos = ts_pos + 4;
        }
        self.encoding = encoding;
        self.lang = lang;
        self.time_format = time_format;
        self.content_type = content_type;
        self.desc = desc;
        self.lyrics = lyrics;
        Ok(())
    }

    /// Renders the frame body: the fixed fields (with the padding byte
    /// after the language code that the reader skips), the terminated
    /// description, then each lyric terminated and followed by its
    /// timestamp.
    #[verifier::loop_isolation(false)]
    pub fn render_body(&self) -> (r: Vec<u8>)
        ensures
            r@ == seq![spec_encoding_code(self.encoding)] + spec_latin1_encode(self.lang@) + seq![
                0u8,
            ] + seq![
                crate::time::spec_format_code(self.time_format),
                crate::lyrics::spec_content_code(self.content_type),
            ] + spec_encode_text(self.encoding, self.desc@) + spec_nul_bytes(self.encoding)
                + spec_render_lyric_items(self.encoding, self.lyrics@),
    {
        let mut out: Vec<u8> = Vec::new();
        out.push(self.encoding.render_code());
        let mut lang = strings::latin1_encode(self.lang.as_str());
        out.append(&mut lang);
        out.push(0);
        out.push(self.time_format.render_code());
        out.push(self.content_type.render_code());
        let mut desc = strings::encode_text(self.encoding, self.desc.as_str());
        out.append(&mut desc);
        strings::push_terminator(&mut out, self.encoding);
        let mut items = render_lyric_items(self.encoding, &self.lyrics);
        out.append(&mut items);
        assert(out@ =~= seq![spec_encoding_code(self.encoding)] + spec_latin1_encode(self.lang@)
            + seq![0u8] + seq![
            crate::time::spec_format_code(self.time_format),
            crate::lyrics::spec_content_code(self.content_type),
        ] + spec_encode_text(self.encoding, self.desc@) + spec_nul_bytes(self.encoding)
            + spec_render_lyric_items(self.encoding, self.lyrics@));
        out
    }
}

/// The raw byte a content kind renders as.
pub open spec fn spec_content_code(ct: SyncedContentType) -> u8 {
    match ct {
        SyncedContentType::Other => 0,
        SyncedContentType::Lyrics => 1,
        SyncedContentType::TextTranscription => 2,
        SyncedContentType::Movement => 3,
        SyncedContentType::Events => 4,
        SyncedContentType::Chord => 5,
        SyncedContentType::Trivia => 6,
        SyncedContentType::WebpageUrls => 7,
        SyncedContentType::ImageUrls => 8,
    }
}

/// Renders the lyric records: each lyric terminated, then its timestamp.
#[verifier::loop_isolation(false)]
fn render_lyric_items(enc: Encoding, lyrics: &Vec<SyncedText>) -> (r: Vec<u8>)
    ensures
        r@ == spec_render_lyric_items(enc, lyrics@),
{
    let mut out: Vec<u8> = Vec::new();
    let mut i: usize = 0;
    assert(lyrics@.take(0) =~= Seq::<SyncedText>::empty());
    assert(out@ =~= spec_render_lyric_items(enc, lyrics@.take(0)));
    while i < lyrics.len()
        invariant
            i <= lyrics@.len(),
            out@ == spec_render_lyric_items(enc, lyrics@.take(i as int)),
        decreases lyrics@.len() - i,
    {
        let mut text = strings::encode_text(enc, lyrics[i].text.as_str());
        out.append(&mut text);
        strings::push_terminator(&mut out, enc);
        let mut ts = raw::render_u32(lyrics[i].timestamp.value());
        out.append(&mut ts);
        proof {
            assert(lyrics@.take(i as int + 1).drop_last() =~= lyrics@.take(i as int));
            assert(lyrics@.take(i as int + 1).last() == lyrics@[i as int]);
            assert(out@ =~= spec_render_lyric_items(enc, lyrics@.take(i as int + 1)));
        }
        i = i + 1;
    }
    assert(lyrics@.take(lyrics@.len() as int) =~= lyrics@);
    out
}

/// The rendered lyric records: each lyric terminated in the frame's
/// encoding, then its timestamp as four big-endian bytes.
pub open spec fn spec_render_lyric_items(enc: Encoding, lyrics: Seq<SyncedText>) -> Seq<u8>
    decreases lyrics.len(),
{
    if lyrics.len() == 0 {
        Seq::empty()
    } else {
        spec_render_lyric_items(enc, lyrics.drop_last()) + spec_encode_text(
            enc,
            lyrics.last().text@,
        ) + spec_nul_bytes(enc) + raw::spec_render_u32(lyrics.last().timestamp.spec_value())
    }
}

impl Default for SyncedLyricsFrame {
    /// An empty frame.
    fn default() -> (r: Self)
        ensures
            r.header.id@ == "SYLT"@,
    {
        Self::new()
    }
}

} // verus!
