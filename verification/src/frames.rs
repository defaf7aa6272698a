//! The frame envelope and the dispatch from identifiers to frame parsers.
//!
//! Every frame starts with a header: an identifier (three characters in
//! ID3v2.2, four from ID3v2.3 on), a size that never counts the header's
//! own bytes (a plain 24-bit value in v2.2, a plain 32-bit value in v2.3,
//! a syncsafe value in v2.4), and, from v2.3 on, two flag bytes whose bit
//! positions differ between v2.3 and v2.4.

use crate::error::{ParseError, ParseResult, SaveError, SaveResult};
use crate::raw;
use crate::raw::{
    spec_be_u24, spec_be_u32, spec_bit_at, spec_render_u32, spec_syncsafe_combine,
    spec_syncsafe_encode, SYNCSAFE_MAX,
};
use crate::chapters::{ChapterFrame, TableOfContentsFrame};
use crate::collections::UnknownFrame;
use crate::events::EventTimingCodesFrame;
use crate::geob::GeneralObjectFrame;
use crate::header::TagHeader;
use crate::lyrics::{SyncedLyricsFrame, UnsyncLyricsFrame};
use crate::owner::{OwnershipFrame, TermsOfUseFrame};
use crate::strings::spec_encoding_from_raw;
use crate::strings::spec_latin1_decode;
use crate::strings::spec_latin1_encode;
use crate::strings::spec_nul_size;
use crate::strings::spec_terminated;
use crate::strings::Encoding;
use crate::text::{CreditsFrame, TextFrame, UserTextFrame};
use crate::url::{UrlFrame, UserUrlFrame};
use vstd::prelude::*;
use vstd::slice::{slice_subrange, slice_to_vec};

verus! {

/// Whether a byte may appear in a frame identifier: an upper-case letter
/// or a digit.
pub open spec fn spec_is_id_byte(b: u8) -> bool {
    (0x41 <= b <= 0x5A) || (0x30 <= b <= 0x39)
}

/// The per-frame flags carried by the two flag bytes of an ID3v2.3 or
/// ID3v2.4 frame header. ID3v2.2 frames have none; all read as false.
#[derive(Clone, Copy, Debug, PartialEq, Eq, Structural)]
pub struct FrameFlags {
    /// Discard the frame if the tag is altered.
    pub tag_should_discard: bool,
    /// Discard the frame if the file's audio is altered.
    pub file_should_discard: bool,
    /// The frame is read-only.
    pub read_only: bool,
    /// The frame body is compressed.
    pub compressed: bool,
    /// The frame body is encrypted.
    pub encrypted: bool,
    /// The frame belongs to a group.
    pub has_group: bool,
    /// The frame body is unsynchronized. ID3v2.4 only.
    pub unsync: bool,
    /// A data-length indicator precedes the body. ID3v2.4 only.
    pub has_data_len: bool,
}

/// Flags with every bit clear.
pub open spec fn spec_frame_flags_clear() -> FrameFlags {
    FrameFlags {
        tag_should_discard: false,
        file_should_discard: false,
        read_only: false,
        compressed: false,
        encrypted: false,
        has_group: false,
        unsync: false,
        has_data_len: false,
    }
}

/// The flags read from the two flag bytes, at the bit positions of the
/// given major version.
pub open spec fn spec_parse_frame_flags(major: u8, b1: u8, b2: u8) -> FrameFlags {
    if major == 3 {
        FrameFlags {
            tag_should_discard: spec_bit_at(0, b1),
            file_should_discard: spec_bit_at(1, b1),
            read_only: spec_bit_at(2, b1),
            compressed: spec_bit_at(0, b2),
            encrypted: spec_bit_at(1, b2),
            has_group: spec_bit_at(2, b2),
            unsync: false,
            has_data_len: false,
        }
    } else {
        FrameFlags {
            tag_should_discard: spec_bit_at(1, b1),
            file_should_discard: spec_bit_at(2, b1),
            read_only: spec_bit_at(3, b1),
            has_group: spec_bit_at(1, b2),
            compressed: spec_bit_at(4, b2),
            encrypted: spec_bit_at(5, b2),
            unsync: spec_bit_at(6, b2),
            has_data_len: spec_bit_at(7, b2),
        }
    }
}

impl FrameFlags {
    /// Flags with every bit clear.
    pub fn new() -> (r: FrameFlags)
        ensures
            r == spec_frame_flags_clear(),
    {
        FrameFlags {
            tag_should_discard: false,
            file_should_discard: false,
            read_only: false,
            compressed: false,
            encrypted: false,
            has_group: false,
            unsync: false,
            has_data_len: false,
        }
    }
}

impl Default for FrameFlags {
    /// Fresh frames carry no flags.
    fn default() -> (r: Self)
        ensures
            r == spec_frame_flags_clear(),
    {
        FrameFlags::new()
    }
}

/// The envelope of a single frame: identifier, declared body size, and
/// per-frame flags.
#[derive(Debug, Clone)]
pub struct FrameHeader {
    /// The frame identifier.
    pub id: String,
    /// The body size declared when the frame was parsed; it excludes the
    /// header's own bytes. Zero for a frame built in memory.
    pub frame_size: u32,
    /// The per-frame flags.
    pub flags: FrameFlags,
}

impl FrameHeader {
    /// A header fit for rendering carries a four-character identifier.
    pub open spec fn wf(&self) -> bool {
        self.id@.len() == 4
    }

    /// A fresh header with the given identifier and flags.
    pub fn with_flags(id: &str, flags: FrameFlags) -> (r: FrameHeader)
        ensures
            r.id@ == id@,
            r.frame_size == 0,
            r.flags == flags,
    {
        FrameHeader { id: String::from_str(id), frame_size: 0, flags }
    }

    /// The frame identifier.
    pub fn id(&self) -> (r: &String)
        ensures
            r@ == self.id@,
    {
        &self.id
    }

    /// The declared body size, excluding the header bytes.
    pub fn size(&self) -> (r: u32)
        ensures
            r == self.frame_size,
    {
        self.frame_size
    }

    /// The per-frame flags.
    pub fn flags(&self) -> (r: &FrameFlags)
        ensures
            r == self.flags,
    {
        &self.flags
    }

    /// Parses a frame header for the given major version: a three- or
    /// four-character identifier of letters and digits, the version's
    /// size layout, and the version's flag bits. An identifier byte
    /// outside the letter and digit ranges is `MalformedData`; this is
    /// what ends the frame loop when padding is reached.
    #[verifier::loop_isolation(false)]
    pub fn parse(major: u8, data: &[u8]) -> (r: ParseResult<FrameHeader>)
        requires
            2 <= major <= 4,
        ensures
            major == 2 ==> (r is Ok <==> (data@.len() >= 6 && spec_is_id_byte(data@[0])
                && spec_is_id_byte(data@[1]) && spec_is_id_byte(data@[2]))),
            major == 2 ==> match r {
                Ok(h) => h.id@ == spec_latin1_decode(data@.subrange(0, 3)) && h.frame_size as int
                    == spec_be_u24(data@[3], data@[4], data@[5]) && h.flags
                    == spec_frame_flags_clear(),
                Err(e) => e == (if data@.len() < 6 {
                    ParseError::NotEnoughData
                } else {
                    ParseError::MalformedData
                }),
            },
            major == 3 ==> (r is Ok <==> (data@.len() >= 10 && spec_is_id_byte(data@[0])
                && spec_is_id_byte(data@[1]) && spec_is_id_byte(data@[2]) && spec_is_id_byte(
                data@[3],
            ))),
            major == 3 ==> match r {
                Ok(h) => h.id@ == spec_latin1_decode(data@.subrange(0, 4)) && h.frame_size as int
                    == spec_be_u32(data@[4], data@[5], data@[6], data@[7]) && h.flags
                    == spec_parse_frame_flags(3, data@[8], data@[9]),
                Err(e) => e == (if data@.len() < 10 {
                    ParseError::NotEnoughData
                } else {
                    ParseError::MalformedData
                }),
            },
            major == 4 ==> (r is Ok <==> (data@.len() >= 10 && spec_is_id_byte(data@[0])
                && spec_is_id_byte(data@[1]) && spec_is_id_byte(data@[2]) && spec_is_id_byte(
                data@[3],
            ) && data@[4] < 0x80 && data@[5] < 0x80 && data@[6] < 0x80 && data@[7] < 0x80)),
            major == 4 ==> match r {
                Ok(h) => h.id@ == spec_latin1_decode(data@.subrange(0, 4)) && h.frame_size
                    == spec_syncsafe_combine(data@[4], data@[5], data@[6], data@[7]) && h.flags
                    == spec_parse_frame_flags(4, data@[8], data@[9]),
                Err(e) => e == (if data@.len() < 10 {
                    ParseError::NotEnoughData
                } else {
                    ParseError::MalformedData
                }),
            },
            r matches Ok(h) ==> h.id@.len() == (if major == 2 {
                3int
            } else {
                4int
            }),
    {
        let id_len: usize = if major == 2 {
            3
        } else {
            4
        };
        let header_len: usize = if major == 2 {
            6
        } else {
            10
        };
        if data.len() < header_len {
            return Err(ParseError::NotEnoughData);
        }
        let mut i: usize = 0;
        while i < id_len
            invariant
                i <= id_len,
                id_len <= data@.len(),
                forall|j: int| 0 <= j < i ==> spec_is_id_byte(data@[j]),
            decreases id_len - i,
        {
            let b = data[i];
            if !((0x41 <= b && b <= 0x5A) || (0x30 <= b && b <= 0x39)) {
                return Err(ParseError::MalformedData);
            }
            i = i + 1;
        }
        let id_slice = slice_subrange(data, 0, id_len);
        let id = crate::strings::get_string(crate::strings::Encoding::Latin1, id_slice);
        if major == 2 {
            let frame_size = raw::to_u24(slice_subrange(data, 3, 6));
            Ok(FrameHeader { id, frame_size, flags: FrameFlags::new() })
        } else if major == 3 {
            let frame_size = raw::to_u32(slice_subrange(data, 4, 8));
            let flags = FrameFlags {
                tag_should_discard: raw::bit_at(0, data[8]),
                file_should_discard: raw::bit_at(1, data[8]),
                read_only: raw::bit_at(2, data[8]),
                compressed: raw::bit_at(0, data[9]),
                encrypted: raw::bit_at(1, data[9]),
                has_group: raw::bit_at(2, data[9]),
                unsync: false,
                has_data_len: false,
            };
            Ok(FrameHeader { id, frame_size, flags })
        } else {
            let frame_size = match raw::syncsafe_decode(slice_subrange(data, 4, 8)) {
                Ok(v) => v,
                Err(e) => {
                    return Err(e);
                },
            };
            let flags = FrameFlags {
                tag_should_discard: raw::bit_at(1, data[8]),
                file_should_discard: raw::bit_at(2, data[8]),
                read_only: raw::bit_at(3, data[8]),
                has_group: raw::bit_at(1, data[9]),
                compressed: raw::bit_at(4, data[9]),
                encrypted: raw::bit_at(5, data[9]),
                unsync: raw::bit_at(6, data[9]),
                has_data_len: raw::bit_at(7, data[9]),
            };
            Ok(FrameHeader { id, frame_size, flags })
        }
    }
}

/// The flags written back for the given major version, as the frame
/// header's two flag bytes. Bits the version does not define are lost.
pub open spec fn spec_render_frame_flags(major: u8, f: FrameFlags) -> Seq<u8> {
    if major == 3 {
        seq![
            ((if f.tag_should_discard {
                0x80u8
            } else {
                0u8
            }) | (if f.file_should_discard {
                0x40u8
            } else {
                0u8
            }) | (if f.read_only {
                0x20u8
            } else {
                0u8
            })),
            ((if f.compressed {
                0x80u8
            } else {
                0u8
            }) | (if f.encrypted {
                0x40u8
            } else {
                0u8
            }) | (if f.has_group {
                0x20u8
            } else {
                0u8
            })),
        ]
    } else {
        seq![
            ((if f.tag_should_discard {
                0x40u8
            } else {
                0u8
            }) | (if f.file_should_discard {
                0x20u8
            } else {
                0u8
            }) | (if f.read_only {
                0x10u8
            } else {
                0u8
            })),
            ((if f.has_group {
                0x40u8
            } else {
                0u8
            }) | (if f.compressed {
                0x08u8
            } else {
                0u8
            }) | (if f.encrypted {
                0x04u8
            } else {
                0u8
            }) | (if f.unsync {
                0x02u8
            } else {
                0u8
            }) | (if f.has_data_len {
                0x01u8
            } else {
                0u8
            })),
        ]
    }
}

/// The rendered frame header for the given major version: the identifier
/// bytes, the body size in the version's layout, and the two flag bytes.
pub open spec fn spec_render_frame_header(
    major: u8,
    id: Seq<char>,
    body_len: u32,
    flags: FrameFlags,
) -> Seq<u8> {
    spec_latin1_encode(id) + (if major == 3 {
        spec_render_u32(body_len)
    } else {
        spec_syncsafe_encode(body_len)
    }) + spec_render_frame_flags(major, flags)
}

/// Renders a frame header followed by its body. A body larger than the
/// syncsafe size limit cannot be written and fails with `TooLarge`.
pub fn render_frame(major: u8, header: &FrameHeader, body: Vec<u8>) -> (r: SaveResult<Vec<u8>>)
    requires
        major == 3 || major == 4,
        header.wf(),
    ensures
        r is Ok <==> body@.len() <= SYNCSAFE_MAX,
        r matches Ok(v) ==> v@ == spec_render_frame_header(
            major,
            header.id@,
            body@.len() as u32,
            header.flags,
        ) + body@,
        r matches Err(e) ==> e == SaveError::TooLarge,
{
    if body.len() > SYNCSAFE_MAX as usize {
        return Err(SaveError::TooLarge);
    }
    let mut out = crate::strings::latin1_encode(header_id_str(header));
    let mut size_bytes = if major == 3 {
        raw::render_u32(body.len() as u32)
    } else {
        raw::syncsafe_encode(body.len() as u32)
    };
    out.append(&mut size_bytes);
    let f = header.flags;
    if major == 3 {
        let b1: u8 = (if f.tag_should_discard {
            0x80u8
        } else {
            0u8
        }) | (if f.file_should_discard {
            0x40u8
        } else {
            0u8
        }) | (if f.read_only {
            0x20u8
        } else {
            0u8
        });
        let b2: u8 = (if f.compressed {
            0x80u8
        } else {
            0u8
        }) | (if f.encrypted {
            0x40u8
        } else {
            0u8
        }) | (if f.has_group {
            0x20u8
        } else {
            0u8
        });
        out.push(b1);
        out.push(b2);
    } else {
        let b1: u8 = (if f.tag_should_discard {
            0x40u8
        } else {
            0u8
        }) | (if f.file_should_discard {
            0x20u8
        } else {
            0u8
        }) | (if f.read_only {
            0x10u8
        } else {
            0u8
        });
        let b2: u8 = (if f.has_group {
            0x40u8
        } else {
            0u8
        }) | (if f.compressed {
            0x08u8
        } else {
            0u8
        }) | (if f.encrypted {
            0x04u8
        } else {
            0u8
        }) | (if f.unsync {
            0x02u8
        } else {
            0u8
        }) | (if f.has_data_len {
            0x01u8
        } else {
            0u8
        });
        out.push(b1);
        out.push(b2);
    }
    let ghost body0 = body@;
    let mut body_bytes = body;
    out.append(&mut body_bytes);
    assert(out@ =~= spec_render_frame_header(major, header.id@, body0.len() as u32, header.flags)
        + body0);
    Ok(out)
}

/// The identifier of a header as a string slice.
fn header_id_str(header: &FrameHeader) -> (r: &str)
    ensures
        r@ == header.id@,
{
    header.id.as_str()
}

/// One parsed frame: a closed set of variants, each owning its envelope
/// and its decoded fields.
#[derive(Debug)]
pub enum Frame {
    Text(TextFrame),
    UserText(UserTextFrame),
    Url(UrlFrame),
    UserUrl(UserUrlFrame),
    Credits(CreditsFrame),
    EventTimingCodes(EventTimingCodesFrame),
    Ownership(OwnershipFrame),
    TermsOfUse(TermsOfUseFrame),
    UnsyncLyrics(UnsyncLyricsFrame),
    SyncedLyrics(SyncedLyricsFrame),
    Chapter(ChapterFrame),
    TableOfContents(TableOfContentsFrame),
    GeneralObject(GeneralObjectFrame),
}

impl Frame {
    /// The envelope of the frame.
    pub open spec fn spec_header(&self) -> FrameHeader {
        match self {
            Frame::Text(f) => f.header,
            Frame::UserText(f) => f.header,
            Frame::Url(f) => f.header,
            Frame::UserUrl(f) => f.header,
            Frame::Credits(f) => f.header,
            Frame::EventTimingCodes(f) => f.header,
            Frame::Ownership(f) => f.header,
            Frame::TermsOfUse(f) => f.header,
            Frame::UnsyncLyrics(f) => f.header,
            Frame::SyncedLyrics(f) => f.header,
            Frame::Chapter(f) => f.header,
            Frame::TableOfContents(f) => f.header,
            Frame::GeneralObject(f) => f.header,
        }
    }

    /// The envelope of the frame.
    pub fn header(&self) -> (r: &FrameHeader)
        ensures
            *r == self.spec_header(),
    {
        match self {
            Frame::Text(f) => &f.header,
            Frame::UserText(f) => &f.header,
            Frame::Url(f) => &f.header,
            Frame::UserUrl(f) => &f.header,
            Frame::Credits(f) => &f.header,
            Frame::EventTimingCodes(f) => &f.header,
            Frame::Ownership(f) => &f.header,
            Frame::TermsOfUse(f) => &f.header,
            Frame::UnsyncLyrics(f) => &f.header,
            Frame::SyncedLyrics(f) => &f.header,
            Frame::Chapter(f) => &f.header,
            Frame::TableOfContents(f) => &f.header,
            Frame::GeneralObject(f) => &f.header,
        }
    }

    /// The frame identifier.
    pub fn id(&self) -> (r: &String)
        ensures
            r@ == self.spec_header().id@,
    {
        self.header().id()
    }

    /// The body size declared when the frame was parsed.
    pub fn size(&self) -> (r: u32)
        ensures
            r == self.spec_header().frame_size,
    {
        self.header().size()
    }

    /// The per-frame flags.
    pub fn flags(&self) -> (r: &FrameFlags)
        ensures
            *r == self.spec_header().flags,
    {
        self.header().flags()
    }

    /// A frame fit for rendering has a four-character identifier, and so
    /// does every frame embedded in it.
    pub open spec fn wf(&self) -> bool
        decreases self,
    {
        &&& self.spec_header().wf()
        &&& match self {
            Frame::Chapter(c) => forall|i: int|
                0 <= i < c.frames.entries@.len() ==> (#[trigger] c.frames.entries@[i]).wf(),
            Frame::TableOfContents(t) => forall|i: int|
                0 <= i < t.frames.entries@.len() ==> (#[trigger] t.frames.entries@[i]).wf(),
            _ => true,
        }
    }

    /// The key that disambiguates this frame in a frame map. It defaults
    /// to the identifier; multi-instance frames append their description,
    /// language or element identifier.
    pub open spec fn spec_key(&self) -> Seq<char> {
        match self {
            Frame::Text(f) => f.header.id@,
            Frame::UserText(f) => f.header.id@ + ":"@ + f.desc@,
            Frame::Url(f) => f.header.id@,
            Frame::UserUrl(f) => f.header.id@ + ":"@ + f.desc@,
            Frame::Credits(f) => f.header.id@,
            Frame::EventTimingCodes(f) => f.header.id@,
            Frame::Ownership(f) => f.header.id@,
            Frame::TermsOfUse(f) => f.text@ + ":"@ + f.lang@,
            Frame::UnsyncLyrics(f) => f.header.id@ + ":"@ + f.desc@ + ":"@ + f.lang@,
            Frame::SyncedLyrics(f) => f.header.id@ + ":"@ + f.desc@ + ":"@ + f.lang@,
            Frame::Chapter(f) => f.header.id@ + ":"@ + f.element_id@,
            Frame::TableOfContents(f) => f.header.id@ + ":"@ + f.element_id@,
            Frame::GeneralObject(f) => f.header.id@ + ":"@ + f.desc@,
        }
    }

    /// The key that disambiguates this frame in a frame map.
    pub fn key(&self) -> (r: String)
        ensures
            r@ == self.spec_key(),
    {
        match self {
            Frame::Text(f) => f.header.id.clone(),
            Frame::UserText(f) => join2(&f.header.id, &f.desc),
            Frame::Url(f) => f.header.id.clone(),
            Frame::UserUrl(f) => join2(&f.header.id, &f.desc),
            Frame::Credits(f) => f.header.id.clone(),
            Frame::EventTimingCodes(f) => f.header.id.clone(),
            Frame::Ownership(f) => f.header.id.clone(),
            Frame::TermsOfUse(f) => join2(&f.text, &f.lang),
            Frame::UnsyncLyrics(f) => join3(&f.header.id, &f.desc, &f.lang),
            Frame::SyncedLyrics(f) => join3(&f.header.id, &f.desc, &f.lang),
            Frame::Chapter(f) => join2(&f.header.id, &f.element_id),
            Frame::TableOfContents(f) => join2(&f.header.id, &f.element_id),
            Frame::GeneralObject(f) => join2(&f.header.id, &f.desc),
        }
    }

    /// Renders the frame for the current tag version: its header, then
    /// its body. Fails with `TooLarge` when the body exceeds the
    /// syncsafe size limit.
    pub fn render(&self, tag_header: &TagHeader) -> (r: SaveResult<Vec<u8>>)
        requires
            tag_header.major == 3 || tag_header.major == 4,
            self.wf(),
        ensures
            r matches Ok(v) ==> v@ == spec_render_frame_header(
                tag_header.major,
                self.spec_header().id@,
                spec_frame_body(tag_header.major, *self).len() as u32,
                self.spec_header().flags,
            ) + spec_frame_body(tag_header.major, *self),
            r matches Err(e) ==> e == SaveError::TooLarge && spec_frame_body(
                tag_header.major,
                *self,
            ).len() > SYNCSAFE_MAX,
            r is Ok <==> spec_frame_body(tag_header.major, *self).len() <= SYNCSAFE_MAX,
        decreases *self, 1int,
    {
        let body = match self {
            Frame::Text(f) => f.render_body(),
            Frame::UserText(f) => f.render_body(),
            Frame::Url(f) => f.render_body(),
            Frame::UserUrl(f) => f.render_body(),
            Frame::Credits(f) => f.render_body(),
            Frame::EventTimingCodes(f) => f.render_body(),
            Frame::Ownership(f) => f.render_body(),
            Frame::TermsOfUse(f) => f.render_body(),
            Frame::UnsyncLyrics(f) => f.render_body(),
            Frame::SyncedLyrics(f) => f.render_body(),
            Frame::Chapter(f) => {
                match f.render_body(tag_header) {
                    Ok(v) => v,
                    Err(e) => {
                        proof {
                            let es = f.frames.entries@;
                            let j = choose|j: int|
                                0 <= j < es.len() && spec_frame_body(
                                    tag_header.major,
                                    #[trigger] es[j],
                                ).len() > SYNCSAFE_MAX;
                            crate::collections::lemma_render_frames_ge(tag_header.major, es, j);
                        }
                        return Err(e);
                    },
                }
            },
            Frame::TableOfContents(f) => {
                match f.render_body(tag_header) {
                    Ok(v) => v,
                    Err(e) => {
                        proof {
                            let es = f.frames.entries@;
                            let j = choose|j: int|
                                0 <= j < es.len() && spec_frame_body(
                                    tag_header.major,
                                    #[trigger] es[j],
                                ).len() > SYNCSAFE_MAX;
                            crate::collections::lemma_render_frames_ge(tag_header.major, es, j);
                        }
                        return Err(e);
                    },
                }
            },
            Frame::GeneralObject(f) => f.render_body(),
        };
        assert(body@ == spec_frame_body(tag_header.major, *self));
        render_frame(tag_header.major, self.header(), body)
    }
}

/// The rendered body bytes of a frame, as its variant's layout defines
/// them for the given major version.
pub open spec fn spec_frame_body(major: u8, f: Frame) -> Seq<u8>
    decreases f,
{
    match f {
        Frame::Text(t) => seq![crate::strings::spec_encoding_code(t.encoding)]
            + crate::strings::spec_encode_text(t.encoding, t.text.spec_joined()),
        Frame::UserText(t) => seq![crate::strings::spec_encoding_code(t.encoding)]
            + crate::strings::spec_encode_text(t.encoding, t.desc@) + crate::text::spec_nul_bytes(
            t.encoding,
        ) + crate::strings::spec_encode_text(t.encoding, t.text.spec_joined()),
        Frame::Url(u) => vstd::utf8::encode_utf8(u.url@),
        Frame::UserUrl(u) => seq![crate::strings::spec_encoding_code(u.encoding)]
            + crate::strings::spec_encode_text(u.encoding, u.desc@) + crate::text::spec_nul_bytes(
            u.encoding,
        ) + vstd::utf8::encode_utf8(u.url@),
        Frame::Credits(c) => seq![crate::strings::spec_encoding_code(c.encoding)]
            + crate::text::spec_render_credit_entries(c.encoding, crate::text::spec_pair_views(c.people@)),
        Frame::EventTimingCodes(e) => crate::events::spec_etco_body(e),
        Frame::Ownership(o) => seq![crate::strings::spec_encoding_code(o.encoding)]
            + crate::strings::spec_latin1_encode(o.price_paid@) + seq![0u8]
            + crate::strings::spec_latin1_encode(o.purchase_date@) + crate::strings::spec_encode_text(
            o.encoding,
            o.seller@,
        ),
        Frame::TermsOfUse(t) => seq![crate::strings::spec_encoding_code(t.encoding)]
            + crate::strings::spec_latin1_encode(t.lang@) + crate::strings::spec_encode_text(
            t.encoding,
            t.text@,
        ),
        Frame::UnsyncLyrics(l) => seq![crate::strings::spec_encoding_code(l.encoding)]
            + crate::strings::spec_latin1_encode(l.lang@) + crate::strings::spec_encode_text(
            l.encoding,
            l.desc@,
        ) + crate::text::spec_nul_bytes(l.encoding) + crate::strings::spec_encode_text(
            l.encoding,
            l.lyrics@,
        ),
        Frame::SyncedLyrics(l) => seq![crate::strings::spec_encoding_code(l.encoding)]
            + crate::strings::spec_latin1_encode(l.lang@) + seq![0u8] + seq![
            crate::time::spec_format_code(l.time_format),
            crate::lyrics::spec_content_code(l.content_type),
        ] + crate::strings::spec_encode_text(l.encoding, l.desc@) + crate::text::spec_nul_bytes(
            l.encoding,
        ) + crate::lyrics::spec_render_lyric_items(l.encoding, l.lyrics@),
        Frame::Chapter(c) => vstd::utf8::encode_utf8(c.element_id@) + seq![0u8]
            + raw::spec_render_u32(c.time.start_time) + raw::spec_render_u32(c.time.end_time)
            + raw::spec_render_u32(c.time.start_offset) + raw::spec_render_u32(c.time.end_offset)
            + spec_render_frames(major, c.frames.entries@),
        Frame::TableOfContents(t) => vstd::utf8::encode_utf8(t.element_id@) + seq![0u8] + seq![
            crate::chapters::spec_toc_flag_byte(t.flags),
            t.elements@.len() as u8,
        ] + crate::chapters::spec_render_toc_elements(t.elements@) + spec_render_frames(
            major,
            t.frames.entries@,
        ),
        Frame::GeneralObject(g) => seq![crate::strings::spec_encoding_code(g.encoding)]
            + crate::strings::spec_encode_text(g.encoding, g.mime@) + crate::text::spec_nul_bytes(
            g.encoding,
        ) + crate::strings::spec_encode_text(g.encoding, g.filename@)
            + crate::text::spec_nul_bytes(g.encoding) + crate::strings::spec_encode_text(
            g.encoding,
            g.desc@,
        ) + crate::text::spec_nul_bytes(g.encoding) + g.data@,
    }
}

/// The rendered frames of a map, in order: each frame's header for the
/// given version, then its body.
pub open spec fn spec_render_frames(major: u8, es: Seq<Frame>) -> Seq<u8>
    decreases es,
{
    if es.len() == 0 {
        Seq::empty()
    } else {
        spec_render_frames(major, es.drop_last()) + spec_render_frame_header(
            major,
            es.last().spec_header().id@,
            spec_frame_body(major, es.last()).len() as u32,
            es.last().spec_header().flags,
        ) + spec_frame_body(major, es.last())
    }
}

/// Joins two strings with a separating colon.
fn join2(a: &String, b: &String) -> (r: String)
    ensures
        r@ == a@ + ":"@ + b@,
{
    let mut out = a.clone();
    out.append(":");
    out.append(b.as_str());
    out
}

/// Joins three strings with separating colons.
fn join3(a: &String, b: &String, c: &String) -> (r: String)
    ensures
        r@ == a@ + ":"@ + b@ + ":"@ + c@,
{
    let mut out = a.clone();
    out.append(":");
    out.append(b.as_str());
    out.append(":");
    out.append(c.as_str());
    out
}
/// The ID3v2.3 identifier an ID3v2.2 identifier upgrades to, where a
/// mapping exists.
pub open spec fn spec_upgrade_v2(b0: u8, b1: u8, b2: u8) -> Option<(u8, u8, u8, u8)> {
    if false {
        None
    } else if b0 == 0x54 && b1 == 0x54 && b2 == 0x31 {
        Some((0x54, 0x49, 0x54, 0x31))
    } else if b0 == 0x54 && b1 == 0x54 && b2 == 0x32 {
        Some((0x54, 0x49, 0x54, 0x32))
    } else if b0 == 0x54 && b1 == 0x54 && b2 == 0x33 {
        Some((0x54, 0x49, 0x54, 0x33))
    } else if b0 == 0x54 && b1 == 0x50 && b2 == 0x31 {
        Some((0x54, 0x50, 0x45, 0x31))
    } else if b0 == 0x54 && b1 == 0x50 && b2 == 0x32 {
        Some((0x54, 0x50, 0x45, 0x32))
    } else if b0 == 0x54 && b1 == 0x50 && b2 == 0x33 {
        Some((0x54, 0x50, 0x45, 0x33))
    } else if b0 == 0x54 && b1 == 0x50 && b2 == 0x34 {
        Some((0x54, 0x50, 0x45, 0x34))
    } else if b0 == 0x54 && b1 == 0x41 && b2 == 0x4C {
        Some((0x54, 0x41, 0x4C, 0x42))
    } else if b0 == 0x54 && b1 == 0x42 && b2 == 0x50 {
        Some((0x54, 0x42, 0x50, 0x4D))
    } else if b0 == 0x54 && b1 == 0x43 && b2 == 0x4D {
        Some((0x54, 0x43, 0x4F, 0x4D))
    } else if b0 == 0x54 && b1 == 0x43 && b2 == 0x4F {
        Some((0x54, 0x43, 0x4F, 0x4E))
    } else if b0 == 0x54 && b1 == 0x44 && b2 == 0x59 {
        Some((0x54, 0x44, 0x4C, 0x59))
    } else if b0 == 0x54 && b1 == 0x45 && b2 == 0x4E {
        Some((0x54, 0x45, 0x4E, 0x43))
    } else if b0 == 0x54 && b1 == 0x4B && b2 == 0x45 {
        Some((0x54, 0x4B, 0x45, 0x59))
    } else if b0 == 0x54 && b1 == 0x4C && b2 == 0x41 {
        Some((0x54, 0x4C, 0x41, 0x4E))
    } else if b0 == 0x54 && b1 == 0x4C && b2 == 0x45 {
        Some((0x54, 0x4C, 0x45, 0x4E))
    } else if b0 == 0x54 && b1 == 0x4F && b2 == 0x41 {
        Some((0x54, 0x4F, 0x50, 0x45))
    } else if b0 == 0x54 && b1 == 0x4F && b2 == 0x4C {
        Some((0x54, 0x4F, 0x4C, 0x59))
    } else if b0 == 0x54 && b1 == 0x4F && b2 == 0x54 {
        Some((0x54, 0x4F, 0x41, 0x4C))
    } else if b0 == 0x54 && b1 == 0x50 && b2 == 0x41 {
        Some((0x54, 0x50, 0x4F, 0x53))
    } else if b0 == 0x54 && b1 == 0x50 && b2 == 0x42 {
        Some((0x54, 0x50, 0x55, 0x42))
    } else if b0 == 0x54 && b1 == 0x52 && b2 == 0x43 {
        Some((0x54, 0x53, 0x52, 0x43))
    } else if b0 == 0x54 && b1 == 0x52 && b2 == 0x4B {
        Some((0x54, 0x52, 0x43, 0x4B))
    } else if b0 == 0x54 && b1 == 0x53 && b2 == 0x53 {
        Some((0x54, 0x53, 0x53, 0x45))
    } else if b0 == 0x54 && b1 == 0x58 && b2 == 0x54 {
        Some((0x54, 0x45, 0x58, 0x54))
    } else if b0 == 0x54 && b1 == 0x58 && b2 == 0x58 {
        Some((0x54, 0x58, 0x58, 0x58))
    } else if b0 == 0x54 && b1 == 0x59 && b2 == 0x45 {
        Some((0x54, 0x59, 0x45, 0x52))
    } else if b0 == 0x54 && b1 == 0x44 && b2 == 0x41 {
        Some((0x54, 0x44, 0x41, 0x54))
    } else if b0 == 0x54 && b1 == 0x49 && b2 == 0x4D {
        Some((0x54, 0x49, 0x4D, 0x45))
    } else if b0 == 0x54 && b1 == 0x4F && b2 == 0x52 {
        Some((0x54, 0x4F, 0x52, 0x59))
    } else if b0 == 0x57 && b1 == 0x58 && b2 == 0x58 {
        Some((0x57, 0x58, 0x58, 0x58))
    } else if b0 == 0x57 && b1 == 0x41 && b2 == 0x46 {
        Some((0x57, 0x4F, 0x41, 0x46))
    } else if b0 == 0x57 && b1 == 0x41 && b2 == 0x52 {
        Some((0x57, 0x4F, 0x41, 0x52))
    } else if b0 == 0x57 && b1 == 0x41 && b2 == 0x53 {
        Some((0x57, 0x4F, 0x41, 0x53))
    } else if b0 == 0x57 && b1 == 0x43 && b2 == 0x4D {
        Some((0x57, 0x43, 0x4F, 0x4D))
    } else if b0 == 0x57 && b1 == 0x43 && b2 == 0x50 {
        Some((0x57, 0x43, 0x4F, 0x50))
    } else if b0 == 0x57 && b1 == 0x50 && b2 == 0x42 {
        Some((0x57, 0x50, 0x55, 0x42))
    } else if b0 == 0x55 && b1 == 0x4C && b2 == 0x54 {
        Some((0x55, 0x53, 0x4C, 0x54))
    } else if b0 == 0x53 && b1 == 0x4C && b2 == 0x54 {
        Some((0x53, 0x59, 0x4C, 0x54))
    } else if b0 == 0x45 && b1 == 0x54 && b2 == 0x43 {
        Some((0x45, 0x54, 0x43, 0x4F))
    } else if b0 == 0x47 && b1 == 0x45 && b2 == 0x4F {
        Some((0x47, 0x45, 0x4F, 0x42))
    } else if b0 == 0x49 && b1 == 0x50 && b2 == 0x4C {
        Some((0x49, 0x50, 0x4C, 0x53))
    } else {
        None
    }
}

/// Upgrades a three-character ID3v2.2 identifier to its ID3v2.3 form.
pub fn upgrade_v2_id(b0: u8, b1: u8, b2: u8) -> (r: Option<(u8, u8, u8, u8)>)
    ensures
        r == spec_upgrade_v2(b0, b1, b2),
{
    match (b0, b1, b2) {
        (0x54, 0x54, 0x31) => Some((0x54, 0x49, 0x54, 0x31)),
        (0x54, 0x54, 0x32) => Some((0x54, 0x49, 0x54, 0x32)),
        (0x54, 0x54, 0x33) => Some((0x54, 0x49, 0x54, 0x33)),
        (0x54, 0x50, 0x31) => Some((0x54, 0x50, 0x45, 0x31)),
        (0x54, 0x50, 0x32) => Some((0x54, 0x50, 0x45, 0x32)),
        (0x54, 0x50, 0x33) => Some((0x54, 0x50, 0x45, 0x33)),
        (0x54, 0x50, 0x34) => Some((0x54, 0x50, 0x45, 0x34)),
        (0x54, 0x41, 0x4C) => Some((0x54, 0x41, 0x4C, 0x42)),
        (0x54, 0x42, 0x50) => Some((0x54, 0x42, 0x50, 0x4D)),
        (0x54, 0x43, 0x4D) => Some((0x54, 0x43, 0x4F, 0x4D)),
        (0x54, 0x43, 0x4F) => Some((0x54, 0x43, 0x4F, 0x4E)),
        (0x54, 0x44, 0x59) => Some((0x54, 0x44, 0x4C, 0x59)),
        (0x54, 0x45, 0x4E) => Some((0x54, 0x45, 0x4E, 0x43)),
        (0x54, 0x4B, 0x45) => Some((0x54, 0x4B, 0x45, 0x59)),
        (0x54, 0x4C, 0x41) => Some((0x54, 0x4C, 0x41, 0x4E)),
        (0x54, 0x4C, 0x45) => Some((0x54, 0x4C, 0x45, 0x4E)),
        (0x54, 0x4F, 0x41) => Some((0x54, 0x4F, 0x50, 0x45)),
        (0x54, 0x4F, 0x4C) => Some((0x54, 0x4F, 0x4C, 0x59)),
        (0x54, 0x4F, 0x54) => Some((0x54, 0x4F, 0x41, 0x4C)),
        (0x54, 0x50, 0x41) => Some((0x54, 0x50, 0x4F, 0x53)),
        (0x54, 0x50, 0x42) => Some((0x54, 0x50, 0x55, 0x42)),
        (0x54, 0x52, 0x43) => Some((0x54, 0x53, 0x52, 0x43)),
        (0x54, 0x52, 0x4B) => Some((0x54, 0x52, 0x43, 0x4B)),
        (0x54, 0x53, 0x53) => Some((0x54, 0x53, 0x53, 0x45)),
        (0x54, 0x58, 0x54) => Some((0x54, 0x45, 0x58, 0x54)),
        (0x54, 0x58, 0x58) => Some((0x54, 0x58, 0x58, 0x58)),
        (0x54, 0x59, 0x45) => Some((0x54, 0x59, 0x45, 0x52)),
        (0x54, 0x44, 0x41) => Some((0x54, 0x44, 0x41, 0x54)),
        (0x54, 0x49, 0x4D) => Some((0x54, 0x49, 0x4D, 0x45)),
        (0x54, 0x4F, 0x52) => Some((0x54, 0x4F, 0x52, 0x59)),
        (0x57, 0x58, 0x58) => Some((0x57, 0x58, 0x58, 0x58)),
        (0x57, 0x41, 0x46) => Some((0x57, 0x4F, 0x41, 0x46)),
        (0x57, 0x41, 0x52) => Some((0x57, 0x4F, 0x41, 0x52)),
        (0x57, 0x41, 0x53) => Some((0x57, 0x4F, 0x41, 0x53)),
        (0x57, 0x43, 0x4D) => Some((0x57, 0x43, 0x4F, 0x4D)),
        (0x57, 0x43, 0x50) => Some((0x57, 0x43, 0x4F, 0x50)),
        (0x57, 0x50, 0x42) => Some((0x57, 0x50, 0x55, 0x42)),
        (0x55, 0x4C, 0x54) => Some((0x55, 0x53, 0x4C, 0x54)),
        (0x53, 0x4C, 0x54) => Some((0x53, 0x59, 0x4C, 0x54)),
        (0x45, 0x54, 0x43) => Some((0x45, 0x54, 0x43, 0x4F)),
        (0x47, 0x45, 0x4F) => Some((0x47, 0x45, 0x4F, 0x42)),
        (0x49, 0x50, 0x4C) => Some((0x49, 0x50, 0x4C, 0x53)),
        _ => None,
    }
}

/// How deep embedded frames are followed: a chapter or table of contents
/// nested more deeply than this is not parsed further, bounding stack use
/// against adversarial input.
pub const EMBED_DEPTH_LIMIT: u32 = 8;

/// The parser a frame identifier selects.
#[derive(Clone, Copy, Debug, PartialEq, Eq, Structural)]
pub enum FrameKind {
    Text,
    UserText,
    Url,
    UserUrl,
    Credits,
    EventTimingCodes,
    Ownership,
    TermsOfUse,
    UnsyncLyrics,
    SyncedLyrics,
    Chapter,
    TableOfContents,
    GeneralObject,
    Unknown,
}

/// The parser selected by four identifier bytes: the special identifiers
/// first, then any `T...` as plain text and any `W...` as a plain link;
/// everything else is unknown.
pub open spec fn spec_classify(id: Seq<u8>) -> FrameKind {
    if id.len() != 4 {
        FrameKind::Unknown
    } else if id[0] == 0x54 && id[1] == 0x58 && id[2] == 0x58 && id[3] == 0x58 {
        FrameKind::UserText
    } else if (id[0] == 0x54 && id[1] == 0x49 && id[2] == 0x50 && id[3] == 0x4C) || (id[0] == 0x54
        && id[1] == 0x4D && id[2] == 0x43 && id[3] == 0x4C) || (id[0] == 0x49 && id[1] == 0x50
        && id[2] == 0x4C && id[3] == 0x53) {
        FrameKind::Credits
    } else if id[0] == 0x54 {
        FrameKind::Text
    } else if id[0] == 0x57 && id[1] == 0x58 && id[2] == 0x58 && id[3] == 0x58 {
        FrameKind::UserUrl
    } else if id[0] == 0x57 {
        FrameKind::Url
    } else if id[0] == 0x45 && id[1] == 0x54 && id[2] == 0x43 && id[3] == 0x4F {
        FrameKind::EventTimingCodes
    } else if id[0] == 0x4F && id[1] == 0x57 && id[2] == 0x4E && id[3] == 0x45 {
        FrameKind::Ownership
    } else if id[0] == 0x55 && id[1] == 0x53 && id[2] == 0x45 && id[3] == 0x52 {
        FrameKind::TermsOfUse
    } else if id[0] == 0x55 && id[1] == 0x53 && id[2] == 0x4C && id[3] == 0x54 {
        FrameKind::UnsyncLyrics
    } else if id[0] == 0x53 && id[1] == 0x59 && id[2] == 0x4C && id[3] == 0x54 {
        FrameKind::SyncedLyrics
    } else if id[0] == 0x43 && id[1] == 0x48 && id[2] == 0x41 && id[3] == 0x50 {
        FrameKind::Chapter
    } else if id[0] == 0x43 && id[1] == 0x54 && id[2] == 0x4F && id[3] == 0x43 {
        FrameKind::TableOfContents
    } else if id[0] == 0x47 && id[1] == 0x45 && id[2] == 0x4F && id[3] == 0x42 {
        FrameKind::GeneralObject
    } else {
        FrameKind::Unknown
    }
}

/// Selects the parser for four identifier bytes.
pub fn classify(b0: u8, b1: u8, b2: u8, b3: u8) -> (r: FrameKind)
    ensures
        r == spec_classify(seq![b0, b1, b2, b3]),
{
    let ghost id = seq![b0, b1, b2, b3];
    assert(id.len() == 4 && id[0] == b0 && id[1] == b1 && id[2] == b2 && id[3] == b3);
    if b0 == 0x54 && b1 == 0x58 && b2 == 0x58 && b3 == 0x58 {
        FrameKind::UserText
    } else if (b0 == 0x54 && b1 == 0x49 && b2 == 0x50 && b3 == 0x4C) || (b0 == 0x54 && b1 == 0x4D
        && b2 == 0x43 && b3 == 0x4C) || (b0 == 0x49 && b1 == 0x50 && b2 == 0x4C && b3 == 0x53) {
        FrameKind::Credits
    } else if b0 == 0x54 {
        FrameKind::Text
    } else if b0 == 0x57 && b1 == 0x58 && b2 == 0x58 && b3 == 0x58 {
        FrameKind::UserUrl
    } else if b0 == 0x57 {
        FrameKind::Url
    } else if b0 == 0x45 && b1 == 0x54 && b2 == 0x43 && b3 == 0x4F {
        FrameKind::EventTimingCodes
    } else if b0 == 0x4F && b1 == 0x57 && b2 == 0x4E && b3 == 0x45 {
        FrameKind::Ownership
    } else if b0 == 0x55 && b1 == 0x53 && b2 == 0x45 && b3 == 0x52 {
        FrameKind::TermsOfUse
    } else if b0 == 0x55 && b1 == 0x53 && b2 == 0x4C && b3 == 0x54 {
        FrameKind::UnsyncLyrics
    } else if b0 == 0x53 && b1 == 0x59 && b2 == 0x4C && b3 == 0x54 {
        FrameKind::SyncedLyrics
    } else if b0 == 0x43 && b1 == 0x48 && b2 == 0x41 && b3 == 0x50 {
        FrameKind::Chapter
    } else if b0 == 0x43 && b1 == 0x54 && b2 == 0x4F && b3 == 0x43 {
        FrameKind::TableOfContents
    } else if b0 == 0x47 && b1 == 0x45 && b2 == 0x4F && b3 == 0x42 {
        FrameKind::GeneralObject
    } else {
        FrameKind::Unknown
    }
}

/// The envelope read at a position of a buffer, if a whole frame fits
/// there: the raw identifier bytes, the declared size, the flags, and
/// the body bounds.
pub open spec fn spec_slot(major: u8, b: Seq<u8>, pos: int) -> Option<
    (Seq<u8>, u32, FrameFlags, int, int),
> {
    let rest = b.skip(pos);
    let hsize: int = if major == 2 {
        6int
    } else {
        10int
    };
    let idlen: int = if major == 2 {
        3int
    } else {
        4int
    };
    if pos < 0 || pos > b.len() || rest.len() < hsize {
        None
    } else if !(forall|i: int| 0 <= i < idlen ==> spec_is_id_byte(#[trigger] rest[i])) {
        None
    } else if major == 4 && !(rest[4] < 0x80 && rest[5] < 0x80 && rest[6] < 0x80 && rest[7]
        < 0x80) {
        None
    } else {
        let size: u32 = if major == 2 {
            spec_be_u24(rest[3], rest[4], rest[5]) as u32
        } else if major == 3 {
            spec_be_u32(rest[4], rest[5], rest[6], rest[7]) as u32
        } else {
            spec_syncsafe_combine(rest[4], rest[5], rest[6], rest[7])
        };
        let flags = if major == 2 {
            spec_frame_flags_clear()
        } else {
            spec_parse_frame_flags(major, rest[hsize - 2], rest[hsize - 1])
        };
        if pos + hsize + size > b.len() {
            None
        } else {
            Some((rest.subrange(0, idlen), size, flags, pos + hsize, pos + hsize + size))
        }
    }
}

/// The four identifier bytes a slot's parser is selected by: the raw
/// bytes from ID3v2.3 on, the upgraded form for ID3v2.2.
pub open spec fn spec_upgraded_id(major: u8, id: Seq<u8>) -> Option<Seq<u8>> {
    if major == 2 {
        if id.len() == 3 {
            match spec_upgrade_v2(id[0], id[1], id[2]) {
                Some(n) => Some(seq![n.0, n.1, n.2, n.3]),
                None => None,
            }
        } else {
            None
        }
    } else {
        Some(id)
    }
}

/// Whether a known parser accepts a body: the condition under which the
/// variant's `parse` succeeds.
pub open spec fn spec_parse_ok(kind: FrameKind, body: Seq<u8>) -> bool {
    match kind {
        FrameKind::Text => body.len() >= 1 && body[0] <= 3,
        FrameKind::UserText => body.len() >= 1 && body[0] <= 3,
        FrameKind::Url => body.len() >= 1,
        FrameKind::UserUrl => body.len() >= 1 && body[0] <= 3,
        FrameKind::Credits => body.len() >= 1 && body[0] <= 3,
        FrameKind::EventTimingCodes => body.len() >= 1,
        FrameKind::Ownership => body.len() >= 1 && body[0] <= 3 && body.len() as int
            >= spec_nul_size(spec_encoding_from_raw(body[0])) + 9 && 1 + spec_terminated(
            Encoding::Latin1,
            body.skip(1),
        ).1 + 8 <= body.len(),
        FrameKind::TermsOfUse => body.len() >= 4 && body[0] <= 3,
        FrameKind::UnsyncLyrics => body.len() >= 1 && body[0] <= 3 && body.len() as int
            >= spec_nul_size(spec_encoding_from_raw(body[0])) + 5,
        FrameKind::SyncedLyrics => body.len() >= 1 && body[0] <= 3 && body.len() as int
            >= spec_nul_size(spec_encoding_from_raw(body[0])) + 6,
        FrameKind::Chapter => body.len() >= 18 && crate::chapters::spec_chapter_embed_start(body)
            <= body.len(),
        FrameKind::TableOfContents => body.len() >= 4 && spec_terminated(Encoding::Utf8, body).1 + 2
            <= body.len(),
        FrameKind::GeneralObject => body.len() >= 1,
        FrameKind::Unknown => false,
    }
}

/// How a parsed frame relates to the slot it was read from: its envelope
/// carries the slot's identifier, size and flags, and its fields are a
/// decoding of the body under its variant's layout. For the embedding
/// variants the nested frames match the region's own chain of parseable
/// frames, one nesting level down.
pub open spec fn spec_frame_matches(
    f: Frame,
    id4: Seq<u8>,
    size: u32,
    flags: FrameFlags,
    body: Seq<u8>,
    major: u8,
    depth: u32,
) -> bool
    decreases depth, 1int,
{
    &&& f.spec_header().id@ == spec_latin1_decode(id4)
    &&& f.spec_header().frame_size == size
    &&& f.spec_header().flags == flags
    &&& match f {
        Frame::Text(t) => spec_classify(id4) is Text && t.encoding == spec_encoding_from_raw(
            body[0],
        ) && crate::text::spec_text_post(t.encoding, body.skip(1), t.text),
        Frame::UserText(t) => spec_classify(id4) is UserText && crate::text::spec_user_text_post(
            body,
            t.encoding,
            t.desc@,
            t.text,
        ),
        Frame::Url(u) => spec_classify(id4) is Url && u.url@ == crate::strings::utf8_lossy_of(body),
        Frame::UserUrl(u) => spec_classify(id4) is UserUrl && crate::url::spec_user_url_post(
            body,
            u.encoding,
            u.desc@,
            u.url@,
        ),
        Frame::Credits(c) => spec_classify(id4) is Credits && c.encoding == spec_encoding_from_raw(
            body[0],
        ) && crate::text::spec_credits_post(c.encoding, body.skip(1), c.people@),
        Frame::EventTimingCodes(e) => spec_classify(id4) is EventTimingCodes
            && crate::events::spec_events_post(body, e.time_format, e.events@),
        Frame::Ownership(o) => spec_classify(id4) is Ownership && crate::owner::spec_ownership_post(
            body,
            o.encoding,
            o.price_paid@,
            o.purchase_date@,
            o.seller@,
        ),
        Frame::TermsOfUse(t) => spec_classify(id4) is TermsOfUse && crate::owner::spec_terms_post(
            body,
            t.encoding,
            t.lang@,
            t.text@,
        ),
        Frame::UnsyncLyrics(l) => spec_classify(id4) is UnsyncLyrics
            && crate::lyrics::spec_unsync_lyrics_post(body, l.encoding, l.lang@, l.desc@, l.lyrics@),
        Frame::SyncedLyrics(l) => spec_classify(id4) is SyncedLyrics
            && crate::lyrics::spec_synced_head_post(
            body,
            l.encoding,
            l.lang@,
            l.time_format,
            l.content_type,
            l.desc@,
        ) && crate::lyrics::spec_synced_lyrics_post(
            crate::lyrics::spec_lyric_items(
                l.encoding,
                crate::lyrics::spec_implicit_encoding(l.encoding, body),
                body.skip(7 + spec_terminated(l.encoding, body.skip(7)).1),
            ),
            l.time_format,
            l.lyrics@,
        ),
        Frame::Chapter(c) => spec_classify(id4) is Chapter && depth >= 1
            && crate::chapters::spec_chapter_fields(body, c.element_id@, c.time)
            && crate::chapters::spec_embedded_frames_post(
            major,
            body,
            crate::chapters::spec_chapter_embed_start(body),
            depth,
            c.frames.entries@,
        ) && c.frames.wf(),
        Frame::TableOfContents(t) => spec_classify(id4) is TableOfContents && depth >= 1
            && crate::chapters::spec_toc_fields(body, t.element_id@, t.flags, t.elements@)
            && crate::chapters::spec_embedded_frames_post(
            major,
            body,
            crate::chapters::spec_toc_embed_start(body),
            depth,
            t.frames.entries@,
        ) && t.frames.wf(),
        Frame::GeneralObject(g) => spec_classify(id4) is GeneralObject
            && crate::geob::spec_geob_post(body, g.encoding, g.mime@, g.filename@, g.desc@, g.data@),
    }
}

/// The chain of parseable known frames from a position: each element is
/// a slot whose identifier names a known parser that accepts its body,
/// with the identifier already upgraded for ID3v2.2. The chain ends at
/// the first slot that cannot be read whole, is unknown, is rejected by
/// its parser, or embeds frames when no nesting budget remains.
pub open spec fn spec_known_slots(major: u8, b: Seq<u8>, pos: int, depth: u32) -> Seq<
    (Seq<u8>, u32, FrameFlags, int, int),
>
    decreases b.len() - pos when pos >= 0
{
    match spec_slot(major, b, pos) {
        None => Seq::empty(),
        Some(slot) => match spec_upgraded_id(major, slot.0) {
            None => Seq::empty(),
            Some(id4) => {
                let kind = spec_classify(id4);
                let body = b.subrange(slot.3, slot.4);
                if kind is Unknown {
                    Seq::empty()
                } else if (kind is Chapter || kind is TableOfContents) && depth == 0 {
                    Seq::empty()
                } else if !spec_parse_ok(kind, body) {
                    Seq::empty()
                } else {
                    seq![(id4, slot.1, slot.2, slot.3, slot.4)] + spec_known_slots(
                        major,
                        b,
                        slot.4,
                        depth,
                    )
                }
            },
        },
    }
}

/// The chain of whole frame slots from a position, regardless of whether
/// their identifiers are known: this is how far a frame loop advances
/// before a header fails to parse.
pub open spec fn spec_frame_slots(major: u8, b: Seq<u8>, pos: int) -> Seq<
    (Seq<u8>, u32, FrameFlags, int, int),
>
    decreases b.len() - pos when pos >= 0
{
    match spec_slot(major, b, pos) {
        None => Seq::empty(),
        Some(slot) => seq![slot] + spec_frame_slots(major, b, slot.4),
    }
}

/// The three-way outcome of reading one frame from the stream.
#[derive(Debug)]
pub enum FrameResult {
    /// A known frame, parsed.
    Frame(Frame),
    /// A whole frame under an identifier no parser claims, kept raw.
    Unknown(UnknownFrame),
    /// A known frame whose body its parser rejected; the stream has
    /// already advanced past it.
    Dropped,
}

/// How a frame outcome relates to the slot it was read from.
pub open spec fn spec_outcome_matches(
    res: FrameResult,
    raw_id: Seq<u8>,
    size: u32,
    flags: FrameFlags,
    header_bytes: Seq<u8>,
    body: Seq<u8>,
    major: u8,
    depth: u32,
) -> bool {
    match res {
        FrameResult::Frame(f) => spec_upgraded_id(major, raw_id) matches Some(id4)
            && spec_classify(id4) != FrameKind::Unknown && spec_parse_ok(
            spec_classify(id4),
            body,
        ) && spec_frame_matches(f, id4, size, flags, body, major, depth),
        FrameResult::Unknown(u) => (match spec_upgraded_id(major, raw_id) {
            None => u.id@ == spec_latin1_decode(raw_id),
            Some(id4) => spec_classify(id4) is Unknown && u.id@ == spec_latin1_decode(id4),
        }) && u.header_raw@ == header_bytes && u.body@ == body,
        FrameResult::Dropped => spec_upgraded_id(major, raw_id) matches Some(id4) && spec_classify(
            id4,
        ) != FrameKind::Unknown && !spec_parse_ok(spec_classify(id4), body),
    }
}

/// Reads one frame from `data` at `pos`: parses the envelope, selects a
/// parser by the identifier, and returns the outcome together with the
/// position just past the frame. Fails exactly when no whole frame
/// header and body lie at `pos` (the frame loop's stopping condition),
/// or when a chapter or table of contents is met with no nesting budget
/// left.
#[verifier::rlimit(100)]
pub fn parse_frame(tag_header: &TagHeader, data: &[u8], pos: usize, depth: u32) -> (r: ParseResult<
    (FrameResult, usize),
>)
    requires
        tag_header.wf(),
        pos <= data@.len(),
    ensures
        r is Ok <==> (spec_slot(tag_header.major, data@, pos as int) is Some && !(match spec_slot(
            tag_header.major,
            data@,
            pos as int,
        ) {
            Some(slot) => (match spec_upgraded_id(tag_header.major, slot.0) {
                Some(id4) => (spec_classify(id4) is Chapter || spec_classify(id4)
                    is TableOfContents) && depth == 0,
                None => false,
            }),
            None => false,
        })),
        r matches Ok(res) ==> ({
            let slot = spec_slot(tag_header.major, data@, pos as int)->Some_0;
            &&& res.1 == slot.4
            &&& res.1 > pos
            &&& res.1 <= data@.len()
            &&& spec_outcome_matches(
                res.0,
                slot.0,
                slot.1,
                slot.2,
                data@.subrange(pos as int, slot.3),
                data@.subrange(slot.3, slot.4),
                tag_header.major,
                depth,
            )
            &&& (res.0 matches FrameResult::Frame(f) ==> f.wf())
        }),
    decreases depth, 3int,
{
    let major = tag_header.major;
    proof {
        assert(data@.subrange(pos as int, data@.len() as int) =~= data@.skip(pos as int));
    }
    let header = match FrameHeader::parse(major, slice_subrange(data, pos, data.len())) {
        Ok(h) => h,
        Err(e) => {
            assert(spec_slot(major, data@, pos as int) is None);
            return Err(e);
        },
    };
    let hsize: usize = if major == 2 {
        6
    } else {
        10
    };
    let size = header.frame_size as usize;
    proof {
        let rest = data@.skip(pos as int);
        if major == 2 {
            assert(forall|i: int| 0 <= i < 3 ==> spec_is_id_byte(#[trigger] rest[i])) by {
                assert(spec_is_id_byte(rest[0]) && spec_is_id_byte(rest[1]) && spec_is_id_byte(
                    rest[2],
                ));
            };
        } else {
            assert(forall|i: int| 0 <= i < 4 ==> spec_is_id_byte(#[trigger] rest[i])) by {
                assert(spec_is_id_byte(rest[0]) && spec_is_id_byte(rest[1]) && spec_is_id_byte(
                    rest[2],
                ) && spec_is_id_byte(rest[3]));
            };
        }
    }
    if size > data.len() - pos - hsize {
        assert(spec_slot(major, data@, pos as int) is None);
        return Err(ParseError::NotEnoughData);
    }
    assert(spec_slot(major, data@, pos as int) is Some);
    let body_start = pos + hsize;
    let body_end = body_start + size;
    let ghost slot = spec_slot(major, data@, pos as int)->Some_0;
    assert(slot.3 == body_start as int && slot.4 == body_end as int);
    let body = slice_subrange(data, body_start, body_end);
    let mut header4 = header;
    let id4: (u8, u8, u8, u8);
    if major == 2 {
        match upgrade_v2_id(data[pos], data[pos + 1], data[pos + 2]) {
            Some(n) => {
                id4 = n;
                let mut idb: Vec<u8> = Vec::new();
                idb.push(n.0);
                idb.push(n.1);
                idb.push(n.2);
                idb.push(n.3);
                header4.id = crate::strings::get_string(Encoding::Latin1, idb.as_slice());
                assert(idb@ =~= spec_upgraded_id(major, slot.0)->Some_0);
            },
            None => {
                let u = UnknownFrame {
                    id: header4.id,
                    header_raw: slice_to_vec(slice_subrange(data, pos, body_start)),
                    body: slice_to_vec(body),
                };
                proof {
                    assert(slot.0 =~= data@.subrange(pos as int, pos + 3));
                    assert(data@.subrange(pos as int, data@.len() as int).subrange(0, 3)
                        =~= slot.0);
                    assert(slot.0[0] == data@[pos as int] && slot.0[1] == data@[pos as int + 1]
                        && slot.0[2] == data@[pos as int + 2]);
                    assert(spec_upgraded_id(major, slot.0) is None);
                }
                return Ok((FrameResult::Unknown(u), body_end));
            },
        }
    } else {
        id4 = (data[pos], data[pos + 1], data[pos + 2], data[pos + 3]);
        assert(seq![id4.0, id4.1, id4.2, id4.3] =~= slot.0);
    }
    let ghost sid4 = spec_upgraded_id(major, slot.0)->Some_0;
    assert(seq![id4.0, id4.1, id4.2, id4.3] =~= sid4);
    assert(header4.id@ == spec_latin1_decode(sid4) && header4.frame_size == slot.1 && header4.flags
        == slot.2) by {
        if major != 2 {
            assert(data@.subrange(pos as int, data@.len() as int).subrange(0, 4) =~= sid4);
        }
    };
    let kind = classify(id4.0, id4.1, id4.2, id4.3);
    let result: FrameResult;
    match kind {
        FrameKind::Unknown => {
            let u = UnknownFrame {
                id: header4.id,
                header_raw: slice_to_vec(slice_subrange(data, pos, body_start)),
                body: slice_to_vec(body),
            };
            assert(u.id@ == spec_latin1_decode(sid4));
            result = FrameResult::Unknown(u);
        },
        _ => {
            result = match dispatch_known(tag_header, header4, kind, body, depth, Ghost(sid4)) {
                Ok(res) => res,
                Err(e) => {
                    return Err(e);
                },
            };
        },
    }
    Ok((result, body_end))
}


/// Constructs and parses the frame a known identifier selects, or
/// reports the body dropped when the parser rejects it. Meeting a
/// chapter or table of contents with no nesting budget left is an error.
fn dispatch_known(
    tag_header: &TagHeader,
    header4: FrameHeader,
    kind: FrameKind,
    body: &[u8],
    depth: u32,
    Ghost(sid4): Ghost<Seq<u8>>,
) -> (r: ParseResult<FrameResult>)
    requires
        tag_header.wf(),
        kind == spec_classify(sid4),
        kind != FrameKind::Unknown,
        header4.id@ == spec_latin1_decode(sid4),
    ensures
        r is Ok <==> !((kind is Chapter || kind is TableOfContents) && depth == 0),
        r matches Ok(res) ==> match res {
            FrameResult::Frame(f) => spec_parse_ok(kind, body@) && spec_frame_matches(
                f,
                sid4,
                header4.frame_size,
                header4.flags,
                body@,
                tag_header.major,
                depth,
            ) && f.wf(),
            FrameResult::Dropped => !spec_parse_ok(kind, body@),
            FrameResult::Unknown(_) => false,
        },
        r matches Err(e) ==> e == ParseError::Unsupported,
    decreases depth, 2int,
{
    match kind {
        FrameKind::Unknown => Err(ParseError::Unsupported),
        FrameKind::Text => {
            let mut f = TextFrame::with_header(header4);
            match f.parse(tag_header, body) {
                Ok(()) => Ok(FrameResult::Frame(Frame::Text(f))),
                Err(_) => Ok(FrameResult::Dropped),
            }
        },
        FrameKind::UserText => {
            let mut f = UserTextFrame::with_header(header4);
            match f.parse(tag_header, body) {
                Ok(()) => Ok(FrameResult::Frame(Frame::UserText(f))),
                Err(_) => Ok(FrameResult::Dropped),
            }
        },
        FrameKind::Url => {
            let mut f = UrlFrame::with_header(header4);
            match f.parse(tag_header, body) {
                Ok(()) => Ok(FrameResult::Frame(Frame::Url(f))),
                Err(_) => Ok(FrameResult::Dropped),
            }
        },
        FrameKind::UserUrl => {
            let mut f = UserUrlFrame::with_header(header4);
            match f.parse(tag_header, body) {
                Ok(()) => Ok(FrameResult::Frame(Frame::UserUrl(f))),
                Err(_) => Ok(FrameResult::Dropped),
            }
        },
        FrameKind::Credits => {
            let mut f = CreditsFrame::with_header(header4);
            match f.parse(tag_header, body) {
                Ok(()) => Ok(FrameResult::Frame(Frame::Credits(f))),
                Err(_) => Ok(FrameResult::Dropped),
            }
        },
        FrameKind::EventTimingCodes => {
            let mut f = EventTimingCodesFrame::with_header(header4);
            match f.parse(tag_header, body) {
                Ok(()) => Ok(FrameResult::Frame(Frame::EventTimingCodes(f))),
                Err(_) => Ok(FrameResult::Dropped),
            }
        },
        FrameKind::Ownership => {
            let mut f = OwnershipFrame::with_header(header4);
            match f.parse(tag_header, body) {
                Ok(()) => Ok(FrameResult::Frame(Frame::Ownership(f))),
                Err(_) => Ok(FrameResult::Dropped),
            }
        },
        FrameKind::TermsOfUse => {
            let mut f = TermsOfUseFrame::with_header(header4);
            match f.parse(tag_header, body) {
                Ok(()) => Ok(FrameResult::Frame(Frame::TermsOfUse(f))),
                Err(_) => Ok(FrameResult::Dropped),
            }
        },
        FrameKind::UnsyncLyrics => {
            let mut f = UnsyncLyricsFrame::with_header(header4);
            match f.parse(tag_header, body) {
                Ok(()) => Ok(FrameResult::Frame(Frame::UnsyncLyrics(f))),
                Err(_) => Ok(FrameResult::Dropped),
            }
        },
        FrameKind::SyncedLyrics => {
            let mut f = SyncedLyricsFrame::with_header(header4);
            match f.parse(tag_header, body) {
                Ok(()) => Ok(FrameResult::Frame(Frame::SyncedLyrics(f))),
                Err(_) => Ok(FrameResult::Dropped),
            }
        },
        FrameKind::Chapter => {
            if depth == 0 {
                return Err(ParseError::Unsupported);
            }
            let mut f = ChapterFrame::with_header(header4);
            match f.parse_embedded(tag_header, body, depth) {
                Ok(()) => Ok(FrameResult::Frame(Frame::Chapter(f))),
                Err(_) => Ok(FrameResult::Dropped),
            }
        },
        FrameKind::TableOfContents => {
            if depth == 0 {
                return Err(ParseError::Unsupported);
            }
            let mut f = TableOfContentsFrame::with_header(header4);
            match f.parse_embedded(tag_header, body, depth) {
                Ok(()) => Ok(FrameResult::Frame(Frame::TableOfContents(f))),
                Err(_) => Ok(FrameResult::Dropped),
            }
        },
        FrameKind::GeneralObject => {
            let mut f = GeneralObjectFrame::with_header(header4);
            match f.parse(tag_header, body) {
                Ok(()) => Ok(FrameResult::Frame(Frame::GeneralObject(f))),
                Err(_) => Ok(FrameResult::Dropped),
            }
        },
    }
}

/// Renders an unknown frame back: its original header bytes, then its
/// original body.
pub fn render_unknown(_tag_header: &TagHeader, frame: &UnknownFrame) -> (r: Vec<u8>)
    ensures
        r@ == frame.header_raw@ + frame.body@,
{
    let mut out = frame.header_raw.clone();
    let mut body = frame.body.clone();
    out.append(&mut body);
    out
}

} // verus!
