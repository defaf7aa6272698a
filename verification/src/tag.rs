//! The tag itself: the pure parts of opening and saving.
//!
//! Opening splits into reading bytes (the caller's concern) and parsing
//! them (`TagHeader::parse`, then `Tag::from_parts`). Saving splits into
//! rendering the replacement bytes (`Tag::render_file`) and writing them
//! over the old tag region (the caller's concern again).

use crate::collections::{FrameMap, UnknownFrame, UnknownFrames};
use crate::compat;
use crate::error::{SaveError, SaveResult};
use crate::frames::{
    parse_frame, render_unknown, spec_frame_slots, spec_outcome_matches, Frame, FrameResult,
    EMBED_DEPTH_LIMIT,
};
use crate::header::{
    spec_major_of, spec_render_ext, spec_render_tag_header, spec_version_of_major,
    spec_version_of_save, ExtendedHeader, SaveVersion, TagFlags, TagHeader, Version,
};
use crate::raw::{spec_be_u32, spec_syncsafe_combine, SYNCSAFE_MAX};
use crate::syncdata;
use vstd::prelude::*;
use vstd::slice::slice_to_vec;

verus! {

/// The tag body after tag-level unsynchronization is undone: decoded for
/// a flagged tag before ID3v2.4, untouched otherwise.
pub open spec fn spec_unsynced_body(header: TagHeader, body: Seq<u8>) -> Seq<u8> {
    if header.major < 4 && header.flags.unsync {
        syncdata::spec_sync_decode(body)
    } else {
        body
    }
}

/// Whether an extended header parses at the start of the body, for the
/// given major version.
pub open spec fn spec_ext_ok(major: u8, b: Seq<u8>) -> bool {
    if major == 3 {
        b.len() >= 4 && spec_be_u32(b[0], b[1], b[2], b[3]) <= SYNCSAFE_MAX - 4 && 4 + spec_be_u32(
            b[0],
            b[1],
            b[2],
            b[3],
        ) <= b.len()
    } else if major == 4 {
        b.len() >= 4 && b[0] < 0x80 && b[1] < 0x80 && b[2] < 0x80 && b[3] < 0x80
            && spec_syncsafe_combine(b[0], b[1], b[2], b[3]) >= 4 && spec_syncsafe_combine(
            b[0],
            b[1],
            b[2],
            b[3],
        ) <= b.len()
    } else {
        false
    }
}

/// How many bytes of the body an extended header occupies.
pub open spec fn spec_ext_consumed(major: u8, b: Seq<u8>) -> int {
    if major == 3 {
        4 + spec_be_u32(b[0], b[1], b[2], b[3])
    } else {
        spec_syncsafe_combine(b[0], b[1], b[2], b[3]) as int
    }
}

/// The parsed frames among a sequence of outcomes, in order.
pub open spec fn spec_known_of(outs: Seq<FrameResult>) -> Seq<Frame>
    decreases outs.len(),
{
    if outs.len() == 0 {
        Seq::empty()
    } else {
        spec_known_of(outs.drop_last()) + (match outs.last() {
            FrameResult::Frame(f) => seq![f],
            _ => Seq::empty(),
        })
    }
}

/// The unknown frames among a sequence of outcomes, in order.
pub open spec fn spec_unknown_of(outs: Seq<FrameResult>) -> Seq<UnknownFrame>
    decreases outs.len(),
{
    if outs.len() == 0 {
        Seq::empty()
    } else {
        spec_unknown_of(outs.drop_last()) + (match outs.last() {
            FrameResult::Unknown(u) => seq![u],
            _ => Seq::empty(),
        })
    }
}

/// The raw bytes of unknown frames written back, in order.
pub open spec fn spec_unknown_bytes(us: Seq<UnknownFrame>) -> Seq<u8>
    decreases us.len(),
{
    if us.len() == 0 {
        Seq::empty()
    } else {
        spec_unknown_bytes(us.drop_last()) + us.last().header_raw@ + us.last().body@
    }
}

/// The padding appended after the rendered body: when the new body is
/// strictly smaller than the old tag, the leftover space capped at a
/// hundredth of the file; when it is as large or larger, a fixed
/// kibibyte.
pub open spec fn spec_padding(old_size: u64, body_len: int, file_len: u64) -> int {
    if old_size > body_len {
        if old_size - body_len <= file_len as int / 100 {
            old_size - body_len
        } else {
            file_len as int / 100
        }
    } else {
        1024
    }
}

/// What the frame loop leaves behind: outcomes aligned one for one with
/// the whole frame slots of the region, the parsed frames folded into
/// the map, and the unknown ones kept aside in reading order.
pub open spec fn spec_frame_loop_post(
    header: TagHeader,
    b: Seq<u8>,
    start: int,
    frames: Seq<Frame>,
    unknowns: Seq<UnknownFrame>,
) -> bool {
    exists|outs: Seq<FrameResult>|
        #![trigger spec_known_of(outs), spec_unknown_of(outs)]
        {
            let slots = spec_frame_slots(header.major, b, start);
            let hsize: int = if header.major == 2 {
                6int
            } else {
                10int
            };
            &&& outs.len() == slots.len()
            &&& (forall|j: int|
                0 <= j < slots.len() ==> spec_outcome_matches(
                    #[trigger] outs[j],
                    slots[j].0,
                    slots[j].1,
                    slots[j].2,
                    b.subrange(slots[j].3 - hsize, slots[j].3),
                    b.subrange(slots[j].3, slots[j].4),
                    header.major,
                    EMBED_DEPTH_LIMIT,
                ))
            &&& frames == crate::collections::spec_fold_frames(spec_known_of(outs))
            &&& unknowns == spec_unknown_of(outs)
        }
}

/// An ID3v2 tag: its header, the optional extended header, the parsed
/// frames, and the unknown frames kept aside.
#[derive(Debug)]
pub struct Tag {
    /// The tag header.
    pub header: TagHeader,
    /// The tag's extended header. This is optional.
    pub extended_header: Option<ExtendedHeader>,
    /// A collection of known frames.
    pub frames: FrameMap,
    /// A collection of unknown frames encountered during parsing.
    pub unknown_frames: UnknownFrames,
}

impl Tag {
    /// A well-formed tag: a valid header, unique frame keys, every frame
    /// fit for rendering, and a well-formed extended header when one is
    /// present.
    pub open spec fn wf(&self) -> bool {
        &&& self.header.wf()
        &&& self.frames.wf()
        &&& (forall|i: int|
            0 <= i < self.frames.entries@.len() ==> (#[trigger] self.frames.entries@[i]).wf())
        &&& match self.extended_header {
            Some(e) => e.wf(),
            None => true,
        }
    }

    /// An empty ID3v2.4 tag.
    pub fn new() -> (r: Tag)
        ensures
            r.header.major == 4 && r.header.minor == 0 && r.header.tag_size == 0,
            r.header.flags == crate::header::spec_tag_flags_clear(),
            r.extended_header is None,
            r.frames.entries@.len() == 0,
            r.unknown_frames.version == Version::V24,
            r.unknown_frames.frames@.len() == 0,
            r.wf(),
    {
        Self::with_version(SaveVersion::V24)
    }

    /// An empty tag of the given version.
    pub fn with_version(version: SaveVersion) -> (r: Tag)
        ensures
            r.header.major == spec_major_of(spec_version_of_save(version)),
            r.header.minor == 0 && r.header.tag_size == 0,
            r.header.flags == crate::header::spec_tag_flags_clear(),
            r.extended_header is None,
            r.frames.entries@.len() == 0,
            r.unknown_frames.version == spec_version_of_save(version),
            r.unknown_frames.frames@.len() == 0,
            r.wf(),
    {
        Tag {
            header: TagHeader::with_version(version.to_version()),
            extended_header: None,
            frames: FrameMap::new(),
            unknown_frames: UnknownFrames::new(version.to_version(), Vec::new()),
        }
    }

    /// The version of this tag.
    pub fn version(&self) -> (r: Version)
        requires
            self.wf(),
        ensures
            r == spec_version_of_major(self.header.major),
    {
        self.header.version()
    }

    /// The total size of the tag body as last read or saved, excluding
    /// the ten header bytes. Zero in a freshly created tag.
    pub fn size(&self) -> (r: u32)
        ensures
            r == self.header.tag_size,
    {
        self.header.size()
    }

    /// Builds a tag from a parsed header and the tag body read after it.
    /// Undoes tag-level unsynchronization where flagged before ID3v2.4,
    /// parses the extended header (clearing the flag when parsing it
    /// fails, to tolerate taggers that set the flag without writing
    /// one), then reads frames until the stream is exhausted or a frame
    /// header no longer parses.
    #[verifier::rlimit(60)]
    pub fn from_parts(header: TagHeader, body: &[u8]) -> (r: Tag)
        requires
            header.wf(),
        ensures
            r.wf(),
            ({
                let b2 = spec_unsynced_body(header, body@);
                let ext_present = header.flags.extended && spec_ext_ok(header.major, b2);
                let start: int = if ext_present {
                    spec_ext_consumed(header.major, b2)
                } else {
                    0
                };
                &&& r.header.major == header.major
                &&& r.header.minor == header.minor
                &&& r.header.tag_size == header.tag_size
                &&& r.header.flags == (TagFlags { extended: ext_present, ..header.flags })
                &&& (r.extended_header is Some <==> ext_present)
                &&& (r.extended_header matches Some(e) ==> e.data@ == b2.subrange(4, start))
                &&& spec_frame_loop_post(
                    r.header,
                    b2,
                    start,
                    r.frames.entries@,
                    r.unknown_frames.frames@,
                )
                &&& r.unknown_frames.version == spec_version_of_major(header.major)
            }),
    {
        let body2: Vec<u8> = if header.major < 4 && header.flags.unsync {
            syncdata::decode(body)
        } else {
            slice_to_vec(body)
        };
        let mut header2 = header;
        let mut extended_header: Option<ExtendedHeader> = None;
        let mut start: usize = 0;
        if header2.flags.extended {
            match ExtendedHeader::parse(header2.major, body2.as_slice()) {
                Ok(e) => {
                    start = if header2.major == 3 {
                        4 + e.size as usize
                    } else {
                        e.size as usize
                    };
                    extended_header = Some(e);
                },
                Err(_) => {
                    header2.flags.extended = false;
                },
            }
        }
        assert(header2.flags == (TagFlags {
            extended: header.flags.extended && spec_ext_ok(header.major, body2@),
            ..header.flags
        }));
        let ghost b2 = body2@;
        let ghost all_slots = spec_frame_slots(header2.major, b2, start as int);
        let mut frames = FrameMap::new();
        let mut unknowns: Vec<UnknownFrame> = Vec::new();
        let ghost mut outs: Seq<FrameResult> = Seq::empty();
        let ghost mut done: Seq<(Seq<u8>, u32, crate::frames::FrameFlags, int, int)> = Seq::empty();
        let mut pos: usize = start;
        let ghost hsize: int = if header2.major == 2 {
            6int
        } else {
            10int
        };
        assert(all_slots =~= done + spec_frame_slots(header2.major, b2, pos as int));
        assert(frames.entries@ =~= crate::collections::spec_fold_frames(spec_known_of(outs)));
        assert(unknowns@ =~= spec_unknown_of(outs));
        loop
            invariant_except_break
                start <= pos <= b2.len(),
                all_slots == done + spec_frame_slots(header2.major, b2, pos as int),
            invariant
                header2.wf(),
                b2 == body2@,
                all_slots == spec_frame_slots(header2.major, b2, start as int),
                hsize == (if header2.major == 2 {
                    6int
                } else {
                    10int
                }),
                outs.len() == done.len(),
                forall|j: int|
                    0 <= j < done.len() ==> spec_outcome_matches(
                        #[trigger] outs[j],
                        done[j].0,
                        done[j].1,
                        done[j].2,
                        b2.subrange(done[j].3 - hsize, done[j].3),
                        b2.subrange(done[j].3, done[j].4),
                        header2.major,
                        EMBED_DEPTH_LIMIT,
                    ),
                frames.entries@ == crate::collections::spec_fold_frames(spec_known_of(outs)),
                frames.wf(),
                forall|i: int|
                    0 <= i < frames.entries@.len() ==> (#[trigger] frames.entries@[i]).wf(),
                unknowns@ == spec_unknown_of(outs),
            ensures
                done == all_slots,
            decreases b2.len() - pos,
        {
            match parse_frame(&header2, body2.as_slice(), pos, EMBED_DEPTH_LIMIT) {
                Ok((res, new_pos)) => {
                    let ghost slot = crate::frames::spec_slot(
                        header2.major,
                        b2,
                        pos as int,
                    )->Some_0;
                    proof {
                        assert(spec_frame_slots(header2.major, b2, pos as int) =~= seq![slot]
                            + spec_frame_slots(header2.major, b2, slot.4));
                        done = done.push(slot);
                        assert(done + spec_frame_slots(header2.major, b2, slot.4) =~= (
                        done.drop_last() + (seq![slot] + spec_frame_slots(
                            header2.major,
                            b2,
                            slot.4,
                        ))));
                        assert(slot.3 - hsize == pos as int);
                    }
                    let ghost outs0 = outs;
                    match res {
                        FrameResult::Frame(f) => {
                            let ghost frames0 = frames.entries@;
                            frames.add(f);
                            proof {
                                outs = outs0.push(FrameResult::Frame(f));
                                assert(outs.drop_last() =~= outs0);
                                assert(spec_known_of(outs) =~= spec_known_of(outs0).push(f));
                                assert(spec_known_of(outs).drop_last() =~= spec_known_of(outs0));
                                assert(spec_known_of(outs).last() == f);
                                assert(spec_unknown_of(outs) =~= spec_unknown_of(outs0));
                                assert(crate::collections::spec_fold_frames(spec_known_of(outs))
                                    == crate::collections::spec_add_frame(
                                    crate::collections::spec_fold_frames(spec_known_of(outs0)),
                                    f,
                                ));
                                crate::collections::lemma_add_frame_wf(frames0, f);
                            }
                        },
                        FrameResult::Unknown(u) => {
                            unknowns.push(u);
                            proof {
                                outs = outs0.push(FrameResult::Unknown(u));
                                assert(outs.drop_last() =~= outs0);
                                assert(spec_known_of(outs) =~= spec_known_of(outs0));
                                assert(spec_unknown_of(outs) =~= spec_unknown_of(outs0).push(u));
                            }
                        },
                        FrameResult::Dropped => {
                            proof {
                                outs = outs0.push(FrameResult::Dropped);
                                assert(outs.drop_last() =~= outs0);
                                assert(spec_known_of(outs) =~= spec_known_of(outs0));
                                assert(spec_unknown_of(outs) =~= spec_unknown_of(outs0));
                            }
                        },
                    }
                    pos = new_pos;
                },
                Err(_) => {
                    assert(spec_frame_slots(header2.major, b2, pos as int) =~= Seq::empty());
                    assert(all_slots =~= done);
                    break ;
                },
            }
        }
        let version = header2.version();
        Tag {
            header: header2,
            extended_header,
            frames,
            unknown_frames: UnknownFrames::new(version, unknowns),
        }
    }

    /// Migrates the tag to the given version: the frame map is
    /// transformed by the version tables, the extended header re-lays its
    /// size out, and the header takes the new version. Frames whose keys
    /// the tables do not name keep their presence and their value.
    pub fn update(&mut self, to: SaveVersion)
        requires
            old(self).wf(),
        ensures
            final(self).wf(),
            final(self).header.major == spec_major_of(spec_version_of_save(to)),
            final(self).header.minor == old(self).header.minor,
            final(self).header.flags == old(self).header.flags,
            final(self).header.tag_size == old(self).header.tag_size,
            final(self).unknown_frames == old(self).unknown_frames,
            (final(self).extended_header is Some) == (old(self).extended_header is Some),
            to == SaveVersion::V24 ==> {
                &&& !crate::collections::spec_has_key(final(self).frames.entries@, "TYER"@)
                &&& !crate::collections::spec_has_key(final(self).frames.entries@, "TDAT"@)
                &&& !crate::collections::spec_has_key(final(self).frames.entries@, "TIME"@)
                &&& match crate::collections::spec_frame_at(old(self).frames.entries@, "TYER"@) {
                    Some(f) => (f matches Frame::Text(t) ==> (crate::collections::spec_frame_at(
                        final(self).frames.entries@,
                        "TDRC"@,
                    ) matches Some(g) && (g matches Frame::Text(t2) && (
                    t2.text matches crate::text::Text::One(v) && t.text.spec_joined().is_prefix_of(
                        v@,
                    ))))),
                    None => true,
                }
                &&& compat::spec_v4_passthrough(
                    old(self).frames.entries@,
                    final(self).frames.entries@,
                )
            },
            to == SaveVersion::V23 ==> {
                &&& !crate::collections::spec_has_key(final(self).frames.entries@, "TDRC"@)
                &&& !crate::collections::spec_has_key(final(self).frames.entries@, "ASPI"@)
                &&& match crate::collections::spec_frame_at(old(self).frames.entries@, "TDRC"@) {
                    Some(f) => (f matches Frame::Text(t) ==> ({
                        let j = t.text.spec_joined();
                        &&& (j.len() >= 4 ==> (crate::collections::spec_frame_at(
                            final(self).frames.entries@,
                            "TYER"@,
                        ) matches Some(g) && (g matches Frame::Text(t2) && t2.encoding == t.encoding
                            && (t2.text matches crate::text::Text::One(v) && v@ == j.subrange(
                            0,
                            4,
                        )))))
                        &&& (j.len() >= 10 ==> (crate::collections::spec_frame_at(
                            final(self).frames.entries@,
                            "TDAT"@,
                        ) matches Some(g) && (g matches Frame::Text(t2) && t2.encoding == t.encoding
                            && (t2.text matches crate::text::Text::One(v) && v@ == j.subrange(8, 10)
                            + j.subrange(5, 7)))))
                        &&& (j.len() >= 16 ==> (crate::collections::spec_frame_at(
                            final(self).frames.entries@,
                            "TIME"@,
                        ) matches Some(g) && (g matches Frame::Text(t2) && t2.encoding == t.encoding
                            && (t2.text matches crate::text::Text::One(v) && v@ == j.subrange(
                            11,
                            13,
                        ) + j.subrange(14, 16)))))
                    })),
                    None => true,
                }
                &&& compat::spec_v3_passthrough(
                    old(self).frames.entries@,
                    final(self).frames.entries@,
                )
            },
    {
        match to {
            SaveVersion::V23 => compat::to_v3(&mut self.frames),
            SaveVersion::V24 => compat::to_v4(&mut self.frames),
        }
        match &mut self.extended_header {
            Some(ext) => ext.update(to),
            None => {
            },
        }
        self.header.major = match to {
            SaveVersion::V23 => 3,
            SaveVersion::V24 => 4,
        };
    }

    /// Clears the tag: every known and unknown frame is removed, along
    /// with the extended header.
    pub fn clear(&mut self)
        requires
            old(self).wf(),
        ensures
            final(self).wf(),
            final(self).header == old(self).header,
            final(self).extended_header is None,
            final(self).frames.entries@.len() == 0,
            final(self).unknown_frames.frames@.len() == 0,
            final(self).unknown_frames.version == spec_version_of_major(old(self).header.major),
    {
        self.frames.clear();
        let version = self.header.version();
        self.unknown_frames = UnknownFrames::new(version, Vec::new());
        self.extended_header = None;
    }

    /// Renders the bytes that replace the old tag region of a file:
    /// the header, the extended header if present, every known frame,
    /// the unknown frames when their version still matches, and padding.
    /// The tag is first migrated to ID3v2.3 (from ID3v2.2 or ID3v2.3) or
    /// kept at ID3v2.4, and the writer-unsupported flags are cleared.
    /// When the new body is strictly smaller than the old tag the padding
    /// is the leftover space capped at a hundredth of the file; when it is
    /// as large or larger, it is a fixed kibibyte. A rendered tag over the syncsafe size limit
    /// fails with `TooLarge`; a tag with no frames at all renders as no
    /// bytes, deleting the tag.
    #[verifier::rlimit(100)]
    pub fn render_file(&mut self, file_len: u64, old_size: u64) -> (r: SaveResult<Vec<u8>>)
        requires
            old(self).wf(),
        ensures
            final(self).wf(),
            final(self).header.major == (if old(self).header.major <= 3 {
                3u8
            } else {
                4u8
            }),
            !final(self).header.flags.unsync,
            !final(self).header.flags.experimental,
            !final(self).header.flags.footer,
            final(self).header.flags.extended == (final(self).extended_header is Some),
            ({
                let major = final(self).header.major;
                let ext_bytes = match final(self).extended_header {
                    Some(e) => spec_render_ext(major, e.data@),
                    None => Seq::<u8>::empty(),
                };
                let frame_bytes = crate::frames::spec_render_frames(
                    major,
                    final(self).frames.entries@,
                );
                let unk_bytes = if final(self).unknown_frames.version == spec_version_of_major(
                    major,
                ) {
                    spec_unknown_bytes(final(self).unknown_frames.frames@)
                } else {
                    Seq::<u8>::empty()
                };
                let body = ext_bytes + frame_bytes + unk_bytes;
                let padding = spec_padding(old_size, body.len() as int, file_len);
                let has_content = frame_bytes.len() + unk_bytes.len() > 0;
                &&& (r is Ok <==> (!has_content || body.len() + padding <= SYNCSAFE_MAX))
                &&& (r matches Ok(v) ==> (if has_content {
                    v@ == spec_render_tag_header(final(self).header) + body + Seq::new(
                        padding as nat,
                        |q: int| 0u8,
                    ) && final(self).header.tag_size == body.len() + padding
                } else {
                    v@ == Seq::<u8>::empty() && final(self).header.tag_size == 0
                }))
                &&& (r matches Err(e) ==> e == SaveError::TooLarge)
            }),
    {
        if self.header.major <= 3 {
            self.update(SaveVersion::V23);
        } else {
            self.update(SaveVersion::V24);
        }
        self.header.flags.unsync = false;
        self.header.flags.experimental = false;
        self.header.flags.footer = false;
        self.header.flags.extended = match &self.extended_header {
            Some(_) => true,
            None => false,
        };
        let version = self.header.version();
        let mut body: Vec<u8> = match &self.extended_header {
            Some(e) => e.render(version),
            None => Vec::new(),
        };
        let ext_len = body.len();
        let ghost spec_ext_bytes = body@;
        let mut frame_bytes = match self.frames.render(&self.header) {
            Ok(v) => v,
            Err(e) => {
                proof {
                    let major = self.header.major;
                    let es = self.frames.entries@;
                    let j = choose|j: int|
                        0 <= j < es.len() && crate::frames::spec_frame_body(
                            major,
                            #[trigger] es[j],
                        ).len() > SYNCSAFE_MAX;
                    crate::collections::lemma_render_frames_ge(major, es, j);
                }
                return Err(SaveError::TooLarge);
            },
        };
        body.append(&mut frame_bytes);
        let unknown_matches = match (self.unknown_frames.version(), version) {
            (Version::V22, Version::V22) => true,
            (Version::V23, Version::V23) => true,
            (Version::V24, Version::V24) => true,
            _ => false,
        };
        let ghost before_unknowns = body@;
        if unknown_matches {
            let mut i: usize = 0;
            assert(self.unknown_frames.frames@.take(0) =~= Seq::<UnknownFrame>::empty());
            assert(body@ =~= before_unknowns + spec_unknown_bytes(
                self.unknown_frames.frames@.take(0),
            ));
            while i < self.unknown_frames.frames.len()
                invariant
                    i <= self.unknown_frames.frames@.len(),
                    body@ == before_unknowns + spec_unknown_bytes(
                        self.unknown_frames.frames@.take(i as int),
                    ),
                decreases self.unknown_frames.frames@.len() - i,
            {
                let mut rendered = render_unknown(&self.header, &self.unknown_frames.frames[i]);
                body.append(&mut rendered);
                proof {
                    assert(self.unknown_frames.frames@.take(i as int + 1).drop_last()
                        =~= self.unknown_frames.frames@.take(i as int));
                    assert(self.unknown_frames.frames@.take(i as int + 1).last()
                        == self.unknown_frames.frames@[i as int]);
                    assert(body@ =~= before_unknowns + spec_unknown_bytes(
                        self.unknown_frames.frames@.take(i as int + 1),
                    ));
                }
                i = i + 1;
            }
            assert(self.unknown_frames.frames@.take(self.unknown_frames.frames@.len() as int)
                =~= self.unknown_frames.frames@);
        }
        assert(body@ =~= spec_ext_bytes + (body@.subrange(
            spec_ext_bytes.len() as int,
            body@.len() as int,
        )));
        if body.len() > ext_len {
            let body_len = body.len() as u64;
            let padding: u64 = if old_size > body_len {
                let d = old_size - body_len;
                let cap = file_len / 100;
                if d <= cap {
                    d
                } else {
                    cap
                }
            } else {
                1024
            };
            if body_len > SYNCSAFE_MAX as u64 || padding > SYNCSAFE_MAX as u64 - body_len {
                return Err(SaveError::TooLarge);
            }
            let total = body_len + padding;
            self.header.tag_size = total as u32;
            let mut out = self.header.render();
            out.append(&mut body);
            let ghost before_pad = out@;
            let mut q: u64 = 0;
            assert(out@ =~= before_pad + Seq::new(0, |z: int| 0u8));
            while q < padding
                invariant
                    q <= padding,
                    out@ == before_pad + Seq::new(q as nat, |z: int| 0u8),
                decreases padding - q,
            {
                out.push(0);
                proof {
                    assert(out@ =~= before_pad + Seq::new((q + 1) as nat, |z: int| 0u8));
                }
                q = q + 1;
            }
            Ok(out)
        } else {
            self.header.tag_size = 0;
            assert(body@ =~= spec_ext_bytes);
            Ok(Vec::new())
        }
    }
}

impl Default for Tag {
    /// An empty ID3v2.4 tag.
    fn default() -> (r: Self)
        ensures
            r.header.major == 4,
            r.frames.entries@.len() == 0,
            r.wf(),
    {
        Tag::new()
    }
}

} // verus!
