//! Chapter and table-of-contents frames, whose bodies embed further
//! frames.

use crate::error::{ParseError, ParseResult, SaveError, SaveResult};
use crate::collections::{spec_fold_frames, FrameMap};
use crate::frames::{
    spec_frame_flags_clear, spec_frame_matches, spec_known_slots, spec_render_frames, FrameFlags,
    FrameHeader, FrameResult, EMBED_DEPTH_LIMIT,
};
use crate::header::TagHeader;
use crate::raw;
use crate::raw::{spec_be_u32, spec_render_u32};
use crate::strings;
use crate::strings::{spec_terminated, utf8_lossy_of, Encoding};
use vstd::prelude::*;
use vstd::slice::slice_subrange;

verus! {

/// The time bounds of a chapter: start and end in milliseconds, and
/// optional byte offsets that are all ones when unused.
#[derive(Clone, Copy, Debug, PartialEq, Eq, Structural)]
pub struct ChapterTime {
    /// The chapter's start, in milliseconds.
    pub start_time: u32,
    /// The chapter's end, in milliseconds.
    pub end_time: u32,
    /// The byte offset of the chapter's start, or all ones.
    pub start_offset: u32,
    /// The byte offset of the chapter's end, or all ones.
    pub end_offset: u32,
}

impl Default for ChapterTime {
    /// Zero times, with the offsets unused.
    fn default() -> (r: Self)
        ensures
            r == (ChapterTime {
                start_time: 0,
                end_time: 0,
                start_offset: 0xFFFFFFFF,
                end_offset: 0xFFFFFFFF,
            }),
    {
        ChapterTime { start_time: 0, end_time: 0, start_offset: 0xFFFFFFFF, end_offset: 0xFFFFFFFF }
    }
}

/// A chapter frame (`CHAP`): a terminated element identifier, sixteen
/// bytes of time bounds, then optional embedded frames parsed with the
/// tag's own rules.
#[derive(Debug)]
pub struct ChapterFrame {
    /// The frame envelope.
    pub header: FrameHeader,
    /// The identifier that names this chapter within the tag.
    pub element_id: String,
    /// The chapter's time bounds.
    pub time: ChapterTime,
    /// The frames embedded in the chapter.
    pub frames: FrameMap,
}

/// Where a chapter body's embedded frames start: after the terminated
/// element identifier and the sixteen time bytes.
pub open spec fn spec_chapter_embed_start(body: Seq<u8>) -> int {
    spec_terminated(Encoding::Utf8, body).1 + 16
}

/// What parsing a chapter body promises for its fixed fields.
pub open spec fn spec_chapter_fields(
    body: Seq<u8>,
    element_id: Seq<char>,
    time: ChapterTime,
) -> bool {
    let t = spec_terminated(Encoding::Utf8, body);
    &&& element_id == utf8_lossy_of(t.0)
    &&& time.start_time as int == spec_be_u32(body[t.1], body[t.1 + 1], body[t.1 + 2], body[t.1 + 3])
    &&& time.end_time as int == spec_be_u32(
        body[t.1 + 4],
        body[t.1 + 5],
        body[t.1 + 6],
        body[t.1 + 7],
    )
    &&& time.start_offset as int == spec_be_u32(
        body[t.1 + 8],
        body[t.1 + 9],
        body[t.1 + 10],
        body[t.1 + 11],
    )
    &&& time.end_offset as int == spec_be_u32(
        body[t.1 + 12],
        body[t.1 + 13],
        body[t.1 + 14],
        body[t.1 + 15],
    )
}

/// What an embedded frame map promises: the frames align one for one
/// with the chain of parseable known frames in the region, and the map
/// folds them in reading order.
pub open spec fn spec_embedded_frames_post(
    major: u8,
    body: Seq<u8>,
    start: int,
    depth: u32,
    entries: Seq<crate::frames::Frame>,
) -> bool
    decreases depth, 0int,
{
    if depth == 0 {
        entries.len() == 0
    } else {
        exists|added: Seq<crate::frames::Frame>|
            #![trigger spec_fold_frames(added)]
            {
                let slots = spec_known_slots(major, body, start, (depth - 1) as u32);
                &&& added.len() == slots.len()
                &&& (forall|j: int|
                    0 <= j < slots.len() ==> spec_frame_matches(
                        #[trigger] added[j],
                        slots[j].0,
                        slots[j].1,
                        slots[j].2,
                        body.subrange(slots[j].3, slots[j].4),
                        major,
                        (depth - 1) as u32,
                    ))
                &&& entries == spec_fold_frames(added)
            }
    }
}

impl ChapterFrame {
    /// An empty frame: no flags, an empty element identifier, zero times
    /// with the offsets unused, and no embedded frames.
    pub fn new() -> (r: ChapterFrame)
        ensures
            r.header.id@ == "CHAP"@,
            r.header.flags == spec_frame_flags_clear(),
            r.element_id@ == Seq::<char>::empty(),
            r.time == (ChapterTime {
                start_time: 0,
                end_time: 0,
                start_offset: 0xFFFFFFFF,
                end_offset: 0xFFFFFFFF,
            }),
            r.frames.entries@.len() == 0,
            r.frames.wf(),
    {
        Self::with_flags(FrameFlags::new())
    }

    /// An empty frame with the given flags: an empty element identifier,
    /// zero times with the offsets unused, and no embedded frames.
    pub fn with_flags(flags: FrameFlags) -> (r: ChapterFrame)
        ensures
            r.header.id@ == "CHAP"@,
            r.header.flags == flags,
            r.element_id@ == Seq::<char>::empty(),
            r.time == (ChapterTime {
                start_time: 0,
                end_time: 0,
                start_offset: 0xFFFFFFFF,
                end_offset: 0xFFFFFFFF,
            }),
            r.frames.entries@.len() == 0,
            r.frames.wf(),
    {
        Self::with_header(FrameHeader::with_flags("CHAP", flags))
    }

    /// An empty frame around the given header.
    pub(crate) fn with_header(header: FrameHeader) -> (r: ChapterFrame)
        ensures
            r.header == header,
            r.element_id@ == Seq::<char>::empty(),
            r.time == (ChapterTime {
                start_time: 0,
                end_time: 0,
                start_offset: 0xFFFFFFFF,
                end_offset: 0xFFFFFFFF,
            }),
            r.frames.entries@.len() == 0,
            r.frames.wf(),
    {
        ChapterFrame {
            header,
            element_id: String::new(),
            time: ChapterTime::default(),
            frames: FrameMap::new(),
        }
    }

    /// The chapter's time bounds.
    pub fn time(&self) -> (r: &ChapterTime)
        ensures
            *r == self.time,
    {
        &self.time
    }

    /// The identifier that names this chapter.
    pub fn element_id(&self) -> (r: &String)
        ensures
            r@ == self.element_id@,
    {
        &self.element_id
    }

    /// The frames embedded in the chapter.
    pub fn frames(&self) -> (r: &FrameMap)
        ensures
            r == &self.frames,
    {
        &self.frames
    }

    /// The frames embedded in the chapter.
    pub fn frames_mut(&mut self) -> &mut FrameMap {
        &mut self.frames
    }

    /// Parses the frame body: the element identifier, the time bounds,
    /// then the embedded frames, to a bounded nesting depth.
    pub fn parse(&mut self, tag_header: &TagHeader, data: &[u8]) -> (r: ParseResult<()>)
        requires
            tag_header.wf(),
        ensures
            r is Ok <==> (data@.len() >= 18 && spec_chapter_embed_start(data@) <= data@.len()),
            r is Ok ==> final(self).header == old(self).header && spec_chapter_fields(
                data@,
                final(self).element_id@,
                final(self).time,
            ) && spec_embedded_frames_post(
                tag_header.major,
                data@,
                spec_chapter_embed_start(data@),
                EMBED_DEPTH_LIMIT,
                final(self).frames.entries@,
            ) && final(self).frames.wf(),
            r matches Err(e) ==> *final(self) == *old(self) && e == ParseError::NotEnoughData,
    {
        self.parse_embedded(tag_header, data, EMBED_DEPTH_LIMIT)
    }

    /// Parses the frame body with an explicit remaining nesting depth.
    pub(crate) fn parse_embedded(&mut self, tag_header: &TagHeader, data: &[u8], depth: u32) -> (r:
        ParseResult<()>)
        requires
            tag_header.wf(),
        ensures
            r is Ok <==> (data@.len() >= 18 && spec_chapter_embed_start(data@) <= data@.len()),
            r is Ok ==> final(self).header == old(self).header && spec_chapter_fields(
                data@,
                final(self).element_id@,
                final(self).time,
            ) && spec_embedded_frames_post(
                tag_header.major,
                data@,
                spec_chapter_embed_start(data@),
                depth,
                final(self).frames.entries@,
            ) && final(self).frames.wf() && (forall|i: int|
                0 <= i < final(self).frames.entries@.len() ==> (#[trigger] final(self).frames.entries@[i]).wf()),
            r matches Err(e) ==> *final(self) == *old(self) && e == ParseError::NotEnoughData,
        decreases depth, 1int,
    {
        if data.len() < 18 {
            return Err(ParseError::NotEnoughData);
        }
        proof {
            crate::text::lemma_terminated_bound(Encoding::Utf8, data@);
        }
        let (element_id, elem_size) = strings::get_terminated_string(Encoding::Utf8, data);
        if elem_size > data.len() - 16 {
            return Err(ParseError::NotEnoughData);
        }
        let time = ChapterTime {
            start_time: raw::to_u32(slice_subrange(data, elem_size, elem_size + 4)),
            end_time: raw::to_u32(slice_subrange(data, elem_size + 4, elem_size + 8)),
            start_offset: raw::to_u32(slice_subrange(data, elem_size + 8, elem_size + 12)),
            end_offset: raw::to_u32(slice_subrange(data, elem_size + 12, elem_size + 16)),
        };
        let start = elem_size + 16;
        let frames = parse_embedded_frames(tag_header, data, start, depth);
        self.element_id = element_id;
        self.time = time;
        self.frames = frames;
        Ok(())
    }

    /// Renders the frame body: the terminated element identifier, the
    /// time bounds, then the embedded frames. Fails with `TooLarge` when
    /// an embedded frame's body exceeds the syncsafe size limit.
    pub fn render_body(&self, tag_header: &TagHeader) -> (r: SaveResult<Vec<u8>>)
        requires
            tag_header.major == 3 || tag_header.major == 4,
            forall|i: int|
                0 <= i < self.frames.entries@.len() ==> (#[trigger] self.frames.entries@[i]).wf(),
        ensures
            r matches Ok(v) ==> v@ == vstd::utf8::encode_utf8(self.element_id@) + seq![0u8]
                + spec_render_u32(self.time.start_time) + spec_render_u32(self.time.end_time)
                + spec_render_u32(self.time.start_offset) + spec_render_u32(self.time.end_offset)
                + spec_render_frames(tag_header.major, self.frames.entries@),
            r matches Err(e) ==> e == SaveError::TooLarge && exists|i: int|
                0 <= i < self.frames.entries@.len() && crate::frames::spec_frame_body(
                    tag_header.major,
                    #[trigger] self.frames.entries@[i],
                ).len() > crate::raw::SYNCSAFE_MAX,
        decreases self.frames.entries@, 3int,
    {
        let mut out = self.element_id.as_str().as_bytes_vec();
        out.push(0);
        let mut t1 = raw::render_u32(self.time.start_time);
        out.append(&mut t1);
        let mut t2 = raw::render_u32(self.time.end_time);
        out.append(&mut t2);
        let mut t3 = raw::render_u32(self.time.start_offset);
        out.append(&mut t3);
        let mut t4 = raw::render_u32(self.time.end_offset);
        out.append(&mut t4);
        let mut nested = match self.frames.render(tag_header) {
            Ok(v) => v,
            Err(e) => {
                return Err(e);
            },
        };
        out.append(&mut nested);
        assert(out@ =~= vstd::utf8::encode_utf8(self.element_id@) + seq![0u8] + spec_render_u32(
            self.time.start_time,
        ) + spec_render_u32(self.time.end_time) + spec_render_u32(self.time.start_offset)
            + spec_render_u32(self.time.end_offset) + spec_render_frames(
            tag_header.major,
            self.frames.entries@,
        ));
        Ok(out)
    }
}

/// Parses the frames embedded in a region of a frame body, adding each
/// parseable known frame to a fresh map and stopping at the first frame
/// that cannot be parsed whole.
pub(crate) fn parse_embedded_frames(
    tag_header: &TagHeader,
    data: &[u8],
    start: usize,
    depth: u32,
) -> (r: FrameMap)
    requires
        tag_header.wf(),
        start <= data@.len(),
    ensures
        r.wf(),
        spec_embedded_frames_post(tag_header.major, data@, start as int, depth, r.entries@),
        forall|i: int| 0 <= i < r.entries@.len() ==> (#[trigger] r.entries@[i]).wf(),
    decreases depth, 0int,
{
    let mut map = FrameMap::new();
    if depth == 0 {
        return map;
    }
    let dm1 = depth - 1;
    let ghost all_slots = spec_known_slots(tag_header.major, data@, start as int, dm1);
    let ghost mut done: Seq<(Seq<u8>, u32, FrameFlags, int, int)> = Seq::empty();
    let ghost mut added: Seq<crate::frames::Frame> = Seq::empty();
    let mut pos: usize = start;
    assert(all_slots =~= done + spec_known_slots(tag_header.major, data@, pos as int, dm1));
    assert(map.entries@ =~= spec_fold_frames(added));
    loop
        invariant_except_break
            start <= pos <= data@.len(),
            all_slots == done + spec_known_slots(tag_header.major, data@, pos as int, dm1),
        invariant
            tag_header.wf(),
            dm1 < depth,
            all_slots == spec_known_slots(tag_header.major, data@, start as int, dm1),
            added.len() == done.len(),
            forall|j: int|
                0 <= j < done.len() ==> spec_frame_matches(
                    #[trigger] added[j],
                    done[j].0,
                    done[j].1,
                    done[j].2,
                    data@.subrange(done[j].3, done[j].4),
                    tag_header.major,
                    dm1,
                ) && added[j].wf(),
            map.entries@ == spec_fold_frames(added),
            map.wf(),
            forall|i: int| 0 <= i < map.entries@.len() ==> (#[trigger] map.entries@[i]).wf(),
        ensures
            added.len() == all_slots.len(),
            forall|j: int|
                0 <= j < all_slots.len() ==> spec_frame_matches(
                    #[trigger] added[j],
                    all_slots[j].0,
                    all_slots[j].1,
                    all_slots[j].2,
                    data@.subrange(all_slots[j].3, all_slots[j].4),
                    tag_header.major,
                    dm1,
                ),
            map.entries@ == spec_fold_frames(added),
            map.wf(),
            forall|i: int| 0 <= i < map.entries@.len() ==> (#[trigger] map.entries@[i]).wf(),
        decreases data@.len() - pos,
    {
        let step = crate::frames::parse_frame(tag_header, data, pos, dm1);
        match step {
            Ok((FrameResult::Frame(f), new_pos)) => {
                let ghost slot = crate::frames::spec_slot(
                    tag_header.major,
                    data@,
                    pos as int,
                )->Some_0;
                let ghost id4 = crate::frames::spec_upgraded_id(tag_header.major, slot.0)->Some_0;
                proof {
                    assert(spec_known_slots(tag_header.major, data@, pos as int, dm1) =~= seq![
                        (id4, slot.1, slot.2, slot.3, slot.4),
                    ] + spec_known_slots(tag_header.major, data@, slot.4, dm1));
                    done = done.push((id4, slot.1, slot.2, slot.3, slot.4));
                    assert(done + spec_known_slots(tag_header.major, data@, slot.4, dm1) =~= (
                    done.drop_last() + (seq![(id4, slot.1, slot.2, slot.3, slot.4)]
                        + spec_known_slots(tag_header.major, data@, slot.4, dm1))));
                }
                let ghost added0 = added;
                map.add(f);
                proof {
                    added = added0.push(f);
                    assert(added.drop_last() =~= added0);
                    assert(added.last() == f);
                    assert(spec_fold_frames(added) == crate::collections::spec_add_frame(
                        spec_fold_frames(added0),
                        f,
                    ));
                    crate::collections::lemma_fold_frames_wf(added);
                }
                pos = new_pos;
            },
            _ => {
                proof {
                    assert(spec_known_slots(tag_header.major, data@, pos as int, dm1)
                        =~= Seq::empty());
                    assert(all_slots =~= done);
                }
                break ;
            },
        }
    }
    map
}

/// The flags of a table of contents.
#[derive(Clone, Copy, Debug, PartialEq, Eq, Structural)]
pub struct TocFlags {
    /// Whether this table is the top-level one.
    pub top_level: bool,
    /// Whether the listed elements are ordered.
    pub ordered: bool,
}

impl Default for TocFlags {
    /// No flags set.
    fn default() -> (r: Self)
        ensures
            r == (TocFlags { top_level: false, ordered: false }),
    {
        TocFlags { top_level: false, ordered: false }
    }
}

/// The flag byte a table of contents renders as.
pub open spec fn spec_toc_flag_byte(f: TocFlags) -> u8 {
    ((if f.top_level {
        2int
    } else {
        0int
    }) + (if f.ordered {
        1int
    } else {
        0int
    })) as u8
}

/// The element identifier byte regions read from a table of contents
/// body, up to the declared count, and the position after them.
pub open spec fn spec_toc_elems(b: Seq<u8>, pos: int, count: int) -> (Seq<Seq<u8>>, int)
    decreases count,
{
    if count <= 0 || pos >= b.len() || pos < 0 {
        (Seq::empty(), pos)
    } else {
        let t = spec_terminated(Encoding::Utf8, b.skip(pos));
        let rest = spec_toc_elems(b, pos + t.1, count - 1);
        (seq![t.0] + rest.0, rest.1)
    }
}

/// What parsing a table-of-contents body promises for its fixed fields:
/// the element identifier, the flag bits, and the listed elements.
pub open spec fn spec_toc_fields(
    body: Seq<u8>,
    element_id: Seq<char>,
    flags: TocFlags,
    elements: Seq<String>,
) -> bool {
    let t = spec_terminated(Encoding::Utf8, body);
    let ranges = spec_toc_elems(body, t.1 + 1, body[t.1 + 1] as int).0;
    &&& element_id == utf8_lossy_of(t.0)
    &&& flags == (TocFlags {
        top_level: crate::raw::spec_bit_at(6, body[t.1]),
        ordered: crate::raw::spec_bit_at(7, body[t.1]),
    })
    &&& elements.len() == ranges.len()
    &&& forall|j: int|
        0 <= j < ranges.len() ==> (#[trigger] elements[j])@ == utf8_lossy_of(ranges[j])
}

/// Where a table-of-contents body's embedded frames start: after the
/// listed elements.
pub open spec fn spec_toc_embed_start(body: Seq<u8>) -> int {
    let t = spec_terminated(Encoding::Utf8, body);
    spec_toc_elems(body, t.1 + 1, body[t.1 + 1] as int).1
}

/// The rendered element list: each element identifier terminated.
pub open spec fn spec_render_toc_elements(es: Seq<String>) -> Seq<u8>
    decreases es.len(),
{
    if es.len() == 0 {
        Seq::empty()
    } else {
        spec_render_toc_elements(es.drop_last()) + vstd::utf8::encode_utf8(es.last()@) + seq![0u8]
    }
}

/// A table-of-contents frame (`CTOC`): a terminated element identifier,
/// a flag byte, a count byte, the listed element identifiers, then
/// optional embedded frames.
#[derive(Debug)]
pub struct TableOfContentsFrame {
    /// The frame envelope.
    pub header: FrameHeader,
    /// The identifier that names this table within the tag.
    pub element_id: String,
    /// The table's flags.
    pub flags: TocFlags,
    /// The identifiers of the chapters and tables this one lists.
    pub elements: Vec<String>,
    /// The frames embedded in the table.
    pub frames: FrameMap,
}

impl TableOfContentsFrame {
    /// An empty frame: no flags at the frame or table level, an empty
    /// element identifier, no listed elements, and no embedded frames.
    pub fn new() -> (r: TableOfContentsFrame)
        ensures
            r.header.id@ == "CTOC"@,
            r.header.flags == spec_frame_flags_clear(),
            r.element_id@ == Seq::<char>::empty(),
            r.flags == (TocFlags { top_level: false, ordered: false }),
            r.elements@.len() == 0,
            r.frames.entries@.len() == 0,
            r.frames.wf(),
    {
        Self::with_flags(FrameFlags::new())
    }

    /// An empty frame with the given frame flags: no table-level flags,
    /// an empty element identifier, no listed elements, and no embedded
    /// frames.
    pub fn with_flags(flags: FrameFlags) -> (r: TableOfContentsFrame)
        ensures
            r.header.id@ == "CTOC"@,
            r.header.flags == flags,
            r.element_id@ == Seq::<char>::empty(),
            r.flags == (TocFlags { top_level: false, ordered: false }),
            r.elements@.len() == 0,
            r.frames.entries@.len() == 0,
            r.frames.wf(),
    {
        Self::with_header(FrameHeader::with_flags("CTOC", flags))
    }

    /// An empty frame around the given header.
    pub(crate) fn with_header(header: FrameHeader) -> (r: TableOfContentsFrame)
        ensures
            r.header == header,
            r.element_id@ == Seq::<char>::empty(),
            r.flags == (TocFlags { top_level: false, ordered: false }),
            r.elements@.len() == 0,
            r.frames.entries@.len() == 0,
            r.frames.wf(),
    {
        TableOfContentsFrame {
            header,
            element_id: String::new(),
            flags: TocFlags::default(),
            elements: Vec::new(),
            frames: FrameMap::new(),
        }
    }

    /// The identifier that names this table.
    pub fn element_id(&self) -> (r: &String)
        ensures
            r@ == self.element_id@,
    {
        &self.element_id
    }

    /// The table's flags.
    pub fn flags(&self) -> (r: &TocFlags)
        ensures
            *r == self.flags,
    {
        &self.flags
    }

    /// The identifiers of the chapters and tables this one lists.
    pub fn elements(&self) -> (r: &Vec<String>)
        ensures
            r == &self.elements,
    {
        &self.elements
    }

    /// The frames embedded in the table.
    pub fn frames(&self) -> (r: &FrameMap)
        ensures
            r == &self.frames,
    {
        &self.frames
    }

    /// The frames embedded in the table.
    pub fn frames_mut(&mut self) -> &mut FrameMap {
        &mut self.frames
    }

    /// Parses the frame body: the element identifier, the flag and count
    /// bytes, the listed elements, then the embedded frames, to a bounded
    /// nesting depth.
    pub fn parse(&mut self, tag_header: &TagHeader, data: &[u8]) -> (r: ParseResult<()>)
        requires
            tag_header.wf(),
        ensures
            r is Ok <==> (data@.len() >= 4 && spec_terminated(Encoding::Utf8, data@).1 + 2
                <= data@.len()),
            r is Ok ==> final(self).header == old(self).header && spec_toc_fields(
                data@,
                final(self).element_id@,
                final(self).flags,
                final(self).elements@,
            ) && spec_embedded_frames_post(
                tag_header.major,
                data@,
                spec_toc_embed_start(data@),
                EMBED_DEPTH_LIMIT,
                final(self).frames.entries@,
            ) && final(self).frames.wf(),
            r matches Err(e) ==> *final(self) == *old(self) && e == ParseError::NotEnoughData,
    {
        self.parse_embedded(tag_header, data, EMBED_DEPTH_LIMIT)
    }

    /// Parses the frame body with an explicit remaining nesting depth.
    #[verifier::rlimit(30)]
    pub(crate) fn parse_embedded(&mut self, tag_header: &TagHeader, data: &[u8], depth: u32) -> (r:
        ParseResult<()>)
        requires
            tag_header.wf(),
        ensures
            r is Ok <==> (data@.len() >= 4 && spec_terminated(Encoding::Utf8, data@).1 + 2
                <= data@.len()),
            r is Ok ==> final(self).header == old(self).header && spec_toc_fields(
                data@,
                final(self).element_id@,
                final(self).flags,
                final(self).elements@,
            ) && spec_embedded_frames_post(
                tag_header.major,
                data@,
                spec_toc_embed_start(data@),
                depth,
                final(self).frames.entries@,
            ) && final(self).frames.wf() && (forall|i: int|
                0 <= i < final(self).frames.entries@.len() ==> (#[trigger] final(self).frames.entries@[i]).wf()),
            r matches Err(e) ==> *final(self) == *old(self) && e == ParseError::NotEnoughData,
        decreases depth, 1int,
    {
        if data.len() < 4 {
            return Err(ParseError::NotEnoughData);
        }
        proof {
            crate::text::lemma_terminated_bound(Encoding::Utf8, data@);
        }
        let (element_id, elem_size) = strings::get_terminated_string(Encoding::Utf8, data);
        if elem_size > data.len() - 2 {
            return Err(ParseError::NotEnoughData);
        }
        let flag_byte = data[elem_size];
        let flags = TocFlags {
            top_level: raw::bit_at(6, flag_byte),
            ordered: raw::bit_at(7, flag_byte),
        };
        let entry_count = data[elem_size + 1];
        let ghost all_elems = spec_toc_elems(data@, elem_size + 1, entry_count as int);
        let mut elements: Vec<String> = Vec::new();
        let mut pos: usize = elem_size + 1;
        let mut i: u8 = 0;
        let ghost mut done_ranges: Seq<Seq<u8>> = Seq::empty();
        assert(spec_toc_elems(data@, pos as int, (entry_count - i) as int) == all_elems);
        assert(done_ranges + spec_toc_elems(data@, pos as int, (entry_count - i) as int).0
            =~= all_elems.0);
        while i < entry_count && pos < data.len()
            invariant
                pos <= data@.len(),
                i <= entry_count,
                elements@.len() == done_ranges.len(),
                all_elems.0 == done_ranges + spec_toc_elems(
                    data@,
                    pos as int,
                    (entry_count - i) as int,
                ).0,
                all_elems.1 == spec_toc_elems(data@, pos as int, (entry_count - i) as int).1,
                forall|j: int|
                    0 <= j < done_ranges.len() ==> (#[trigger] elements@[j])@ == utf8_lossy_of(
                        done_ranges[j],
                    ),
            decreases entry_count - i,
        {
            let ghost rem_count = (entry_count - i) as int;
            proof {
                crate::text::lemma_terminated_bound(Encoding::Utf8, data@.skip(pos as int));
            }
            let (element, esize) = strings::get_terminated_string(
                Encoding::Utf8,
                vstd::slice::slice_subrange(data, pos, data.len()),
            );
            proof {
                let t = spec_terminated(Encoding::Utf8, data@.skip(pos as int));
                assert(spec_toc_elems(data@, pos as int, rem_count).0 =~= seq![t.0]
                    + spec_toc_elems(data@, pos + t.1, rem_count - 1).0);
                done_ranges = done_ranges.push(t.0);
                assert(done_ranges + spec_toc_elems(data@, pos + t.1, rem_count - 1).0 =~= (
                done_ranges.drop_last() + (seq![t.0] + spec_toc_elems(
                    data@,
                    pos + t.1,
                    rem_count - 1,
                ).0)));
            }
            proof {
                let rem = data@.skip(pos as int);
                crate::text::lemma_find_nul1_bound(rem, 0);
                assert(rem.len() >= 1);
                assert(spec_terminated(Encoding::Utf8, rem).1 >= 1);
            }
            elements.push(element);
            pos = pos + esize;
            i = i + 1;
        }
        if i < entry_count {
            assert(pos >= data@.len());
            assert(spec_toc_elems(data@, pos as int, (entry_count - i) as int).0 =~= Seq::empty());
        } else {
            assert(spec_toc_elems(data@, pos as int, (entry_count - i) as int).0 =~= Seq::empty());
        }
        assert(all_elems.0 =~= done_ranges);
        assert(all_elems.1 == pos as int);
        let frames = parse_embedded_frames(tag_header, data, pos, depth);
        self.element_id = element_id;
        self.flags = flags;
        self.elements = elements;
        self.frames = frames;
        Ok(())
    }

    /// Renders the frame body: the terminated element identifier, the
    /// flag and count bytes, the terminated elements, then the embedded
    /// frames. Fails with `TooLarge` when an embedded frame's body
    /// exceeds the syncsafe size limit.
    #[verifier::loop_isolation(false)]
    pub fn render_body(&self, tag_header: &TagHeader) -> (r: SaveResult<Vec<u8>>)
        requires
            tag_header.major == 3 || tag_header.major == 4,
            forall|i: int|
                0 <= i < self.frames.entries@.len() ==> (#[trigger] self.frames.entries@[i]).wf(),
        ensures
            r matches Ok(v) ==> v@ == vstd::utf8::encode_utf8(self.element_id@) + seq![0u8] + seq![
                spec_toc_flag_byte(self.flags),
                self.elements@.len() as u8,
            ] + spec_render_toc_elements(self.elements@) + spec_render_frames(
                tag_header.major,
                self.frames.entries@,
            ),
            r matches Err(e) ==> e == SaveError::TooLarge && exists|i: int|
                0 <= i < self.frames.entries@.len() && crate::frames::spec_frame_body(
                    tag_header.major,
                    #[trigger] self.frames.entries@[i],
                ).len() > crate::raw::SYNCSAFE_MAX,
        decreases self.frames.entries@, 3int,
    {
        let mut out = self.element_id.as_str().as_bytes_vec();
        out.push(0);
        let flag_byte: u8 = (if self.flags.top_level {
            2u8
        } else {
            0u8
        }) + (if self.flags.ordered {
            1u8
        } else {
            0u8
        });
        out.push(flag_byte);
        out.push(self.elements.len() as u8);
        let ghost head = out@;
        let mut k: usize = 0;
        assert(self.elements@.take(0) =~= Seq::<String>::empty());
        assert(out@ =~= head + spec_render_toc_elements(self.elements@.take(0)));
        while k < self.elements.len()
            invariant
                k <= self.elements@.len(),
                out@ == head + spec_render_toc_elements(self.elements@.take(k as int)),
            decreases self.elements@.len() - k,
        {
            let mut e = self.elements[k].as_str().as_bytes_vec();
            out.append(&mut e);
            out.push(0);
            proof {
                assert(self.elements@.take(k as int + 1).drop_last() =~= self.elements@.take(
                    k as int,
                ));
                assert(self.elements@.take(k as int + 1).last() == self.elements@[k as int]);
                assert(out@ =~= head + spec_render_toc_elements(self.elements@.take(k as int + 1)));
            }
            k = k + 1;
        }
        assert(self.elements@.take(self.elements@.len() as int) =~= self.elements@);
        let mut nested = match self.frames.render(tag_header) {
            Ok(v) => v,
            Err(e) => {
                return Err(e);
            },
        };
        out.append(&mut nested);
        assert(out@ =~= vstd::utf8::encode_utf8(self.element_id@) + seq![0u8] + seq![
            spec_toc_flag_byte(self.flags),
            self.elements@.len() as u8,
        ] + spec_render_toc_elements(self.elements@) + spec_render_frames(
            tag_header.major,
            self.frames.entries@,
        ));
        Ok(out)
    }
}

} // verus!
