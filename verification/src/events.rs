//! The event timing codes frame.

use crate::error::{ParseError, ParseResult};
use crate::frames::{FrameFlags, FrameHeader};
use crate::header::TagHeader;
use crate::raw;
use crate::raw::spec_be_u32;
use crate::time::{
    spec_timestamp, spec_timestamp_format, Timestamp, TimestampFormat,
};
use vstd::prelude::*;

verus! {

/// The kind of a timed event. Unrecognized bytes map to `Reserved` so
/// that they stay representable.
#[derive(Clone, Copy, Debug, PartialEq, Eq, Structural)]
pub enum EventType {
    Padding,
    EndOfInitialSilence,
    IntroStart,
    MainPartStart,
    OutroStart,
    OutroEnd,
    VerseStart,
    RefrainStart,
    InterludeStart,
    ThemeStart,
    VariationStart,
    KeyChange,
    TimeChange,
    MomentaryUnwantedNoise,
    SustainedNoise,
    SustainedNoiseEnd,
    IntroEnd,
    MainPartEnd,
    VerseEnd,
    RefrainEnd,
    ThemeEnd,
    Profanity,
    ProfanityEnd,
    Reserved,
    Sync0,
    Sync1,
    Sync2,
    Sync3,
    Sync4,
    Sync5,
    Sync6,
    Sync7,
    Sync8,
    Sync9,
    SyncA,
    SyncB,
    SyncC,
    SyncD,
    SyncE,
    SyncF,
    AudioEnd,
    AudioFileEnd,
}

/// The event kind named by a raw event byte.
pub open spec fn spec_event_type(b: u8) -> EventType {
    if b == 0x00 {
        EventType::Padding
    } else if b == 0x01 {
        EventType::EndOfInitialSilence
    } else if b == 0x02 {
        EventType::IntroStart
    } else if b == 0x03 {
        EventType::MainPartStart
    } else if b == 0x04 {
        EventType::OutroStart
    } else if b == 0x05 {
        EventType::OutroEnd
    } else if b == 0x06 {
        EventType::VerseStart
    } else if b == 0x07 {
        EventType::RefrainStart
    } else if b == 0x08 {
        EventType::InterludeStart
    } else if b == 0x09 {
        EventType::ThemeStart
    } else if b == 0x0A {
        EventType::VariationStart
    } else if b == 0x0B {
        EventType::KeyChange
    } else if b == 0x0C {
        EventType::TimeChange
    } else if b == 0x0D {
        EventType::MomentaryUnwantedNoise
    } else if b == 0x0E {
        EventType::SustainedNoise
    } else if b == 0x0F {
        EventType::SustainedNoiseEnd
    } else if b == 0x10 {
        EventType::IntroEnd
    } else if b == 0x11 {
        EventType::MainPartEnd
    } else if b == 0x12 {
        EventType::VerseEnd
    } else if b == 0x13 {
        EventType::RefrainEnd
    } else if b == 0x14 {
        EventType::ThemeEnd
    } else if b == 0x15 {
        EventType::Profanity
    } else if b == 0x16 {
        EventType::ProfanityEnd
    } else if b == 0xE0 {
        EventType::Sync0
    } else if b == 0xE1 {
        EventType::Sync1
    } else if b == 0xE2 {
        EventType::Sync2
    } else if b == 0xE3 {
        EventType::Sync3
    } else if b == 0xE4 {
        EventType::Sync4
    } else if b == 0xE5 {
        EventType::Sync5
    } else if b == 0xE6 {
        EventType::Sync6
    } else if b == 0xE7 {
        EventType::Sync7
    } else if b == 0xE8 {
        EventType::Sync8
    } else if b == 0xE9 {
        EventType::Sync9
    } else if b == 0xEA {
        EventType::SyncA
    } else if b == 0xEB {
        EventType::SyncB
    } else if b == 0xEC {
        EventType::SyncC
    } else if b == 0xED {
        EventType::SyncD
    } else if b == 0xEE {
        EventType::SyncE
    } else if b == 0xEF {
        EventType::SyncF
    } else if b == 0xFD {
        EventType::AudioEnd
    } else if b == 0xFE {
        EventType::AudioFileEnd
    } else {
        EventType::Reserved
    }
}

/// The raw byte an event kind renders as.
pub open spec fn spec_event_code(e: EventType) -> u8 {
    match e {
        EventType::Padding => 0x00,
        EventType::EndOfInitialSilence => 0x01,
        EventType::IntroStart => 0x02,
        EventType::MainPartStart => 0x03,
        EventType::OutroStart => 0x04,
        EventType::OutroEnd => 0x05,
        EventType::VerseStart => 0x06,
        EventType::RefrainStart => 0x07,
        EventType::InterludeStart => 0x08,
        EventType::ThemeStart => 0x09,
        EventType::VariationStart => 0x0A,
        EventType::KeyChange => 0x0B,
        EventType::TimeChange => 0x0C,
        EventType::MomentaryUnwantedNoise => 0x0D,
        EventType::SustainedNoise => 0x0E,
        EventType::SustainedNoiseEnd => 0x0F,
        EventType::IntroEnd => 0x10,
        EventType::MainPartEnd => 0x11,
        EventType::VerseEnd => 0x12,
        EventType::RefrainEnd => 0x13,
        EventType::ThemeEnd => 0x14,
        EventType::Profanity => 0x15,
        EventType::ProfanityEnd => 0x16,
        EventType::Reserved => 0x17,
        EventType::Sync0 => 0xE0,
        EventType::Sync1 => 0xE1,
        EventType::Sync2 => 0xE2,
        EventType::Sync3 => 0xE3,
        EventType::Sync4 => 0xE4,
        EventType::Sync5 => 0xE5,
        EventType::Sync6 => 0xE6,
        EventType::Sync7 => 0xE7,
        EventType::Sync8 => 0xE8,
        EventType::Sync9 => 0xE9,
        EventType::SyncA => 0xEA,
        EventType::SyncB => 0xEB,
        EventType::SyncC => 0xEC,
        EventType::SyncD => 0xED,
        EventType::SyncE => 0xEE,
        EventType::SyncF => 0xEF,
        EventType::AudioEnd => 0xFD,
        EventType::AudioFileEnd => 0xFE,
    }
}

/// The rendered event records: each event's byte, then its timestamp as
/// four big-endian bytes.
pub open spec fn spec_etco_records(events: Seq<Event>) -> Seq<u8>
    decreases events.len(),
{
    if events.len() == 0 {
        Seq::empty()
    } else {
        spec_etco_records(events.drop_last()) + seq![spec_event_code(events.last().event_type)]
            + raw::spec_render_u32(events.last().timestamp.spec_value())
    }
}

/// The rendered body of an event timing codes frame: the format byte,
/// then the event records.
pub open spec fn spec_etco_body(e: EventTimingCodesFrame) -> Seq<u8> {
    seq![crate::time::spec_format_code(e.time_format)] + spec_etco_records(e.events@)
}

impl EventType {
    /// Maps a raw event byte to an event kind; unrecognized bytes are
    /// `Reserved`.
    pub fn new(b: u8) -> (r: EventType)
        ensures
            r == spec_event_type(b),
    {
        match b {
            0x00 => EventType::Padding,
            0x01 => EventType::EndOfInitialSilence,
            0x02 => EventType::IntroStart,
            0x03 => EventType::MainPartStart,
            0x04 => EventType::OutroStart,
            0x05 => EventType::OutroEnd,
            0x06 => EventType::VerseStart,
            0x07 => EventType::RefrainStart,
            0x08 => EventType::InterludeStart,
            0x09 => EventType::ThemeStart,
            0x0A => EventType::VariationStart,
            0x0B => EventType::KeyChange,
            0x0C => EventType::TimeChange,
            0x0D => EventType::MomentaryUnwantedNoise,
            0x0E => EventType::SustainedNoise,
            0x0F => EventType::SustainedNoiseEnd,
            0x10 => EventType::IntroEnd,
            0x11 => EventType::MainPartEnd,
            0x12 => EventType::VerseEnd,
            0x13 => EventType::RefrainEnd,
            0x14 => EventType::ThemeEnd,
            0x15 => EventType::Profanity,
            0x16 => EventType::ProfanityEnd,
            0xE0 => EventType::Sync0,
            0xE1 => EventType::Sync1,
            0xE2 => EventType::Sync2,
            0xE3 => EventType::Sync3,
            0xE4 => EventType::Sync4,
            0xE5 => EventType::Sync5,
            0xE6 => EventType::Sync6,
            0xE7 => EventType::Sync7,
            0xE8 => EventType::Sync8,
            0xE9 => EventType::Sync9,
            0xEA => EventType::SyncA,
            0xEB => EventType::SyncB,
            0xEC => EventType::SyncC,
            0xED => EventType::SyncD,
            0xEE => EventType::SyncE,
            0xEF => EventType::SyncF,
            0xFD => EventType::AudioEnd,
            0xFE => EventType::AudioFileEnd,
            _ => EventType::Reserved,
        }
    }

    /// The raw byte written for this event kind when a frame is rendered.
    pub fn render_code(&self) -> (r: u8)
        ensures
            r == spec_event_code(*self),
            spec_event_type(r) == *self,
    {
        match self {
            EventType::Padding => 0x00,
            EventType::EndOfInitialSilence => 0x01,
            EventType::IntroStart => 0x02,
            EventType::MainPartStart => 0x03,
            EventType::OutroStart => 0x04,
            EventType::OutroEnd => 0x05,
            EventType::VerseStart => 0x06,
            EventType::RefrainStart => 0x07,
            EventType::InterludeStart => 0x08,
            EventType::ThemeStart => 0x09,
            EventType::VariationStart => 0x0A,
            EventType::KeyChange => 0x0B,
            EventType::TimeChange => 0x0C,
            EventType::MomentaryUnwantedNoise => 0x0D,
            EventType::SustainedNoise => 0x0E,
            EventType::SustainedNoiseEnd => 0x0F,
            EventType::IntroEnd => 0x10,
            EventType::MainPartEnd => 0x11,
            EventType::VerseEnd => 0x12,
            EventType::RefrainEnd => 0x13,
            EventType::ThemeEnd => 0x14,
            EventType::Profanity => 0x15,
            EventType::ProfanityEnd => 0x16,
            EventType::Reserved => 0x17,
            EventType::Sync0 => 0xE0,
            EventType::Sync1 => 0xE1,
            EventType::Sync2 => 0xE2,
            EventType::Sync3 => 0xE3,
            EventType::Sync4 => 0xE4,
            EventType::Sync5 => 0xE5,
            EventType::Sync6 => 0xE6,
            EventType::Sync7 => 0xE7,
            EventType::Sync8 => 0xE8,
            EventType::Sync9 => 0xE9,
            EventType::SyncA => 0xEA,
            EventType::SyncB => 0xEB,
            EventType::SyncC => 0xEC,
            EventType::SyncD => 0xED,
            EventType::SyncE => 0xEE,
            EventType::SyncF => 0xEF,
            EventType::AudioEnd => 0xFD,
            EventType::AudioFileEnd => 0xFE,
        }
    }
}

impl Default for EventType {
    /// The fallback kind for unrecognized event bytes.
    fn default() -> (r: Self)
        ensures
            r == EventType::Reserved,
    {
        EventType::Reserved
    }
}

/// One timed event: its kind and when it happens.
#[derive(Clone, Copy, Debug, PartialEq, Eq, Structural)]
pub struct Event {
    /// The kind of event.
    pub event_type: EventType,
    /// When the event happens, in the frame's timestamp format.
    pub timestamp: Timestamp,
}

/// The count of whole five-byte event records after the format byte.
pub open spec fn spec_event_count(n: int) -> int {
    if n >= 1 {
        (n - 1) / 5
    } else {
        0
    }
}

/// What parsing an event timing body promises: the format comes from the
/// first byte, and one event per whole five-byte record after it.
pub open spec fn spec_events_post(body: Seq<u8>, tf: TimestampFormat, events: Seq<Event>) -> bool {
    &&& tf == spec_timestamp_format(body[0])
    &&& events.len() == spec_event_count(body.len() as int)
    &&& forall|i: int|
        0 <= i < events.len() ==> #[trigger] events[i] == (Event {
            event_type: spec_event_type(body[1 + 5 * i]),
            timestamp: spec_timestamp(
                spec_timestamp_format(body[0]),
                spec_be_u32(
                    body[2 + 5 * i],
                    body[3 + 5 * i],
                    body[4 + 5 * i],
                    body[5 + 5 * i],
                ) as u32,
            ),
        })
}

/// An event timing codes frame (`ETCO`): a timestamp format byte, then
/// repeated records of one event byte and a four-byte timestamp.
#[derive(Debug)]
pub struct EventTimingCodesFrame {
    /// The frame envelope.
    pub header: FrameHeader,
    /// The unit of the event timestamps.
    pub time_format: TimestampFormat,
    /// The timed events, in reading order.
    pub events: Vec<Event>,
}

impl EventTimingCodesFrame {
    /// An empty frame.
    pub fn new() -> (r: EventTimingCodesFrame)
        ensures
            r.header.id@ == "ETCO"@,
            r.events@.len() == 0,
    {
        Self::with_flags(FrameFlags::new())
    }

    /// An empty frame with the given flags.
    pub fn with_flags(flags: FrameFlags) -> (r: EventTimingCodesFrame)
        ensures
            r.header.id@ == "ETCO"@,
            r.header.flags == flags,
            r.events@.len() == 0,
    {
        Self::with_header(FrameHeader::with_flags("ETCO", flags))
    }

    /// An empty frame around the given header.
    pub(crate) fn with_header(header: FrameHeader) -> (r: EventTimingCodesFrame)
        ensures
            r.header == header,
            r.events@.len() == 0,
    {
        EventTimingCodesFrame { header, time_format: TimestampFormat::Other, events: Vec::new() }
    }

    /// The unit of the event timestamps.
    pub fn time_format(&self) -> (r: TimestampFormat)
        ensures
            r == self.time_format,
    {
        self.time_format
    }

    /// The timed events, in reading order.
    pub fn events(&self) -> (r: &Vec<Event>)
        ensures
            r == &self.events,
    {
        &self.events
    }

    /// Parses the frame body: a format byte, then one event and one
    /// four-byte timestamp per record, stopping when fewer than five
    /// bytes remain.
    #[verifier::loop_isolation(false)]
    pub fn parse(&mut self, _tag_header: &TagHeader, data: &[u8]) -> (r: ParseResult<()>)
        ensures
            r is Ok <==> data@.len() >= 1,
            r is Ok ==> final(self).header == old(self).header && final(self).time_format
                == spec_timestamp_format(data@[0]) && final(self).events@.len() == spec_event_count(
                data@.len() as int,
            ) && (forall|i: int|
                0 <= i < final(self).events@.len() ==> #[trigger] final(self).events@[i] == (Event {
                    event_type: spec_event_type(data@[1 + 5 * i]),
                    timestamp: spec_timestamp(
                        spec_timestamp_format(data@[0]),
                        spec_be_u32(
                            data@[2 + 5 * i],
                            data@[3 + 5 * i],
                            data@[4 + 5 * i],
                            data@[5 + 5 * i],
                        ) as u32,
                    ),
                })),
            r matches Err(e) ==> *final(self) == *old(self) && e == ParseError::NotEnoughData,
    {
        if data.len() == 0 {
            return Err(ParseError::NotEnoughData);
        }
        let time_format = TimestampFormat::new(data[0]);
        let mut events: Vec<Event> = Vec::new();
        let mut pos: usize = 1;
        while pos + 4 < data.len()
            invariant
                pos == 1 + 5 * events@.len(),
                pos <= data@.len(),
                forall|i: int|
                    0 <= i < events@.len() ==> #[trigger] events@[i] == (Event {
                        event_type: spec_event_type(data@[1 + 5 * i]),
                        timestamp: spec_timestamp(
                            spec_timestamp_format(data@[0]),
                            spec_be_u32(
                                data@[2 + 5 * i],
                                data@[3 + 5 * i],
                                data@[4 + 5 * i],
                                data@[5 + 5 * i],
                            ) as u32,
                        ),
                    }),
            decreases data@.len() - pos,
        {
            let event_type = EventType::new(data[pos]);
            let value = raw::to_u32(vstd::slice::slice_subrange(data, pos + 1, pos + 5));
            let timestamp = Timestamp::new(time_format, value);
            events.push(Event { event_type, timestamp });
            pos = pos + 5;
        }
        assert(events@.len() == spec_event_count(data@.len() as int)) by {
            let n = data@.len() as int;
            let k = events@.len() as int;
            assert(1 + 5 * k <= n && 1 + 5 * k + 4 >= n);
            assert(k == (n - 1) / 5) by (nonlinear_arith)
                requires
                    n >= 1,
                    n - 5 <= 5 * k,
                    5 * k <= n - 1,
                    k >= 0,
            ;
        };
        self.time_format = time_format;
        self.events = events;
        Ok(())
    }

    /// Renders the frame body: the format byte, then each event's byte
    /// and timestamp.
    #[verifier::loop_isolation(false)]
    pub fn render_body(&self) -> (r: Vec<u8>)
        ensures
            r@ == spec_etco_body(*self),
    {
        let mut out: Vec<u8> = Vec::new();
        out.push(self.time_format.render_code());
        let ghost head = out@;
        let mut i: usize = 0;
        assert(self.events@.take(0) =~= Seq::<Event>::empty());
        assert(out@ =~= head + spec_etco_records(self.events@.take(0)));
        while i < self.events.len()
            invariant
                i <= self.events@.len(),
                out@ == head + spec_etco_records(self.events@.take(i as int)),
            decreases self.events@.len() - i,
        {
            out.push(self.events[i].event_type.render_code());
            let mut ts = raw::render_u32(self.events[i].timestamp.value());
            out.append(&mut ts);
            proof {
                assert(self.events@.take(i as int + 1).drop_last() =~= self.events@.take(i as int));
                assert(self.events@.take(i as int + 1).last() == self.events@[i as int]);
                assert(out@ =~= head + spec_etco_records(self.events@.take(i as int + 1)));
            }
            i = i + 1;
        }
        assert(self.events@.take(self.events@.len() as int) =~= self.events@);
        assert(out@ =~= spec_etco_body(*self));
        out
    }
}

impl Default for EventTimingCodesFrame {
    /// An empty frame.
    fn default() -> (r: Self)
        ensures
            r.header.id@ == "ETCO"@,
            r.events@.len() == 0,
    {
        Self::new()
    }
}

} // verus!
