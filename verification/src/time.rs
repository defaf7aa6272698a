//! Timestamp formats used by timed frames.

use vstd::prelude::*;

verus! {

/// The unit a frame's timestamps are expressed in. Unrecognized format
/// bytes map to `Other` so that they stay representable.
#[derive(Clone, Copy, Debug, PartialEq, Eq, Structural)]
pub enum TimestampFormat {
    Other,
    MpegFrames,
    Millis,
}

/// The raw byte a timestamp format renders as.
pub open spec fn spec_format_code(f: TimestampFormat) -> u8 {
    match f {
        TimestampFormat::Other => 0,
        TimestampFormat::MpegFrames => 1,
        TimestampFormat::Millis => 2,
    }
}

/// The timestamp format named by a raw format byte.
pub open spec fn spec_timestamp_format(b: u8) -> TimestampFormat {
    if b == 1 {
        TimestampFormat::MpegFrames
    } else if b == 2 {
        TimestampFormat::Millis
    } else {
        TimestampFormat::Other
    }
}

impl TimestampFormat {
    /// Maps a raw format byte to a format; unrecognized bytes are `Other`.
    pub fn new(b: u8) -> (r: TimestampFormat)
        ensures
            r == spec_timestamp_format(b),
    {
        match b {
            1 => TimestampFormat::MpegFrames,
            2 => TimestampFormat::Millis,
            _ => TimestampFormat::Other,
        }
    }

    /// The raw byte written for this format when a frame is rendered.
    pub fn render_code(&self) -> (r: u8)
        ensures
            r == spec_format_code(*self),
            spec_timestamp_format(r) == *self,
    {
        match self {
            TimestampFormat::Other => 0,
            TimestampFormat::MpegFrames => 1,
            TimestampFormat::Millis => 2,
        }
    }
}

impl Default for TimestampFormat {
    /// A fresh frame starts with the unspecified format.
    fn default() -> (r: Self)
        ensures
            r == TimestampFormat::Other,
    {
        TimestampFormat::Other
    }
}

/// A point in time read from a frame, tagged with its unit.
#[derive(Clone, Copy, Debug, PartialEq, Eq, Structural)]
pub enum Timestamp {
    Other(u32),
    MpegFrames(u32),
    Millis(u32),
}

/// The timestamp built from a format and a raw 32-bit value.
pub open spec fn spec_timestamp(format: TimestampFormat, value: u32) -> Timestamp {
    match format {
        TimestampFormat::Other => Timestamp::Other(value),
        TimestampFormat::MpegFrames => Timestamp::MpegFrames(value),
        TimestampFormat::Millis => Timestamp::Millis(value),
    }
}

impl Timestamp {
    /// Tags a raw 32-bit value with the given format's unit.
    pub fn new(format: TimestampFormat, value: u32) -> (r: Timestamp)
        ensures
            r == spec_timestamp(format, value),
    {
        match format {
            TimestampFormat::Other => Timestamp::Other(value),
            TimestampFormat::MpegFrames => Timestamp::MpegFrames(value),
            TimestampFormat::Millis => Timestamp::Millis(value),
        }
    }

    /// The raw 32-bit value, without its unit.
    pub fn value(&self) -> (r: u32)
        ensures
            r == self.spec_value(),
    {
        match self {
            Timestamp::Other(v) => *v,
            Timestamp::MpegFrames(v) => *v,
            Timestamp::Millis(v) => *v,
        }
    }

    /// The raw 32-bit value, without its unit.
    pub open spec fn spec_value(&self) -> u32 {
        match self {
            Timestamp::Other(v) => *v,
            Timestamp::MpegFrames(v) => *v,
            Timestamp::Millis(v) => *v,
        }
    }
}

} // verus!
