//! Error types shared by the parsing and saving paths.

use vstd::prelude::*;

verus! {

/// The result given after a parsing operation.
pub type ParseResult<T> = Result<T, ParseError>;

/// The result given after a save operation.
pub type SaveResult<T> = Result<T, SaveError>;

/// The error type returned when parsing ID3v2 tags.
#[derive(Clone, Copy, Debug, PartialEq, Eq, Structural)]
pub enum ParseError {
    /// A problem occurred while reading bytes for a tag. Only the file
    /// layer constructs this variant; the parsers themselves never do.
    IoError,
    /// A structure was shorter than its layout requires.
    NotEnoughData,
    /// A part of the tag violates the format's invariants.
    MalformedData,
    /// The construct is recognized but intentionally unhandled.
    Unsupported,
    /// No tag was found. A malformed tag header is reported the same way,
    /// since absence and corruption are indistinguishable at that boundary.
    NotFound,
}

impl ParseError {
    /// A short human-readable description of the error.
    pub fn message(&self) -> (r: String)
        ensures
            r@.len() > 0,
    {
        let s = match self {
            ParseError::IoError => "io error",
            ParseError::NotEnoughData => "not enough data",
            ParseError::MalformedData => "malformed data",
            ParseError::Unsupported => "unsupported",
            ParseError::NotFound => "not found",
        };
        proof {
            reveal_strlit("io error");
            reveal_strlit("not enough data");
            reveal_strlit("malformed data");
            reveal_strlit("unsupported");
            reveal_strlit("not found");
        }
        String::from_str(s)
    }
}

/// The error type returned when saving ID3v2 tags.
#[derive(Clone, Copy, Debug, PartialEq, Eq, Structural)]
pub enum SaveError {
    /// A problem occurred while writing the tag. Only the file layer
    /// constructs this variant.
    IoError,
    /// The rendered tag would exceed the syncsafe size limit.
    TooLarge,
}

impl SaveError {
    /// A short human-readable description of the error.
    pub fn message(&self) -> (r: String)
        ensures
            r@.len() > 0,
    {
        let s = match self {
            SaveError::IoError => "io error",
            SaveError::TooLarge => "tag is too large to be saved",
        };
        proof {
            reveal_strlit("io error");
            reveal_strlit("tag is too large to be saved");
        }
        String::from_str(s)
    }
}

} // verus!
