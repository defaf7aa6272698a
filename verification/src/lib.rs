//! A verified reader and writer for ID3v2 metadata tags.
//!
//! ID3v2 is a chunked, versioned binary container prepended to audio files:
//! a fixed ten-byte header, an optional extended header, and a sequence of
//! variable-length frames, each parsed according to its identifier. This
//! crate implements the binary codec layer (syncsafe integers, the
//! unsynchronization byte-stuffing transform, multi-encoding strings), the
//! per-version header layouts, the frame parsers and renderers, a keyed
//! frame collection, the version-migration rules, and the pure parts of
//! opening and saving a tag. File input and output stays with the caller,
//! which hands whole byte buffers in and out.

pub mod chapters;
pub mod collections;
pub mod compat;
pub mod error;
pub mod events;
pub mod geob;
pub mod frames;
pub mod header;
pub mod lyrics;
pub mod owner;
pub mod raw;
pub mod strings;
pub mod syncdata;
pub mod tag;
pub mod text;
pub mod time;
pub mod url;
