//! The fixed tag header and the optional extended header.

use crate::error::{ParseError, ParseResult};
use crate::raw;
use crate::raw::{
    spec_be_u32, spec_bit_at, spec_syncsafe_combine, spec_syncsafe_encode, SYNCSAFE_MAX,
};
use vstd::prelude::*;
use vstd::slice::{slice_subrange, slice_to_vec};

verus! {

/// An ID3v2 version a tag can carry.
#[derive(Clone, Copy, Debug, PartialEq, Eq, Structural)]
pub enum Version {
    V22,
    V23,
    V24,
}

/// A version a tag can be saved as. ID3v2.2 is obsolete and is always
/// upgraded on save, so it is absent here.
#[derive(Clone, Copy, Debug, PartialEq, Eq, Structural)]
pub enum SaveVersion {
    V23,
    V24,
}

/// The `Version` a `SaveVersion` stands for.
pub open spec fn spec_version_of_save(v: SaveVersion) -> Version {
    match v {
        SaveVersion::V23 => Version::V23,
        SaveVersion::V24 => Version::V24,
    }
}

impl SaveVersion {
    /// The plain version this save version stands for.
    pub fn to_version(&self) -> (r: Version)
        ensures
            r == spec_version_of_save(*self),
    {
        match self {
            SaveVersion::V23 => Version::V23,
            SaveVersion::V24 => Version::V24,
        }
    }
}

/// The major version number of a `Version`.
pub open spec fn spec_major_of(v: Version) -> u8 {
    match v {
        Version::V22 => 2,
        Version::V23 => 3,
        Version::V24 => 4,
    }
}

/// The `Version` named by a major version number from `{2, 3, 4}`.
pub open spec fn spec_version_of_major(major: u8) -> Version {
    if major == 2 {
        Version::V22
    } else if major == 3 {
        Version::V23
    } else {
        Version::V24
    }
}

/// The tag-level flags of the header's flag byte. Which bits exist
/// depends on the major version; absent bits read as false.
#[derive(Clone, Copy, Debug, PartialEq, Eq, Structural)]
pub struct TagFlags {
    /// The whole tag body is unsynchronized.
    pub unsync: bool,
    /// An extended header follows the tag header.
    pub extended: bool,
    /// The tag is experimental.
    pub experimental: bool,
    /// A footer closes the tag. Meaningful in ID3v2.4 only.
    pub footer: bool,
}

impl TagFlags {
    /// Flags with every bit clear.
    pub fn new() -> (r: TagFlags)
        ensures
            r == spec_tag_flags_clear(),
    {
        TagFlags { unsync: false, extended: false, experimental: false, footer: false }
    }
}

/// Flags with every bit clear.
pub open spec fn spec_tag_flags_clear() -> TagFlags {
    TagFlags { unsync: false, extended: false, experimental: false, footer: false }
}

/// The flags read from the header flag byte, gated by the major version:
/// ID3v2.2 defines only the unsynchronization bit, ID3v2.3 adds the
/// extended and experimental bits, ID3v2.4 adds the footer bit.
pub open spec fn spec_parse_tag_flags(major: u8, b: u8) -> TagFlags {
    TagFlags {
        unsync: spec_bit_at(0, b),
        extended: major >= 3 && spec_bit_at(1, b),
        experimental: major >= 3 && spec_bit_at(2, b),
        footer: major >= 4 && spec_bit_at(3, b),
    }
}

/// The fixed ten-byte header at the start of every tag: the `ID3` magic,
/// a major and minor version, a flag byte, and a syncsafe size that
/// counts everything after these ten bytes.
#[derive(Clone, Copy, Debug, PartialEq, Eq, Structural)]
pub struct TagHeader {
    /// The major version: 2, 3 or 4.
    pub major: u8,
    /// The revision number; no meaning is attached to it.
    pub minor: u8,
    /// The tag-level flags.
    pub flags: TagFlags,
    /// The size of the tag body, excluding this header.
    pub tag_size: u32,
}

impl TagHeader {
    /// A well-formed header names a known version and fits the syncsafe
    /// size limit.
    pub open spec fn wf(&self) -> bool {
        &&& 2 <= self.major <= 4
        &&& self.tag_size <= SYNCSAFE_MAX
    }

    /// An empty header for the given version.
    pub fn with_version(version: Version) -> (r: TagHeader)
        ensures
            r.major == spec_major_of(version),
            r.minor == 0,
            r.flags == spec_tag_flags_clear(),
            r.tag_size == 0,
            r.wf(),
    {
        let major: u8 = match version {
            Version::V22 => 2,
            Version::V23 => 3,
            Version::V24 => 4,
        };
        TagHeader { major, minor: 0, flags: TagFlags::new(), tag_size: 0 }
    }

    /// A bare header with the given major version and everything else
    /// zeroed; a convenient starting point when assembling one by hand.
    pub fn new_test(major: u8) -> (r: TagHeader)
        ensures
            r.major == major,
            r.minor == 0,
            r.flags == spec_tag_flags_clear(),
            r.tag_size == 0,
    {
        TagHeader { major, minor: 0, flags: TagFlags::new(), tag_size: 0 }
    }

    /// The version this header names.
    pub fn version(&self) -> (r: Version)
        requires
            self.wf(),
        ensures
            r == spec_version_of_major(self.major),
    {
        if self.major == 2 {
            Version::V22
        } else if self.major == 3 {
            Version::V23
        } else {
            Version::V24
        }
    }

    /// The size of the tag body, excluding the ten header bytes.
    pub fn size(&self) -> (r: u32)
        ensures
            r == self.tag_size,
    {
        self.tag_size
    }

    /// Parses the ten-byte tag header. A missing `ID3` magic is
    /// `MalformedData` (callers at the file boundary report it as
    /// `NotFound`); an unknown major version is `Unsupported`; a size
    /// byte with its high bit set is `MalformedData`.
    pub fn parse(data: &[u8]) -> (r: ParseResult<TagHeader>)
        ensures
            r is Ok <==> (data@.len() >= 10 && data@[0] == 0x49 && data@[1] == 0x44 && data@[2]
                == 0x33 && 2 <= data@[3] <= 4 && data@[6] < 0x80 && data@[7] < 0x80 && data@[8]
                < 0x80 && data@[9] < 0x80),
            r matches Ok(h) ==> h == (TagHeader {
                major: data@[3],
                minor: data@[4],
                flags: spec_parse_tag_flags(data@[3], data@[5]),
                tag_size: spec_syncsafe_combine(data@[6], data@[7], data@[8], data@[9]),
            }) && h.wf(),
            r matches Err(e) ==> e == (if data@.len() < 10 {
                ParseError::NotEnoughData
            } else if !(data@[0] == 0x49 && data@[1] == 0x44 && data@[2] == 0x33) {
                ParseError::MalformedData
            } else if !(2 <= data@[3] <= 4) {
                ParseError::Unsupported
            } else {
                ParseError::MalformedData
            }),
    {
        if data.len() < 10 {
            return Err(ParseError::NotEnoughData);
        }
        if !(data[0] == 0x49 && data[1] == 0x44 && data[2] == 0x33) {
            return Err(ParseError::MalformedData);
        }
        let major = data[3];
        let minor = data[4];
        if major < 2 || major > 4 {
            return Err(ParseError::Unsupported);
        }
        let flag_byte = data[5];
        let flags = TagFlags {
            unsync: raw::bit_at(0, flag_byte),
            extended: major >= 3 && raw::bit_at(1, flag_byte),
            experimental: major >= 3 && raw::bit_at(2, flag_byte),
            footer: major >= 4 && raw::bit_at(3, flag_byte),
        };
        let tag_size = match raw::syncsafe_decode(slice_subrange(data, 6, 10)) {
            Ok(v) => v,
            Err(e) => {
                return Err(e);
            },
        };
        Ok(TagHeader { major, minor, flags, tag_size })
    }

    /// Renders the ten header bytes: magic, versions, flag byte, and the
    /// syncsafe size.
    pub fn render(&self) -> (r: Vec<u8>)
        requires
            self.wf(),
            self.major >= 3 || (!self.flags.extended && !self.flags.experimental),
            self.major >= 4 || !self.flags.footer,
        ensures
            r@ == spec_render_tag_header(*self),
            r@.len() == 10,
            r@[0] == 0x49 && r@[1] == 0x44 && r@[2] == 0x33,
            r@[3] == self.major,
            r@[4] == self.minor,
            spec_parse_tag_flags(self.major, r@[5]) == self.flags,
            r@.skip(6) == spec_syncsafe_encode(self.tag_size),
    {
        let mut out: Vec<u8> = Vec::new();
        out.push(0x49);
        out.push(0x44);
        out.push(0x33);
        out.push(self.major);
        out.push(self.minor);
        let ub: u8 = if self.flags.unsync {
            1
        } else {
            0
        };
        let eb: u8 = if self.flags.extended {
            1
        } else {
            0
        };
        let xb: u8 = if self.flags.experimental {
            1
        } else {
            0
        };
        let fb: u8 = if self.flags.footer {
            1
        } else {
            0
        };
        let flag_byte: u8 = (ub << 7) | (eb << 6) | (xb << 5) | (fb << 4);
        assert(((flag_byte >> 7) & 1 == ub) && ((flag_byte >> 6) & 1 == eb) && ((flag_byte >> 5) & 1
            == xb) && ((flag_byte >> 4) & 1 == fb)) by (bit_vector)
            requires
                ub <= 1 && eb <= 1 && xb <= 1 && fb <= 1,
                flag_byte == (ub << 7) | (eb << 6) | (xb << 5) | (fb << 4),
        ;
        out.push(flag_byte);
        let mut size_bytes = raw::syncsafe_encode(self.tag_size);
        out.append(&mut size_bytes);
        assert(out@.skip(6) =~= spec_syncsafe_encode(self.tag_size));
        assert(flag_byte == spec_tag_flag_byte(self.flags)) by {
            let u = ub;
            let e = eb;
            let x = xb;
            let f = fb;
            assert((u << 7) | (e << 6) | (x << 5) | (f << 4) == ((u as int) * 0x80 + (e as int)
                * 0x40 + (x as int) * 0x20 + (f as int) * 0x10) as u8) by (bit_vector)
                requires
                    u <= 1 && e <= 1 && x <= 1 && f <= 1,
            ;
        };
        assert(out@ =~= spec_render_tag_header(*self));
        out
    }
}

/// The flag byte a tag header renders as.
pub open spec fn spec_tag_flag_byte(f: TagFlags) -> u8 {
    (((if f.unsync {
        0x80int
    } else {
        0int
    }) + (if f.extended {
        0x40int
    } else {
        0int
    }) + (if f.experimental {
        0x20int
    } else {
        0int
    }) + (if f.footer {
        0x10int
    } else {
        0int
    })) as u8)
}

/// The rendered ten bytes of a tag header.
pub open spec fn spec_render_tag_header(h: TagHeader) -> Seq<u8> {
    seq![0x49u8, 0x44u8, 0x33u8, h.major, h.minor, spec_tag_flag_byte(h.flags)]
        + spec_syncsafe_encode(h.tag_size)
}

/// The render form of an extended header: for ID3v2.3 a plain four-byte
/// size that excludes itself, then the data; for ID3v2.4 a syncsafe size
/// that includes its own four bytes, then the data.
pub open spec fn spec_render_ext(major: u8, data: Seq<u8>) -> Seq<u8> {
    if major <= 3 {
        raw::spec_render_u32(data.len() as u32) + data
    } else {
        spec_syncsafe_encode((data.len() + 4) as u32) + data
    }
}

/// The optional block between the tag header and the first frame. Only
/// its size and raw payload are modelled; the payload's own layout is
/// version-specific and is carried through opaquely.
#[derive(Debug, Clone)]
pub struct ExtendedHeader {
    /// The size the header declared on parse. For ID3v2.3 this excludes
    /// the four size bytes; for ID3v2.4 it includes them.
    pub size: u32,
    /// The payload after the size field.
    pub data: Vec<u8>,
}

impl ExtendedHeader {
    /// A well-formed extended header fits inside a syncsafe-sized tag.
    pub open spec fn wf(&self) -> bool {
        self.data@.len() + 4 <= SYNCSAFE_MAX
    }

    /// The size the header declared when it was parsed or updated.
    pub fn size(&self) -> (r: u32)
        ensures
            r == self.size,
    {
        self.size
    }

    /// The raw payload bytes.
    pub fn data(&self) -> (r: &[u8])
        ensures
            r@ == self.data@,
    {
        self.data.as_slice()
    }

    /// Parses an extended header for the given major version. For
    /// ID3v2.3 the size is a plain 32-bit count of the bytes after it;
    /// for ID3v2.4 it is syncsafe and counts itself too.
    pub fn parse(major: u8, data: &[u8]) -> (r: ParseResult<ExtendedHeader>)
        ensures
            r matches Ok(h) ==> h.wf(),
            major == 3 ==> (r is Ok <==> (data@.len() >= 4 && spec_be_u32(
                data@[0],
                data@[1],
                data@[2],
                data@[3],
            ) <= SYNCSAFE_MAX - 4 && 4 + spec_be_u32(data@[0], data@[1], data@[2], data@[3])
                <= data@.len())),
            major == 3 ==> match r {
                Ok(h) => h.size as int == spec_be_u32(data@[0], data@[1], data@[2], data@[3])
                    && h.data@ == data@.subrange(4, 4 + h.size as int),
                Err(e) => e == ParseError::NotEnoughData || e == ParseError::MalformedData,
            },
            major == 4 ==> (r is Ok <==> (data@.len() >= 4 && data@[0] < 0x80 && data@[1] < 0x80
                && data@[2] < 0x80 && data@[3] < 0x80 && spec_syncsafe_combine(
                data@[0],
                data@[1],
                data@[2],
                data@[3],
            ) >= 4 && spec_syncsafe_combine(data@[0], data@[1], data@[2], data@[3])
                <= data@.len())),
            major == 4 ==> match r {
                Ok(h) => h.size == spec_syncsafe_combine(data@[0], data@[1], data@[2], data@[3])
                    && h.data@ == data@.subrange(4, h.size as int),
                Err(e) => e == ParseError::NotEnoughData || e == ParseError::MalformedData,
            },
            major != 3 && major != 4 ==> (r matches Err(e) && e == ParseError::Unsupported),
    {
        if major == 3 {
            if data.len() < 4 {
                return Err(ParseError::NotEnoughData);
            }
            let size = raw::to_u32(slice_subrange(data, 0, 4));
            if size > SYNCSAFE_MAX - 4 {
                return Err(ParseError::MalformedData);
            }
            if (size as usize) > data.len() - 4 {
                return Err(ParseError::NotEnoughData);
            }
            let payload = slice_subrange(data, 4, 4 + size as usize);
            Ok(ExtendedHeader { size, data: slice_to_vec(payload) })
        } else if major == 4 {
            if data.len() < 4 {
                return Err(ParseError::NotEnoughData);
            }
            let size = match raw::syncsafe_decode(slice_subrange(data, 0, 4)) {
                Ok(v) => v,
                Err(e) => {
                    return Err(e);
                },
            };
            if size < 4 {
                return Err(ParseError::MalformedData);
            }
            if (size as usize) > data.len() {
                return Err(ParseError::NotEnoughData);
            }
            let payload = slice_subrange(data, 4, size as usize);
            Ok(ExtendedHeader { size, data: slice_to_vec(payload) })
        } else {
            Err(ParseError::Unsupported)
        }
    }

    /// Re-lays the declared size out for the target version: excluding
    /// the size field for ID3v2.3, including it for ID3v2.4.
    pub fn update(&mut self, to: SaveVersion)
        requires
            old(self).wf(),
        ensures
            final(self).data == old(self).data,
            final(self).wf(),
            final(self).size as int == (match to {
                SaveVersion::V23 => old(self).data@.len() as int,
                SaveVersion::V24 => old(self).data@.len() as int + 4,
            }),
    {
        match to {
            SaveVersion::V23 => {
                self.size = self.data.len() as u32;
            },
            SaveVersion::V24 => {
                self.size = (self.data.len() as u32) + 4;
            },
        }
    }

    /// Renders the extended header for the given version.
    pub fn render(&self, version: Version) -> (r: Vec<u8>)
        requires
            self.wf(),
        ensures
            r@ == spec_render_ext(spec_major_of(version), self.data@),
    {
        let mut out: Vec<u8>;
        match version {
            Version::V22 | Version::V23 => {
                out = raw::render_u32(self.data.len() as u32);
            },
            Version::V24 => {
                out = raw::syncsafe_encode((self.data.len() as u32) + 4);
            },
        }
        let mut payload = self.data.clone();
        out.append(&mut payload);
        assert(out@ =~= spec_render_ext(spec_major_of(version), self.data@));
        out
    }
}

} // verus!
