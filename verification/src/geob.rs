//! The general encapsulated object frame.

use crate::error::{ParseError, ParseResult};
use crate::frames::{FrameFlags, FrameHeader};
use crate::header::TagHeader;
use crate::strings;
use crate::strings::{
    spec_encode_text, spec_encoding_code, spec_encoding_from_raw, spec_get_string_post,
    spec_terminated, Encoding,
};
use vstd::prelude::*;
use vstd::slice::{slice_subrange, slice_to_vec};

verus! {

/// A general encapsulated object frame (`GEOB`): an encoding byte, then
/// terminated MIME type, filename and description strings, then the raw
/// object bytes to the end of the body.
#[derive(Debug)]
pub struct GeneralObjectFrame {
    /// The frame envelope.
    pub header: FrameHeader,
    /// The text encoding of the strings.
    pub encoding: Encoding,
    /// The MIME type of the object.
    pub mime: String,
    /// The suggested filename.
    pub filename: String,
    /// The description that disambiguates this frame from other `GEOB`
    /// frames.
    pub desc: String,
    /// The raw object bytes.
    pub data: Vec<u8>,
}

/// What parsing a general-object body promises: the encoding comes from
/// the first byte (read permissively), the three strings are terminated
/// strings read in turn, and the object is the bytes after them.
pub open spec fn spec_geob_post(
    body: Seq<u8>,
    enc: Encoding,
    mime: Seq<char>,
    filename: Seq<char>,
    desc: Seq<char>,
    object: Seq<u8>,
) -> bool {
    let rest1 = body.skip(1);
    let t1 = spec_terminated(enc, rest1);
    let rest2 = rest1.skip(t1.1);
    let t2 = spec_terminated(enc, rest2);
    let rest3 = rest2.skip(t2.1);
    let t3 = spec_terminated(enc, rest3);
    &&& enc == spec_encoding_from_raw(body[0])
    &&& spec_get_string_post(enc, t1.0, mime)
    &&& spec_get_string_post(enc, t2.0, filename)
    &&& spec_get_string_post(enc, t3.0, desc)
    &&& object == rest3.skip(t3.1)
}

impl GeneralObjectFrame {
    /// An empty frame with the given flags.
    pub fn with_flags(flags: FrameFlags) -> (r: GeneralObjectFrame)
        ensures
            r.header.id@ == "GEOB"@,
            r.header.flags == flags,
    {
        Self::with_header(FrameHeader::with_flags("GEOB", flags))
    }

    /// An empty frame around the given header.
    pub(crate) fn with_header(header: FrameHeader) -> (r: GeneralObjectFrame)
        ensures
            r.header == header,
    {
        GeneralObjectFrame {
            header,
            encoding: Encoding::default(),
            mime: String::new(),
            filename: String::new(),
            desc: String::new(),
            data: Vec::new(),
        }
    }

    /// Parses a frame body around the given header.
    pub fn from(tag_header: &TagHeader, header: FrameHeader, data: &[u8]) -> (r: ParseResult<
        GeneralObjectFrame,
    >)
        ensures
            r is Ok <==> data@.len() >= 1,
            r matches Ok(f) ==> f.header == header && spec_geob_post(
                data@,
                f.encoding,
                f.mime@,
                f.filename@,
                f.desc@,
                f.data@,
            ),
            r matches Err(e) ==> e == ParseError::NotEnoughData,
    {
        let mut frame = Self::with_header(header);
        match frame.parse(tag_header, data) {
            Ok(()) => Ok(frame),
            Err(e) => Err(e),
        }
    }

    /// The MIME type.
    pub fn mime(&self) -> (r: &String)
        ensures
            r@ == self.mime@,
    {
        &self.mime
    }

    /// The suggested filename.
    pub fn filename(&self) -> (r: &String)
        ensures
            r@ == self.filename@,
    {
        &self.filename
    }

    /// The description.
    pub fn desc(&self) -> (r: &String)
        ensures
            r@ == self.desc@,
    {
        &self.desc
    }

    /// The raw object bytes.
    pub fn data(&self) -> (r: &Vec<u8>)
        ensures
            r@ == self.data@,
    {
        &self.data
    }

    /// Parses the frame body: an encoding byte, three terminated strings,
    /// then the object bytes.
    pub fn parse(&mut self, _tag_header: &TagHeader, data: &[u8]) -> (r: ParseResult<()>)
        ensures
            r is Ok <==> data@.len() >= 1,
            r is Ok ==> final(self).header == old(self).header && spec_geob_post(
                data@,
                final(self).encoding,
                final(self).mime@,
                final(self).filename@,
                final(self).desc@,
                final(self).data@,
            ),
            r matches Err(e) ==> *final(self) == *old(self) && e == ParseError::NotEnoughData,
    {
        if data.len() == 0 {
            return Err(ParseError::NotEnoughData);
        }
        let encoding = Encoding::from_raw(data[0]);
        let rest1 = slice_subrange(data, 1, data.len());
        let (mime, s1) = strings::get_terminated_string(encoding, rest1);
        let rest2 = slice_subrange(rest1, s1, rest1.len());
        let (filename, s2) = strings::get_terminated_string(encoding, rest2);
        let rest3 = slice_subrange(rest2, s2, rest2.len());
        let (desc, s3) = strings::get_terminated_string(encoding, rest3);
        let object = slice_to_vec(slice_subrange(rest3, s3, rest3.len()));
        self.encoding = encoding;
        self.mime = mime;
        self.filename = filename;
        self.desc = desc;
        self.data = object;
        proof {
            let b1 = data@.skip(1);
            let t1 = spec_terminated(encoding, b1);
            assert(rest2@ =~= b1.skip(t1.1));
            let t2 = spec_terminated(encoding, rest2@);
            assert(rest3@ =~= rest2@.skip(t2.1));
            let t3 = spec_terminated(encoding, rest3@);
            assert(self.data@ =~= rest3@.skip(t3.1));
        }
        Ok(())
    }

    /// Renders the frame body: the encoding byte, the three terminated
    /// strings, then the object bytes.
    pub fn render_body(&self) -> (r: Vec<u8>)
        ensures
            r@ == seq![spec_encoding_code(self.encoding)] + spec_encode_text(
                self.encoding,
                self.mime@,
            ) + crate::text::spec_nul_bytes(self.encoding) + spec_encode_text(
                self.encoding,
                self.filename@,
            ) + crate::text::spec_nul_bytes(self.encoding) + spec_encode_text(
                self.encoding,
                self.desc@,
            ) + crate::text::spec_nul_bytes(self.encoding) + self.data@,
    {
        let mut out: Vec<u8> = Vec::new();
        out.push(self.encoding.render_code());
        let mut mime = strings::encode_text(self.encoding, self.mime.as_str());
        out.append(&mut mime);
        strings::push_terminator(&mut out, self.encoding);
        let mut filename = strings::encode_text(self.encoding, self.filename.as_str());
        out.append(&mut filename);
        strings::push_terminator(&mut out, self.encoding);
        let mut desc = strings::encode_text(self.encoding, self.desc.as_str());
        out.append(&mut desc);
        strings::push_terminator(&mut out, self.encoding);
        let mut object = self.data.clone();
        out.append(&mut object);
        assert(out@ =~= seq![spec_encoding_code(self.encoding)] + spec_encode_text(
            self.encoding,
            self.mime@,
        ) + crate::text::spec_nul_bytes(self.encoding) + spec_encode_text(
            self.encoding,
            self.filename@,
        ) + crate::text::spec_nul_bytes(self.encoding) + spec_encode_text(
            self.encoding,
            self.desc@,
        ) + crate::text::spec_nul_bytes(self.encoding) + self.data@);
        out
    }
}

} // verus!
