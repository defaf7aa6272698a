//! URL frames: plain links and user-defined links.

use crate::error::{ParseError, ParseResult};
use crate::frames::{FrameFlags, FrameHeader};
use crate::header::TagHeader;
use crate::strings;
use crate::strings::{
    spec_encode_text, spec_encoding_code, spec_encoding_from_raw, spec_get_string_post,
    spec_terminated, utf8_lossy_of, Encoding,
};
use vstd::prelude::*;
use vstd::slice::slice_subrange;

verus! {

/// A plain URL frame (`W...` identifiers other than `WXXX`): the whole
/// body is one link, always read as UTF-8.
#[derive(Debug)]
pub struct UrlFrame {
    /// The frame envelope.
    pub header: FrameHeader,
    /// The link.
    pub url: String,
}

impl UrlFrame {
    /// An empty frame with the given identifier and flags.
    pub fn with_flags(id: &str, flags: FrameFlags) -> (r: UrlFrame)
        ensures
            r.header.id@ == id@,
            r.header.flags == flags,
            r.url@.len() == 0,
    {
        Self::with_header(FrameHeader::with_flags(id, flags))
    }

    /// An empty frame around the given header.
    pub(crate) fn with_header(header: FrameHeader) -> (r: UrlFrame)
        ensures
            r.header == header,
            r.url@.len() == 0,
    {
        UrlFrame { header, url: String::new() }
    }

    /// Parses a frame body around the given header.
    pub fn new(tag_header: &TagHeader, header: FrameHeader, data: &[u8]) -> (r: ParseResult<
        UrlFrame,
    >)
        ensures
            r is Ok <==> data@.len() >= 1,
            r matches Ok(f) ==> f.header == header && f.url@ == utf8_lossy_of(data@),
            r matches Err(e) ==> e == ParseError::NotEnoughData,
    {
        let mut frame = Self::with_header(header);
        match frame.parse(tag_header, data) {
            Ok(()) => Ok(frame),
            Err(e) => Err(e),
        }
    }

    /// The link.
    pub fn url(&self) -> (r: &String)
        ensures
            r@ == self.url@,
    {
        &self.url
    }

    /// Parses the frame body: the whole body is the link.
    pub fn parse(&mut self, _tag_header: &TagHeader, data: &[u8]) -> (r: ParseResult<()>)
        ensures
            r is Ok <==> data@.len() >= 1,
            r is Ok ==> final(self).header == old(self).header && final(self).url@ == utf8_lossy_of(
                data@,
            ),
            r matches Err(e) ==> *final(self) == *old(self) && e == ParseError::NotEnoughData,
    {
        if data.len() == 0 {
            return Err(ParseError::NotEnoughData);
        }
        self.url = strings::get_string(Encoding::Utf8, data);
        Ok(())
    }

    /// Renders the frame body: the link in UTF-8.
    pub fn render_body(&self) -> (r: Vec<u8>)
        ensures
            r@ == vstd::utf8::encode_utf8(self.url@),
    {
        self.url.as_str().as_bytes_vec()
    }
}

/// A user-defined URL frame (`WXXX`): an encoding byte, a terminated
/// description in that encoding, then the link in UTF-8.
#[derive(Debug)]
pub struct UserUrlFrame {
    /// The frame envelope.
    pub header: FrameHeader,
    /// The text encoding of the description.
    pub encoding: Encoding,
    /// The description that disambiguates this frame from other `WXXX`
    /// frames.
    pub desc: String,
    /// The link.
    pub url: String,
}

/// What parsing a user-URL body promises: the encoding comes from the
/// first byte, the description is the first terminated string after it,
/// and the link is read as UTF-8 from what remains.
pub open spec fn spec_user_url_post(
    data: Seq<u8>,
    enc: Encoding,
    desc: Seq<char>,
    url: Seq<char>,
) -> bool {
    let rest = data.skip(1);
    let term = spec_terminated(enc, rest);
    &&& enc == spec_encoding_from_raw(data[0])
    &&& spec_get_string_post(enc, term.0, desc)
    &&& url == utf8_lossy_of(rest.skip(term.1))
}

impl UserUrlFrame {
    /// An empty frame with the given flags.
    pub fn with_flags(flags: FrameFlags) -> (r: UserUrlFrame)
        ensures
            r.header.id@ == "WXXX"@,
            r.header.flags == flags,
    {
        Self::with_header(FrameHeader::with_flags("WXXX", flags))
    }

    /// An empty frame around the given header.
    pub(crate) fn with_header(header: FrameHeader) -> (r: UserUrlFrame)
        ensures
            r.header == header,
    {
        UserUrlFrame {
            header,
            encoding: Encoding::default(),
            desc: String::new(),
            url: String::new(),
        }
    }

    /// Parses a frame body around the given header.
    pub fn new(tag_header: &TagHeader, header: FrameHeader, data: &[u8]) -> (r: ParseResult<
        UserUrlFrame,
    >)
        ensures
            r is Ok <==> data@.len() >= 1 && data@[0] <= 3,
            r matches Ok(f) ==> f.header == header && spec_user_url_post(
                data@,
                f.encoding,
                f.desc@,
                f.url@,
            ),
            r matches Err(e) ==> e == (if data@.len() == 0 {
                ParseError::NotEnoughData
            } else {
                ParseError::MalformedData
            }),
    {
        let mut frame = Self::with_header(header);
        match frame.parse(tag_header, data) {
            Ok(()) => Ok(frame),
            Err(e) => Err(e),
        }
    }

    /// The description.
    pub fn desc(&self) -> (r: &String)
        ensures
            r@ == self.desc@,
    {
        &self.desc
    }

    /// The link.
    pub fn url(&self) -> (r: &String)
        ensures
            r@ == self.url@,
    {
        &self.url
    }

    /// Parses the frame body: an encoding byte, a terminated description,
    /// then the link.
    pub fn parse(&mut self, _tag_header: &TagHeader, data: &[u8]) -> (r: ParseResult<()>)
        ensures
            r is Ok <==> data@.len() >= 1 && data@[0] <= 3,
            r is Ok ==> final(self).header == old(self).header && spec_user_url_post(
                data@,
                final(self).encoding,
                final(self).desc@,
                final(self).url@,
            ),
            r matches Err(e) ==> *final(self) == *old(self) && e == (if data@.len() == 0 {
                ParseError::NotEnoughData
            } else {
                ParseError::MalformedData
            }),
    {
        let encoding = match Encoding::parse(data) {
            Ok(e) => e,
            Err(e) => {
                return Err(e);
            },
        };
        let rest = slice_subrange(data, 1, data.len());
        let (desc, desc_size) = strings::get_terminated_string(encoding, rest);
        let url = strings::get_string(
            Encoding::Utf8,
            slice_subrange(rest, desc_size, rest.len()),
        );
        self.encoding = encoding;
        self.desc = desc;
        self.url = url;
        assert(rest@.skip(spec_terminated(encoding, data@.skip(1)).1) =~= data@.skip(1).skip(
            spec_terminated(encoding, data@.skip(1)).1,
        ));
        Ok(())
    }

    /// Renders the frame body: the encoding byte, the terminated
    /// description, then the link in UTF-8.
    pub fn render_body(&self) -> (r: Vec<u8>)
        ensures
            r@ == seq![spec_encoding_code(self.encoding)] + spec_encode_text(
                self.encoding,
                self.desc@,
            ) + crate::text::spec_nul_bytes(self.encoding) + vstd::utf8::encode_utf8(self.url@),
    {
        let mut out: Vec<u8> = Vec::new();
        out.push(self.encoding.render_code());
        let mut desc = strings::encode_text(self.encoding, self.desc.as_str());
        out.append(&mut desc);
        strings::push_terminator(&mut out, self.encoding);
        let mut url = self.url.as_str().as_bytes_vec();
        out.append(&mut url);
        assert(out@ =~= seq![spec_encoding_code(self.encoding)] + spec_encode_text(
            self.encoding,
            self.desc@,
        ) + crate::text::spec_nul_bytes(self.encoding) + vstd::utf8::encode_utf8(self.url@));
        out
    }
}

} // verus!
