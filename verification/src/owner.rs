//! Ownership and terms-of-use frames.

use crate::error::{ParseError, ParseResult};
use crate::frames::{FrameFlags, FrameHeader};
use crate::header::TagHeader;
use crate::strings;
use crate::strings::{
    spec_encode_text, spec_encoding_code, spec_encoding_from_raw, spec_get_string_post,
    spec_latin1_decode, spec_latin1_encode, spec_nul_size, spec_terminated, Encoding,
};
use vstd::prelude::*;
use vstd::slice::slice_subrange;

verus! {

/// An ownership frame (`OWNE`): an encoding byte, a Latin-1 terminated
/// price, a fixed eight-byte purchase date, then the seller to the end of
/// the body.
#[derive(Debug)]
pub struct OwnershipFrame {
    /// The frame envelope.
    pub header: FrameHeader,
    /// The text encoding of the seller string.
    pub encoding: Encoding,
    /// The price paid, as a currency code and amount.
    pub price_paid: String,
    /// The purchase date, eight digits of `YYYYMMDD`.
    pub purchase_date: String,
    /// The seller's name.
    pub seller: String,
}

/// What parsing an ownership body promises: the seller's encoding comes
/// from the first byte, the price is the first Latin-1 terminated string,
/// the date is the eight bytes after it, and the seller is decoded from
/// what remains.
pub open spec fn spec_ownership_post(
    data: Seq<u8>,
    enc: Encoding,
    price: Seq<char>,
    date: Seq<char>,
    seller: Seq<char>,
) -> bool {
    let term = spec_terminated(Encoding::Latin1, data.skip(1));
    &&& enc == spec_encoding_from_raw(data[0])
    &&& price == spec_latin1_decode(term.0)
    &&& date == spec_latin1_decode(data.subrange(1 + term.1, 1 + term.1 + 8))
    &&& spec_get_string_post(enc, data.skip(1 + term.1 + 8), seller)
}

impl OwnershipFrame {
    /// An empty frame.
    pub fn new() -> (r: OwnershipFrame)
        ensures
            r.header.id@ == "OWNE"@,
    {
        Self::with_flags(FrameFlags::new())
    }

    /// An empty frame with the given flags.
    pub fn with_flags(flags: FrameFlags) -> (r: OwnershipFrame)
        ensures
            r.header.id@ == "OWNE"@,
            r.header.flags == flags,
    {
        Self::with_header(FrameHeader::with_flags("OWNE", flags))
    }

    /// An empty frame around the given header.
    pub(crate) fn with_header(header: FrameHeader) -> (r: OwnershipFrame)
        ensures
            r.header == header,
    {
        OwnershipFrame {
            header,
            encoding: Encoding::default(),
            price_paid: String::new(),
            purchase_date: String::new(),
            seller: String::new(),
        }
    }

    /// The price paid.
    pub fn price_paid(&self) -> (r: &String)
        ensures
            r@ == self.price_paid@,
    {
        &self.price_paid
    }

    /// The purchase date.
    pub fn purchase_date(&self) -> (r: &String)
        ensures
            r@ == self.purchase_date@,
    {
        &self.purchase_date
    }

    /// The seller's name.
    pub fn seller(&self) -> (r: &String)
        ensures
            r@ == self.seller@,
    {
        &self.seller
    }

    /// Parses the frame body: an encoding byte, a terminated price, an
    /// eight-byte date, then the seller.
    pub fn parse(&mut self, _tag_header: &TagHeader, data: &[u8]) -> (r: ParseResult<()>)
        ensures
            r is Ok <==> (data@.len() >= 1 && data@[0] <= 3 && data@.len() as int >= spec_nul_size(
                spec_encoding_from_raw(data@[0]),
            ) + 9 && 1 + spec_terminated(Encoding::Latin1, data@.skip(1)).1 + 8 <= data@.len()),
            r is Ok ==> final(self).header == old(self).header && spec_ownership_post(
                data@,
                final(self).encoding,
                final(self).price_paid@,
                final(self).purchase_date@,
                final(self).seller@,
            ),
            r matches Err(e) ==> *final(self) == *old(self) && (e == ParseError::NotEnoughData || e
                == ParseError::MalformedData) && (e == ParseError::MalformedData <==> (data@.len()
                >= 1 && data@[0] > 3)),
    {
        let encoding = match Encoding::parse(data) {
            Ok(e) => e,
            Err(e) => {
                return Err(e);
            },
        };
        if data.len() < encoding.nul_size() + 9 {
            return Err(ParseError::NotEnoughData);
        }
        let rest = slice_subrange(data, 1, data.len());
        proof {
            crate::text::lemma_terminated_bound(Encoding::Latin1, rest@);
        }
        let (price, price_size) = strings::get_terminated_string(Encoding::Latin1, rest);
        if price_size > data.len() - 9 {
            return Err(ParseError::NotEnoughData);
        }
        let date_slice = slice_subrange(data, 1 + price_size, 1 + price_size + 8);
        let purchase_date = strings::get_string(Encoding::Latin1, date_slice);
        let seller = strings::get_string(
            encoding,
            slice_subrange(data, 1 + price_size + 8, data.len()),
        );
        self.encoding = encoding;
        self.price_paid = price;
        self.purchase_date = purchase_date;
        self.seller = seller;
        Ok(())
    }

    /// Renders the frame body: the encoding byte, the terminated price,
    /// the date, then the seller.
    pub fn render_body(&self) -> (r: Vec<u8>)
        ensures
            r@ == seq![spec_encoding_code(self.encoding)] + spec_latin1_encode(self.price_paid@)
                + seq![0u8] + spec_latin1_encode(self.purchase_date@) + spec_encode_text(
                self.encoding,
                self.seller@,
            ),
    {
        let mut out: Vec<u8> = Vec::new();
        out.push(self.encoding.render_code());
        let mut price = strings::latin1_encode(self.price_paid.as_str());
        out.append(&mut price);
        out.push(0);
        let mut date = strings::latin1_encode(self.purchase_date.as_str());
        out.append(&mut date);
        let mut seller = strings::encode_text(self.encoding, self.seller.as_str());
        out.append(&mut seller);
        assert(out@ =~= seq![spec_encoding_code(self.encoding)] + spec_latin1_encode(
            self.price_paid@,
        ) + seq![0u8] + spec_latin1_encode(self.purchase_date@) + spec_encode_text(
            self.encoding,
            self.seller@,
        ));
        out
    }
}

impl Default for OwnershipFrame {
    /// An empty frame.
    fn default() -> (r: Self)
        ensures
            r.header.id@ == "OWNE"@,
    {
        Self::new()
    }
}

/// A terms-of-use frame (`USER`): an encoding byte, a three-byte Latin-1
/// language code, then the text to the end of the body.
#[derive(Debug)]
pub struct TermsOfUseFrame {
    /// The frame envelope.
    pub header: FrameHeader,
    /// The text encoding of the body.
    pub encoding: Encoding,
    /// The language code.
    pub lang: String,
    /// The terms text.
    pub text: String,
}

/// What parsing a terms-of-use body promises: the encoding comes from the
/// first byte, the language from the next three, and the text is decoded
/// from what remains.
pub open spec fn spec_terms_post(
    data: Seq<u8>,
    enc: Encoding,
    lang: Seq<char>,
    text: Seq<char>,
) -> bool {
    &&& enc == spec_encoding_from_raw(data[0])
    &&& lang == spec_latin1_decode(data.subrange(1, 4))
    &&& spec_get_string_post(enc, data.skip(4), text)
}

impl TermsOfUseFrame {
    /// An empty frame.
    pub fn new() -> (r: TermsOfUseFrame)
        ensures
            r.header.id@ == "USER"@,
    {
        Self::with_flags(FrameFlags::new())
    }

    /// An empty frame with the given flags.
    pub fn with_flags(flags: FrameFlags) -> (r: TermsOfUseFrame)
        ensures
            r.header.id@ == "USER"@,
            r.header.flags == flags,
    {
        Self::with_header(FrameHeader::with_flags("USER", flags))
    }

    /// An empty frame around the given header.
    pub(crate) fn with_header(header: FrameHeader) -> (r: TermsOfUseFrame)
        ensures
            r.header == header,
    {
        TermsOfUseFrame {
            header,
            encoding: Encoding::default(),
            lang: String::new(),
            text: String::new(),
        }
    }

    /// The terms text.
    pub fn text(&self) -> (r: &String)
        ensures
            r@ == self.text@,
    {
        &self.text
    }

    /// The language code.
    pub fn lang(&self) -> (r: &String)
        ensures
            r@ == self.lang@,
    {
        &self.lang
    }

    /// Parses the frame body: an encoding byte, a three-byte language
    /// code, then the text.
    pub fn parse(&mut self, _tag_header: &TagHeader, data: &[u8]) -> (r: ParseResult<()>)
        ensures
            r is Ok <==> data@.len() >= 4 && data@[0] <= 3,
            r is Ok ==> final(self).header == old(self).header && spec_terms_post(
                data@,
                final(self).encoding,
                final(self).lang@,
                final(self).text@,
            ),
            r matches Err(e) ==> *final(self) == *old(self) && e == (if data@.len() < 4 {
                ParseError::NotEnoughData
            } else {
                ParseError::MalformedData
            }),
    {
        if data.len() < 4 {
            return Err(ParseError::NotEnoughData);
        }
        let encoding = match Encoding::new(data[0]) {
            Ok(e) => e,
            Err(e) => {
                return Err(e);
            },
        };
        let lang = strings::get_string(Encoding::Latin1, slice_subrange(data, 1, 4));
        let text = strings::get_string(encoding, slice_subrange(data, 4, data.len()));
        self.encoding = encoding;
        self.lang = lang;
        self.text = text;
        Ok(())
    }

    /// Renders the frame body: the encoding byte, the language code, then
    /// the text.
    pub fn render_body(&self) -> (r: Vec<u8>)
        ensures
            r@ == seq![spec_encoding_code(self.encoding)] + spec_latin1_encode(self.lang@)
                + spec_encode_text(self.encoding, self.text@),
    {
        let mut out: Vec<u8> = Vec::new();
        out.push(self.encoding.render_code());
        let mut lang = strings::latin1_encode(self.lang.as_str());
        out.append(&mut lang);
        let mut text = strings::encode_text(self.encoding, self.text.as_str());
        out.append(&mut text);
        assert(out@ =~= seq![spec_encoding_code(self.encoding)] + spec_latin1_encode(self.lang@)
            + spec_encode_text(self.encoding, self.text@));
        out
    }
}

impl Default for TermsOfUseFrame {
    /// An empty frame.
    fn default() -> (r: Self)
        ensures
            r.header.id@ == "USER"@,
    {
        Self::new()
    }
}

} // verus!
