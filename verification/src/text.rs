//! Text frames: plain text, user-defined text, and credits lists.

use crate::error::{ParseError, ParseResult};
use crate::frames::FrameFlags;
use crate::frames::FrameHeader;
use crate::header::TagHeader;
use crate::strings;
use crate::strings::{
    spec_encode_text, spec_encoding_code, spec_encoding_from_raw, spec_get_string_post,
    spec_terminated, Encoding,
};
use vstd::prelude::*;
use vstd::slice::slice_subrange;

verus! {

/// The value of a text frame: a single string, or several strings that
/// were separated by NUL characters in the frame body.
#[derive(Debug)]
pub enum Text {
    One(String),
    Many(Vec<String>),
}

/// The strings of a multi-valued text joined with NUL separators.
pub open spec fn spec_join_nul(ps: Seq<Seq<char>>) -> Seq<char>
    decreases ps.len(),
{
    if ps.len() == 0 {
        Seq::empty()
    } else if ps.len() == 1 {
        ps[0]
    } else {
        ps[0] + seq!['\u{0}'] + spec_join_nul(ps.drop_first())
    }
}

/// Appending a part appends a separator and the part.
pub proof fn lemma_join_nul_push(ps: Seq<Seq<char>>, x: Seq<char>)
    ensures
        spec_join_nul(ps.push(x)) == (if ps.len() == 0 {
            x
        } else {
            spec_join_nul(ps) + seq!['\u{0}'] + x
        }),
    decreases ps.len(),
{
    if ps.len() == 0 {
        assert(ps.push(x).len() == 1);
        assert(ps.push(x)[0] == x);
    } else if ps.len() == 1 {
        assert(ps.push(x).drop_first() =~= seq![x]);
        assert(spec_join_nul(seq![x]) == x);
        assert(ps.push(x)[0] == ps[0]);
        assert(spec_join_nul(ps.push(x)) == ps[0] + seq!['\u{0}'] + x);
    } else {
        assert(ps.push(x).drop_first() =~= ps.drop_first().push(x));
        lemma_join_nul_push(ps.drop_first(), x);
        assert(spec_join_nul(ps.push(x)) == ps[0] + seq!['\u{0}'] + (spec_join_nul(ps.drop_first())
            + seq!['\u{0}'] + x));
        assert(ps[0] + seq!['\u{0}'] + (spec_join_nul(ps.drop_first()) + seq!['\u{0}'] + x) =~= (
        ps[0] + seq!['\u{0}'] + spec_join_nul(ps.drop_first())) + seq!['\u{0}'] + x);
    }
}

/// The views of a vector of strings.
pub open spec fn spec_views(v: Seq<String>) -> Seq<Seq<char>> {
    v.map_values(|x: String| x@)
}

/// How a `Text` value represents decoded text `s`: a single variant holds
/// `s` itself when it has no NUL; the multi variant holds at least two
/// NUL-free parts whose NUL-joined form is `s`.
pub open spec fn spec_text_rel(t: Text, s: Seq<char>) -> bool {
    match t {
        Text::One(x) => x@ == s && !s.contains('\u{0}'),
        Text::Many(v) => {
            let ps = spec_views(v@);
            &&& ps.len() >= 2
            &&& spec_join_nul(ps) == s
            &&& forall|i: int| 0 <= i < ps.len() ==> !(#[trigger] ps[i]).contains('\u{0}')
        },
    }
}

/// How a `Text` value relates to the frame body bytes it was decoded
/// from: it represents some decoding of the bytes in the given encoding.
pub open spec fn spec_text_post(enc: Encoding, b: Seq<u8>, t: Text) -> bool {
    exists|s: Seq<char>| spec_get_string_post(enc, b, s) && spec_text_rel(t, s)
}

/// Splits decoded text into a `Text` value at its NUL separators.
#[verifier::loop_isolation(false)]
fn split_nul(s: &String) -> (r: Text)
    ensures
        spec_text_rel(r, s@),
{
    let n = s.as_str().unicode_len();
    let mut parts: Vec<String> = Vec::new();
    let mut cur = String::new();
    let mut pos: usize = 0;
    while pos < n
        invariant
            pos <= n,
            n == s@.len(),
            spec_join_nul(spec_views(parts@).push(cur@)) == s@.take(pos as int),
            !cur@.contains('\u{0}'),
            forall|i: int|
                0 <= i < parts@.len() ==> !(#[trigger] spec_views(parts@)[i]).contains('\u{0}'),
        decreases n - pos,
    {
        let c = s.as_str().get_char(pos);
        let ghost old_ps = spec_views(parts@);
        let ghost old_cur = cur@;
        if c == '\u{0}' {
            proof {
                lemma_join_nul_push(old_ps.push(old_cur), Seq::empty());
            }
            parts.push(cur);
            cur = String::new();
            assert(spec_views(parts@) =~= old_ps.push(old_cur));
            assert(spec_views(parts@).push(cur@) =~= old_ps.push(old_cur).push(Seq::empty()));
            assert(spec_join_nul(spec_views(parts@).push(cur@)) =~= s@.take(pos as int + 1)) by {
                assert(s@.take(pos as int + 1) =~= s@.take(pos as int) + seq![c]);
                assert(spec_join_nul(old_ps.push(old_cur)) + seq!['\u{0}'] + Seq::empty() =~= s@.take(
                    pos as int,
                ) + seq![c]);
            };
        } else {
            strings::push_char(&mut cur, c);
            proof {
                lemma_join_nul_push(old_ps, old_cur);
                lemma_join_nul_push(old_ps, cur@);
                assert(s@.take(pos as int + 1) =~= s@.take(pos as int) + seq![c]);
                if old_ps.len() == 0 {
                    assert(spec_join_nul(old_ps.push(cur@)) =~= s@.take(pos as int) + seq![c]);
                } else {
                    assert(spec_join_nul(old_ps) + seq!['\u{0}'] + cur@ =~= (spec_join_nul(old_ps)
                        + seq!['\u{0}'] + old_cur) + seq![c]);
                }
                assert(!cur@.contains('\u{0}')) by {
                    assert(forall|i: int|
                        0 <= i < cur@.len() ==> cur@[i] == (#[trigger] old_cur.push(c)[i]));
                };
            }
        }
        pos = pos + 1;
    }
    assert(s@.take(pos as int) =~= s@);
    if parts.len() == 0 {
        assert(spec_join_nul(spec_views(parts@).push(cur@)) == cur@) by {
            assert(spec_views(parts@).push(cur@).len() == 1);
            assert(spec_views(parts@).push(cur@)[0] == cur@);
        };
        Text::One(cur)
    } else {
        let ghost old_ps = spec_views(parts@);
        parts.push(cur);
        assert(spec_views(parts@) =~= old_ps.push(cur@));
        Text::Many(parts)
    }
}

impl Text {
    /// Decodes a frame body's text region and splits it at NUL
    /// separators into a single- or multi-valued text.
    pub fn new(encoding: Encoding, data: &[u8]) -> (r: Text)
        ensures
            spec_text_post(encoding, data@, r),
    {
        let s = strings::get_string(encoding, data);
        let r = split_nul(&s);
        proof {
            assert(spec_get_string_post(encoding, data@, s@) && spec_text_rel(r, s@));
        }
        r
    }

    /// The text with NUL separators restored, ready for rendering.
    pub open spec fn spec_joined(&self) -> Seq<char> {
        match self {
            Text::One(x) => x@,
            Text::Many(v) => spec_join_nul(spec_views(v@)),
        }
    }

    /// Joins the value back into one string, with NUL separators between
    /// multiple parts.
    #[verifier::loop_isolation(false)]
    pub fn joined(&self) -> (r: String)
        ensures
            r@ == self.spec_joined(),
    {
        match self {
            Text::One(x) => x.clone(),
            Text::Many(v) => {
                let ghost ps = spec_views(v@);
                let mut out = String::new();
                let mut i: usize = 0;
                if v.len() == 0 {
                    return out;
                }
                out.append(v[0].as_str());
                i = 1;
                while i < v.len()
                    invariant
                        1 <= i <= v@.len(),
                        v@.len() >= 1,
                        ps == spec_views(v@),
                        out@ == spec_join_nul(ps.take(i as int)),
                    decreases v@.len() - i,
                {
                    strings::push_char(&mut out, '\u{0}');
                    out.append(v[i].as_str());
                    proof {
                        lemma_join_nul_push(ps.take(i as int), ps[i as int]);
                        assert(ps.take(i as int).push(ps[i as int]) =~= ps.take(i as int + 1));
                        assert(out@ =~= spec_join_nul(ps.take(i as int)) + seq!['\u{0}']
                            + ps[i as int]);
                    }
                    i = i + 1;
                }
                assert(ps.take(i as int) =~= ps);
                out
            },
        }
    }
}

/// The consumed size of a terminated string never exceeds the buffer.
pub proof fn lemma_terminated_bound(enc: Encoding, b: Seq<u8>)
    ensures
        0 <= spec_terminated(enc, b).1 <= b.len(),
{
    if strings::spec_nul_size(enc) == 1 {
        lemma_find_nul1_bound(b, 0);
    } else {
        lemma_find_nul2_bound(b, 0);
    }
}

/// A found one-byte terminator lies inside the buffer.
pub proof fn lemma_find_nul1_bound(b: Seq<u8>, i: int)
    requires
        0 <= i <= b.len(),
    ensures
        match strings::spec_find_nul1(b, i) {
            Some(j) => i <= j < b.len(),
            None => true,
        },
    decreases b.len() - i,
{
    if i < b.len() && b[i] != 0 {
        lemma_find_nul1_bound(b, i + 1);
    }
}

/// A found two-byte terminator lies inside the buffer with room for both
/// bytes.
pub proof fn lemma_find_nul2_bound(b: Seq<u8>, i: int)
    requires
        0 <= i,
    ensures
        match strings::spec_find_nul2(b, i) {
            Some(j) => i <= j && j + 1 < b.len(),
            None => true,
        },
    decreases b.len() - i,
{
    if i + 1 < b.len() && !(b[i] == 0 && b[i + 1] == 0) {
        lemma_find_nul2_bound(b, i + 2);
    }
}

/// The byte regions of the role and people strings read in turn from a
/// credits body: pairs of terminated strings until the body is exhausted
/// or no bytes can be consumed.
pub open spec fn spec_credit_ranges(enc: Encoding, b: Seq<u8>) -> Seq<(Seq<u8>, Seq<u8>)>
    decreases b.len(),
{
    if b.len() == 0 {
        Seq::empty()
    } else {
        let role = spec_terminated(enc, b);
        let people = spec_terminated(enc, b.skip(role.1));
        if role.1 + people.1 <= 0 || role.1 + people.1 > b.len() {
            Seq::empty()
        } else {
            seq![(role.0, people.0)] + spec_credit_ranges(enc, b.skip(role.1 + people.1))
        }
    }
}

/// The first index at or after `i` whose entry names the given role.
pub open spec fn spec_find_role(es: Seq<(Seq<char>, Seq<char>)>, role: Seq<char>, i: int) -> Option<
    int,
>
    decreases es.len() - i when 0 <= i <= es.len()
{
    if i >= es.len() {
        None
    } else if es[i].0 == role {
        Some(i)
    } else {
        spec_find_role(es, role, i + 1)
    }
}

/// One credits entry added to a role map: an empty role is skipped, an
/// existing role is overwritten in place, a new role is appended.
pub open spec fn spec_add_person(
    es: Seq<(Seq<char>, Seq<char>)>,
    d: (Seq<char>, Seq<char>),
) -> Seq<(Seq<char>, Seq<char>)> {
    if d.0.len() == 0 {
        es
    } else {
        match spec_find_role(es, d.0, 0) {
            Some(i) => es.update(i, d),
            None => es.push(d),
        }
    }
}

/// The role map built from decoded credits pairs, in reading order.
pub open spec fn spec_fold_people(ds: Seq<(Seq<char>, Seq<char>)>) -> Seq<(Seq<char>, Seq<char>)>
    decreases ds.len(),
{
    if ds.len() == 0 {
        Seq::empty()
    } else {
        spec_add_person(spec_fold_people(ds.drop_last()), ds.last())
    }
}

/// The views of a vector of string pairs.
pub open spec fn spec_pair_views(v: Seq<(String, String)>) -> Seq<(Seq<char>, Seq<char>)> {
    v.map_values(|p: (String, String)| (p.0@, p.1@))
}

/// A user-defined text frame (`TXXX`): an encoding byte, a terminated
/// description, then the text.
#[derive(Debug)]
pub struct UserTextFrame {
    /// The frame envelope.
    pub header: FrameHeader,
    /// The text encoding of the body.
    pub encoding: Encoding,
    /// The description that disambiguates this frame from other `TXXX`
    /// frames.
    pub desc: String,
    /// The decoded value.
    pub text: Text,
}

impl UserTextFrame {
    /// An empty frame with the given flags.
    pub fn with_flags(flags: FrameFlags) -> (r: UserTextFrame)
        ensures
            r.header.id@ == "TXXX"@,
            r.header.flags == flags,
    {
        Self::with_header(FrameHeader::with_flags("TXXX", flags))
    }

    /// An empty frame around the given header.
    pub(crate) fn with_header(header: FrameHeader) -> (r: UserTextFrame)
        ensures
            r.header == header,
    {
        UserTextFrame {
            header,
            encoding: Encoding::default(),
            desc: String::new(),
            text: Text::One(String::new()),
        }
    }

    /// Parses a frame body around the given header.
    pub fn new(tag_header: &TagHeader, header: FrameHeader, data: &[u8]) -> (r: ParseResult<UserTextFrame>)
        ensures
            r is Ok <==> data@.len() >= 1 && data@[0] <= 3,
            r matches Ok(f) ==> f.header == header && spec_user_text_post(data@, f.encoding, f.desc@, f.text),
            r matches Err(e) ==> e == (if data@.len() == 0 {
                ParseError::NotEnoughData
            } else {
                ParseError::MalformedData
            }),
    {
        let mut frame = Self::with_header(header);
        match frame.parse(tag_header, data) {
            Ok(()) => Ok(frame),
            Err(e) => Err(e),
        }
    }

    /// The description.
    pub fn desc(&self) -> (r: &String)
        ensures
            r@ == self.desc@,
    {
        &self.desc
    }

    /// The decoded value.
    pub fn text(&self) -> (r: &Text)
        ensures
            r == &self.text,
    {
        &self.text
    }

    /// Parses the frame body: an encoding byte, a terminated description,
    /// then the text.
    pub fn parse(&mut self, _tag_header: &TagHeader, data: &[u8]) -> (r: ParseResult<()>)
        ensures
            r is Ok <==> data@.len() >= 1 && data@[0] <= 3,
            r is Ok ==> final(self).header == old(self).header && spec_user_text_post(
                data@,
                final(self).encoding,
                final(self).desc@,
                final(self).text,
            ),
            r matches Err(e) ==> *final(self) == *old(self) && e == (if data@.len() == 0 {
                ParseError::NotEnoughData
            } else {
                ParseError::MalformedData
            }),
    {
        let encoding = match Encoding::parse(data) {
            Ok(e) => e,
            Err(e) => {
                return Err(e);
            },
        };
        let rest = slice_subrange(data, 1, data.len());
        let (desc, desc_size) = strings::get_terminated_string(encoding, rest);
        let text = Text::new(encoding, slice_subrange(rest, desc_size, rest.len()));
        self.encoding = encoding;
        self.desc = desc;
        self.text = text;
        assert(rest@.skip(spec_terminated(encoding, data@.skip(1)).1) =~= data@.skip(1).skip(
            spec_terminated(encoding, data@.skip(1)).1,
        ));
        Ok(())
    }

    /// Renders the frame body: the encoding byte, the terminated
    /// description, then the joined text.
    pub fn render_body(&self) -> (r: Vec<u8>)
        ensures
            r@ == seq![spec_encoding_code(self.encoding)] + spec_encode_text(
                self.encoding,
                self.desc@,
            ) + spec_nul_bytes(self.encoding) + spec_encode_text(
                self.encoding,
                self.text.spec_joined(),
            ),
    {
        let mut out: Vec<u8> = Vec::new();
        out.push(self.encoding.render_code());
        let mut desc = strings::encode_text(self.encoding, self.desc.as_str());
        out.append(&mut desc);
        strings::push_terminator(&mut out, self.encoding);
        let joined = self.text.joined();
        let mut body = strings::encode_text(self.encoding, joined.as_str());
        out.append(&mut body);
        assert(out@ =~= seq![spec_encoding_code(self.encoding)] + spec_encode_text(
            self.encoding,
            self.desc@,
        ) + spec_nul_bytes(self.encoding) + spec_encode_text(
            self.encoding,
            self.text.spec_joined(),
        ));
        out
    }
}

/// The terminator bytes of an encoding.
pub open spec fn spec_nul_bytes(enc: Encoding) -> Seq<u8> {
    if strings::spec_nul_size(enc) == 1 {
        seq![0u8]
    } else {
        seq![0u8, 0u8]
    }
}

/// What parsing a user-text body promises: the encoding comes from the
/// first byte, the description is the first terminated string after it,
/// and the text is decoded from what remains.
pub open spec fn spec_user_text_post(
    data: Seq<u8>,
    enc: Encoding,
    desc: Seq<char>,
    text: Text,
) -> bool {
    let rest = data.skip(1);
    let term = spec_terminated(enc, rest);
    &&& enc == spec_encoding_from_raw(data[0])
    &&& spec_get_string_post(enc, term.0, desc)
    &&& spec_text_post(enc, rest.skip(term.1), text)
}

/// A credits frame (`TIPL`, `TMCL` or the older `IPLS`): an encoding
/// byte, then alternating terminated role and people strings, collected
/// into a role map. Empty roles are skipped; a repeated role keeps the
/// later entry.
#[derive(Debug)]
pub struct CreditsFrame {
    /// The frame envelope.
    pub header: FrameHeader,
    /// The text encoding of the body.
    pub encoding: Encoding,
    /// The role map, in reading order: each entry pairs a role with the
    /// people credited for it.
    pub people: Vec<(String, String)>,
}

impl CreditsFrame {
    /// An empty frame with the given identifier and flags.
    pub fn with_flags(id: &str, flags: FrameFlags) -> (r: CreditsFrame)
        ensures
            r.header.id@ == id@,
            r.header.flags == flags,
            r.people@.len() == 0,
    {
        Self::with_header(FrameHeader::with_flags(id, flags))
    }

    /// An empty frame around the given header.
    pub(crate) fn with_header(header: FrameHeader) -> (r: CreditsFrame)
        ensures
            r.header == header,
            r.people@.len() == 0,
    {
        CreditsFrame { header, encoding: Encoding::default(), people: Vec::new() }
    }

    /// Parses a frame body around the given header.
    pub fn new(tag_header: &TagHeader, header: FrameHeader, data: &[u8]) -> (r: ParseResult<CreditsFrame>)
        ensures
            r is Ok <==> data@.len() >= 1 && data@[0] <= 3,
            r matches Ok(f) ==> f.header == header && f.encoding == spec_encoding_from_raw(
                data@[0],
            ) && spec_credits_post(f.encoding, data@.skip(1), f.people@),
            r matches Err(e) ==> e == (if data@.len() == 0 {
                ParseError::NotEnoughData
            } else {
                ParseError::MalformedData
            }),
    {
        let mut frame = Self::with_header(header);
        match frame.parse(tag_header, data) {
            Ok(()) => Ok(frame),
            Err(e) => Err(e),
        }
    }

    /// The role map, in reading order.
    pub fn people(&self) -> (r: &Vec<(String, String)>)
        ensures
            r == &self.people,
    {
        &self.people
    }

    /// Whether this frame lists musician credits.
    pub fn is_musician_credits(&self) -> (r: bool)
        ensures
            r == (self.header.id@ == "TMCL"@),
    {
        strings::str_eq(self.header.id.as_str(), "TMCL")
    }

    /// Whether this frame lists involved people.
    pub fn is_involved_people(&self) -> (r: bool)
        ensures
            r == (self.header.id@ == "TIPL"@ || self.header.id@ == "IPLS"@),
    {
        strings::str_eq(self.header.id.as_str(), "TIPL") || strings::str_eq(
            self.header.id.as_str(),
            "IPLS",
        )
    }

    /// Parses the frame body: an encoding byte, then alternating
    /// terminated role and people strings until the body is exhausted.
    pub fn parse(&mut self, _tag_header: &TagHeader, data: &[u8]) -> (r: ParseResult<()>)
        ensures
            r is Ok <==> data@.len() >= 1 && data@[0] <= 3,
            r is Ok ==> final(self).header == old(self).header && final(self).encoding
                == spec_encoding_from_raw(data@[0]) && spec_credits_post(
                final(self).encoding,
                data@.skip(1),
                final(self).people@,
            ),
            r matches Err(e) ==> *final(self) == *old(self) && e == (if data@.len() == 0 {
                ParseError::NotEnoughData
            } else {
                ParseError::MalformedData
            }),
    {
        let encoding = match Encoding::parse(data) {
            Ok(e) => e,
            Err(e) => {
                return Err(e);
            },
        };
        let ghost body = data@.skip(1);
        let ghost all_ranges = spec_credit_ranges(encoding, body);
        let mut pairs: Vec<(String, String)> = Vec::new();
        let ghost mut done: Seq<(Seq<u8>, Seq<u8>)> = Seq::empty();
        let mut pos: usize = 1;
        assert(data@.skip(pos as int) =~= body.skip(pos - 1));
        assert(all_ranges =~= done + spec_credit_ranges(encoding, body.skip(0)));
        loop
            invariant_except_break
                1 <= pos <= data@.len(),
                all_ranges == done + spec_credit_ranges(encoding, body.skip(pos - 1)),
            invariant
                body == data@.skip(1),
                all_ranges == spec_credit_ranges(encoding, body),
                pairs@.len() == done.len(),
                forall|j: int|
                    0 <= j < done.len() ==> spec_get_string_post(
                        encoding,
                        (#[trigger] done[j]).0,
                        pairs@[j].0@,
                    ) && spec_get_string_post(encoding, done[j].1, pairs@[j].1@),
            ensures
                all_ranges == done,
            decreases data@.len() - pos,
        {
            if pos >= data.len() {
                assert(body.skip(pos - 1).len() == 0);
                assert(spec_credit_ranges(encoding, body.skip(pos - 1)) =~= Seq::empty());
                assert(all_ranges =~= done);
                break ;
            }
            let ghost rem = body.skip(pos - 1);
            proof {
                lemma_terminated_bound(encoding, rem);
                assert(data@.skip(pos as int) =~= rem);
            }
            let (role, role_size) = strings::get_terminated_string(
                encoding,
                slice_subrange(data, pos, data.len()),
            );
            let after_role = pos + role_size;
            proof {
                lemma_terminated_bound(encoding, rem.skip(role_size as int));
                assert(data@.skip(after_role as int) =~= rem.skip(role_size as int));
            }
            let (role_people, people_size) = strings::get_terminated_string(
                encoding,
                slice_subrange(data, after_role, data.len()),
            );
            if role_size + people_size == 0 {
                assert(spec_credit_ranges(encoding, rem) =~= Seq::empty());
                assert(all_ranges =~= done);
                break ;
            }
            pairs.push((role, role_people));
            proof {
                let rng = (
                    spec_terminated(encoding, rem).0,
                    spec_terminated(encoding, rem.skip(role_size as int)).0,
                );
                assert(spec_credit_ranges(encoding, rem) =~= seq![rng] + spec_credit_ranges(
                    encoding,
                    rem.skip(role_size + people_size),
                ));
                done = done.push(rng);
                assert(done + spec_credit_ranges(encoding, rem.skip(role_size + people_size)) =~= (
                done.drop_last() + (seq![rng] + spec_credit_ranges(
                    encoding,
                    rem.skip(role_size + people_size),
                ))));
                assert(body.skip((pos + role_size + people_size) - 1) =~= rem.skip(
                    role_size + people_size,
                ));
            }
            pos = after_role + people_size;
        }
        let people_map = fold_people(&pairs);
        self.encoding = encoding;
        self.people = people_map;
        Ok(())
    }
}

impl CreditsFrame {
    /// Renders the frame body: the encoding byte, then each role and its
    /// people string, both terminated.
    #[verifier::loop_isolation(false)]
    pub fn render_body(&self) -> (r: Vec<u8>)
        ensures
            r@ == seq![spec_encoding_code(self.encoding)] + spec_render_credit_entries(
                self.encoding,
                spec_pair_views(self.people@),
            ),
    {
        let ghost es = spec_pair_views(self.people@);
        let mut out: Vec<u8> = Vec::new();
        out.push(self.encoding.render_code());
        let ghost head = out@;
        let mut i: usize = 0;
        assert(es.take(0) =~= Seq::<(Seq<char>, Seq<char>)>::empty());
        assert(out@ =~= head + spec_render_credit_entries(self.encoding, es.take(0)));
        while i < self.people.len()
            invariant
                i <= self.people@.len(),
                es == spec_pair_views(self.people@),
                out@ == head + spec_render_credit_entries(self.encoding, es.take(i as int)),
            decreases self.people@.len() - i,
        {
            let mut role = strings::encode_text(self.encoding, self.people[i].0.as_str());
            out.append(&mut role);
            strings::push_terminator(&mut out, self.encoding);
            let mut people = strings::encode_text(self.encoding, self.people[i].1.as_str());
            out.append(&mut people);
            strings::push_terminator(&mut out, self.encoding);
            proof {
                assert(es.take(i as int + 1).drop_last() =~= es.take(i as int));
                assert(es.take(i as int + 1).last() == es[i as int]);
                assert(es[i as int] == (self.people@[i as int].0@, self.people@[i as int].1@));
                assert(out@ =~= head + spec_render_credit_entries(
                    self.encoding,
                    es.take(i as int + 1),
                ));
            }
            i = i + 1;
        }
        assert(es.take(self.people@.len() as int) =~= es);
        out
    }
}

/// Finds the entry holding the given role, if the map has one.
#[verifier::loop_isolation(false)]
fn find_role(map: &Vec<(String, String)>, role: &String) -> (r: Option<usize>)
    ensures
        match r {
            Some(i) => spec_find_role(spec_pair_views(map@), role@, 0) == Some(i as int) && i
                < map@.len(),
            None => spec_find_role(spec_pair_views(map@), role@, 0) is None,
        },
{
    let ghost views = spec_pair_views(map@);
    let mut j: usize = 0;
    while j < map.len()
        invariant
            j <= map@.len(),
            spec_find_role(views, role@, 0) == spec_find_role(views, role@, j as int),
        decreases map@.len() - j,
    {
        assert(views[j as int] == (map@[j as int].0@, map@[j as int].1@));
        if strings::str_eq(map[j].0.as_str(), role.as_str()) {
            return Some(j);
        }
        j = j + 1;
    }
    None
}

/// Folds decoded credits pairs into the role map, in order: empty roles
/// are skipped, a repeated role is overwritten in place.
#[verifier::loop_isolation(false)]
fn fold_people(pairs: &Vec<(String, String)>) -> (r: Vec<(String, String)>)
    ensures
        spec_pair_views(r@) == spec_fold_people(spec_pair_views(pairs@)),
{
    let ghost decoded = spec_pair_views(pairs@);
    let mut people_map: Vec<(String, String)> = Vec::new();
    let mut k: usize = 0;
    assert(decoded.take(0) =~= Seq::empty());
    assert(spec_pair_views(people_map@) =~= spec_fold_people(decoded.take(0)));
    while k < pairs.len()
        invariant
            k <= pairs@.len(),
            spec_pair_views(people_map@) == spec_fold_people(decoded.take(k as int)),
        decreases pairs@.len() - k,
    {
        let ghost d = decoded[k as int];
        assert(d == (pairs@[k as int].0@, pairs@[k as int].1@));
        let role_is_empty = pairs[k].0.as_str().unicode_len() == 0;
        let ghost before = spec_pair_views(people_map@);
        if !role_is_empty {
            let found = find_role(&people_map, &pairs[k].0);
            assert(d.0.len() != 0);
            match found {
                Some(i) => {
                    assert(spec_find_role(before, d.0, 0) == Some(i as int));
                    assert(spec_add_person(before, d) == before.update(i as int, d));
                    let entry = (pairs[k].0.clone(), pairs[k].1.clone());
                    people_map[i] = entry;
                    assert(spec_pair_views(people_map@) =~= before.update(i as int, d));
                },
                None => {
                    assert(spec_find_role(before, d.0, 0) is None);
                    assert(spec_add_person(before, d) == before.push(d));
                    let entry = (pairs[k].0.clone(), pairs[k].1.clone());
                    people_map.push(entry);
                    assert(spec_pair_views(people_map@) =~= before.push(d));
                },
            }
            assert(spec_pair_views(people_map@) == spec_add_person(before, d));
        } else {
            assert(d.0.len() == 0);
            assert(spec_pair_views(people_map@) == spec_add_person(before, d));
        }
        proof {
            assert(decoded.take(k as int + 1).drop_last() =~= decoded.take(k as int));
            assert(decoded.take(k as int + 1).last() == d);
            assert(spec_fold_people(decoded.take(k as int + 1)) == spec_add_person(
                spec_fold_people(decoded.take(k as int)),
                d,
            ));
        }
        k = k + 1;
    }
    assert(decoded.take(pairs@.len() as int) =~= decoded);
    people_map
}

/// The rendered credits entries: each role terminated, then its people
/// string terminated, in map order.
pub open spec fn spec_render_credit_entries(
    enc: Encoding,
    es: Seq<(Seq<char>, Seq<char>)>,
) -> Seq<u8>
    decreases es.len(),
{
    if es.len() == 0 {
        Seq::empty()
    } else {
        spec_render_credit_entries(enc, es.drop_last()) + spec_encode_text(enc, es.last().0)
            + spec_nul_bytes(enc) + spec_encode_text(enc, es.last().1) + spec_nul_bytes(enc)
    }
}

/// What parsing a credits body promises: some decoding of the role and
/// people byte regions, folded into a role map with empty roles skipped
/// and repeated roles overwritten.
pub open spec fn spec_credits_post(
    enc: Encoding,
    body: Seq<u8>,
    people: Seq<(String, String)>,
) -> bool {
    let ranges = spec_credit_ranges(enc, body);
    exists|decoded: Seq<(Seq<char>, Seq<char>)>|
        decoded.len() == ranges.len() && (forall|j: int|
            0 <= j < ranges.len() ==> spec_get_string_post(enc, (#[trigger] ranges[j]).0, decoded[j].0)
                && spec_get_string_post(enc, ranges[j].1, decoded[j].1)) && spec_pair_views(people)
            == spec_fold_people(decoded)
}

/// A plain text frame (`T...` identifiers other than `TXXX`): an encoding
/// byte followed by one or more NUL-separated strings.
#[derive(Debug)]
pub struct TextFrame {
    /// The frame envelope.
    pub header: FrameHeader,
    /// The text encoding of the body.
    pub encoding: Encoding,
    /// The decoded value.
    pub text: Text,
}

impl TextFrame {
    /// An empty frame with the given identifier and flags.
    pub fn with_flags(id: &str, flags: FrameFlags) -> (r: TextFrame)
        ensures
            r.header.id@ == id@,
            r.header.flags == flags,
            r.encoding == Encoding::Latin1,
            r.text matches Text::One(s) && s@.len() == 0,
    {
        Self::with_header(FrameHeader::with_flags(id, flags))
    }

    /// An empty frame around the given header.
    pub(crate) fn with_header(header: FrameHeader) -> (r: TextFrame)
        ensures
            r.header == header,
            r.encoding == Encoding::Latin1,
            r.text matches Text::One(s) && s@.len() == 0,
    {
        TextFrame { header, encoding: Encoding::default(), text: Text::One(String::new()) }
    }

    /// Parses a frame body around the given header.
    pub fn new(tag_header: &TagHeader, header: FrameHeader, data: &[u8]) -> (r: ParseResult<TextFrame>)
        ensures
            r is Ok <==> data@.len() >= 1 && data@[0] <= 3,
            r matches Ok(f) ==> f.header == header && f.encoding == spec_encoding_from_raw(
                data@[0],
            ) && spec_text_post(f.encoding, data@.skip(1), f.text),
            r matches Err(e) ==> e == (if data@.len() == 0 {
                ParseError::NotEnoughData
            } else {
                ParseError::MalformedData
            }),
    {
        let mut frame = Self::with_header(header);
        match frame.parse(tag_header, data) {
            Ok(()) => Ok(frame),
            Err(e) => Err(e),
        }
    }

    /// The decoded value.
    pub fn text(&self) -> (r: &Text)
        ensures
            r == &self.text,
    {
        &self.text
    }

    /// Parses the frame body: an encoding byte, then the text.
    pub fn parse(&mut self, _tag_header: &TagHeader, data: &[u8]) -> (r: ParseResult<()>)
        ensures
            r is Ok <==> data@.len() >= 1 && data@[0] <= 3,
            r is Ok ==> final(self).header == old(self).header && final(self).encoding
                == spec_encoding_from_raw(data@[0]) && spec_text_post(
                final(self).encoding,
                data@.skip(1),
                final(self).text,
            ),
            r matches Err(e) ==> *final(self) == *old(self) && e == (if data@.len() == 0 {
                ParseError::NotEnoughData
            } else {
                ParseError::MalformedData
            }),
    {
        let encoding = match Encoding::parse(data) {
            Ok(e) => e,
            Err(e) => {
                return Err(e);
            },
        };
        self.encoding = encoding;
        self.text = Text::new(encoding, slice_subrange(data, 1, data.len()));
        Ok(())
    }

    /// Renders the frame body: the encoding byte, then the joined text.
    pub fn render_body(&self) -> (r: Vec<u8>)
        ensures
            r@ == seq![spec_encoding_code(self.encoding)] + spec_encode_text(
                self.encoding,
                self.text.spec_joined(),
            ),
    {
        let mut out: Vec<u8> = Vec::new();
        out.push(self.encoding.render_code());
        let joined = self.text.joined();
        let mut body = strings::encode_text(self.encoding, joined.as_str());
        out.append(&mut body);
        assert(out@ =~= seq![spec_encoding_code(self.encoding)] + spec_encode_text(
            self.encoding,
            self.text.spec_joined(),
        ));
        out
    }
}

} // verus!
