//! Table-driven migration of a frame map between tag versions.
//!
//! Each direction renames the identifiers that changed between ID3v2.3
//! and ID3v2.4, merges or splits the dated text frames, and drops the
//! frames that have no analogue in the target version. Frames whose
//! identifiers the tables do not name pass through unchanged.

use crate::collections::{
    lemma_add_other_key, lemma_remove_key_absent, spec_find_key, spec_frame_at, spec_has_key,
    FrameMap,
};
use crate::frames::{Frame, FrameFlags, FrameHeader};
use crate::strings::Encoding;
use crate::text::{Text, TextFrame};
use vstd::prelude::*;

verus! {

/// Two character sequences differing at an index are different.
proof fn lemma_ne_at(a: Seq<char>, b: Seq<char>, i: int)
    requires
        0 <= i < a.len(),
        i < b.len(),
        a[i] != b[i],
    ensures
        a != b,
{
}

/// Removes the frame keyed by an identifier, if one is held, leaving the
/// key absent.
fn take_id(frames: &mut FrameMap, id: &str) -> (r: Option<Frame>)
    requires
        old(frames).wf(),
    ensures
        final(frames).wf(),
        (forall|i: int|
            0 <= i < old(frames).entries@.len() ==> (#[trigger] old(frames).entries@[i]).wf())
            ==> (forall|i: int|
            0 <= i < final(frames).entries@.len() ==> (#[trigger] final(frames).entries@[i]).wf()),
        !spec_has_key(final(frames).entries@, id@),
        match spec_find_key(old(frames).entries@, id@, 0) {
            Some(i) => r matches Some(f) && f == old(frames).entries@[i],
            None => r is None && final(frames).entries@ == old(frames).entries@,
        },
        forall|k: Seq<char>|
            #![trigger spec_frame_at(final(frames).entries@, k)]
            #![trigger spec_has_key(final(frames).entries@, k)]
            k != id@ ==> spec_frame_at(final(frames).entries@, k) == spec_frame_at(
                old(frames).entries@,
                k,
            ) && spec_has_key(final(frames).entries@, k) == spec_has_key(
                old(frames).entries@,
                k,
            ),
{
    let key = String::from_str(id);
    let r = frames.remove(&key);
    proof {
        lemma_remove_key_absent(old(frames).entries@, id@);
        if (forall|i: int|
            0 <= i < old(frames).entries@.len() ==> (#[trigger] old(frames).entries@[i]).wf()) {
            match spec_find_key(old(frames).entries@, id@, 0) {
                Some(i) => {
                    crate::collections::lemma_find_key_bounds(old(frames).entries@, id@, 0);
                    crate::collections::lemma_remove_frame_wf(old(frames).entries@, i);
                },
                None => {
                },
            }
        }
        crate::collections::lemma_find_key_bounds(old(frames).entries@, id@, 0);
        match spec_find_key(old(frames).entries@, id@, 0) {
            Some(i) => {
                assert forall|k: Seq<char>|
                    #![trigger spec_frame_at(frames.entries@, k)]
                    #![trigger spec_has_key(frames.entries@, k)]
                    k != id@ implies spec_frame_at(frames.entries@, k) == spec_frame_at(
                    old(frames).entries@,
                    k,
                ) && spec_has_key(frames.entries@, k) == spec_has_key(
                    old(frames).entries@,
                    k,
                ) by {
                    crate::collections::lemma_remove_other_key(old(frames).entries@, i, k);
                }
            },
            None => {
            },
        }
    }
    r
}

/// Adds a plain text frame under the given identifier.
fn add_text(frames: &mut FrameMap, id: &str, encoding: Encoding, value: String)
    requires
        old(frames).wf(),
    ensures
        final(frames).wf(),
        id@.len() == 4 ==> ((forall|i: int|
            0 <= i < old(frames).entries@.len() ==> (#[trigger] old(frames).entries@[i]).wf())
            ==> (forall|i: int|
            0 <= i < final(frames).entries@.len() ==> (#[trigger] final(frames).entries@[i]).wf())),
        spec_has_key(final(frames).entries@, id@),
        forall|k: Seq<char>|
            #![trigger spec_frame_at(final(frames).entries@, k)]
            #![trigger spec_has_key(final(frames).entries@, k)]
            k != id@ ==> spec_frame_at(final(frames).entries@, k) == spec_frame_at(
                old(frames).entries@,
                k,
            ) && spec_has_key(final(frames).entries@, k) == spec_has_key(
                old(frames).entries@,
                k,
            ),
        spec_frame_at(final(frames).entries@, id@) matches Some(g) && (g matches Frame::Text(t)
            && t.header.id@ == id@ && t.encoding == encoding && (t.text matches Text::One(v) && v
            == value)),
{
    let f = TextFrame {
        header: FrameHeader::with_flags(id, FrameFlags::new()),
        encoding,
        text: Text::One(value),
    };
    let ghost fr = Frame::Text(f);
    assert(fr.spec_key() == id@);
    frames.add(Frame::Text(f));
    proof {
        crate::collections::lemma_find_key_bounds(old(frames).entries@, id@, 0);
        match spec_find_key(old(frames).entries@, id@, 0) {
            Some(i) => {
                assert(frames.entries@[i] == fr);
            },
            None => {
                assert(frames.entries@[old(frames).entries@.len() as int] == fr);
            },
        }
        crate::collections::lemma_has_key_iff_exists(frames.entries@, id@);
        crate::collections::lemma_frame_at_unique(frames.entries@, id@);
        assert(spec_frame_at(frames.entries@, id@) == Some(fr));
        if id@.len() == 4 && (forall|i: int|
            0 <= i < old(frames).entries@.len() ==> (#[trigger] old(frames).entries@[i]).wf()) {
            assert(fr.wf());
            crate::collections::lemma_add_frame_wf(old(frames).entries@, fr);
        }
        assert forall|k: Seq<char>|
            #![trigger spec_frame_at(frames.entries@, k)]
            #![trigger spec_has_key(frames.entries@, k)]
            k != id@ implies spec_frame_at(frames.entries@, k) == spec_frame_at(
            old(frames).entries@,
            k,
        ) && spec_has_key(frames.entries@, k) == spec_has_key(old(frames).entries@, k) by {
            lemma_add_other_key(old(frames).entries@, fr, k);
        }
    }
}


/// Whether the upgrade table to ID3v2.4 names an identifier as a key it
/// merges, renames, creates or drops. Frames under every other key pass
/// through a migration unchanged.
pub open spec fn spec_v4_table_key(k: Seq<char>) -> bool {
    ||| k == "TYER"@
    ||| k == "TDAT"@
    ||| k == "TIME"@
    ||| k == "TDRC"@
    ||| k == "IPLS"@
    ||| k == "TIPL"@
    ||| k == "TORY"@
    ||| k == "TDOR"@
    ||| k == "EQUA"@
    ||| k == "RVAD"@
    ||| k == "TRDA"@
    ||| k == "TSIZ"@
}

/// Whether the downgrade table to ID3v2.3 names an identifier as a key
/// it splits, renames, creates or drops. Frames under every other key
/// pass through a migration unchanged.
pub open spec fn spec_v3_table_key(k: Seq<char>) -> bool {
    ||| k == "TDRC"@
    ||| k == "TYER"@
    ||| k == "TDAT"@
    ||| k == "TIME"@
    ||| k == "TIPL"@
    ||| k == "TMCL"@
    ||| k == "IPLS"@
    ||| k == "TDOR"@
    ||| k == "TORY"@
    ||| k == "EQU2"@
    ||| k == "RVA2"@
    ||| k == "SEEK"@
    ||| k == "SIGN"@
    ||| k == "TDEN"@
    ||| k == "TDRL"@
    ||| k == "TDTG"@
    ||| k == "TMOO"@
    ||| k == "TPRO"@
    ||| k == "TSST"@
    ||| k == "TSOA"@
    ||| k == "TSOP"@
    ||| k == "TSOT"@
    ||| k == "ASPI"@
}

/// Every frame whose key the upgrade table does not name has the same
/// presence and the same value after the migration as before it.
pub open spec fn spec_v4_passthrough(before: Seq<Frame>, after: Seq<Frame>) -> bool {
    forall|k: Seq<char>|
        #![trigger spec_frame_at(after, k)]
        #![trigger spec_has_key(after, k)]
        !spec_v4_table_key(k) ==> spec_frame_at(after, k) == spec_frame_at(before, k)
            && spec_has_key(after, k) == spec_has_key(before, k)
}

/// Every frame whose key the downgrade table does not name has the same
/// presence and the same value after the migration as before it.
pub open spec fn spec_v3_passthrough(before: Seq<Frame>, after: Seq<Frame>) -> bool {
    forall|k: Seq<char>|
        #![trigger spec_frame_at(after, k)]
        #![trigger spec_has_key(after, k)]
        !spec_v3_table_key(k) ==> spec_frame_at(after, k) == spec_frame_at(before, k)
            && spec_has_key(after, k) == spec_has_key(before, k)
}

/// Upgrades a frame map to ID3v2.4: the `TYER`, `TDAT` and `TIME` date
/// parts merge into a `TDRC` timestamp, `IPLS` becomes `TIPL`, `TORY`
/// becomes `TDOR`, and the frames with no ID3v2.4 analogue (`EQUA`,
/// `RVAD`, `TRDA`, `TSIZ`) are dropped. Frames whose keys the table does
/// not name keep their presence and their value.
#[verifier::rlimit(100)]
pub fn to_v4(frames: &mut FrameMap)
    requires
        old(frames).wf(),
    ensures
        final(frames).wf(),
        (forall|i: int|
            0 <= i < old(frames).entries@.len() ==> (#[trigger] old(frames).entries@[i]).wf())
            ==> (forall|i: int|
            0 <= i < final(frames).entries@.len() ==> (#[trigger] final(frames).entries@[i]).wf()),
        !spec_has_key(final(frames).entries@, "TYER"@),
        !spec_has_key(final(frames).entries@, "TDAT"@),
        !spec_has_key(final(frames).entries@, "TIME"@),
        match spec_frame_at(old(frames).entries@, "TYER"@) {
            Some(f) => (f matches Frame::Text(t) ==> (spec_frame_at(
                final(frames).entries@,
                "TDRC"@,
            ) matches Some(g) && (g matches Frame::Text(t2) && (t2.text matches Text::One(v)
                && t.text.spec_joined().is_prefix_of(v@))))),
            None => true,
        },
        spec_v4_passthrough(old(frames).entries@, final(frames).entries@),
{
    proof {
        reveal_strlit("EQUA");
        reveal_strlit("IPLS");
        reveal_strlit("RVAD");
        reveal_strlit("TDAT");
        reveal_strlit("TDOR");
        reveal_strlit("TDRC");
        reveal_strlit("TIME");
        reveal_strlit("TIPL");
        reveal_strlit("TORY");
        reveal_strlit("TRDA");
        reveal_strlit("TSIZ");
        reveal_strlit("TYER");
        lemma_ne_at("IPLS"@, "TDRC"@, 0);
        lemma_ne_at("TDRC"@, "TIPL"@, 1);
        lemma_ne_at("TDRC"@, "TORY"@, 1);
        lemma_ne_at("TDOR"@, "TDRC"@, 2);
        lemma_ne_at("EQUA"@, "TDRC"@, 0);
        lemma_ne_at("RVAD"@, "TDRC"@, 0);
        lemma_ne_at("TDRC"@, "TRDA"@, 1);
        lemma_ne_at("TDRC"@, "TSIZ"@, 1);
        lemma_ne_at("IPLS"@, "TYER"@, 0);
        lemma_ne_at("TIPL"@, "TYER"@, 1);
        lemma_ne_at("TORY"@, "TYER"@, 1);
        lemma_ne_at("TDOR"@, "TYER"@, 1);
        lemma_ne_at("EQUA"@, "TYER"@, 0);
        lemma_ne_at("RVAD"@, "TYER"@, 0);
        lemma_ne_at("TRDA"@, "TYER"@, 1);
        lemma_ne_at("TSIZ"@, "TYER"@, 1);
        lemma_ne_at("IPLS"@, "TDAT"@, 0);
        lemma_ne_at("TDAT"@, "TIPL"@, 1);
        lemma_ne_at("TDAT"@, "TORY"@, 1);
        lemma_ne_at("TDAT"@, "TDOR"@, 2);
        lemma_ne_at("EQUA"@, "TDAT"@, 0);
        lemma_ne_at("RVAD"@, "TDAT"@, 0);
        lemma_ne_at("TDAT"@, "TRDA"@, 1);
        lemma_ne_at("TDAT"@, "TSIZ"@, 1);
        lemma_ne_at("IPLS"@, "TIME"@, 0);
        lemma_ne_at("TIME"@, "TIPL"@, 2);
        lemma_ne_at("TIME"@, "TORY"@, 1);
        lemma_ne_at("TDOR"@, "TIME"@, 1);
        lemma_ne_at("EQUA"@, "TIME"@, 0);
        lemma_ne_at("RVAD"@, "TIME"@, 0);
        lemma_ne_at("TIME"@, "TRDA"@, 1);
        lemma_ne_at("TIME"@, "TSIZ"@, 1);
        lemma_ne_at("TDAT"@, "TYER"@, 1);
        lemma_ne_at("TIME"@, "TYER"@, 1);
        lemma_ne_at("TDRC"@, "TYER"@, 1);
        lemma_ne_at("TDAT"@, "TIME"@, 1);
        lemma_ne_at("TDAT"@, "TDRC"@, 2);
        lemma_ne_at("TDRC"@, "TIME"@, 1);
    }
    let ghost g0 = frames.entries@;
    let tyer = take_id(frames, "TYER");
    assert(spec_v4_passthrough(g0, frames.entries@));
    let tdat = take_id(frames, "TDAT");
    assert(spec_v4_passthrough(g0, frames.entries@));
    let time = take_id(frames, "TIME");
    assert(spec_v4_passthrough(g0, frames.entries@));
    match tyer {
        Some(Frame::Text(t)) => {
            let mut s = t.text.joined();
            let ghost year = s@;
            match tdat {
                Some(Frame::Text(d)) => {
                    let ds = d.text.joined();
                    if ds.as_str().unicode_len() == 4 {
                        s.append("-");
                        s.append(ds.as_str().substring_char(2, 4));
                        s.append("-");
                        s.append(ds.as_str().substring_char(0, 2));
                    }
                },
                _ => {
                },
            }
            match time {
                Some(Frame::Text(m)) => {
                    let ms = m.text.joined();
                    if ms.as_str().unicode_len() == 4 {
                        s.append("T");
                        s.append(ms.as_str().substring_char(0, 2));
                        s.append(":");
                        s.append(ms.as_str().substring_char(2, 4));
                    }
                },
                _ => {
                },
            }
            assert(year.is_prefix_of(s@)) by {
                assert(s@.subrange(0, year.len() as int) =~= year);
            };
            add_text(frames, "TDRC", t.encoding, s);
            assert(spec_v4_passthrough(g0, frames.entries@));
        },
        _ => {
        },
    }
    assert(spec_v4_passthrough(g0, frames.entries@));
    let ipls = take_id(frames, "IPLS");
    assert(spec_v4_passthrough(g0, frames.entries@));
    match ipls {
        Some(Frame::Credits(c)) => {
            let mut c2 = c;
            c2.header.id = String::from_str("TIPL");
            let ghost fr = Frame::Credits(c2);
            let ghost before = frames.entries@;
            frames.add(Frame::Credits(c2));
            proof {
                assert forall|k: Seq<char>|
                    #![trigger spec_frame_at(frames.entries@, k)]
                    #![trigger spec_has_key(frames.entries@, k)]
                    k != fr.spec_key() implies spec_frame_at(frames.entries@, k) == spec_frame_at(
                    before,
                    k,
                ) && spec_has_key(frames.entries@, k) == spec_has_key(before, k) by {
                    lemma_add_other_key(before, fr, k);
                }
                if (forall|i: int| 0 <= i < before.len() ==> (#[trigger] before[i]).wf()) {
                    assert(fr.wf());
                    crate::collections::lemma_add_frame_wf(before, fr);
                }
            }
            assert(spec_v4_passthrough(g0, frames.entries@));
        },
        _ => {
        },
    }
    assert(spec_v4_passthrough(g0, frames.entries@));
    let tory = take_id(frames, "TORY");
    assert(spec_v4_passthrough(g0, frames.entries@));
    match tory {
        Some(Frame::Text(t)) => {
            let mut t2 = t;
            t2.header.id = String::from_str("TDOR");
            let ghost fr = Frame::Text(t2);
            let ghost before = frames.entries@;
            frames.add(Frame::Text(t2));
            proof {
                assert forall|k: Seq<char>|
                    #![trigger spec_frame_at(frames.entries@, k)]
                    #![trigger spec_has_key(frames.entries@, k)]
                    k != fr.spec_key() implies spec_frame_at(frames.entries@, k) == spec_frame_at(
                    before,
                    k,
                ) && spec_has_key(frames.entries@, k) == spec_has_key(before, k) by {
                    lemma_add_other_key(before, fr, k);
                }
                if (forall|i: int| 0 <= i < before.len() ==> (#[trigger] before[i]).wf()) {
                    assert(fr.wf());
                    crate::collections::lemma_add_frame_wf(before, fr);
                }
            }
            assert(spec_v4_passthrough(g0, frames.entries@));
        },
        _ => {
        },
    }
    assert(spec_v4_passthrough(g0, frames.entries@));
    let _ = take_id(frames, "EQUA");
    assert(spec_v4_passthrough(g0, frames.entries@));
    let _ = take_id(frames, "RVAD");
    assert(spec_v4_passthrough(g0, frames.entries@));
    let _ = take_id(frames, "TRDA");
    assert(spec_v4_passthrough(g0, frames.entries@));
    let _ = take_id(frames, "TSIZ");
    assert(spec_v4_passthrough(g0, frames.entries@));
}

/// Downgrades a frame map to ID3v2.3: a `TDRC` timestamp splits back
/// into `TYER` (its first four characters), `TDAT` (day then month read
/// from the timestamp) and `TIME` (hour then minute), each written only
/// when the timestamp reaches far enough; `TIPL` and `TMCL` become
/// `IPLS`, `TDOR` becomes `TORY`, and the frames with no ID3v2.3
/// analogue are dropped. Frames whose keys the table does not name keep
/// their presence and their value.
#[verifier::rlimit(100)]
pub fn to_v3(frames: &mut FrameMap)
    requires
        old(frames).wf(),
    ensures
        final(frames).wf(),
        (forall|i: int|
            0 <= i < old(frames).entries@.len() ==> (#[trigger] old(frames).entries@[i]).wf())
            ==> (forall|i: int|
            0 <= i < final(frames).entries@.len() ==> (#[trigger] final(frames).entries@[i]).wf()),
        !spec_has_key(final(frames).entries@, "TDRC"@),
        !spec_has_key(final(frames).entries@, "ASPI"@),
        match spec_frame_at(old(frames).entries@, "TDRC"@) {
            Some(f) => (f matches Frame::Text(t) ==> ({
                let j = t.text.spec_joined();
                &&& (j.len() >= 4 ==> (spec_frame_at(
                    final(frames).entries@,
                    "TYER"@,
                ) matches Some(g) && (g matches Frame::Text(t2) && t2.encoding == t.encoding && (
                t2.text matches Text::One(v) && v@ == j.subrange(0, 4)))))
                &&& (j.len() >= 10 ==> (spec_frame_at(
                    final(frames).entries@,
                    "TDAT"@,
                ) matches Some(g) && (g matches Frame::Text(t2) && t2.encoding == t.encoding && (
                t2.text matches Text::One(v) && v@ == j.subrange(8, 10) + j.subrange(5, 7)))))
                &&& (j.len() >= 16 ==> (spec_frame_at(
                    final(frames).entries@,
                    "TIME"@,
                ) matches Some(g) && (g matches Frame::Text(t2) && t2.encoding == t.encoding && (
                t2.text matches Text::One(v) && v@ == j.subrange(11, 13) + j.subrange(14, 16)))))
            })),
            None => true,
        },
        spec_v3_passthrough(old(frames).entries@, final(frames).entries@),
{
    proof {
        reveal_strlit("ASPI");
        reveal_strlit("EQU2");
        reveal_strlit("IPLS");
        reveal_strlit("RVA2");
        reveal_strlit("SEEK");
        reveal_strlit("SIGN");
        reveal_strlit("TDAT");
        reveal_strlit("TDEN");
        reveal_strlit("TDOR");
        reveal_strlit("TDRC");
        reveal_strlit("TDRL");
        reveal_strlit("TDTG");
        reveal_strlit("TIME");
        reveal_strlit("TIPL");
        reveal_strlit("TMCL");
        reveal_strlit("TMOO");
        reveal_strlit("TORY");
        reveal_strlit("TPRO");
        reveal_strlit("TSOA");
        reveal_strlit("TSOP");
        reveal_strlit("TSOT");
        reveal_strlit("TSST");
        reveal_strlit("TYER");
        lemma_ne_at("TDRC"@, "TIPL"@, 1);
        lemma_ne_at("IPLS"@, "TDRC"@, 0);
        lemma_ne_at("TDRC"@, "TMCL"@, 1);
        lemma_ne_at("TDOR"@, "TDRC"@, 2);
        lemma_ne_at("TDRC"@, "TORY"@, 1);
        lemma_ne_at("EQU2"@, "TDRC"@, 0);
        lemma_ne_at("RVA2"@, "TDRC"@, 0);
        lemma_ne_at("SEEK"@, "TDRC"@, 0);
        lemma_ne_at("SIGN"@, "TDRC"@, 0);
        lemma_ne_at("TDEN"@, "TDRC"@, 2);
        lemma_ne_at("TDRC"@, "TDRL"@, 3);
        lemma_ne_at("TDRC"@, "TDTG"@, 2);
        lemma_ne_at("TDRC"@, "TMOO"@, 1);
        lemma_ne_at("TDRC"@, "TPRO"@, 1);
        lemma_ne_at("TDRC"@, "TSST"@, 1);
        lemma_ne_at("TDRC"@, "TSOA"@, 1);
        lemma_ne_at("TDRC"@, "TSOP"@, 1);
        lemma_ne_at("TDRC"@, "TSOT"@, 1);
        lemma_ne_at("ASPI"@, "TDRC"@, 0);
        lemma_ne_at("TIPL"@, "TYER"@, 1);
        lemma_ne_at("IPLS"@, "TYER"@, 0);
        lemma_ne_at("TMCL"@, "TYER"@, 1);
        lemma_ne_at("TDOR"@, "TYER"@, 1);
        lemma_ne_at("TORY"@, "TYER"@, 1);
        lemma_ne_at("EQU2"@, "TYER"@, 0);
        lemma_ne_at("RVA2"@, "TYER"@, 0);
        lemma_ne_at("SEEK"@, "TYER"@, 0);
        lemma_ne_at("SIGN"@, "TYER"@, 0);
        lemma_ne_at("TDEN"@, "TYER"@, 1);
        lemma_ne_at("TDRL"@, "TYER"@, 1);
        lemma_ne_at("TDTG"@, "TYER"@, 1);
        lemma_ne_at("TMOO"@, "TYER"@, 1);
        lemma_ne_at("TPRO"@, "TYER"@, 1);
        lemma_ne_at("TSST"@, "TYER"@, 1);
        lemma_ne_at("TSOA"@, "TYER"@, 1);
        lemma_ne_at("TSOP"@, "TYER"@, 1);
        lemma_ne_at("TSOT"@, "TYER"@, 1);
        lemma_ne_at("ASPI"@, "TYER"@, 0);
        lemma_ne_at("TDRC"@, "TIME"@, 1);
        lemma_ne_at("TDAT"@, "TDRC"@, 2);
        lemma_ne_at("TDRC"@, "TYER"@, 1);
        lemma_ne_at("TIME"@, "TYER"@, 1);
        lemma_ne_at("TDAT"@, "TYER"@, 1);
        lemma_ne_at("TDAT"@, "TIME"@, 1);
        lemma_ne_at("TDAT"@, "TIPL"@, 1);
        lemma_ne_at("IPLS"@, "TDAT"@, 0);
        lemma_ne_at("TDAT"@, "TMCL"@, 1);
        lemma_ne_at("TDAT"@, "TDOR"@, 2);
        lemma_ne_at("TDAT"@, "TORY"@, 1);
        lemma_ne_at("EQU2"@, "TDAT"@, 0);
        lemma_ne_at("RVA2"@, "TDAT"@, 0);
        lemma_ne_at("SEEK"@, "TDAT"@, 0);
        lemma_ne_at("SIGN"@, "TDAT"@, 0);
        lemma_ne_at("TDAT"@, "TDEN"@, 2);
        lemma_ne_at("TDAT"@, "TDRL"@, 2);
        lemma_ne_at("TDAT"@, "TDTG"@, 2);
        lemma_ne_at("TDAT"@, "TMOO"@, 1);
        lemma_ne_at("TDAT"@, "TPRO"@, 1);
        lemma_ne_at("TDAT"@, "TSST"@, 1);
        lemma_ne_at("TDAT"@, "TSOA"@, 1);
        lemma_ne_at("TDAT"@, "TSOP"@, 1);
        lemma_ne_at("TDAT"@, "TSOT"@, 1);
        lemma_ne_at("ASPI"@, "TDAT"@, 0);
        lemma_ne_at("TIME"@, "TIPL"@, 2);
        lemma_ne_at("IPLS"@, "TIME"@, 0);
        lemma_ne_at("TIME"@, "TMCL"@, 1);
        lemma_ne_at("TDOR"@, "TIME"@, 1);
        lemma_ne_at("TIME"@, "TORY"@, 1);
        lemma_ne_at("EQU2"@, "TIME"@, 0);
        lemma_ne_at("RVA2"@, "TIME"@, 0);
        lemma_ne_at("SEEK"@, "TIME"@, 0);
        lemma_ne_at("SIGN"@, "TIME"@, 0);
        lemma_ne_at("TDEN"@, "TIME"@, 1);
        lemma_ne_at("TDRL"@, "TIME"@, 1);
        lemma_ne_at("TDTG"@, "TIME"@, 1);
        lemma_ne_at("TIME"@, "TMOO"@, 1);
        lemma_ne_at("TIME"@, "TPRO"@, 1);
        lemma_ne_at("TIME"@, "TSST"@, 1);
        lemma_ne_at("TIME"@, "TSOA"@, 1);
        lemma_ne_at("TIME"@, "TSOP"@, 1);
        lemma_ne_at("TIME"@, "TSOT"@, 1);
        lemma_ne_at("ASPI"@, "TIME"@, 0);
    }
    let ghost g0 = frames.entries@;
    let tdrc = take_id(frames, "TDRC");
    assert(spec_v3_passthrough(g0, frames.entries@));
    match tdrc {
        Some(Frame::Text(t)) => {
            let j = t.text.joined();
            let n = j.as_str().unicode_len();
            if n >= 16 {
                let mut hm = String::from_str(j.as_str().substring_char(11, 13));
                hm.append(j.as_str().substring_char(14, 16));
                add_text(frames, "TIME", t.encoding, hm);
                assert(spec_v3_passthrough(g0, frames.entries@));
            }
            if n >= 10 {
                let mut ddmm = String::from_str(j.as_str().substring_char(8, 10));
                ddmm.append(j.as_str().substring_char(5, 7));
                add_text(frames, "TDAT", t.encoding, ddmm);
                assert(spec_v3_passthrough(g0, frames.entries@));
            }
            if n >= 4 {
                let year = String::from_str(j.as_str().substring_char(0, 4));
                add_text(frames, "TYER", t.encoding, year);
                assert(spec_v3_passthrough(g0, frames.entries@));
            }
        },
        _ => {
        },
    }
    assert(spec_v3_passthrough(g0, frames.entries@));
    let tipl = take_id(frames, "TIPL");
    assert(spec_v3_passthrough(g0, frames.entries@));
    match tipl {
        Some(Frame::Credits(c)) => {
            let mut c2 = c;
            c2.header.id = String::from_str("IPLS");
            let ghost fr = Frame::Credits(c2);
            let ghost before = frames.entries@;
            frames.add(Frame::Credits(c2));
            proof {
                assert forall|k: Seq<char>|
                    #![trigger spec_frame_at(frames.entries@, k)]
                    #![trigger spec_has_key(frames.entries@, k)]
                    k != fr.spec_key() implies spec_frame_at(frames.entries@, k) == spec_frame_at(
                    before,
                    k,
                ) && spec_has_key(frames.entries@, k) == spec_has_key(before, k) by {
                    lemma_add_other_key(before, fr, k);
                }
                if (forall|i: int| 0 <= i < before.len() ==> (#[trigger] before[i]).wf()) {
                    assert(fr.wf());
                    crate::collections::lemma_add_frame_wf(before, fr);
                }
            }
            assert(spec_v3_passthrough(g0, frames.entries@));
        },
        _ => {
        },
    }
    assert(spec_v3_passthrough(g0, frames.entries@));
    let tmcl = take_id(frames, "TMCL");
    assert(spec_v3_passthrough(g0, frames.entries@));
    match tmcl {
        Some(Frame::Credits(c)) => {
            let mut c2 = c;
            c2.header.id = String::from_str("IPLS");
            let ghost fr = Frame::Credits(c2);
            let ghost before = frames.entries@;
            frames.add(Frame::Credits(c2));
            proof {
                assert forall|k: Seq<char>|
                    #![trigger spec_frame_at(frames.entries@, k)]
                    #![trigger spec_has_key(frames.entries@, k)]
                    k != fr.spec_key() implies spec_frame_at(frames.entries@, k) == spec_frame_at(
                    before,
                    k,
                ) && spec_has_key(frames.entries@, k) == spec_has_key(before, k) by {
                    lemma_add_other_key(before, fr, k);
                }
                if (forall|i: int| 0 <= i < before.len() ==> (#[trigger] before[i]).wf()) {
                    assert(fr.wf());
                    crate::collections::lemma_add_frame_wf(before, fr);
                }
            }
            assert(spec_v3_passthrough(g0, frames.entries@));
        },
        _ => {
        },
    }
    assert(spec_v3_passthrough(g0, frames.entries@));
    let tdor = take_id(frames, "TDOR");
    assert(spec_v3_passthrough(g0, frames.entries@));
    match tdor {
        Some(Frame::Text(t)) => {
            let j = t.text.joined();
            if j.as_str().unicode_len() >= 4 {
                let year = String::from_str(j.as_str().substring_char(0, 4));
                add_text(frames, "TORY", t.encoding, year);
                assert(spec_v3_passthrough(g0, frames.entries@));
            }
        },
        _ => {
        },
    }
    assert(spec_v3_passthrough(g0, frames.entries@));
    let _ = take_id(frames, "EQU2");
    assert(spec_v3_passthrough(g0, frames.entries@));
    let _ = take_id(frames, "RVA2");
    assert(spec_v3_passthrough(g0, frames.entries@));
    let _ = take_id(frames, "SEEK");
    assert(spec_v3_passthrough(g0, frames.entries@));
    let _ = take_id(frames, "SIGN");
    assert(spec_v3_passthrough(g0, frames.entries@));
    let _ = take_id(frames, "TDEN");
    assert(spec_v3_passthrough(g0, frames.entries@));
    let _ = take_id(frames, "TDRL");
    assert(spec_v3_passthrough(g0, frames.entries@));
    let _ = take_id(frames, "TDTG");
    assert(spec_v3_passthrough(g0, frames.entries@));
    let _ = take_id(frames, "TMOO");
    assert(spec_v3_passthrough(g0, frames.entries@));
    let _ = take_id(frames, "TPRO");
    assert(spec_v3_passthrough(g0, frames.entries@));
    let _ = take_id(frames, "TSST");
    assert(spec_v3_passthrough(g0, frames.entries@));
    let _ = take_id(frames, "TSOA");
    assert(spec_v3_passthrough(g0, frames.entries@));
    let _ = take_id(frames, "TSOP");
    assert(spec_v3_passthrough(g0, frames.entries@));
    let _ = take_id(frames, "TSOT");
    assert(spec_v3_passthrough(g0, frames.entries@));
    let _ = take_id(frames, "ASPI");
    assert(spec_v3_passthrough(g0, frames.entries@));
}

} // verus!
