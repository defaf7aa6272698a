//! The unsynchronization byte-stuffing transform.
//!
//! Encoding inserts a `0x00` after every `0xFF` byte so that no false MPEG
//! synchronization marker appears in the tag body; decoding collapses every
//! `0xFF 0x00` pair back to `0xFF`. This is a transport encoding: decoding
//! inverts encoding, but arbitrary input is not guaranteed to round-trip
//! the other way.

use vstd::prelude::*;

verus! {

/// The decoded form of `b`: every `0xFF 0x00` pair collapsed to `0xFF`.
pub open spec fn spec_sync_decode(b: Seq<u8>) -> Seq<u8>
    decreases b.len(),
{
    if b.len() == 0 {
        Seq::empty()
    } else if b.len() >= 2 && b[0] == 0xFF && b[1] == 0x00 {
        seq![0xFFu8] + spec_sync_decode(b.skip(2))
    } else {
        seq![b[0]] + spec_sync_decode(b.skip(1))
    }
}

/// The encoded form of `b`: a `0x00` inserted after every `0xFF` byte.
pub open spec fn spec_sync_encode(b: Seq<u8>) -> Seq<u8>
    decreases b.len(),
{
    if b.len() == 0 {
        Seq::empty()
    } else if b[0] == 0xFF {
        seq![0xFFu8, 0x00u8] + spec_sync_encode(b.skip(1))
    } else {
        seq![b[0]] + spec_sync_encode(b.skip(1))
    }
}

/// Removes the unsynchronization stuffing from `data`.
pub fn decode(data: &[u8]) -> (r: Vec<u8>)
    ensures
        r@ == spec_sync_decode(data@),
{
    let mut out: Vec<u8> = Vec::new();
    let mut pos: usize = 0;
    assert(data@.skip(0) =~= data@);
    assert(out@ + spec_sync_decode(data@) =~= spec_sync_decode(data@));
    while pos < data.len()
        invariant
            pos <= data@.len(),
            spec_sync_decode(data@) == out@ + spec_sync_decode(data@.skip(pos as int)),
        decreases data@.len() - pos,
    {
        let b = data[pos];
        let ghost rest = data@.skip(pos as int);
        assert(rest[0] == data@[pos as int]);
        if b == 0xFF && pos + 1 < data.len() && data[pos + 1] == 0x00 {
            assert(rest[1] == data@[pos as int + 1]);
            out.push(0xFF);
            pos = pos + 2;
            assert(rest.skip(2) =~= data@.skip(pos as int));
            assert(out@ + spec_sync_decode(data@.skip(pos as int)) =~= (out@.drop_last()) + (
            seq![0xFFu8] + spec_sync_decode(rest.skip(2))));
        } else {
            assert(!(rest.len() >= 2 && rest[0] == 0xFF && rest[1] == 0x00));
            out.push(b);
            pos = pos + 1;
            assert(rest.skip(1) =~= data@.skip(pos as int));
            assert(out@ + spec_sync_decode(data@.skip(pos as int)) =~= (out@.drop_last()) + (
            seq![b] + spec_sync_decode(rest.skip(1))));
        }
    }
    assert(data@.skip(pos as int) =~= Seq::<u8>::empty());
    assert(out@ =~= out@ + spec_sync_decode(data@.skip(pos as int)));
    out
}

/// Applies the unsynchronization stuffing to `data`.
pub fn encode(data: &[u8]) -> (r: Vec<u8>)
    ensures
        r@ == spec_sync_encode(data@),
{
    let mut out: Vec<u8> = Vec::new();
    let mut pos: usize = 0;
    assert(data@.skip(0) =~= data@);
    assert(out@ + spec_sync_encode(data@) =~= spec_sync_encode(data@));
    while pos < data.len()
        invariant
            pos <= data@.len(),
            spec_sync_encode(data@) == out@ + spec_sync_encode(data@.skip(pos as int)),
        decreases data@.len() - pos,
    {
        let b = data[pos];
        let ghost rest = data@.skip(pos as int);
        assert(rest[0] == data@[pos as int]);
        if b == 0xFF {
            out.push(0xFF);
            out.push(0x00);
            pos = pos + 1;
            assert(rest.skip(1) =~= data@.skip(pos as int));
            assert(out@ + spec_sync_encode(data@.skip(pos as int)) =~= (out@.drop_last().drop_last())
                + (seq![0xFFu8, 0x00u8] + spec_sync_encode(rest.skip(1))));
        } else {
            out.push(b);
            pos = pos + 1;
            assert(rest.skip(1) =~= data@.skip(pos as int));
            assert(out@ + spec_sync_encode(data@.skip(pos as int)) =~= (out@.drop_last()) + (
            seq![b] + spec_sync_encode(rest.skip(1))));
        }
    }
    assert(data@.skip(pos as int) =~= Seq::<u8>::empty());
    assert(out@ =~= out@ + spec_sync_encode(data@.skip(pos as int)));
    out
}

/// Law: decoding inverts encoding. For every byte sequence `b`,
/// `spec_sync_decode(spec_sync_encode(b)) == b`.
pub proof fn lemma_sync_round_trip(b: Seq<u8>)
    ensures
        spec_sync_decode(spec_sync_encode(b)) == b,
    decreases b.len(),
{
    if b.len() == 0 {
        assert(spec_sync_decode(spec_sync_encode(b)) =~= b);
    } else if b[0] == 0xFF {
        let e = spec_sync_encode(b.skip(1));
        let w = seq![0xFFu8, 0x00u8] + e;
        assert(spec_sync_encode(b) == w);
        assert(w.len() >= 2 && w[0] == 0xFF && w[1] == 0x00);
        assert(w.skip(2) =~= e);
        lemma_sync_round_trip(b.skip(1));
        assert(spec_sync_decode(w) == seq![0xFFu8] + b.skip(1));
        assert(seq![0xFFu8] + b.skip(1) =~= b);
    } else {
        let e = spec_sync_encode(b.skip(1));
        let w = seq![b[0]] + e;
        assert(spec_sync_encode(b) == w);
        assert(w[0] != 0xFF);
        assert(!(w.len() >= 2 && w[0] == 0xFF && w[1] == 0x00));
        assert(w.skip(1) =~= e);
        lemma_sync_round_trip(b.skip(1));
        assert(spec_sync_decode(w) == seq![b[0]] + b.skip(1));
        assert(seq![b[0]] + b.skip(1) =~= b);
    }
}

} // verus!
