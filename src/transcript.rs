//! The Fiat-Shamir transcript hasher: an ordered list of points to a challenge scalar.

use crate::point::Point;
use crate::scalar::{be_value, group_order, Scalar};
use sha3::digest::{ExtendableOutput, Update, XofReader};
use sha3::Shake128;
use vstd::prelude::*;

verus! {

/// The first 32 bytes that SHAKE128 squeezes after absorbing `data`.
pub uninterp spec fn shake128_32(data: Seq<u8>) -> Seq<u8>;

/// The compressed encodings of the points, concatenated in order with no separator.
pub open spec fn transcript_bytes(points: Seq<Point>) -> Seq<u8>
    decreases points.len(),
{
    if points.len() == 0 {
        Seq::empty()
    } else {
        transcript_bytes(points.drop_last()) + points.last().encoding()
    }
}

/// The challenge of a transcript: the SHAKE128 output read as a big-endian integer and
/// reduced modulo the group order.
pub open spec fn challenge_value(points: Seq<Point>) -> int {
    be_value(shake128_32(transcript_bytes(points))) % group_order()
}

/// Relies on `Shake128` of sha3: absorbs `data` and reads 32 bytes of its output.
#[verifier::external_body]
fn shake128_first_32(data: &Vec<u8>) -> (r: [u8; 32])
    ensures
        r@ == shake128_32(data@),
{
    let mut h = Shake128::default();
    h.update(data.as_slice());
    let mut o = [0u8; 32];
    h.finalize_xof().read(&mut o);
    o
}

/// Derives the challenge scalar of an ordered list of points.
pub fn challenge(points: &Vec<Point>) -> (c: Scalar)
    ensures
        c.value() == challenge_value(points@),
{
    let mut data: Vec<u8> = Vec::new();
    let mut i: usize = 0;
    while i < points.len()
        invariant
            i <= points@.len(),
            data@ == transcript_bytes(points@.subrange(0, i as int)),
        decreases points@.len() - i,
    {
        let mut e = points[i].to_compressed();
        data.append(&mut e);
        proof {
            assert(points@.subrange(0, i + 1).drop_last() =~= points@.subrange(0, i as int));
        }
        i = i + 1;
    }
    assert(points@.subrange(0, points@.len() as int) =~= points@);
    let digest = shake128_first_32(&data);
    Scalar::from_be_bytes_mod_order(&digest)
}

/// Challenge derivation is deterministic: two lists of points with the same encodings,
/// in the same order, give the same challenge.
pub proof fn lemma_challenge_deterministic(a: Seq<Point>, b: Seq<Point>)
    requires
        a.len() == b.len(),
        forall|i: int| 0 <= i < a.len() ==> #[trigger] a[i].encoding() == b[i].encoding(),
    ensures
        challenge_value(a) == challenge_value(b),
{
    lemma_transcript_bytes_eq(a, b);
}

proof fn lemma_transcript_bytes_eq(a: Seq<Point>, b: Seq<Point>)
    requires
        a.len() == b.len(),
        forall|i: int| 0 <= i < a.len() ==> #[trigger] a[i].encoding() == b[i].encoding(),
    ensures
        transcript_bytes(a) == transcript_bytes(b),
    decreases a.len(),
{
    if a.len() > 0 {
        assert(a.last().encoding() == b[b.len() - 1].encoding());
        lemma_transcript_bytes_eq(a.drop_last(), b.drop_last());
    }
}

/// Two different group elements give different hash inputs: a one-point transcript is
/// the point's encoding, and the encoding fixes the element.
pub proof fn lemma_transcript_sensitive(a: Point, b: Point)
    requires
        a.dlog() != b.dlog(),
    ensures
        transcript_bytes(seq![a]) != transcript_bytes(seq![b]),
{
    a.lemma_dlog(&b);
    assert(seq![a].drop_last() =~= Seq::<Point>::empty());
    assert(seq![b].drop_last() =~= Seq::<Point>::empty());
    assert(transcript_bytes(Seq::<Point>::empty()) == Seq::<u8>::empty());
    assert(transcript_bytes(seq![a]) == Seq::<u8>::empty() + a.encoding());
    assert(transcript_bytes(seq![b]) == Seq::<u8>::empty() + b.encoding());
    assert(Seq::<u8>::empty() + a.encoding() =~= a.encoding());
    assert(Seq::<u8>::empty() + b.encoding() =~= b.encoding());
}

} // verus!
