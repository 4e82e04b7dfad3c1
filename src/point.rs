//! Elements of the BLS12-381 G1 group, held as their canonical compressed encoding.

use crate::scalar::{group_order, limbs_value, Scalar};
use ark_bls12_381::{Fr, G1Affine};
use ark_ec::{AffineRepr, CurveGroup};
use ark_ff::{BigInteger256, PrimeField};
use ark_serialize::{CanonicalDeserialize, CanonicalSerialize};
use ark_std::ops::Mul;
use vstd::prelude::*;

verus! {

/// Whether `G1Affine::deserialize_compressed` accepts the bytes: they encode a point of
/// the curve that lies in the prime-order subgroup.
pub uninterp spec fn is_g1_encoding(b: Seq<u8>) -> bool;

/// For bytes that encode a point `P` of the subgroup, the `k` in `[0, r)` such that
/// `P` is the generator `G` multiplied by `k`. The subgroup is cyclic of prime order `r`
/// and `G` generates it, so `k` exists and is unique.
pub uninterp spec fn g1_discrete_log(b: Seq<u8>) -> int;

/// The length of a compressed G1 encoding.
pub const COMPRESSED_SIZE: usize = 48;

/// A point of the prime-order subgroup of G1.
pub struct Point {
    enc: Vec<u8>,
}

impl Point {
    #[verifier::type_invariant]
    spec fn valid(&self) -> bool {
        &&& is_g1_encoding(self.enc@)
        &&& self.enc@.len() == COMPRESSED_SIZE
        &&& 0 <= g1_discrete_log(self.enc@) < group_order()
    }

    /// The discrete logarithm of this point to the base of the generator.
    pub closed spec fn dlog(&self) -> int {
        g1_discrete_log(self.enc@) % group_order()
    }

    /// The canonical compressed encoding of this point.
    pub closed spec fn encoding(&self) -> Seq<u8> {
        self.enc@
    }

    /// The discrete logarithm lies in `[0, r)`, and it is fixed by the encoding.
    pub proof fn lemma_dlog(&self, o: &Point)
        ensures
            0 <= self.dlog() < group_order(),
            self.encoding() == o.encoding() ==> self.dlog() == o.dlog(),
    {
    }

    fn from_valid(b: Vec<u8>) -> (r: Point)
        requires
            is_g1_encoding(b@),
            b@.len() == COMPRESSED_SIZE,
            0 <= g1_discrete_log(b@) < group_order(),
        ensures
            r.dlog() == g1_discrete_log(b@),
            r.encoding() == b@,
    {
        proof {
            vstd::arithmetic::div_mod::lemma_small_mod(
                g1_discrete_log(b@) as nat,
                group_order() as nat,
            );
        }
        Point { enc: b }
    }

    fn bytes(&self) -> (r: &Vec<u8>)
        ensures
            r@ == self.encoding(),
            is_g1_encoding(r@),
            g1_discrete_log(r@) == self.dlog(),
    {
        proof {
            use_type_invariant(self);
            vstd::arithmetic::div_mod::lemma_small_mod(
                g1_discrete_log(self.enc@) as nat,
                group_order() as nat,
            );
        }
        &self.enc
    }

    /// Another point with the same encoding.
    pub fn duplicate(&self) -> (r: Point)
        ensures
            r.encoding() == self.encoding(),
            r.dlog() == self.dlog(),
    {
        proof {
            use_type_invariant(self);
        }
        Point { enc: self.enc.clone() }
    }

    /// The fixed generator `G` of the group.
    pub fn generator() -> (r: Point)
        ensures
            r.dlog() == 1,
    {
        Point::from_valid(g1_generator())
    }

    /// The point that `b` encodes, or `None` where `b` is no compressed encoding of a
    /// point of the subgroup.
    pub fn from_compressed(b: &Vec<u8>) -> (r: Option<Point>)
        ensures
            r.is_some() <==> is_g1_encoding(b@),
            r.is_some() ==> r.unwrap().dlog() == g1_discrete_log(b@),
    {
        match g1_decode(b) {
            Some(c) => Some(Point::from_valid(c)),
            None => None,
        }
    }

    /// The canonical compressed encoding of this point.
    pub fn to_compressed(&self) -> (r: Vec<u8>)
        ensures
            r@ == self.encoding(),
    {
        self.bytes().clone()
    }

    /// The point `self * k`.
    pub fn mul(&self, k: &Scalar) -> (r: Point)
        ensures
            r.dlog() == (self.dlog() * k.value()) % group_order(),
    {
        Point::from_valid(g1_mul(self.bytes(), k.limbs()))
    }

    /// The point `self - o`.
    pub fn sub(&self, o: &Point) -> (r: Point)
        ensures
            r.dlog() == (self.dlog() - o.dlog()) % group_order(),
    {
        Point::from_valid(g1_sub(self.bytes(), o.bytes()))
    }

    /// Whether the two points are the same element of the group.
    pub fn equals(&self, o: &Point) -> (r: bool)
        ensures
            r == (self.dlog() == o.dlog()),
    {
        g1_eq(self.bytes(), o.bytes())
    }
}

/// Relies on `AffineRepr::generator` of `G1Affine` and `serialize_compressed`: the
/// generator, whose discrete logarithm is 1, as a 48-byte encoding.
#[verifier::external_body]
fn g1_generator() -> (r: Vec<u8>)
    ensures
        is_g1_encoding(r@),
        r@.len() == COMPRESSED_SIZE,
        g1_discrete_log(r@) == 1,
{
    let mut out = Vec::new();
    G1Affine::generator().serialize_compressed(&mut out).unwrap();
    out
}

/// Relies on `CanonicalDeserialize::deserialize_compressed` of `G1Affine`, which checks
/// that the point is on the curve and in the subgroup, and on `serialize_compressed`,
/// which writes the same point back in its 48-byte canonical form.
#[verifier::external_body]
fn g1_decode(b: &Vec<u8>) -> (r: Option<Vec<u8>>)
    ensures
        r.is_some() <==> is_g1_encoding(b@),
        r.is_some() ==> is_g1_encoding(r.unwrap()@),
        r.is_some() ==> r.unwrap()@.len() == COMPRESSED_SIZE,
        r.is_some() ==> g1_discrete_log(r.unwrap()@) == g1_discrete_log(b@),
        r.is_some() ==> 0 <= g1_discrete_log(r.unwrap()@) < group_order(),
{
    let p = G1Affine::deserialize_compressed(&b[..]).ok()?;
    let mut out = Vec::new();
    p.serialize_compressed(&mut out).unwrap();
    Some(out)
}

/// Relies on `Mul<Fr>` of `G1Affine`: scalar multiplication, which multiplies the
/// discrete logarithm by the scalar modulo `r`.
#[verifier::external_body]
fn g1_mul(p: &Vec<u8>, k: [u64; 4]) -> (r: Vec<u8>)
    requires
        is_g1_encoding(p@),
        limbs_value(k@) < group_order(),
    ensures
        is_g1_encoding(r@),
        r@.len() == COMPRESSED_SIZE,
        g1_discrete_log(r@) == (g1_discrete_log(p@) * limbs_value(k@)) % group_order(),
{
    let a = G1Affine::deserialize_compressed(&p[..]).unwrap();
    let s = Fr::from_bigint(BigInteger256::new(k)).unwrap();
    let c: G1Affine = a.mul(s).into_affine();
    let mut out = Vec::new();
    c.serialize_compressed(&mut out).unwrap();
    out
}

/// Relies on `Sub` of `G1Affine`: the group difference, whose discrete logarithm is
/// the difference of the two modulo `r`.
#[verifier::external_body]
fn g1_sub(a: &Vec<u8>, b: &Vec<u8>) -> (r: Vec<u8>)
    requires
        is_g1_encoding(a@),
        is_g1_encoding(b@),
    ensures
        is_g1_encoding(r@),
        r@.len() == COMPRESSED_SIZE,
        g1_discrete_log(r@) == (g1_discrete_log(a@) - g1_discrete_log(b@)) % group_order(),
{
    let x = G1Affine::deserialize_compressed(&a[..]).unwrap();
    let y = G1Affine::deserialize_compressed(&b[..]).unwrap();
    let c: G1Affine = (x - y).into_affine();
    let mut out = Vec::new();
    c.serialize_compressed(&mut out).unwrap();
    out
}

/// Relies on `PartialEq` of `G1Affine`: two subgroup points are equal exactly when they
/// are the same group element.
#[verifier::external_body]
fn g1_eq(a: &Vec<u8>, b: &Vec<u8>) -> (r: bool)
    requires
        is_g1_encoding(a@),
        is_g1_encoding(b@),
    ensures
        r == (g1_discrete_log(a@) == g1_discrete_log(b@)),
{
    let x = G1Affine::deserialize_compressed(&a[..]).unwrap();
    let y = G1Affine::deserialize_compressed(&b[..]).unwrap();
    x == y
}

} // verus!
