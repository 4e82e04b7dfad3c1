//! Elements of the BLS12-381 scalar field, held as canonical 64-bit limbs.

use ark_bls12_381::Fr;
use ark_ff::{BigInteger256, PrimeField};
use ark_std::rand::SeedableRng;
use ark_std::UniformRand;
use rand_chacha::ChaCha20Rng;
use vstd::arithmetic::div_mod::lemma_small_mod;
use vstd::prelude::*;

verus! {

/// `2^64`, the radix of a limb.
pub open spec fn limb_radix() -> int {
    0x1_0000_0000_0000_0000
}

/// The integer that four little-endian 64-bit limbs stand for.
pub open spec fn limbs_value(l: Seq<u64>) -> int {
    l[0] as int + limb_radix() * (l[1] as int + limb_radix() * (l[2] as int + limb_radix()
        * l[3] as int))
}

/// The prime order `r` of the G1 group, which is also the modulus of the scalar field.
pub open spec fn group_order() -> int {
    limbs_value(seq![0xffffffff00000001u64, 0x53bda402fffe5bfeu64, 0x3339d80809a1d805u64, 0x73eda753299d7d48u64])
}

/// A scalar: an integer in `[0, r)`, stored as its little-endian limbs.
pub struct Scalar {
    limbs: [u64; 4],
}

impl Scalar {
    #[verifier::type_invariant]
    spec fn canonical(&self) -> bool {
        limbs_value(self.limbs@) < group_order()
    }

    /// The integer in `[0, r)` that this scalar is.
    pub closed spec fn value(&self) -> int {
        limbs_value(self.limbs@) % group_order()
    }

    /// Every scalar lies in `[0, r)`.
    pub proof fn lemma_value_range(&self)
        ensures
            0 <= self.value() < group_order(),
    {
    }

    /// Builds a scalar from limbs already known to be canonical.
    fn from_canonical(l: [u64; 4]) -> (r: Scalar)
        requires
            limbs_value(l@) < group_order(),
        ensures
            r.value() == limbs_value(l@),
    {
        proof {
            lemma_limbs_value_nonneg(l@);
            lemma_small_mod(limbs_value(l@) as nat, group_order() as nat);
        }
        Scalar { limbs: l }
    }

    /// The scalar `v`.
    pub fn from_u64(v: u64) -> (r: Scalar)
        ensures
            r.value() == v,
    {
        Scalar::from_canonical([v, 0, 0, 0])
    }

    /// The scalar with the given little-endian limbs, or `None` where they stand for an
    /// integer of `r` or more.
    pub fn from_limbs(l: [u64; 4]) -> (r: Option<Scalar>)
        ensures
            r.is_some() <==> limbs_value(l@) < group_order(),
            r.is_some() ==> r.unwrap().value() == limbs_value(l@),
    {
        match fr_from_bigint(l) {
            Some(m) => Some(Scalar::from_canonical(m)),
            None => None,
        }
    }

    /// The canonical little-endian limbs of this scalar.
    pub fn limbs(&self) -> (r: [u64; 4])
        ensures
            limbs_value(r@) == self.value(),
            limbs_value(r@) < group_order(),
    {
        proof {
            use_type_invariant(self);
            lemma_limbs_value_nonneg(self.limbs@);
            lemma_small_mod(limbs_value(self.limbs@) as nat, group_order() as nat);
        }
        self.limbs
    }

    /// The field sum `self + o`.
    pub fn add(&self, o: &Scalar) -> (r: Scalar)
        ensures
            r.value() == (self.value() + o.value()) % group_order(),
    {
        Scalar::from_canonical(fr_add(self.limbs(), o.limbs()))
    }

    /// The field product `self * o`.
    pub fn mul(&self, o: &Scalar) -> (r: Scalar)
        ensures
            r.value() == (self.value() * o.value()) % group_order(),
    {
        Scalar::from_canonical(fr_mul(self.limbs(), o.limbs()))
    }

    /// The integer that `b` holds in big-endian order, reduced modulo `r`.
    pub fn from_be_bytes_mod_order(b: &[u8; 32]) -> (r: Scalar)
        ensures
            r.value() == be_value(b@) % group_order(),
    {
        Scalar::from_canonical(fr_from_be_bytes_mod_order(b))
    }

    /// A scalar drawn uniformly by a ChaCha20 generator seeded with `seed`.
    pub fn from_seed(seed: [u8; 32]) -> (r: Scalar)
        ensures
            r.value() == chacha20_field_sample(seed@),
    {
        Scalar::from_canonical(fr_rand_from_seed(seed))
    }
}

/// The integer that a byte string holds in big-endian order.
pub open spec fn be_value(b: Seq<u8>) -> int
    decreases b.len(),
{
    if b.len() == 0 {
        0
    } else {
        be_value(b.drop_last()) * 256 + b.last() as int
    }
}

/// The field element that `Fr::rand` draws from a ChaCha20 generator seeded with the
/// given 32 bytes, as an integer in `[0, r)`.
pub uninterp spec fn chacha20_field_sample(seed: Seq<u8>) -> int;

/// Relies on `PrimeField::from_bigint` of `Fr`: it accepts exactly the integers below the
/// modulus, and `into_bigint` gives the same limbs back.
#[verifier::external_body]
fn fr_from_bigint(l: [u64; 4]) -> (r: Option<[u64; 4]>)
    ensures
        r.is_some() <==> limbs_value(l@) < group_order(),
        r.is_some() ==> r.unwrap() == l,
{
    Fr::from_bigint(BigInteger256::new(l)).map(|f| f.into_bigint().0)
}

/// Relies on `Add` of `Fr`: addition modulo `r`.
#[verifier::external_body]
fn fr_add(a: [u64; 4], b: [u64; 4]) -> (r: [u64; 4])
    requires
        limbs_value(a@) < group_order(),
        limbs_value(b@) < group_order(),
    ensures
        limbs_value(r@) == (limbs_value(a@) + limbs_value(b@)) % group_order(),
{
    let x = Fr::from_bigint(BigInteger256::new(a)).unwrap();
    let y = Fr::from_bigint(BigInteger256::new(b)).unwrap();
    (x + y).into_bigint().0
}

/// Relies on `Mul` of `Fr`: multiplication modulo `r`.
#[verifier::external_body]
fn fr_mul(a: [u64; 4], b: [u64; 4]) -> (r: [u64; 4])
    requires
        limbs_value(a@) < group_order(),
        limbs_value(b@) < group_order(),
    ensures
        limbs_value(r@) == (limbs_value(a@) * limbs_value(b@)) % group_order(),
{
    let x = Fr::from_bigint(BigInteger256::new(a)).unwrap();
    let y = Fr::from_bigint(BigInteger256::new(b)).unwrap();
    (x * y).into_bigint().0
}

/// Relies on `PrimeField::from_be_bytes_mod_order` of `Fr`: the big-endian integer
/// reduced modulo `r`.
#[verifier::external_body]
fn fr_from_be_bytes_mod_order(b: &[u8; 32]) -> (r: [u64; 4])
    ensures
        limbs_value(r@) == be_value(b@) % group_order(),
{
    Fr::from_be_bytes_mod_order(b).into_bigint().0
}

/// Relies on `ChaCha20Rng::from_seed` and `UniformRand::rand` of `Fr`: a field element,
/// fixed by the seed, whose canonical limbs lie below `r`.
#[verifier::external_body]
fn fr_rand_from_seed(seed: [u8; 32]) -> (r: [u64; 4])
    ensures
        limbs_value(r@) == chacha20_field_sample(seed@),
        limbs_value(r@) < group_order(),
{
    let mut rng = ChaCha20Rng::from_seed(seed);
    Fr::rand(&mut rng).into_bigint().0
}

proof fn lemma_limbs_value_nonneg(l: Seq<u64>)
    requires
        l.len() == 4,
    ensures
        0 <= limbs_value(l),
{
    let b = limb_radix();
    let t2 = l[2] as int + b * l[3] as int;
    let t1 = l[1] as int + b * t2;
    assert(0 <= t2) by (nonlinear_arith)
        requires t2 == l[2] as int + b * l[3] as int, b > 0, l[2] >= 0, l[3] >= 0;
    assert(0 <= t1) by (nonlinear_arith)
        requires t1 == l[1] as int + b * t2, b > 0, l[1] >= 0, t2 >= 0;
    assert(0 <= limbs_value(l)) by (nonlinear_arith)
        requires limbs_value(l) == l[0] as int + b * t1, b > 0, l[0] >= 0, t1 >= 0;
}

} // verus!
