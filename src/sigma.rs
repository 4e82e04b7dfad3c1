//! Fiat-Shamir discrete-log proofs: the single-generator proof of knowledge and the
//! two-generator (Chaum-Pedersen) proof of discrete-log equality.

use crate::point::Point;
use crate::scalar::{chacha20_field_sample, group_order, Scalar};
use crate::transcript::{challenge, challenge_value, lemma_challenge_deterministic};
use vstd::arithmetic::div_mod::{
    lemma_fundamental_div_mod, lemma_mod_multiples_vanish, lemma_mul_mod_noop_left,
    lemma_mod_twice, lemma_mul_mod_noop_right, lemma_small_mod, lemma_sub_mod_noop,
};
use vstd::prelude::*;

verus! {

/// A single-generator proof `(R, s)` with `R = G*r` and `s = r + x*c`.
pub struct SingleProof {
    pub commitment: Point,
    pub witness: Scalar,
}

/// A two-generator proof `(R1, R2, s, X)` with `R1 = G*r`, `R2 = Q*r`, `X = G*x` and
/// `s = r + x*c`.
pub struct Proof {
    pub commitment_1: Point,
    pub commitment_2: Point,
    pub witness: Scalar,
    pub out: Point,
}

/// The challenge of a single-generator proof: the hash of its commitment.
pub open spec fn single_challenge(commitment: Point) -> int {
    challenge_value(seq![commitment])
}

/// `p` is the single-generator proof for the secret `x` under the blinding `r`.
pub open spec fn is_single_proof(p: SingleProof, x: int, r: int) -> bool {
    &&& p.commitment.dlog() == r
    &&& p.witness.value() == (r + x * single_challenge(p.commitment)) % group_order()
}

/// The single-generator verification equation `G*s - (G*x)*c == R`, over discrete
/// logarithms.
pub open spec fn single_accepts(x: int, p: SingleProof) -> bool {
    (p.witness.value() - x * single_challenge(p.commitment)) % group_order()
        == p.commitment.dlog()
}

/// The challenge of a two-generator proof: the hash of `R1`, `R2`, `X` and `d`, in
/// that order.
pub open spec fn pair_challenge(p: Proof, d: Point) -> int {
    challenge_value(seq![p.commitment_1, p.commitment_2, p.out, d])
}

/// `p` is the two-generator proof for the secret `x` on the bases `G` and `q`, with the
/// auxiliary value `d`, under the blinding `r`.
pub open spec fn is_pair_proof(p: Proof, x: int, r: int, q: Point, d: Point) -> bool {
    &&& p.commitment_1.dlog() == r
    &&& p.commitment_2.dlog() == (q.dlog() * r) % group_order()
    &&& p.out.dlog() == x
    &&& p.witness.value() == (r + x * pair_challenge(p, d)) % group_order()
}

/// The two verification equations `G*s - X*c == R1` and `q*s - d*c == R2`, over
/// discrete logarithms.
pub open spec fn pair_accepts(q: Point, d: Point, p: Proof) -> bool {
    let c = pair_challenge(p, d);
    &&& (p.witness.value() - p.out.dlog() * c) % group_order() == p.commitment_1.dlog()
    &&& (q.dlog() * p.witness.value() - d.dlog() * c) % group_order()
        == p.commitment_2.dlog()
}

/// Proves knowledge of `x` with the blinding scalar `r`, which must be fresh for each
/// proof.
pub fn prove_single(x: &Scalar, r: &Scalar) -> (p: SingleProof)
    ensures
        is_single_proof(p, x.value(), r.value()),
{
    let g = Point::generator();
    let commitment = g.mul(r);
    let transcript = vec![commitment.duplicate()];
    let c = challenge(&transcript);
    let witness = r.add(&x.mul(&c));
    proof {
        r.lemma_value_range();
        lemma_small_mod(r.value() as nat, group_order() as nat);
        lemma_challenge_deterministic(transcript@, seq![commitment]);
        lemma_add_mod_right(r.value(), x.value() * c.value(), group_order());
    }
    SingleProof { commitment, witness }
}

/// Checks a single-generator proof against the secret `x`.
pub fn verify_single(x: &Scalar, p: &SingleProof) -> (r: bool)
    ensures
        r == single_accepts(x.value(), *p),
{
    let g = Point::generator();
    let y = g.mul(x);
    let transcript = vec![p.commitment.duplicate()];
    let c = challenge(&transcript);
    let check = g.mul(&p.witness).sub(&y.mul(&c));
    proof {
        x.lemma_value_range();
        p.witness.lemma_value_range();
        lemma_small_mod(x.value() as nat, group_order() as nat);
        lemma_small_mod(p.witness.value() as nat, group_order() as nat);
        lemma_challenge_deterministic(transcript@, seq![p.commitment]);
        lemma_mod_twice(x.value() * c.value(), group_order());
        lemma_sub_congruent(
            p.witness.value(),
            p.witness.value(),
            (x.value() * c.value()) % group_order(),
            x.value() * c.value(),
            group_order(),
        );
    }
    check.equals(&p.commitment)
}

/// Proves, with the blinding scalar `r`, that the same secret `x` gives the group's
/// element `X = G*x` and the auxiliary value `d = q*x` on the second base `q`.
pub fn prove_pair(x: &Scalar, d: &Point, q: &Point, r: &Scalar) -> (p: Proof)
    ensures
        is_pair_proof(p, x.value(), r.value(), *q, *d),
{
    let g = Point::generator();
    let commitment_1 = g.mul(r);
    let commitment_2 = q.mul(r);
    let out = g.mul(x);
    let transcript = vec![
        commitment_1.duplicate(),
        commitment_2.duplicate(),
        out.duplicate(),
        d.duplicate(),
    ];
    let c = challenge(&transcript);
    let witness = r.add(&x.mul(&c));
    proof {
        r.lemma_value_range();
        x.lemma_value_range();
        lemma_small_mod(r.value() as nat, group_order() as nat);
        lemma_small_mod(x.value() as nat, group_order() as nat);
        let expected = seq![commitment_1, commitment_2, out, *d];
        assert(transcript@[0].encoding() == expected[0].encoding());
        assert(transcript@[1].encoding() == expected[1].encoding());
        assert(transcript@[2].encoding() == expected[2].encoding());
        assert(transcript@[3].encoding() == expected[3].encoding());
        lemma_challenge_deterministic(transcript@, expected);
        lemma_add_mod_right(r.value(), x.value() * c.value(), group_order());
    }
    Proof { commitment_1, commitment_2, witness, out }
}

/// Prepares a two-generator proof of knowledge of `x`, with `d = pk*x`, drawing the
/// blinding scalar from a ChaCha20 generator seeded with `seed`.
pub fn prepare_proof(x: &Scalar, d: &Point, pk: &Point, seed: [u8; 32]) -> (p: Proof)
    ensures
        is_pair_proof(p, x.value(), chacha20_field_sample(seed@), *pk, *d),
{
    let r = Scalar::from_seed(seed);
    prove_pair(x, d, pk, &r)
}

/// Checks a two-generator proof that the secret behind `proof.out` on the generator is
/// the one behind `d` on the base `q`. Both checks compare whole points.
pub fn verify_proof(q: &Point, d: &Point, proof: &Proof) -> (r: bool)
    ensures
        r == pair_accepts(*q, *d, *proof),
{
    let transcript = vec![
        proof.commitment_1.duplicate(),
        proof.commitment_2.duplicate(),
        proof.out.duplicate(),
        d.duplicate(),
    ];
    let c = challenge(&transcript);
    let g = Point::generator();
    let check_x = g.mul(&proof.witness).sub(&proof.out.mul(&c));
    let check_y = q.mul(&proof.witness).sub(&d.mul(&c));
    proof {
        let s = proof.witness.value();
        let m = group_order();
        proof.witness.lemma_value_range();
        lemma_small_mod(s as nat, m as nat);
        let expected = seq![proof.commitment_1, proof.commitment_2, proof.out, *d];
        assert(transcript@[0].encoding() == expected[0].encoding());
        assert(transcript@[1].encoding() == expected[1].encoding());
        assert(transcript@[2].encoding() == expected[2].encoding());
        assert(transcript@[3].encoding() == expected[3].encoding());
        lemma_challenge_deterministic(transcript@, expected);
        lemma_mod_twice(proof.out.dlog() * c.value(), m);
        lemma_sub_congruent(s, s, (proof.out.dlog() * c.value()) % m,
            proof.out.dlog() * c.value(), m);
        lemma_mod_twice(q.dlog() * s, m);
        lemma_mod_twice(d.dlog() * c.value(), m);
        lemma_sub_congruent((q.dlog() * s) % m, q.dlog() * s, (d.dlog() * c.value()) % m,
            d.dlog() * c.value(), m);
    }
    check_x.equals(&proof.commitment_1) && check_y.equals(&proof.commitment_2)
}

/// Completeness of the single-generator proof: a proof made for `x` verifies against `x`.
pub proof fn lemma_single_complete(x: Scalar, r: Scalar, p: SingleProof)
    requires
        is_single_proof(p, x.value(), r.value()),
    ensures
        single_accepts(x.value(), p),
{
    lemma_unblind(r, x.value() * single_challenge(p.commitment));
}

/// Completeness of the two-generator proof: where `d = q*x`, a proof made for `x`, `d`
/// and `q` verifies against `q` and `d`.
pub proof fn lemma_pair_complete(x: Scalar, r: Scalar, q: Point, d: Point, p: Proof)
    requires
        is_pair_proof(p, x.value(), r.value(), q, d),
        d.dlog() == (q.dlog() * x.value()) % group_order(),
    ensures
        pair_accepts(q, d, p),
{
    let m = group_order();
    let c = pair_challenge(p, d);
    let (qd, xv, rv) = (q.dlog(), x.value(), r.value());
    lemma_unblind(r, xv * c);
    lemma_mul_mod_noop_right(qd, rv + xv * c, m);
    lemma_mul_mod_noop_left(qd * xv, c, m);
    lemma_sub_congruent(qd * p.witness.value(), qd * (rv + xv * c), d.dlog() * c,
        (qd * xv) * c, m);
    assert(qd * (rv + xv * c) - (qd * xv) * c == qd * rv) by (nonlinear_arith);
}

/// A single-generator proof made for `x1` verifies against `x2` exactly when the
/// challenge times `x1 - x2` vanishes modulo the group order.
pub proof fn lemma_single_wrong_secret(x1: Scalar, x2: Scalar, r: Scalar, p: SingleProof)
    requires
        is_single_proof(p, x1.value(), r.value()),
    ensures
        single_accepts(x2.value(), p) <==> ((x1.value() - x2.value()) * single_challenge(
            p.commitment,
        )) % group_order() == 0,
{
    let m = group_order();
    let c = single_challenge(p.commitment);
    let rv = r.value();
    let t = (x1.value() - x2.value()) * c;
    r.lemma_value_range();
    lemma_small_mod(rv as nat, m as nat);
    lemma_mod_twice(rv + x1.value() * c, m);
    lemma_sub_congruent(p.witness.value(), rv + x1.value() * c, x2.value() * c,
        x2.value() * c, m);
    assert(rv + x1.value() * c - x2.value() * c == rv + t) by (nonlinear_arith)
        requires t == (x1.value() - x2.value()) * c;
    assert((p.witness.value() - x2.value() * c) % m == (rv + t) % m);
    lemma_add_mod_right(rv, t, m);
    if t % m == 0 {
        assert((rv + t) % m == rv);
    }
    if (rv + t) % m == rv {
        lemma_mod_twice(rv + t, m);
        lemma_sub_congruent(rv + t, (rv + t) % m, rv, rv, m);
        assert(rv + t - rv == t);
        assert(0int % m == 0);
    }
}

/// A single-generator proof whose witness was changed no longer verifies against the
/// secret it was made for.
pub proof fn lemma_single_witness_tampered(x: Scalar, r: Scalar, p: SingleProof, s: Scalar)
    requires
        is_single_proof(p, x.value(), r.value()),
        s.value() != p.witness.value(),
    ensures
        !single_accepts(x.value(), (SingleProof { commitment: p.commitment, witness: s })),
{
    lemma_single_complete(x, r, p);
    if single_accepts(x.value(), (SingleProof { commitment: p.commitment, witness: s })) {
        lemma_same_residue(p.witness, s, x.value() * single_challenge(p.commitment));
    }
}

/// A two-generator proof whose witness was changed no longer verifies against the
/// public inputs it was made for.
pub proof fn lemma_pair_witness_tampered(
    x: Scalar,
    r: Scalar,
    q: Point,
    d: Point,
    p: Proof,
    s: Scalar,
)
    requires
        is_pair_proof(p, x.value(), r.value(), q, d),
        s.value() != p.witness.value(),
    ensures
        !pair_accepts(
            q,
            d,
            (Proof {
                commitment_1: p.commitment_1,
                commitment_2: p.commitment_2,
                witness: s,
                out: p.out,
            }),
        ),
{
    let t = Proof {
        commitment_1: p.commitment_1,
        commitment_2: p.commitment_2,
        witness: s,
        out: p.out,
    };
    assert(seq![t.commitment_1, t.commitment_2, t.out, d] =~= seq![
        p.commitment_1,
        p.commitment_2,
        p.out,
        d,
    ]);
    let c = pair_challenge(p, d);
    lemma_unblind(r, x.value() * c);
    if pair_accepts(q, d, t) {
        lemma_same_residue(p.witness, s, x.value() * c);
    }
}

/// Two single-generator proofs of the same secret under different blindings carry
/// different commitments, and both verify.
pub proof fn lemma_fresh_blinding(
    x: Scalar,
    r1: Scalar,
    r2: Scalar,
    p1: SingleProof,
    p2: SingleProof,
)
    requires
        is_single_proof(p1, x.value(), r1.value()),
        is_single_proof(p2, x.value(), r2.value()),
        r1.value() != r2.value(),
    ensures
        p1.commitment.dlog() != p2.commitment.dlog(),
        single_accepts(x.value(), p1),
        single_accepts(x.value(), p2),
{
    lemma_single_complete(x, r1, p1);
    lemma_single_complete(x, r2, p2);
}

/// Taking `t` back off `(r + t) mod m` leaves `r`.
proof fn lemma_unblind(r: Scalar, t: int)
    ensures
        (((r.value() + t) % group_order()) - t) % group_order() == r.value(),
{
    let m = group_order();
    let rv = r.value();
    r.lemma_value_range();
    lemma_small_mod(rv as nat, m as nat);
    lemma_mod_twice(rv + t, m);
    lemma_sub_congruent((rv + t) % m, rv + t, t, t, m);
    assert(rv + t - t == rv);
}

/// Two scalars that leave the same residue after taking off `t` are equal.
proof fn lemma_same_residue(a: Scalar, b: Scalar, t: int)
    requires
        (a.value() - t) % group_order() == (b.value() - t) % group_order(),
    ensures
        a.value() == b.value(),
{
    let m = group_order();
    a.lemma_value_range();
    b.lemma_value_range();
    lemma_small_mod(a.value() as nat, m as nat);
    lemma_small_mod(b.value() as nat, m as nat);
    lemma_add_mod_right(t, a.value() - t, m);
    lemma_add_mod_right(t, b.value() - t, m);
    assert(t + (a.value() - t) == a.value());
    assert(t + (b.value() - t) == b.value());
}

proof fn lemma_add_mod_right(a: int, b: int, m: int)
    requires
        m > 0,
    ensures
        (a + b % m) % m == (a + b) % m,
{
    lemma_fundamental_div_mod(b, m);
    lemma_mod_multiples_vanish(-(b / m), a + b, m);
    assert(a + b % m == m * (-(b / m)) + (a + b)) by (nonlinear_arith)
        requires b == m * (b / m) + b % m;
}

proof fn lemma_sub_congruent(a: int, a2: int, b: int, b2: int, m: int)
    requires
        m > 0,
        a % m == a2 % m,
        b % m == b2 % m,
    ensures
        (a - b) % m == (a2 - b2) % m,
{
    lemma_sub_mod_noop(a, b, m);
    lemma_sub_mod_noop(a2, b2, m);
}

} // verus!
