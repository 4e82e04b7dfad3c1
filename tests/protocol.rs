use ark_bls12_381::{Fr, G1Affine};
use ark_ec::{AffineRepr, CurveGroup};
use ark_ff::{BigInteger256, PrimeField};
use ark_serialize::CanonicalSerialize;
use ark_std::ops::Mul;
use ark_std::rand::SeedableRng;
use ark_std::UniformRand;
use dleq::{
    challenge, prepare_proof, prove_pair, prove_single, verify_proof, verify_single, Point,
    Proof, Scalar, SingleProof,
};
use rand_chacha::ChaCha20Rng;
use sha3::digest::{ExtendableOutput, Update, XofReader};

fn encode(p: &G1Affine) -> Vec<u8> {
    let mut out = Vec::new();
    p.serialize_compressed(&mut out).unwrap();
    out
}

fn to_scalar(f: Fr) -> Scalar {
    Scalar::from_limbs(f.into_bigint().0).unwrap()
}

fn to_fr(s: &Scalar) -> Fr {
    Fr::from_bigint(BigInteger256::new(s.limbs())).unwrap()
}

fn to_point(p: &G1Affine) -> Point {
    Point::from_compressed(&encode(p)).unwrap()
}

fn copy_single(p: &SingleProof) -> SingleProof {
    SingleProof { commitment: p.commitment.duplicate(), witness: p.witness.add(&Scalar::from_u64(0)) }
}

fn copy_pair(p: &Proof) -> Proof {
    Proof {
        commitment_1: p.commitment_1.duplicate(),
        commitment_2: p.commitment_2.duplicate(),
        witness: p.witness.add(&Scalar::from_u64(0)),
        out: p.out.duplicate(),
    }
}

fn shake_challenge(bytes: &[u8]) -> Fr {
    let mut h = sha3::Shake128::default();
    h.update(bytes);
    let mut o = [0u8; 32];
    h.finalize_xof().read(&mut o);
    Fr::from_be_bytes_mod_order(&o)
}

#[test]
fn concrete_single_proof_for_seven() {
    let r_fr = Fr::from(987654321u64);
    let x = Scalar::from_u64(7);
    let r = to_scalar(r_fr);
    let proof = prove_single(&x, &r);

    let expected_commitment: G1Affine = G1Affine::generator().mul(r_fr).into_affine();
    let expected_bytes = encode(&expected_commitment);
    assert_eq!(proof.commitment.to_compressed(), expected_bytes);

    let c = shake_challenge(&expected_bytes);
    let expected_witness = r_fr + Fr::from(7u64) * c;
    assert_eq!(proof.witness.limbs(), expected_witness.into_bigint().0);

    assert!(verify_single(&Scalar::from_u64(7), &proof));
    assert!(!verify_single(&Scalar::from_u64(8), &proof));
}

#[test]
fn single_proofs_verify_for_their_secret() {
    let mut rng = ChaCha20Rng::from_seed([5; 32]);
    for _ in 0..8 {
        let x = to_scalar(Fr::rand(&mut rng));
        let r = to_scalar(Fr::rand(&mut rng));
        let proof = prove_single(&x, &r);
        assert!(verify_single(&x, &proof));
    }
    let zero = Scalar::from_u64(0);
    assert!(verify_single(&zero, &prove_single(&zero, &Scalar::from_u64(3))));
}

#[test]
fn single_proofs_reject_another_secret() {
    let mut rng = ChaCha20Rng::from_seed([6; 32]);
    for _ in 0..16 {
        let x1 = to_scalar(Fr::rand(&mut rng));
        let x2 = to_scalar(Fr::rand(&mut rng));
        assert_ne!(x1.limbs(), x2.limbs());
        let r = to_scalar(Fr::rand(&mut rng));
        let proof = prove_single(&x1, &r);
        assert!(!verify_single(&x2, &proof));
    }
}

#[test]
fn pair_proof_verifies_when_d_is_q_times_x() {
    let mut rng = ChaCha20Rng::from_seed([1; 32]);
    let x_fr = Fr::rand(&mut rng);
    let pk_aff = G1Affine::rand(&mut rng);
    let d_aff: G1Affine = pk_aff.mul(x_fr).into_affine();
    let x = to_scalar(x_fr);
    let pk = to_point(&pk_aff);
    let d = to_point(&d_aff);
    assert!(d.equals(&pk.mul(&x)));
    let proof = prepare_proof(&x, &d, &pk, [2; 32]);
    assert!(verify_proof(&pk, &d, &proof));
    assert!(proof.out.equals(&Point::generator().mul(&x)));
}

#[test]
fn pair_proof_matches_direct_computation() {
    let x_fr = Fr::from(11u64);
    let r_fr = Fr::from(29u64);
    let q_aff: G1Affine = G1Affine::generator().mul(Fr::from(5u64)).into_affine();
    let d_aff: G1Affine = q_aff.mul(x_fr).into_affine();
    let proof = prove_pair(&to_scalar(x_fr), &to_point(&d_aff), &to_point(&q_aff), &to_scalar(r_fr));

    let r1: G1Affine = G1Affine::generator().mul(r_fr).into_affine();
    let r2: G1Affine = q_aff.mul(r_fr).into_affine();
    let out: G1Affine = G1Affine::generator().mul(x_fr).into_affine();
    let mut transcript = Vec::new();
    for p in [r1, r2, out, d_aff].iter() {
        transcript.extend(encode(p));
    }
    let c = shake_challenge(&transcript);
    assert_eq!(proof.commitment_1.to_compressed(), encode(&r1));
    assert_eq!(proof.commitment_2.to_compressed(), encode(&r2));
    assert_eq!(proof.out.to_compressed(), encode(&out));
    assert_eq!(proof.witness.limbs(), (r_fr + x_fr * c).into_bigint().0);
    assert!(verify_proof(&to_point(&q_aff), &to_point(&d_aff), &proof));
}

#[test]
fn pair_proof_rejects_mismatched_d() {
    let x = Scalar::from_u64(13);
    let q = Point::generator().mul(&Scalar::from_u64(17));
    let d = q.mul(&x);
    let proof = prove_pair(&x, &d, &q, &Scalar::from_u64(99));
    let other_d = q.mul(&Scalar::from_u64(14));
    assert!(verify_proof(&q, &d, &proof));
    assert!(!verify_proof(&q, &other_d, &proof));
    let other_q = Point::generator().mul(&Scalar::from_u64(18));
    assert!(!verify_proof(&other_q, &d, &proof));
}

#[test]
fn tampered_single_proofs_are_rejected() {
    let x = Scalar::from_u64(424242);
    let proof = prove_single(&x, &Scalar::from_u64(31337));
    assert!(verify_single(&x, &copy_single(&proof)));

    let mut bad = copy_single(&proof);
    bad.witness = proof.witness.add(&Scalar::from_u64(1));
    assert!(!verify_single(&x, &bad));

    let mut bad = copy_single(&proof);
    bad.commitment = proof.commitment.sub(&Point::generator());
    assert!(!verify_single(&x, &bad));
}

#[test]
fn tampered_pair_proofs_are_rejected() {
    let x = Scalar::from_u64(77);
    let q = Point::generator().mul(&Scalar::from_u64(1234));
    let d = q.mul(&x);
    let proof = prove_pair(&x, &d, &q, &Scalar::from_u64(555));
    assert!(verify_proof(&q, &d, &copy_pair(&proof)));

    let mut bad = copy_pair(&proof);
    bad.witness = proof.witness.add(&Scalar::from_u64(1));
    assert!(!verify_proof(&q, &d, &bad));

    let mut bad = copy_pair(&proof);
    bad.commitment_1 = proof.commitment_1.sub(&Point::generator());
    assert!(!verify_proof(&q, &d, &bad));

    let mut bad = copy_pair(&proof);
    bad.commitment_2 = proof.commitment_2.sub(&Point::generator());
    assert!(!verify_proof(&q, &d, &bad));

    let mut bad = copy_pair(&proof);
    bad.out = proof.out.sub(&Point::generator());
    assert!(!verify_proof(&q, &d, &bad));
}

#[test]
fn fresh_blinding_gives_fresh_commitments() {
    let x = Scalar::from_u64(5);
    let p1 = prove_single(&x, &Scalar::from_seed([8; 32]));
    let p2 = prove_single(&x, &Scalar::from_seed([9; 32]));
    assert!(!p1.commitment.equals(&p2.commitment));
    assert_ne!(p1.commitment.to_compressed(), p2.commitment.to_compressed());
    assert!(verify_single(&x, &p1));
    assert!(verify_single(&x, &p2));
}

#[test]
fn challenge_is_deterministic() {
    let a = Point::generator().mul(&Scalar::from_u64(3));
    let b = Point::generator().mul(&Scalar::from_u64(4));
    let c1 = challenge(&vec![a.duplicate(), b.duplicate()]);
    let c2 = challenge(&vec![a.duplicate(), b.duplicate()]);
    assert_eq!(c1.limbs(), c2.limbs());
    let mut bytes = a.to_compressed();
    bytes.extend(b.to_compressed());
    assert_eq!(c1.limbs(), shake_challenge(&bytes).into_bigint().0);
}

#[test]
fn challenge_depends_on_points_and_order() {
    let a = Point::generator().mul(&Scalar::from_u64(3));
    let b = Point::generator().mul(&Scalar::from_u64(4));
    let ca = challenge(&vec![a.duplicate()]);
    let cb = challenge(&vec![b.duplicate()]);
    assert_ne!(ca.limbs(), cb.limbs());
    let ab = challenge(&vec![a.duplicate(), b.duplicate()]);
    let ba = challenge(&vec![b.duplicate(), a.duplicate()]);
    assert_ne!(ab.limbs(), ba.limbs());
}

#[test]
fn changing_one_encoded_byte_changes_the_challenge() {
    let a = Point::generator().mul(&Scalar::from_u64(3));
    let bytes = a.to_compressed();
    for i in [0usize, 20, 47] {
        let mut changed = bytes.clone();
        changed[i] ^= 1;
        assert_ne!(shake_challenge(&bytes), shake_challenge(&changed));
        if let Some(p) = Point::from_compressed(&changed) {
            assert_ne!(challenge(&vec![p]).limbs(), challenge(&vec![a.duplicate()]).limbs());
        }
    }
}
