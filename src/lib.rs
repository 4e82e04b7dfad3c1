//! Non-interactive discrete-log-equality proofs over the BLS12-381 G1 group.
//!
//! A prover shows that it knows the discrete logarithm `x` of a point, or that one `x`
//! relates two pairs of points, without giving `x` away. The challenge is derived from a
//! SHAKE128 hash of the commitments (the Fiat-Shamir transform).

pub mod point;
pub mod scalar;
pub mod sigma;
pub mod transcript;

pub use point::Point;
pub use scalar::Scalar;
pub use sigma::{
    prepare_proof, prove_pair, prove_single, verify_proof, verify_single, Proof, SingleProof,
};
pub use transcript::challenge;
