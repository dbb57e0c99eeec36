//! Non-interactive zero-knowledge proof that two discrete logarithms are
//! equal (Chaum-Pedersen), made non-interactive by the Fiat-Shamir transform,
//! over the group G1 of BLS12-381.
//!
//! Group elements and scalars are held by their canonical byte encodings; the
//! curve arithmetic, the hash and the seeded sampler are called behind small
//! functions whose contracts are assumed and documented as such.

pub mod field;
pub mod group;
pub mod nizk_dleq;
pub mod transcript;

pub use crate::field::Fr;
pub use crate::group::GroupElement;
pub use crate::nizk_dleq::{
    prove_gen, try_prove_gen, verify_proof, DLEqInstance, DLEqWitness, ZkProofDLEq,
    ZkProofDLEqError,
};
pub use crate::transcript::dleq_proof_challenge;
