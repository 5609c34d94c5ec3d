//! Poseidon sponge hashing over the scalar field of the BN254 curve.
//!
//! A fixed-width permutation of three field elements is turned into three
//! hash functions: of a pair under a domain, of a message of field elements,
//! and of raw bytes. The field operations go through a backend that a
//! deployment can swap; the round constants and the MDS matrix come in as a
//! parameter table that is checked once.

pub mod backend;
pub mod field;
pub mod laws;
pub mod packing;
pub mod params;
pub mod permutation;
pub mod sponge;

pub use crate::field::Fr;
pub use crate::sponge::{hash_code, hash_msg, hash_with_domain};
