//! Schnorr signatures over secp256k1, paired with a lattice-based signature.
//!
//! `scalar` holds big-endian 256-bit arithmetic modulo the group order, `point` curve points
//! and public-key validation, `prf` the domain-separated pseudorandom function, `schnorr` the
//! nonce and challenge derivations with signing and verification, and `vault` the hybrid keys
//! and signatures that callers use.
pub mod errors;
pub mod scalar;
pub mod point;
pub mod prf;
pub mod schnorr;
pub mod vault;
