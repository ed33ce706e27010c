use vstd::prelude::*;

verus! {

/// The closed set of failures that the signature operations report.
#[derive(Debug, Clone, Copy, PartialEq, Eq, Structural)]
pub enum Secp256k1SchnorrError {
    InvalidSecretKey,
    InvalidPublicKey,
    InvalidRecoveryId,
    InvalidSignature,
    InvalidNonce,
    ArithmeticOverflow,
    LatticeSignatureError,
}

} // verus!
