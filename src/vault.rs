use vstd::prelude::*;

use pqcrypto_dilithium::dilithium3;
use pqcrypto_traits::sign::DetachedSignature as _;
use pqcrypto_traits::sign::PublicKey as _;
use pqcrypto_traits::sign::SecretKey as _;

use crate::errors::Secp256k1SchnorrError;
use crate::point::{base_multiple, mul_g, on_curve, validate_public, CurvePoint};
use crate::schnorr::{accepts, sign_result, SchnorrSignature};
use crate::scalar::{be_nat, group_order, valid_secret, validate_secret};

verus! {

/// Length of a lattice public key.
pub const LATTICE_PUBLIC_KEY_BYTES: usize = 1952;

/// Length of a lattice secret key.
pub const LATTICE_SECRET_KEY_BYTES: usize = 4032;

/// Length of a lattice signature.
pub const LATTICE_SIGNATURE_BYTES: usize = 3309;

/// Length of an encoded public key: the curve point, then the lattice key.
pub const PUBLIC_KEY_BYTES: usize = 64 + LATTICE_PUBLIC_KEY_BYTES;

/// Length of an encoded signature: `R`, `s`, then the lattice signature.
pub const SIGNATURE_BYTES: usize = 96 + LATTICE_SIGNATURE_BYTES;

/// How many fresh draws key generation makes before it gives up.
pub const KEYGEN_ATTEMPTS: usize = 16;

/// How many fresh auxiliary values signing draws while nonces come out invalid.
pub const SIGN_ATTEMPTS: usize = 16;

/// Whether the lattice scheme accepts a signature on a message under a public key.
pub uninterp spec fn lattice_accepts(sig: Seq<u8>, msg: Seq<u8>, pk: Seq<u8>) -> bool;

/// The lattice signature of a message under a secret key.
pub uninterp spec fn lattice_signature(msg: Seq<u8>, sk: Seq<u8>) -> Seq<u8>;

/// Relies on rand::random: 32 bytes from the thread-local cryptographic generator.
#[verifier::external_body]
fn random_bytes() -> (r: [u8; 32]) {
    rand::random()
}

/// Relies on pqcrypto_dilithium::dilithium3::keypair: a fresh key pair, as the bytes of the
/// public key and of the secret key, each of its fixed length.
#[verifier::external_body]
fn lattice_keypair() -> (r: (Vec<u8>, Vec<u8>))
    ensures
        r.0@.len() == LATTICE_PUBLIC_KEY_BYTES,
        r.1@.len() == LATTICE_SECRET_KEY_BYTES,
{
    let (pk, sk) = dilithium3::keypair();
    (pk.as_bytes().to_vec(), sk.as_bytes().to_vec())
}

/// Relies on pqcrypto_dilithium::dilithium3::detached_sign, after
/// dilithium3::SecretKey::from_bytes, which accepts exactly the secret key's length. Signing
/// is deterministic and always yields a signature of the full length.
#[verifier::external_body]
fn lattice_sign(msg: &[u8], sk: &[u8]) -> (r: Option<Vec<u8>>)
    ensures
        r is Some <==> sk@.len() == LATTICE_SECRET_KEY_BYTES,
        r matches Some(sig) ==> sig@ == lattice_signature(msg@, sk@)
            && sig@.len() == LATTICE_SIGNATURE_BYTES,
{
    match dilithium3::SecretKey::from_bytes(sk) {
        Ok(key) => Some(dilithium3::detached_sign(msg, &key).as_bytes().to_vec()),
        Err(_) => None,
    }
}

/// Relies on pqcrypto_dilithium::dilithium3::verify_detached_signature, after decoding the
/// signature and the public key; a decoding failure counts as a rejection.
#[verifier::external_body]
fn lattice_verify(sig: &[u8], msg: &[u8], pk: &[u8]) -> (r: bool)
    ensures
        r == lattice_accepts(sig@, msg@, pk@),
{
    match dilithium3::DetachedSignature::from_bytes(sig) {
        Ok(s) => match dilithium3::PublicKey::from_bytes(pk) {
            Ok(p) => dilithium3::verify_detached_signature(&s, msg, &p).is_ok(),
            Err(_) => false,
        },
        Err(_) => false,
    }
}

/// The bytes `data[start..end]`.
pub fn copy_range(data: &[u8], start: usize, end: usize) -> (r: Vec<u8>)
    requires
        start <= end <= data@.len(),
    ensures
        r@ == data@.subrange(start as int, end as int),
{
    let mut r: Vec<u8> = Vec::new();
    let mut i: usize = start;
    while i < end
        invariant
            start <= i <= end,
            end <= data@.len(),
            r@ == data@.subrange(start as int, i as int),
        decreases end - i,
    {
        assert(data@.subrange(start as int, i + 1) =~= data@.subrange(start as int, i as int)
            + seq![data@[i as int]]);
        r.push(data[i]);
        i = i + 1;
    }
    r
}

/// A signer's key: the curve scalar and the lattice secret key.
pub struct SecretKey {
    pub scalar: [u8; 32],
    pub lattice: Vec<u8>,
}

/// A verifier's key: the curve point and the lattice public key.
pub struct PublicKey {
    pub point: CurvePoint,
    pub lattice: Vec<u8>,
}

/// A hybrid signature: a Schnorr signature and a lattice signature on the same message.
pub struct Signature {
    pub schnorr: SchnorrSignature,
    pub lattice: Vec<u8>,
}

/// The key pair of a secret scalar, or why there is none.
pub open spec fn curve_keypair_result(x: Seq<u8>) -> Result<(Seq<u8>, Seq<u8>), Secp256k1SchnorrError> {
    if !valid_secret(x) {
        Err(Secp256k1SchnorrError::InvalidSecretKey)
    } else {
        match base_multiple(x) {
            Some(p) => Ok((x, p)),
            None => Err(Secp256k1SchnorrError::InvalidSecretKey),
        }
    }
}

/// Checks 32 bytes as a secret scalar and derives its public point `x * G`.
pub fn curve_keypair(bytes: &[u8; 32]) -> (r: Result<([u8; 32], CurvePoint), Secp256k1SchnorrError>)
    ensures
        match r {
            Ok((x, p)) => curve_keypair_result(bytes@) == Ok::<
                (Seq<u8>, Seq<u8>),
                Secp256k1SchnorrError,
            >((x@, p.bytes@)),
            Err(err) => curve_keypair_result(bytes@) == Err::<
                (Seq<u8>, Seq<u8>),
                Secp256k1SchnorrError,
            >(err),
        },
        valid_secret(bytes@) <==> r is Ok,
        r matches Ok((_, p)) ==> on_curve(p.bytes@),
{
    let x = validate_secret(bytes)?;
    proof {
        vstd::arithmetic::div_mod::lemma_small_mod(be_nat(x@), group_order());
    }
    match mul_g(&x) {
        Some(p) => Ok((x, p)),
        None => Err(Secp256k1SchnorrError::InvalidSecretKey),
    }
}

impl PublicKey {
    /// The encoding: the curve point, then the lattice key.
    pub fn to_bytes(&self) -> (r: Vec<u8>)
        ensures
            r@ == self.point.bytes@ + self.lattice@,
    {
        let mut r: Vec<u8> = Vec::new();
        crate::prf::append(&mut r, &self.point.bytes);
        crate::prf::append(&mut r, self.lattice.as_slice());
        r
    }

    /// Decodes a public key; `InvalidPublicKey` unless the length is right and the curve point
    /// lies on the curve.
    pub fn from_bytes(bytes: &[u8]) -> (r: Result<PublicKey, Secp256k1SchnorrError>)
        ensures
            match r {
                Ok(pk) => bytes@.len() == PUBLIC_KEY_BYTES
                    && crate::point::on_curve(bytes@.subrange(0, 64))
                    && pk.point.bytes@ == bytes@.subrange(0, 64)
                    && pk.lattice@ == bytes@.subrange(64, bytes@.len() as int),
                Err(err) => err == Secp256k1SchnorrError::InvalidPublicKey && (
                    bytes@.len() != PUBLIC_KEY_BYTES
                    || !crate::point::on_curve(bytes@.subrange(0, 64))),
            },
    {
        if bytes.len() != PUBLIC_KEY_BYTES {
            return Err(Secp256k1SchnorrError::InvalidPublicKey);
        }
        let head = copy_range(bytes, 0, 64);
        let mut point = [0u8; 64];
        let mut i: usize = 0;
        while i < 64
            invariant
                i <= 64,
                head@.len() == 64,
                forall|j: int| 0 <= j < i ==> point@[j] == head@[j],
            decreases 64 - i,
        {
            point[i] = head[i];
            i = i + 1;
        }
        assert(point@ =~= bytes@.subrange(0, 64));
        let p = validate_public(&point)?;
        let lattice = copy_range(bytes, 64, bytes.len());
        Ok(PublicKey { point: p, lattice })
    }
}

impl Signature {
    /// The encoding: `R`, `s`, then the lattice signature.
    pub fn to_bytes(&self) -> (r: Vec<u8>)
        ensures
            r@ == self.schnorr.r.bytes@ + self.schnorr.s@ + self.lattice@,
    {
        let mut r: Vec<u8> = Vec::new();
        crate::prf::append(&mut r, &self.schnorr.r.bytes);
        crate::prf::append(&mut r, &self.schnorr.s);
        crate::prf::append(&mut r, self.lattice.as_slice());
        r
    }

    /// Decodes a signature; `InvalidSignature` when fewer than 96 bytes are given.
    pub fn from_bytes(bytes: &[u8]) -> (r: Result<Signature, Secp256k1SchnorrError>)
        ensures
            bytes@.len() < 96 ==> r == Err::<Signature, Secp256k1SchnorrError>(
                Secp256k1SchnorrError::InvalidSignature,
            ),
            r matches Ok(sig) ==> bytes@.len() >= 96
                && sig.schnorr.r.bytes@ == bytes@.subrange(0, 64)
                && sig.schnorr.s@ == bytes@.subrange(64, 96)
                && sig.lattice@ == bytes@.subrange(96, bytes@.len() as int),
            bytes@.len() >= 96 ==> r is Ok,
    {
        if bytes.len() < 96 {
            return Err(Secp256k1SchnorrError::InvalidSignature);
        }
        let mut r = [0u8; 64];
        let mut s = [0u8; 32];
        let mut i: usize = 0;
        while i < 96
            invariant
                i <= 96,
                bytes@.len() >= 96,
                forall|j: int| 0 <= j < i && j < 64 ==> r@[j] == bytes@[j],
                forall|j: int| 64 <= j < i ==> s@[j - 64] == bytes@[j],
            decreases 96 - i,
        {
            if i < 64 {
                r[i] = bytes[i];
            } else {
                s[i - 64] = bytes[i];
            }
            i = i + 1;
        }
        assert(r@ =~= bytes@.subrange(0, 64));
        assert(s@ =~= bytes@.subrange(64, 96));
        let lattice = copy_range(bytes, 96, bytes.len());
        Ok(Signature { schnorr: SchnorrSignature { r: CurvePoint { bytes: r }, s }, lattice })
    }
}

/// The public surface: key generation, signing and verification.
pub struct LatticeSchnorrVault;

impl LatticeSchnorrVault {
    /// Generates a key pair from fresh randomness. `InvalidSecretKey` only when every draw
    /// failed to be a valid scalar with a public point.
    pub fn generate_keypair() -> (r: Result<(SecretKey, PublicKey), Secp256k1SchnorrError>)
        ensures
            match r {
                Ok((sk, pk)) => valid_secret(sk.scalar@)
                    && base_multiple(sk.scalar@) == Some(pk.point.bytes@)
                    && on_curve(pk.point.bytes@)
                    && sk.lattice@.len() == LATTICE_SECRET_KEY_BYTES
                    && pk.lattice@.len() == LATTICE_PUBLIC_KEY_BYTES,
                Err(err) => err == Secp256k1SchnorrError::InvalidSecretKey,
            },
    {
        let mut attempt: usize = 0;
        while attempt < KEYGEN_ATTEMPTS
            decreases KEYGEN_ATTEMPTS - attempt,
        {
            let bytes = random_bytes();
            match curve_keypair(&bytes) {
                Ok((x, p)) => {
                    let (lattice_pk, lattice_sk) = lattice_keypair();
                    let sk = SecretKey { scalar: x, lattice: lattice_sk };
                    let pk = PublicKey { point: p, lattice: lattice_pk };
                    return Ok((sk, pk));
                },
                Err(_) => {},
            }
            attempt = attempt + 1;
        }
        Err(Secp256k1SchnorrError::InvalidSecretKey)
    }

    /// Signs `message` with the caller's auxiliary randomness `aux`: the Schnorr part is
    /// `sign_result`, the lattice part signs the same message.
    pub fn sign_with_aux(sk: &SecretKey, message: &[u8], aux: &[u8; 32]) -> (r: Result<
        Signature,
        Secp256k1SchnorrError,
    >)
        ensures
            match sign_result(sk.scalar@, message@, aux@) {
                Err(err) => r == Err::<Signature, Secp256k1SchnorrError>(err),
                Ok((commitment, s)) => if sk.lattice@.len() == LATTICE_SECRET_KEY_BYTES {
                    r matches Ok(sig) && sig.schnorr.r.bytes@ == commitment && sig.schnorr.s@ == s
                        && sig.lattice@ == lattice_signature(message@, sk.lattice@)
                } else {
                    r == Err::<Signature, Secp256k1SchnorrError>(
                        Secp256k1SchnorrError::LatticeSignatureError,
                    )
                },
            },
            valid_secret(sk.scalar@) ==> r != Err::<Signature, Secp256k1SchnorrError>(
                Secp256k1SchnorrError::InvalidSecretKey,
            ),
            valid_secret(sk.scalar@) && sk.lattice@.len() == LATTICE_SECRET_KEY_BYTES ==> r is Ok
                || r == Err::<Signature, Secp256k1SchnorrError>(Secp256k1SchnorrError::InvalidNonce),
            r matches Ok(sig) ==> on_curve(sig.schnorr.r.bytes@),
    {
        let schnorr = crate::schnorr::sign(&sk.scalar, message, aux)?;
        match lattice_sign(message, sk.lattice.as_slice()) {
            Some(lattice) => Ok(Signature { schnorr, lattice }),
            None => Err(Secp256k1SchnorrError::LatticeSignatureError),
        }
    }

    /// Signs `message` with fresh auxiliary randomness, drawing it afresh whenever the derived
    /// nonce is invalid; `InvalidNonce` only when every draw gave an invalid nonce.
    pub fn sign(sk: &SecretKey, message: &[u8]) -> (r: Result<Signature, Secp256k1SchnorrError>)
        ensures
            match r {
                Ok(sig) => exists|aux: Seq<u8>|
                    aux.len() == 32 && #[trigger] sign_result(sk.scalar@, message@, aux) == Ok::<
                        (Seq<u8>, Seq<u8>),
                        Secp256k1SchnorrError,
                    >((sig.schnorr.r.bytes@, sig.schnorr.s@))
                    && sig.lattice@ == lattice_signature(message@, sk.lattice@),
                Err(err) => err == Secp256k1SchnorrError::InvalidSecretKey
                    || err == Secp256k1SchnorrError::InvalidNonce
                    || err == Secp256k1SchnorrError::LatticeSignatureError,
            },
            !valid_secret(sk.scalar@) ==> r == Err::<Signature, Secp256k1SchnorrError>(
                Secp256k1SchnorrError::InvalidSecretKey,
            ),
            valid_secret(sk.scalar@) ==> r != Err::<Signature, Secp256k1SchnorrError>(
                Secp256k1SchnorrError::InvalidSecretKey,
            ),
            valid_secret(sk.scalar@) && sk.lattice@.len() == LATTICE_SECRET_KEY_BYTES ==> r is Ok
                || r == Err::<Signature, Secp256k1SchnorrError>(Secp256k1SchnorrError::InvalidNonce),
            r matches Ok(sig) ==> on_curve(sig.schnorr.r.bytes@),
    {
        let mut attempt: usize = 0;
        loop
            invariant
                attempt < SIGN_ATTEMPTS,
            decreases SIGN_ATTEMPTS - attempt,
        {
            let aux = random_bytes();
            let r = Self::sign_with_aux(sk, message, &aux);
            proof {
                if r is Ok {
                    let sig = r->Ok_0;
                    assert(sign_result(sk.scalar@, message@, aux@) == Ok::<
                        (Seq<u8>, Seq<u8>),
                        Secp256k1SchnorrError,
                    >((sig.schnorr.r.bytes@, sig.schnorr.s@)));
                }
            }
            match r {
                Err(Secp256k1SchnorrError::InvalidNonce) => {
                    if attempt + 1 >= SIGN_ATTEMPTS {
                        return r;
                    }
                },
                _ => return r,
            }
            attempt = attempt + 1;
        }
    }

    /// Verifies both parts of `signature` on `message`: `InvalidSignature` when the Schnorr
    /// part is rejected, else `LatticeSignatureError` when the lattice part is.
    pub fn verify(pk: &PublicKey, message: &[u8], signature: &Signature) -> (r: Result<
        (),
        Secp256k1SchnorrError,
    >)
        ensures
            r is Ok <==> accepts(pk.point.bytes@, message@, signature.schnorr.r.bytes@, signature.schnorr.s@)
                && lattice_accepts(signature.lattice@, message@, pk.lattice@),
            !accepts(pk.point.bytes@, message@, signature.schnorr.r.bytes@, signature.schnorr.s@)
                ==> r == Err::<(), Secp256k1SchnorrError>(Secp256k1SchnorrError::InvalidSignature),
            accepts(pk.point.bytes@, message@, signature.schnorr.r.bytes@, signature.schnorr.s@)
                && !lattice_accepts(signature.lattice@, message@, pk.lattice@)
                ==> r == Err::<(), Secp256k1SchnorrError>(Secp256k1SchnorrError::LatticeSignatureError),
    {
        crate::schnorr::verify(&pk.point, message, &signature.schnorr)?;
        if lattice_verify(signature.lattice.as_slice(), message, pk.lattice.as_slice()) {
            Ok(())
        } else {
            Err(Secp256k1SchnorrError::LatticeSignatureError)
        }
    }
}

/// Why an instruction is turned away.
#[derive(Debug, Clone, Copy, PartialEq, Eq, Structural)]
pub enum InstructionRejection {
    /// The instruction is shorter than an encoded signature.
    ShortInstruction,
    /// The owner's stored key does not decode.
    BadOwnerKey,
    /// The signature does not verify.
    Unverified,
}

/// Checks an instruction that holds an encoded signature followed by the message, against the
/// owner's encoded public key.
pub fn authorize(instruction: &[u8], owner_key: &[u8]) -> (r: Result<(), InstructionRejection>)
    ensures
        instruction@.len() < SIGNATURE_BYTES ==> r == Err::<(), InstructionRejection>(
            InstructionRejection::ShortInstruction,
        ),
        r is Ok <==> instruction@.len() >= SIGNATURE_BYTES && owner_key@.len() == PUBLIC_KEY_BYTES
            && crate::point::on_curve(owner_key@.subrange(0, 64))
            && accepts(
                owner_key@.subrange(0, 64),
                instruction@.subrange(SIGNATURE_BYTES as int, instruction@.len() as int),
                instruction@.subrange(0, 64),
                instruction@.subrange(64, 96),
            ) && lattice_accepts(
                instruction@.subrange(96, SIGNATURE_BYTES as int),
                instruction@.subrange(SIGNATURE_BYTES as int, instruction@.len() as int),
                owner_key@.subrange(64, PUBLIC_KEY_BYTES as int),
            ),
        instruction@.len() >= SIGNATURE_BYTES && (owner_key@.len() != PUBLIC_KEY_BYTES
            || !crate::point::on_curve(owner_key@.subrange(0, 64))) ==> r == Err::<
            (),
            InstructionRejection,
        >(InstructionRejection::BadOwnerKey),
        instruction@.len() >= SIGNATURE_BYTES && owner_key@.len() == PUBLIC_KEY_BYTES
            && crate::point::on_curve(owner_key@.subrange(0, 64)) && !(accepts(
                owner_key@.subrange(0, 64),
                instruction@.subrange(SIGNATURE_BYTES as int, instruction@.len() as int),
                instruction@.subrange(0, 64),
                instruction@.subrange(64, 96),
            ) && lattice_accepts(
                instruction@.subrange(96, SIGNATURE_BYTES as int),
                instruction@.subrange(SIGNATURE_BYTES as int, instruction@.len() as int),
                owner_key@.subrange(64, PUBLIC_KEY_BYTES as int),
            )) ==> r == Err::<(), InstructionRejection>(InstructionRejection::Unverified),
{
    if instruction.len() < SIGNATURE_BYTES {
        return Err(InstructionRejection::ShortInstruction);
    }
    let sig_bytes = copy_range(instruction, 0, SIGNATURE_BYTES);
    let message = copy_range(instruction, SIGNATURE_BYTES, instruction.len());
    let signature = match Signature::from_bytes(sig_bytes.as_slice()) {
        Ok(sig) => sig,
        Err(_) => return Err(InstructionRejection::Unverified),
    };
    assert(sig_bytes@.subrange(0, 64) =~= instruction@.subrange(0, 64));
    assert(sig_bytes@.subrange(64, 96) =~= instruction@.subrange(64, 96));
    assert(sig_bytes@.subrange(96, sig_bytes@.len() as int) =~= instruction@.subrange(
        96,
        SIGNATURE_BYTES as int,
    ));
    let pk = match PublicKey::from_bytes(owner_key) {
        Ok(pk) => pk,
        Err(_) => return Err(InstructionRejection::BadOwnerKey),
    };
    match LatticeSchnorrVault::verify(&pk, message.as_slice(), &signature) {
        Ok(()) => Ok(()),
        Err(_) => Err(InstructionRejection::Unverified),
    }
}

} // verus!
