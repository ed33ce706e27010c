use vstd::prelude::*;

use crate::errors::Secp256k1SchnorrError;
use crate::point::{
    add_points, affine_sum, base_multiple, canonical, ecmul, mul_g, on_curve, point_view,
    scalar_multiple,
    x_of, y_of, CurvePoint,
};
use crate::prf::{prf, tagged_hash, xor32, xor_bytes, AUX_TAG, CHALLENGE_TAG, NONCE_TAG};
use vstd::arithmetic::div_mod::lemma_mod_bound;

use crate::scalar::{
    be32, be_nat, lemma_be32_value, lemma_be_nat_bound, lemma_moduli_positive, compare_be, group_order, is_zero_be, reduce_mod_n, response_scalar,
    valid_secret, validate_secret, GROUP_ORDER,
};

verus! {

/// A Schnorr signature: the commitment point `R` and the response scalar `s`.
#[derive(Clone, Copy, Debug)]
pub struct SchnorrSignature {
    pub r: CurvePoint,
    pub s: [u8; 32],
}

/// Derives challenges and nonces with the domain-separated pseudorandom function.
pub struct LatticeChallenge;

/// The challenge scalar bound to the commitment's `x`, the key's `x` and the message.
pub open spec fn challenge_value(rx: Seq<u8>, pkx: Seq<u8>, m: Seq<u8>) -> Seq<u8> {
    be32(be_nat(prf(CHALLENGE_TAG@, rx + pkx + m)) % group_order())
}

/// The auxiliary randomness blinded with the secret key.
pub open spec fn blinded_aux(sk: Seq<u8>, aux: Seq<u8>) -> Seq<u8> {
    xor_bytes(prf(AUX_TAG@, aux), sk)
}

/// The nonce scalar, as a number below the group order.
pub open spec fn nonce_number(t: Seq<u8>, pkx: Seq<u8>, m: Seq<u8>) -> nat {
    be_nat(prf(NONCE_TAG@, t + pkx + m)) % group_order()
}

/// The nonce and its commitment, or why there is none.
pub open spec fn nonce_result(pk: Seq<u8>, m: Seq<u8>, t: Seq<u8>) -> Result<
    (Seq<u8>, Seq<u8>),
    Secp256k1SchnorrError,
> {
    let k = nonce_number(t, x_of(pk), m);
    if k == 0 {
        Err(Secp256k1SchnorrError::InvalidNonce)
    } else {
        match base_multiple(be32(k)) {
            Some(r) => Ok((be32(k), r)),
            None => Err(Secp256k1SchnorrError::InvalidNonce),
        }
    }
}

/// The response `(k + e * x) mod N`.
pub open spec fn response_value(k: Seq<u8>, e: Seq<u8>, x: Seq<u8>) -> Seq<u8> {
    be32((be_nat(k) + (be_nat(e) * be_nat(x)) % group_order()) % group_order())
}

/// The signature on `m` under secret key `sk` with auxiliary randomness `aux`, or why there is
/// none, as commitment encoding and response.
pub open spec fn sign_result(sk: Seq<u8>, m: Seq<u8>, aux: Seq<u8>) -> Result<
    (Seq<u8>, Seq<u8>),
    Secp256k1SchnorrError,
> {
    if !valid_secret(sk) {
        Err(Secp256k1SchnorrError::InvalidSecretKey)
    } else {
        match base_multiple(sk) {
            None => Err(Secp256k1SchnorrError::InvalidSecretKey),
            Some(pk) => match nonce_result(pk, m, blinded_aux(sk, aux)) {
                Err(err) => Err(err),
                Ok((k, r)) => Ok((r, response_value(k, challenge_value(x_of(r), x_of(pk), m), sk))),
            },
        }
    }
}

/// The scalar 2, big-endian.
pub open spec fn two_scalar() -> Seq<u8> {
    Seq::new(32, |i: int| if i == 31 { 2u8 } else { 0u8 })
}

/// Whether `R + e * pk` equals `lhs`, where `b = e * pk`; the sum is the chord sum for distinct
/// `x`, the doubling for equal points, and the point at infinity (equal to nothing) otherwise.
pub open spec fn sum_matches(r: Seq<u8>, b: Seq<u8>, lhs: Seq<u8>) -> bool {
    if x_of(r) != x_of(b) {
        lhs == affine_sum(r, b)
    } else {
        y_of(r) == y_of(b) && scalar_multiple(b, two_scalar()) == Some(lhs)
    }
}

/// Whether `(r, s)` is accepted as a signature on `m` under public key `pk`:
/// `s` is reduced, `R` has reduced coordinates, and `s * G == R + e * pk`.
pub open spec fn accepts(pk: Seq<u8>, m: Seq<u8>, r: Seq<u8>, s: Seq<u8>) -> bool {
    let e = challenge_value(x_of(r), x_of(pk), m);
    be_nat(s) < group_order() && canonical(r) && match base_multiple(s) {
        None => false,
        Some(lhs) => match scalar_multiple(pk, e) {
            None => false,
            Some(b) => canonical(b) && sum_matches(r, b, lhs),
        },
    }
}

/// The challenge is a function of its inputs: equal commitments, keys and messages give
/// equal challenges, so a verifier recomputes exactly the signer's challenge.
pub proof fn lemma_challenge_deterministic(
    rx1: Seq<u8>,
    pkx1: Seq<u8>,
    m1: Seq<u8>,
    rx2: Seq<u8>,
    pkx2: Seq<u8>,
    m2: Seq<u8>,
)
    requires
        rx1 == rx2,
        pkx1 == pkx2,
        m1 == m2,
    ensures
        challenge_value(rx1, pkx1, m1) == challenge_value(rx2, pkx2, m2),
{
}

/// What a successful signature is made of: its commitment is `k * G` for the derived nonce
/// `k`, the public key is `x * G`, and the response is `(k + e * x) mod N` for the very
/// challenge `e` that verification recomputes from the commitment, the key and the message;
/// the response is below the group order and the nonce is nonzero, as verification demands.
pub proof fn lemma_signature_shape(sk: Seq<u8>, m: Seq<u8>, aux: Seq<u8>)
    requires
        sign_result(sk, m, aux) is Ok,
    ensures
        ({
            let (r, s) = sign_result(sk, m, aux)->Ok_0;
            let pk = base_multiple(sk)->Some_0;
            let k = be32(nonce_number(blinded_aux(sk, aux), x_of(pk), m));
            &&& valid_secret(sk)
            &&& base_multiple(sk) is Some
            &&& nonce_number(blinded_aux(sk, aux), x_of(pk), m) != 0
            &&& base_multiple(k) == Some(r)
            &&& s == response_value(k, challenge_value(x_of(r), x_of(pk), m), sk)
            &&& be_nat(k) == nonce_number(blinded_aux(sk, aux), x_of(pk), m)
            &&& be_nat(s) < group_order()
        }),
{
    let (r, s) = sign_result(sk, m, aux)->Ok_0;
    let pk = base_multiple(sk)->Some_0;
    let kn = nonce_number(blinded_aux(sk, aux), x_of(pk), m);
    let k = be32(kn);
    let e = challenge_value(x_of(r), x_of(pk), m);
    let sn = (be_nat(k) + (be_nat(e) * be_nat(sk)) % group_order()) % group_order();
    lemma_moduli_positive();
    lemma_be_nat_bound(GROUP_ORDER@);
    lemma_mod_bound(be_nat(prf(NONCE_TAG@, blinded_aux(sk, aux) + x_of(pk) + m)) as int, group_order() as int);
    lemma_be32_value(kn);
    lemma_mod_bound((be_nat(k) + (be_nat(e) * be_nat(sk)) % group_order()) as int, group_order() as int);
    lemma_be32_value(sn);
}

/// The view of a signing outcome.
pub open spec fn signed_view(r: Result<SchnorrSignature, Secp256k1SchnorrError>) -> Result<
    (Seq<u8>, Seq<u8>),
    Secp256k1SchnorrError,
> {
    match r {
        Ok(sig) => Ok((sig.r.bytes@, sig.s@)),
        Err(err) => Err(err),
    }
}

/// Whether two byte strings are equal; every byte is read whatever the outcome.
pub fn bytes_equal(a: &[u8], b: &[u8]) -> (r: bool)
    ensures
        r == (a@ == b@),
{
    if a.len() != b.len() {
        return false;
    }
    let mut same = true;
    let mut i: usize = 0;
    while i < a.len()
        invariant
            a@.len() == b@.len(),
            i <= a@.len(),
            same == (forall|j: int| 0 <= j < i ==> a@[j] == b@[j]),
        decreases a@.len() - i,
    {
        if a[i] != b[i] {
            same = false;
        }
        i = i + 1;
    }
    if !same {
        assert(exists|j: int| 0 <= j < a@.len() && a@[j] != b@[j]);
    } else {
        assert(a@ =~= b@);
    }
    same
}

impl LatticeChallenge {
    /// The challenge for a commitment with `x` coordinate `r`, a public key and a message.
    pub fn challenge(r: &[u8; 32], pubkey: &CurvePoint, message: &[u8]) -> (e: [u8; 32])
        ensures
            e@ == challenge_value(r@, x_of(pubkey.bytes@), message@),
    {
        let px = pubkey.x();
        let mut input: Vec<u8> = Vec::new();
        crate::prf::append(&mut input, r);
        crate::prf::append(&mut input, &px);
        crate::prf::append(&mut input, message);
        assert(input@ =~= r@ + px@ + message@);
        let h = tagged_hash(&CHALLENGE_TAG, input.as_slice());
        reduce_mod_n(&h)
    }

    /// The auxiliary randomness passed through the pseudorandom function and blinded with the
    /// secret key.
    pub fn aux_randomness(secret_key: &[u8; 32], aux: &[u8; 32]) -> (t: [u8; 32])
        ensures
            t@ == blinded_aux(secret_key@, aux@),
    {
        let h = tagged_hash(&AUX_TAG, aux);
        xor32(&h, secret_key)
    }

    /// The nonce `k` derived from the blinded randomness, the public key and the message, with
    /// its commitment `k * G`; `InvalidNonce` when `k` is zero or has no commitment.
    pub fn nonce(pubkey: &CurvePoint, message: &[u8], aux: &[u8; 32]) -> (r: Result<
        ([u8; 32], CurvePoint),
        Secp256k1SchnorrError,
    >)
        ensures
            match r {
                Ok((k, p)) => nonce_result(pubkey.bytes@, message@, aux@) == Ok::<
                    (Seq<u8>, Seq<u8>),
                    Secp256k1SchnorrError,
                >((k@, p.bytes@)),
                Err(err) => nonce_result(pubkey.bytes@, message@, aux@) == Err::<
                    (Seq<u8>, Seq<u8>),
                    Secp256k1SchnorrError,
                >(err),
            },
            r matches Ok((k, _)) ==> be_nat(k@) < group_order(),
            r matches Ok((_, p)) ==> on_curve(p.bytes@),
            r is Err <==> nonce_number(aux@, x_of(pubkey.bytes@), message@) == 0,
    {
        let px = pubkey.x();
        let mut input: Vec<u8> = Vec::new();
        crate::prf::append(&mut input, aux);
        crate::prf::append(&mut input, &px);
        crate::prf::append(&mut input, message);
        assert(input@ =~= aux@ + px@ + message@);
        let h = tagged_hash(&NONCE_TAG, input.as_slice());
        let k = reduce_mod_n(&h);
        proof {
            crate::scalar::lemma_moduli_positive();
            vstd::arithmetic::div_mod::lemma_mod_bound(be_nat(h@) as int, group_order() as int);
        }
        if is_zero_be(&k) {
            return Err(Secp256k1SchnorrError::InvalidNonce);
        }
        proof {
            vstd::arithmetic::div_mod::lemma_small_mod(be_nat(k@), group_order());
        }
        match mul_g(&k) {
            Some(p) => Ok((k, p)),
            None => Err(Secp256k1SchnorrError::InvalidNonce),
        }
    }
}

/// Signs `message` with secret key `sk` and the caller's auxiliary randomness `aux`.
pub fn sign(sk: &[u8; 32], message: &[u8], aux: &[u8; 32]) -> (r: Result<
    SchnorrSignature,
    Secp256k1SchnorrError,
>)
    ensures
        signed_view(r) == sign_result(sk@, message@, aux@),
        valid_secret(sk@) ==> base_multiple(sk@) is Some,
        valid_secret(sk@) ==> r is Ok || r == Err::<SchnorrSignature, Secp256k1SchnorrError>(
            Secp256k1SchnorrError::InvalidNonce,
        ),
        r matches Ok(sig) ==> on_curve(sig.r.bytes@),
{
    let x = validate_secret(sk)?;
    proof {
        vstd::arithmetic::div_mod::lemma_small_mod(be_nat(x@), group_order());
    }
    let pk = match mul_g(&x) {
        Some(p) => p,
        None => return Err(Secp256k1SchnorrError::InvalidSecretKey),
    };
    let t = LatticeChallenge::aux_randomness(&x, aux);
    let (k, commitment) = LatticeChallenge::nonce(&pk, message, &t)?;
    let rx = commitment.x();
    let e = LatticeChallenge::challenge(&rx, &pk, message);
    let s = response_scalar(&k, &e, &x);
    Ok(SchnorrSignature { r: commitment, s })
}

/// Checks `sig` on `message` under public key `pk`; `InvalidSignature` when it is not accepted.
pub fn verify(pk: &CurvePoint, message: &[u8], sig: &SchnorrSignature) -> (r: Result<
    (),
    Secp256k1SchnorrError,
>)
    ensures
        r is Ok <==> accepts(pk.bytes@, message@, sig.r.bytes@, sig.s@),
        r is Err ==> r == Err::<(), Secp256k1SchnorrError>(Secp256k1SchnorrError::InvalidSignature),
{
    let fail = Err(Secp256k1SchnorrError::InvalidSignature);
    if compare_be(&sig.s, &GROUP_ORDER) != -1 || !sig.r.is_canonical() {
        return fail;
    }
    let rx = sig.r.x();
    let e = LatticeChallenge::challenge(&rx, pk, message);
    let lhs = match mul_g(&sig.s) {
        Some(p) => p,
        None => return fail,
    };
    let b = match ecmul(pk, &e) {
        Some(p) => p,
        None => return fail,
    };
    if !b.is_canonical() {
        return fail;
    }
    let bx = b.x();
    let rhs = if !bytes_equal(&rx, &bx) {
        add_points(&sig.r, &b)
    } else {
        let ry = sig.r.y();
        let by = b.y();
        if !bytes_equal(&ry, &by) {
            return fail;
        }
        let two: [u8; 32] = [
            0, 0, 0, 0, 0, 0, 0, 0, 0, 0, 0, 0, 0, 0, 0, 0,
            0, 0, 0, 0, 0, 0, 0, 0, 0, 0, 0, 0, 0, 0, 0, 2,
        ];
        assert(two@ =~= two_scalar());
        match ecmul(&b, &two) {
            Some(p) => p,
            None => return fail,
        }
    };
    if bytes_equal(&lhs.bytes, &rhs.bytes) {
        Ok(())
    } else {
        fail
    }
}

} // verus!
