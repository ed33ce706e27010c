use vstd::prelude::*;
use vstd::arithmetic::div_mod::{lemma_add_mod_noop, lemma_mod_bound, lemma_mul_mod_noop_left, lemma_small_mod};

use solana_secp256k1::{Secp256k1, UncompressedPoint};

use crate::errors::Secp256k1SchnorrError;
use crate::scalar::{
    be_nat, compare_be, field_prime, lemma_be_nat_small, lemma_moduli_positive, FIELD_PRIME,
};

verus! {

/// An affine curve point encoded as `x || y`, each coordinate 32 bytes big-endian.
#[derive(Clone, Copy, Debug)]
pub struct CurvePoint {
    pub bytes: [u8; 64],
}

/// The `x` coordinate of a 64-byte encoding.
pub open spec fn x_of(p: Seq<u8>) -> Seq<u8> {
    p.subrange(0, 32)
}

/// The `y` coordinate of a 64-byte encoding.
pub open spec fn y_of(p: Seq<u8>) -> Seq<u8> {
    p.subrange(32, 64)
}

/// Both coordinates are reduced field elements.
pub open spec fn canonical(p: Seq<u8>) -> bool {
    p.len() == 64 && be_nat(x_of(p)) < field_prime() && be_nat(y_of(p)) < field_prime()
}

/// The encoding satisfies `y^2 = x^3 + 7` over the field.
pub open spec fn on_curve(p: Seq<u8>) -> bool {
    let x = be_nat(x_of(p));
    let y = be_nat(y_of(p));
    canonical(p) && (y * y) % field_prime() == (x * x * x + 7) % field_prime()
}

/// The encoding of the point at infinity: 64 zero bytes.
pub open spec fn infinity_encoding() -> Seq<u8> {
    Seq::new(64, |i: int| 0u8)
}

/// The encoding of a point that may be absent.
pub open spec fn point_view(o: Option<CurvePoint>) -> Option<Seq<u8>> {
    match o {
        Some(p) => Some(p.bytes@),
        None => None,
    }
}

/// What the curve library returns for `k * G`, as an encoding.
pub uninterp spec fn base_multiple(k: Seq<u8>) -> Option<Seq<u8>>;

/// What the curve library returns for `k * P`, as an encoding.
pub uninterp spec fn scalar_multiple(p: Seq<u8>, k: Seq<u8>) -> Option<Seq<u8>>;

/// What the curve library returns for the affine sum of two points with distinct `x`.
pub uninterp spec fn affine_sum(a: Seq<u8>, b: Seq<u8>) -> Seq<u8>;

/// Relies on solana_secp256k1::Secp256k1::mul_mod_p: `(a * b) mod P` for any inputs.
#[verifier::external_body]
fn mul_mod_p(a: &[u8; 32], b: &[u8; 32]) -> (r: [u8; 32])
    ensures
        be_nat(r@) == (be_nat(a@) * be_nat(b@)) % field_prime(),
{
    Secp256k1::mul_mod_p(a, b)
}

/// Relies on solana_secp256k1::Secp256k1::add_mod_p: `(a + b) mod P` for reduced inputs.
#[verifier::external_body]
fn add_mod_p(a: &[u8; 32], b: &[u8; 32]) -> (r: [u8; 32])
    requires
        be_nat(a@) < field_prime(),
        be_nat(b@) < field_prime(),
    ensures
        be_nat(r@) == (be_nat(a@) + be_nat(b@)) % field_prime(),
{
    Secp256k1::add_mod_p(a, b)
}

/// Relies on solana_secp256k1::Secp256k1::mul_g: `k * G`, an affine point on the curve, and an
/// error exactly when `k` is zero mod `N`.
#[verifier::external_body]
pub(crate) fn mul_g(k: &[u8; 32]) -> (r: Option<CurvePoint>)
    ensures
        point_view(r) == base_multiple(k@),
        be_nat(k@) % crate::scalar::group_order() == 0 <==> r is None,
        r matches Some(p) ==> on_curve(p.bytes@),
{
    match Secp256k1::mul_g(k) {
        Ok(p) => Some(CurvePoint { bytes: p.0 }),
        Err(_) => None,
    }
}

/// Relies on solana_secp256k1::Secp256k1::ecmul: `k * P` for a point `P`.
#[verifier::external_body]
pub(crate) fn ecmul(p: &CurvePoint, k: &[u8; 32]) -> (r: Option<CurvePoint>)
    ensures
        point_view(r) == scalar_multiple(p.bytes@, k@),
{
    match Secp256k1::ecmul(&UncompressedPoint(p.bytes), k) {
        Ok(q) => Some(CurvePoint { bytes: q.0 }),
        Err(_) => None,
    }
}

/// Relies on solana_secp256k1's `Add` for `UncompressedPoint`: the affine chord sum.
/// With reduced coordinates and distinct `x` it neither doubles nor panics.
#[verifier::external_body]
pub(crate) fn add_points(a: &CurvePoint, b: &CurvePoint) -> (r: CurvePoint)
    requires
        canonical(a.bytes@),
        canonical(b.bytes@),
        x_of(a.bytes@) != x_of(b.bytes@),
    ensures
        r.bytes@ == affine_sum(a.bytes@, b.bytes@),
{
    CurvePoint { bytes: (UncompressedPoint(a.bytes) + UncompressedPoint(b.bytes)).0 }
}

/// The 32 bytes of `p` that start at `off`.
fn coordinate(p: &[u8; 64], off: usize) -> (r: [u8; 32])
    requires
        off == 0 || off == 32,
    ensures
        r@ == p@.subrange(off as int, off + 32),
{
    let mut r = [0u8; 32];
    let mut i: usize = 0;
    while i < 32
        invariant
            i <= 32,
            off == 0 || off == 32,
            forall|j: int| 0 <= j < i ==> r@[j] == p@[off + j],
        decreases 32 - i,
    {
        r[i] = p[off + i];
        i = i + 1;
    }
    assert(r@ =~= p@.subrange(off as int, off + 32));
    r
}

impl CurvePoint {
    /// The `x` coordinate.
    pub fn x(&self) -> (r: [u8; 32])
        ensures
            r@ == x_of(self.bytes@),
    {
        coordinate(&self.bytes, 0)
    }

    /// The `y` coordinate.
    pub fn y(&self) -> (r: [u8; 32])
        ensures
            r@ == y_of(self.bytes@),
    {
        coordinate(&self.bytes, 32)
    }

    /// Whether both coordinates are reduced field elements.
    pub fn is_canonical(&self) -> (r: bool)
        ensures
            r == canonical(self.bytes@),
    {
        let x = self.x();
        let y = self.y();
        compare_be(&x, &FIELD_PRIME) == -1 && compare_be(&y, &FIELD_PRIME) == -1
    }

    /// Whether the point satisfies the curve equation.
    pub fn is_on_curve(&self) -> (r: bool)
        ensures
            r == on_curve(self.bytes@),
    {
        if !self.is_canonical() {
            return false;
        }
        let x = self.x();
        let y = self.y();
        let seven: [u8; 32] = [
            0, 0, 0, 0, 0, 0, 0, 0, 0, 0, 0, 0, 0, 0, 0, 0,
            0, 0, 0, 0, 0, 0, 0, 0, 0, 0, 0, 0, 0, 0, 0, 7,
        ];
        proof {
            lemma_moduli_positive();
            lemma_be_nat_small(seven@);
        }
        let yy = mul_mod_p(&y, &y);
        let xx = mul_mod_p(&x, &x);
        let xxx = mul_mod_p(&xx, &x);
        proof {
            let pr = field_prime() as int;
            let xv = be_nat(x@) as int;
            lemma_mod_bound(xv * xv * xv, pr);
            lemma_mul_mod_noop_left(xv * xv, xv, pr);
            lemma_add_mod_noop(xv * xv * xv, 7, pr);
            lemma_small_mod(7, field_prime());
            lemma_mod_bound(xv * xv * xv + 7, pr);
            lemma_mod_bound((xv * xv * xv) % pr + 7, pr);
        }
        let rhs = add_mod_p(&xxx, &seven);
        compare_be(&yy, &rhs) == 0
    }
}

/// The encoding of the point at infinity does not lie on the curve, so it is rejected as a
/// public key.
pub proof fn lemma_infinity_rejected()
    ensures
        !on_curve(infinity_encoding()),
{
    let z = infinity_encoding();
    assert(x_of(z) =~= Seq::new(32, |i: int| 0u8));
    assert(y_of(z) =~= Seq::new(32, |i: int| 0u8));
    lemma_be_nat_small(x_of(z));
    lemma_be_nat_small(y_of(z));
    lemma_moduli_positive();
    lemma_small_mod(7, field_prime());
    lemma_small_mod(0, field_prime());
}

/// Accepts 64 bytes as a public key when they encode a point on the curve.
pub fn validate_public(bytes: &[u8; 64]) -> (r: Result<CurvePoint, Secp256k1SchnorrError>)
    ensures
        on_curve(bytes@) ==> r == Ok::<CurvePoint, Secp256k1SchnorrError>(CurvePoint { bytes: *bytes }),
        !on_curve(bytes@) ==> r == Err::<CurvePoint, Secp256k1SchnorrError>(
            Secp256k1SchnorrError::InvalidPublicKey,
        ),
{
    let p = CurvePoint { bytes: *bytes };
    if p.is_on_curve() {
        Ok(p)
    } else {
        Err(Secp256k1SchnorrError::InvalidPublicKey)
    }
}

} // verus!
