use vstd::prelude::*;
use vstd::arithmetic::div_mod::{lemma_breakdown, lemma_mod_bound, lemma_small_mod};

use solana_secp256k1::Secp256k1;

use crate::errors::Secp256k1SchnorrError;

verus! {

/// Order `N` of the secp256k1 group, big-endian.
pub const GROUP_ORDER: [u8; 32] = [
    0xff, 0xff, 0xff, 0xff, 0xff, 0xff, 0xff, 0xff, 0xff, 0xff, 0xff, 0xff, 0xff, 0xff, 0xff, 0xfe,
    0xba, 0xae, 0xdc, 0xe6, 0xaf, 0x48, 0xa0, 0x3b, 0xbf, 0xd2, 0x5e, 0x8c, 0xd0, 0x36, 0x41, 0x41,
];

/// Prime `P` of the field that the curve is defined over, big-endian.
pub const FIELD_PRIME: [u8; 32] = [
    0xff, 0xff, 0xff, 0xff, 0xff, 0xff, 0xff, 0xff, 0xff, 0xff, 0xff, 0xff, 0xff, 0xff, 0xff, 0xff,
    0xff, 0xff, 0xff, 0xff, 0xff, 0xff, 0xff, 0xff, 0xff, 0xff, 0xff, 0xfe, 0xff, 0xff, 0xfc, 0x2f,
];

/// The group order as a number.
pub open spec fn group_order() -> nat {
    be_nat(GROUP_ORDER@)
}

/// The field prime as a number.
pub open spec fn field_prime() -> nat {
    be_nat(FIELD_PRIME@)
}

/// The 32-byte big-endian encoding of `n`, taken modulo `256^32`.
pub open spec fn be32(n: nat) -> Seq<u8> {
    Seq::new(32, |i: int| ((n / pow256((31 - i) as nat)) % 256) as u8)
}

/// The `len`-byte big-endian encoding of `n`, taken modulo `256^len`.
pub open spec fn be_enc(n: nat, len: nat) -> Seq<u8> {
    Seq::new(len, |i: int| ((n / pow256((len - 1 - i) as nat)) % 256) as u8)
}

/// Reading back an encoding gives the number modulo `256^len`.
pub proof fn lemma_be_enc_value(n: nat, len: nat)
    ensures
        be_nat(be_enc(n, len)) == n % pow256(len),
    decreases len,
{
    if len == 0 {
        assert(n % 1 == 0);
    } else {
        let l = (len - 1) as nat;
        let s = be_enc(n, len);
        let p = pow256(l);
        assert(s.skip(1) =~= be_enc(n, l));
        lemma_be_enc_value(n, l);
        lemma_pow256_pos(l);
        lemma_breakdown(n as int, p as int, 256);
        assert(s[0] as nat == (n / p) % 256);
        assert(p * 256 == pow256(len));
        assert(be_nat(s) == s[0] as nat * p + be_nat(s.skip(1)));
        let a = s[0] as nat;
        let b = (n / p) % 256;
        assert(a * p == p * b) by (nonlinear_arith)
            requires
                a == b,
        ;
    }
}

/// Reading back a 32-byte encoding of a number below `256^32` gives the number.
pub proof fn lemma_be32_value(n: nat)
    requires
        n < pow256(32),
    ensures
        be_nat(be32(n)) == n,
{
    assert(be32(n) =~= be_enc(n, 32));
    lemma_be_enc_value(n, 32);
    lemma_small_mod(n, pow256(32));
}

/// A valid secret key: a nonzero scalar below the group order.
pub open spec fn valid_secret(s: Seq<u8>) -> bool {
    0 < be_nat(s) < group_order()
}

/// `256^e`.
pub open spec fn pow256(e: nat) -> nat
    decreases e,
{
    if e == 0 {
        1
    } else {
        256 * pow256((e - 1) as nat)
    }
}

/// The value of a byte string read as a big-endian unsigned integer.
pub open spec fn be_nat(s: Seq<u8>) -> nat
    decreases s.len(),
{
    if s.len() == 0 {
        0
    } else {
        s[0] as nat * pow256((s.len() - 1) as nat) + be_nat(s.skip(1))
    }
}

pub proof fn lemma_pow256_pos(e: nat)
    ensures
        pow256(e) > 0,
    decreases e,
{
    if e > 0 {
        lemma_pow256_pos((e - 1) as nat);
    }
}

/// A big-endian value is below `256^len`.
pub proof fn lemma_be_nat_bound(s: Seq<u8>)
    ensures
        be_nat(s) < pow256(s.len()),
    decreases s.len(),
{
    if s.len() > 0 {
        let t = s.skip(1);
        lemma_be_nat_bound(t);
        let p = pow256(t.len());
        assert(s.len() - 1 == t.len());
        assert(s[0] as nat <= 255);
        assert(s[0] as nat * p + be_nat(t) < 256 * p) by (nonlinear_arith)
            requires
                s[0] as nat <= 255,
                be_nat(t) < p,
        ;
    }
}

/// Splitting off the leading byte of two equally long strings decides their order,
/// unless the bytes are equal, in which case the rests decide it.
pub proof fn lemma_be_nat_leading(s: Seq<u8>, t: Seq<u8>)
    requires
        s.len() == t.len(),
        s.len() > 0,
    ensures
        s[0] < t[0] ==> be_nat(s) < be_nat(t),
        s[0] > t[0] ==> be_nat(s) > be_nat(t),
        s[0] == t[0] ==> be_nat(s) - be_nat(t) == be_nat(s.skip(1)) - be_nat(t.skip(1)),
        be_nat(s) == 0 <==> (s[0] == 0 && be_nat(s.skip(1)) == 0),
{
    let p = pow256((s.len() - 1) as nat);
    lemma_pow256_pos((s.len() - 1) as nat);
    lemma_be_nat_bound(s.skip(1));
    lemma_be_nat_bound(t.skip(1));
    let a = s[0] as nat;
    let b = t[0] as nat;
    let x = be_nat(s.skip(1));
    let y = be_nat(t.skip(1));
    assert(be_nat(s) == a * p + x);
    assert(be_nat(t) == b * p + y);
    assert(a < b ==> a * p + x < b * p + y) by (nonlinear_arith)
        requires
            x < p,
            y < p,
    ;
    assert(a > b ==> a * p + x > b * p + y) by (nonlinear_arith)
        requires
            x < p,
            y < p,
    ;
    assert(a * p + x == 0 <==> (a == 0 && x == 0)) by (nonlinear_arith)
        requires
            p > 0,
    ;
}

proof fn lemma_skip_step(s: Seq<u8>, i: int)
    requires
        0 <= i < s.len(),
    ensures
        s.skip(i).len() > 0,
        s.skip(i)[0] == s[i],
        s.skip(i).skip(1) == s.skip(i + 1),
{
    assert(s.skip(i).skip(1) =~= s.skip(i + 1));
}

/// Three-way comparison of two big-endian 256-bit values: `-1`, `0` or `1`.
/// Every byte is read whatever the outcome.
pub fn compare_be(a: &[u8; 32], b: &[u8; 32]) -> (r: i8)
    ensures
        r == -1 <==> be_nat(a@) < be_nat(b@),
        r == 0 <==> be_nat(a@) == be_nat(b@),
        r == 1 <==> be_nat(a@) > be_nat(b@),
{
    let mut r: i8 = 0;
    let mut i: usize = 32;
    assert(a@.skip(32).len() == 0 && b@.skip(32).len() == 0);
    while i > 0
        invariant
            i <= 32,
            -1 <= r <= 1,
            r == -1 <==> be_nat(a@.skip(i as int)) < be_nat(b@.skip(i as int)),
            r == 0 <==> be_nat(a@.skip(i as int)) == be_nat(b@.skip(i as int)),
        decreases i,
    {
        i = i - 1;
        let x = a[i];
        let y = b[i];
        proof {
            lemma_skip_step(a@, i as int);
            lemma_skip_step(b@, i as int);
            lemma_be_nat_leading(a@.skip(i as int), b@.skip(i as int));
        }
        if x < y {
            r = -1;
        } else if x > y {
            r = 1;
        }
    }
    assert(a@.skip(0) =~= a@);
    assert(b@.skip(0) =~= b@);
    r
}

/// Whether a big-endian value is zero. Every byte is read.
pub fn is_zero_be(a: &[u8; 32]) -> (r: bool)
    ensures
        r == (be_nat(a@) == 0),
{
    let mut z = true;
    let mut i: usize = 32;
    assert(a@.skip(32).len() == 0);
    while i > 0
        invariant
            i <= 32,
            z == (be_nat(a@.skip(i as int)) == 0),
        decreases i,
    {
        i = i - 1;
        proof {
            lemma_skip_step(a@, i as int);
            lemma_be_nat_leading(a@.skip(i as int), a@.skip(i as int));
        }
        if a[i] != 0 {
            z = false;
        }
    }
    assert(a@.skip(0) =~= a@);
    z
}

/// Accepts 32 bytes as a secret key when they encode a nonzero value below the
/// group order.
pub fn validate_secret(bytes: &[u8; 32]) -> (r: Result<[u8; 32], Secp256k1SchnorrError>)
    ensures
        valid_secret(bytes@) ==> r == Ok::<[u8; 32], Secp256k1SchnorrError>(*bytes),
        !valid_secret(bytes@) ==> r == Err::<[u8; 32], Secp256k1SchnorrError>(
            Secp256k1SchnorrError::InvalidSecretKey,
        ),
{
    let zero = is_zero_be(bytes);
    let below = compare_be(bytes, &GROUP_ORDER) == -1;
    if zero || !below {
        Err(Secp256k1SchnorrError::InvalidSecretKey)
    } else {
        Ok(*bytes)
    }
}

/// The group order and the field prime are positive.
pub proof fn lemma_moduli_positive()
    ensures
        group_order() > 0,
        field_prime() > 0,
        field_prime() > 7,
{
    lemma_pow256_pos(31);
    assert(GROUP_ORDER@[0] == 0xff);
    assert(FIELD_PRIME@[0] == 0xff);
    assert(be_nat(GROUP_ORDER@) >= GROUP_ORDER@[0] as nat * pow256(31));
    assert(be_nat(FIELD_PRIME@) >= FIELD_PRIME@[0] as nat * pow256(31));
    assert(pow256(31) > 7) by {
        reveal_with_fuel(pow256, 2);
        lemma_pow256_pos(30);
    }
}

/// Relies on solana_secp256k1::Secp256k1::mul_mod_n: `(a * b) mod N` for any inputs,
/// returned big-endian.
#[verifier::external_body]
fn mul_mod_n(a: &[u8; 32], b: &[u8; 32]) -> (r: [u8; 32])
    ensures
        be_nat(r@) == (be_nat(a@) * be_nat(b@)) % group_order(),
        r@ == be32((be_nat(a@) * be_nat(b@)) % group_order()),
{
    Secp256k1::mul_mod_n(a, b)
}

/// Relies on solana_secp256k1::Secp256k1::add_mod_n: `(a + b) mod N` for reduced inputs,
/// returned big-endian.
#[verifier::external_body]
fn add_mod_n(a: &[u8; 32], b: &[u8; 32]) -> (r: [u8; 32])
    requires
        be_nat(a@) < group_order(),
        be_nat(b@) < group_order(),
    ensures
        be_nat(r@) == (be_nat(a@) + be_nat(b@)) % group_order(),
        r@ == be32((be_nat(a@) + be_nat(b@)) % group_order()),
{
    Secp256k1::add_mod_n(a, b)
}

/// A byte string whose leading bytes are zero has the value of its last byte.
pub proof fn lemma_be_nat_small(s: Seq<u8>)
    requires
        s.len() == 32,
        forall|i: int| 0 <= i < 31 ==> s[i] == 0,
    ensures
        be_nat(s) == s[31] as nat,
{
    lemma_be_nat_small_from(s, 0);
    assert(s.skip(0) =~= s);
}

proof fn lemma_be_nat_small_from(s: Seq<u8>, k: int)
    requires
        s.len() == 32,
        0 <= k <= 31,
        forall|i: int| 0 <= i < 31 ==> s[i] == 0,
    ensures
        be_nat(s.skip(k)) == s[31] as nat,
    decreases 31 - k,
{
    let t = s.skip(k);
    assert(t.skip(1) =~= s.skip(k + 1));
    assert(t[0] == s[k]);
    assert(be_nat(t) == t[0] as nat * pow256((t.len() - 1) as nat) + be_nat(t.skip(1)));
    if k == 31 {
        assert(s.skip(32).len() == 0);
        assert(be_nat(s.skip(32)) == 0);
        assert(t.len() == 1);
        assert(pow256(0) == 1);
        let c = t[0] as nat;
        let q = pow256(0);
        assert(c * q == c) by (nonlinear_arith)
            requires
                q == 1,
        ;
    } else {
        lemma_be_nat_small_from(s, k + 1);
        assert(t[0] == 0);
        assert(be_nat(t) == be_nat(s.skip(k + 1)));
    }
}

/// The zero scalar and the group order itself are not valid secret keys.
pub proof fn lemma_secret_boundaries()
    ensures
        !valid_secret(Seq::new(32, |i: int| 0u8)),
        !valid_secret(GROUP_ORDER@),
{
    lemma_be_nat_small(Seq::new(32, |i: int| 0u8));
}

/// `h mod N`, big-endian.
pub fn reduce_mod_n(h: &[u8; 32]) -> (r: [u8; 32])
    ensures
        be_nat(r@) == be_nat(h@) % group_order(),
        r@ == be32(be_nat(h@) % group_order()),
{
    let one: [u8; 32] = [
        0, 0, 0, 0, 0, 0, 0, 0, 0, 0, 0, 0, 0, 0, 0, 0,
        0, 0, 0, 0, 0, 0, 0, 0, 0, 0, 0, 0, 0, 0, 0, 1,
    ];
    proof {
        lemma_be_nat_small(one@);
        assert(be_nat(h@) * 1 == be_nat(h@));
    }
    mul_mod_n(h, &one)
}

/// `(k + e * x) mod N` for reduced `k`, big-endian.
pub fn response_scalar(k: &[u8; 32], e: &[u8; 32], x: &[u8; 32]) -> (r: [u8; 32])
    requires
        be_nat(k@) < group_order(),
    ensures
        be_nat(r@) == (be_nat(k@) + (be_nat(e@) * be_nat(x@)) % group_order()) % group_order(),
        r@ == be32((be_nat(k@) + (be_nat(e@) * be_nat(x@)) % group_order()) % group_order()),
{
    let ex = mul_mod_n(e, x);
    proof {
        lemma_moduli_positive();
        lemma_mod_bound((be_nat(e@) * be_nat(x@)) as int, group_order() as int);
    }
    add_mod_n(k, &ex)
}

} // verus!
