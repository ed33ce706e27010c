use vstd::prelude::*;

use sha2::Digest;

verus! {

/// Domain tag of the blinding of the auxiliary randomness: the ASCII text `LatticeSchnorr/aux`.
pub const AUX_TAG: [u8; 18] = [0x4c, 0x61, 0x74, 0x74, 0x69, 0x63, 0x65, 0x53, 0x63, 0x68, 0x6e, 0x6f, 0x72, 0x72, 0x2f, 0x61, 0x75, 0x78];

/// Domain tag of the nonce derivation: the ASCII text `LatticeSchnorr/nonce`.
pub const NONCE_TAG: [u8; 20] = [0x4c, 0x61, 0x74, 0x74, 0x69, 0x63, 0x65, 0x53, 0x63, 0x68, 0x6e, 0x6f, 0x72, 0x72, 0x2f, 0x6e, 0x6f, 0x6e, 0x63, 0x65];

/// Domain tag of the challenge derivation: the ASCII text `LatticeSchnorr/challenge`.
pub const CHALLENGE_TAG: [u8; 24] = [0x4c, 0x61, 0x74, 0x74, 0x69, 0x63, 0x65, 0x53, 0x63, 0x68, 0x6e, 0x6f, 0x72, 0x72, 0x2f, 0x63, 0x68, 0x61, 0x6c, 0x6c, 0x65, 0x6e, 0x67, 0x65];

/// The SHA-256 digest of a byte string.
pub uninterp spec fn sha256_of(data: Seq<u8>) -> Seq<u8>;

/// Relies on sha2::Sha256::digest: the 32-byte SHA-256 digest of `data`, which depends on
/// the bytes alone.
#[verifier::external_body]
fn sha256(data: &[u8]) -> (r: [u8; 32])
    ensures
        r@ == sha256_of(data@),
{
    sha2::Sha256::digest(data).into()
}

/// Byte-wise exclusive or of two equally long strings.
pub open spec fn xor_bytes(a: Seq<u8>, b: Seq<u8>) -> Seq<u8> {
    Seq::new(a.len(), |i: int| a[i] ^ b[i])
}

/// The pseudorandom function: SHA-256 over a domain tag followed by the input.
pub open spec fn prf(tag: Seq<u8>, input: Seq<u8>) -> Seq<u8> {
    sha256_of(tag + input)
}

/// Appends `s` to `v`.
pub fn append(v: &mut Vec<u8>, s: &[u8])
    ensures
        final(v)@ == old(v)@ + s@,
{
    let mut i: usize = 0;
    while i < s.len()
        invariant
            i <= s@.len(),
            v@ == old(v)@ + s@.subrange(0, i as int),
        decreases s@.len() - i,
    {
        assert(s@.subrange(0, i + 1) =~= s@.subrange(0, i as int) + seq![s@[i as int]]);
        v.push(s[i]);
        i = i + 1;
    }
    assert(s@.subrange(0, i as int) =~= s@);
}

/// `prf(tag, input)`, computed.
pub fn tagged_hash(tag: &[u8], input: &[u8]) -> (r: [u8; 32])
    ensures
        r@ == prf(tag@, input@),
{
    let mut buf: Vec<u8> = Vec::new();
    append(&mut buf, tag);
    append(&mut buf, input);
    assert(buf@ =~= tag@ + input@);
    sha256(buf.as_slice())
}

/// `a XOR b` on 32-byte strings.
pub fn xor32(a: &[u8; 32], b: &[u8; 32]) -> (r: [u8; 32])
    ensures
        r@ == xor_bytes(a@, b@),
{
    let mut r = [0u8; 32];
    let mut i: usize = 0;
    while i < 32
        invariant
            i <= 32,
            forall|j: int| 0 <= j < i ==> r@[j] == a@[j] ^ b@[j],
        decreases 32 - i,
    {
        r[i] = a[i] ^ b[i];
        i = i + 1;
    }
    assert(r@ =~= xor_bytes(a@, b@));
    r
}

} // verus!
