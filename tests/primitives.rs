use lattice_schnorr::errors::Secp256k1SchnorrError;
use lattice_schnorr::point::{validate_public, CurvePoint};
use lattice_schnorr::prf::{tagged_hash, xor32, AUX_TAG};
use lattice_schnorr::scalar::{
    compare_be, is_zero_be, reduce_mod_n, response_scalar, validate_secret, GROUP_ORDER,
};
use lattice_schnorr::schnorr::{sign, verify, LatticeChallenge};

const GENERATOR: [u8; 64] = [
    0x79, 0xbe, 0x66, 0x7e, 0xf9, 0xdc, 0xbb, 0xac, 0x55, 0xa0, 0x62, 0x95, 0xce, 0x87, 0x0b, 0x07,
    0x02, 0x9b, 0xfc, 0xdb, 0x2d, 0xce, 0x28, 0xd9, 0x59, 0xf2, 0x81, 0x5b, 0x16, 0xf8, 0x17, 0x98,
    0x48, 0x3a, 0xda, 0x77, 0x26, 0xa3, 0xc4, 0x65, 0x5d, 0xa4, 0xfb, 0xfc, 0x0e, 0x11, 0x08, 0xa8,
    0xfd, 0x17, 0xb4, 0x48, 0xa6, 0x85, 0x54, 0x19, 0x9c, 0x47, 0xd0, 0x8f, 0xfb, 0x10, 0xd4, 0xb8,
];

fn small(v: u8) -> [u8; 32] {
    let mut a = [0u8; 32];
    a[31] = v;
    a
}

#[test]
fn secret_key_boundaries() {
    assert_eq!(validate_secret(&[0u8; 32]), Err(Secp256k1SchnorrError::InvalidSecretKey));
    assert_eq!(validate_secret(&GROUP_ORDER), Err(Secp256k1SchnorrError::InvalidSecretKey));
    assert_eq!(validate_secret(&[0xff; 32]), Err(Secp256k1SchnorrError::InvalidSecretKey));
    let mut below = GROUP_ORDER;
    below[31] -= 1;
    assert_eq!(validate_secret(&below), Ok(below));
    assert_eq!(validate_secret(&small(1)), Ok(small(1)));
}

#[test]
fn public_key_boundaries() {
    assert!(matches!(validate_public(&[0u8; 64]), Err(Secp256k1SchnorrError::InvalidPublicKey)));
    assert_eq!(validate_public(&GENERATOR).unwrap().bytes.to_vec(), GENERATOR.to_vec());
    let mut off = GENERATOR;
    off[63] ^= 1;
    assert!(matches!(validate_public(&off), Err(Secp256k1SchnorrError::InvalidPublicKey)));
    let mut too_big = GENERATOR;
    for b in too_big[..32].iter_mut() {
        *b = 0xff;
    }
    assert!(matches!(validate_public(&too_big), Err(Secp256k1SchnorrError::InvalidPublicKey)));
}

#[test]
fn big_endian_comparison() {
    assert_eq!(compare_be(&small(1), &small(2)), -1);
    assert_eq!(compare_be(&small(2), &small(2)), 0);
    let mut high = [0u8; 32];
    high[0] = 1;
    assert_eq!(compare_be(&high, &[0x00, 0xff, 0xff, 0xff, 0xff, 0xff, 0xff, 0xff, 0xff, 0xff, 0xff,
        0xff, 0xff, 0xff, 0xff, 0xff, 0xff, 0xff, 0xff, 0xff, 0xff, 0xff, 0xff, 0xff, 0xff, 0xff,
        0xff, 0xff, 0xff, 0xff, 0xff, 0xff]), 1);
    assert!(is_zero_be(&[0u8; 32]));
    assert!(!is_zero_be(&high));
}

#[test]
fn reduction_modulo_the_order() {
    assert_eq!(reduce_mod_n(&GROUP_ORDER), [0u8; 32]);
    assert_eq!(reduce_mod_n(&small(9)), small(9));
    let mut expected = [0u8; 32];
    // 2^256 - 1 - N
    let tail = [0x01, 0x45, 0x51, 0x23, 0x19, 0x50, 0xb7, 0x5f, 0xc4, 0x40, 0x2d, 0xa1, 0x73, 0x2f,
        0xc9, 0xbe, 0xbe];
    expected[15..].copy_from_slice(&tail);
    assert_eq!(reduce_mod_n(&[0xff; 32]), expected);
}

#[test]
fn response_is_k_plus_e_times_x() {
    assert_eq!(response_scalar(&small(1), &small(2), &small(3)), small(7));
    let mut n_minus_one = GROUP_ORDER;
    n_minus_one[31] -= 1;
    assert_eq!(response_scalar(&n_minus_one, &small(1), &small(1)), [0u8; 32]);
}

#[test]
fn prf_is_sha256_over_tag_and_input() {
    let expected = [
        0xba, 0x78, 0x16, 0xbf, 0x8f, 0x01, 0xcf, 0xea, 0x41, 0x41, 0x40, 0xde, 0x5d, 0xae, 0x22,
        0x23, 0xb0, 0x03, 0x61, 0xa3, 0x96, 0x17, 0x7a, 0x9c, 0xb4, 0x10, 0xff, 0x61, 0xf2, 0x00,
        0x15, 0xad,
    ];
    assert_eq!(tagged_hash(b"ab", b"c"), expected);
    assert_eq!(xor32(&small(6), &small(3)), small(5));
}

#[test]
fn aux_randomness_is_blinded_with_the_secret() {
    let sk = small(0x5a);
    let aux = [3u8; 32];
    let t = LatticeChallenge::aux_randomness(&sk, &aux);
    assert_eq!(xor32(&t, &sk), tagged_hash(&AUX_TAG, &aux));
    assert_ne!(t, aux);
}

#[test]
fn challenge_is_deterministic() {
    let pk = CurvePoint { bytes: GENERATOR };
    let rx = [0x11u8; 32];
    let a = LatticeChallenge::challenge(&rx, &pk, b"msg");
    let b = LatticeChallenge::challenge(&rx, &pk, b"msg");
    assert_eq!(a, b);
    assert_ne!(a, LatticeChallenge::challenge(&rx, &pk, b"msh"));
    assert_eq!(compare_be(&a, &GROUP_ORDER), -1);
}

#[test]
fn nonce_commitment_is_k_times_g() {
    let pk = CurvePoint { bytes: GENERATOR };
    let (k, r) = LatticeChallenge::nonce(&pk, b"msg", &[9u8; 32]).unwrap();
    assert!(!is_zero_be(&k));
    let (x, p) = lattice_schnorr::vault::curve_keypair(&k).unwrap();
    assert_eq!(x, k);
    assert_eq!(p.bytes.to_vec(), r.bytes.to_vec());
}

#[test]
fn schnorr_sign_then_verify_with_fixed_inputs() {
    let sk = small(42);
    let pk = lattice_schnorr::vault::curve_keypair(&sk).unwrap().1;
    let sig = sign(&sk, b"hello", &[1u8; 32]).unwrap();
    assert_eq!(verify(&pk, b"hello", &sig), Ok(()));
    assert_eq!(verify(&pk, b"hellp", &sig), Err(Secp256k1SchnorrError::InvalidSignature));
    let mut high_s = sig;
    high_s.s = GROUP_ORDER;
    assert_eq!(verify(&pk, b"hello", &high_s), Err(Secp256k1SchnorrError::InvalidSignature));
    let mut zero_s = sig;
    zero_s.s = [0u8; 32];
    assert_eq!(verify(&pk, b"hello", &zero_s), Err(Secp256k1SchnorrError::InvalidSignature));
    assert_eq!(sign(&[0u8; 32], b"hello", &[1u8; 32]).err(), Some(Secp256k1SchnorrError::InvalidSecretKey));
}
