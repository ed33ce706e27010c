use lattice_schnorr::errors::Secp256k1SchnorrError;
use lattice_schnorr::vault::{
    authorize, curve_keypair, InstructionRejection, LatticeSchnorrVault, PublicKey, SecretKey,
    Signature, LATTICE_SECRET_KEY_BYTES, PUBLIC_KEY_BYTES, SIGNATURE_BYTES,
};

const GENERATOR: [u8; 64] = [
    0x79, 0xbe, 0x66, 0x7e, 0xf9, 0xdc, 0xbb, 0xac, 0x55, 0xa0, 0x62, 0x95, 0xce, 0x87, 0x0b, 0x07,
    0x02, 0x9b, 0xfc, 0xdb, 0x2d, 0xce, 0x28, 0xd9, 0x59, 0xf2, 0x81, 0x5b, 0x16, 0xf8, 0x17, 0x98,
    0x48, 0x3a, 0xda, 0x77, 0x26, 0xa3, 0xc4, 0x65, 0x5d, 0xa4, 0xfb, 0xfc, 0x0e, 0x11, 0x08, 0xa8,
    0xfd, 0x17, 0xb4, 0x48, 0xa6, 0x85, 0x54, 0x19, 0x9c, 0x47, 0xd0, 0x8f, 0xfb, 0x10, 0xd4, 0xb8,
];

#[test]
fn test_lattice_schnorr_vault() {
    let (sk, pk) = LatticeSchnorrVault::generate_keypair().unwrap();
    let message = b"test";
    let signature = LatticeSchnorrVault::sign(&sk, message).unwrap();
    assert!(LatticeSchnorrVault::verify(&pk, message, &signature).is_ok());
}

#[test]
fn test_lattice_schnorr_vault_invalid_signature() {
    let (sk, pk) = LatticeSchnorrVault::generate_keypair().unwrap();
    let message = b"test";
    let signature = LatticeSchnorrVault::sign(&sk, message).unwrap();
    let mut sig_bytes = signature.to_bytes();
    sig_bytes[0] ^= 0xFF;
    let invalid_signature = Signature::from_bytes(&sig_bytes).unwrap();
    assert!(LatticeSchnorrVault::verify(&pk, message, &invalid_signature).is_err());
}

#[test]
fn case_flip_of_message_is_rejected() {
    let (sk, pk) = LatticeSchnorrVault::generate_keypair().unwrap();
    let signature = LatticeSchnorrVault::sign(&sk, b"test").unwrap();
    assert_eq!(LatticeSchnorrVault::verify(&pk, b"test", &signature), Ok(()));
    assert_eq!(
        LatticeSchnorrVault::verify(&pk, b"Test", &signature),
        Err(Secp256k1SchnorrError::InvalidSignature)
    );
}

#[test]
fn flipped_response_bits_are_rejected() {
    let (sk, pk) = LatticeSchnorrVault::generate_keypair().unwrap();
    let message = b"tamper";
    let signature = LatticeSchnorrVault::sign(&sk, message).unwrap();
    for byte in [0usize, 15, 31] {
        for bit in [0u8, 3, 7] {
            let mut bytes = signature.to_bytes();
            bytes[64 + byte] ^= 1 << bit;
            let tampered = Signature::from_bytes(&bytes).unwrap();
            assert_eq!(
                LatticeSchnorrVault::verify(&pk, message, &tampered),
                Err(Secp256k1SchnorrError::InvalidSignature)
            );
        }
    }
}

#[test]
fn flipped_message_bits_are_rejected() {
    let (sk, pk) = LatticeSchnorrVault::generate_keypair().unwrap();
    let message = b"a longer message to tamper with".to_vec();
    let signature = LatticeSchnorrVault::sign(&sk, &message).unwrap();
    for byte in [0usize, message.len() / 2, message.len() - 1] {
        let mut altered = message.clone();
        altered[byte] ^= 0x01;
        assert_eq!(
            LatticeSchnorrVault::verify(&pk, &altered, &signature),
            Err(Secp256k1SchnorrError::InvalidSignature)
        );
    }
}

#[test]
fn signature_under_another_key_is_rejected() {
    let (sk_a, _pk_a) = LatticeSchnorrVault::generate_keypair().unwrap();
    let (_sk_b, pk_b) = LatticeSchnorrVault::generate_keypair().unwrap();
    let signature = LatticeSchnorrVault::sign(&sk_a, b"test").unwrap();
    assert_eq!(
        LatticeSchnorrVault::verify(&pk_b, b"test", &signature),
        Err(Secp256k1SchnorrError::InvalidSignature)
    );
}

#[test]
fn fresh_randomness_gives_fresh_commitments() {
    let (sk, _pk) = LatticeSchnorrVault::generate_keypair().unwrap();
    let first = LatticeSchnorrVault::sign(&sk, b"same").unwrap();
    let second = LatticeSchnorrVault::sign(&sk, b"same").unwrap();
    assert_ne!(first.schnorr.r.bytes.to_vec(), second.schnorr.r.bytes.to_vec());
}

#[test]
fn explicit_randomness_is_deterministic() {
    let (sk, pk) = LatticeSchnorrVault::generate_keypair().unwrap();
    let aux = [7u8; 32];
    let first = LatticeSchnorrVault::sign_with_aux(&sk, b"m", &aux).unwrap();
    let second = LatticeSchnorrVault::sign_with_aux(&sk, b"m", &aux).unwrap();
    assert_eq!(first.schnorr.r.bytes.to_vec(), second.schnorr.r.bytes.to_vec());
    assert_eq!(first.schnorr.s, second.schnorr.s);
    assert_eq!(first.lattice, second.lattice);
    assert_eq!(first.lattice.len(), lattice_schnorr::vault::LATTICE_SIGNATURE_BYTES);
    let other = LatticeSchnorrVault::sign_with_aux(&sk, b"m", &[8u8; 32]).unwrap();
    assert_ne!(first.schnorr.r.bytes.to_vec(), other.schnorr.r.bytes.to_vec());
    assert_eq!(LatticeSchnorrVault::verify(&pk, b"m", &other), Ok(()));
}

#[test]
fn tampered_lattice_part_is_rejected() {
    let (sk, pk) = LatticeSchnorrVault::generate_keypair().unwrap();
    let mut signature = LatticeSchnorrVault::sign(&sk, b"pq").unwrap();
    signature.lattice[10] ^= 0x40;
    assert_eq!(
        LatticeSchnorrVault::verify(&pk, b"pq", &signature),
        Err(Secp256k1SchnorrError::LatticeSignatureError)
    );
}

#[test]
fn invalid_secret_key_is_refused_by_sign() {
    let sk = SecretKey { scalar: [0u8; 32], lattice: vec![0u8; LATTICE_SECRET_KEY_BYTES] };
    assert!(matches!(
        LatticeSchnorrVault::sign(&sk, b"x"),
        Err(Secp256k1SchnorrError::InvalidSecretKey)
    ));
}

#[test]
fn malformed_lattice_key_is_refused_by_sign() {
    let mut scalar = [0u8; 32];
    scalar[31] = 5;
    let sk = SecretKey { scalar, lattice: vec![1u8; 10] };
    assert!(matches!(
        LatticeSchnorrVault::sign_with_aux(&sk, b"x", &[0u8; 32]),
        Err(Secp256k1SchnorrError::LatticeSignatureError)
    ));
}

#[test]
fn secret_one_has_the_generator_as_public_point() {
    let mut one = [0u8; 32];
    one[31] = 1;
    let (x, p) = curve_keypair(&one).unwrap();
    assert_eq!(x, one);
    assert_eq!(p.bytes.to_vec(), GENERATOR.to_vec());
    assert_eq!(curve_keypair(&[0u8; 32]).err(), Some(Secp256k1SchnorrError::InvalidSecretKey));
}

#[test]
fn signature_encoding_round_trips() {
    let (sk, _pk) = LatticeSchnorrVault::generate_keypair().unwrap();
    let signature = LatticeSchnorrVault::sign(&sk, b"enc").unwrap();
    let bytes = signature.to_bytes();
    assert_eq!(bytes.len(), SIGNATURE_BYTES);
    let decoded = Signature::from_bytes(&bytes).unwrap();
    assert_eq!(decoded.to_bytes(), bytes);
    assert!(matches!(
        Signature::from_bytes(&bytes[..95]),
        Err(Secp256k1SchnorrError::InvalidSignature)
    ));
}

#[test]
fn public_key_encoding_is_checked() {
    let (_sk, pk) = LatticeSchnorrVault::generate_keypair().unwrap();
    let bytes = pk.to_bytes();
    assert_eq!(bytes.len(), PUBLIC_KEY_BYTES);
    assert_eq!(PublicKey::from_bytes(&bytes).unwrap().to_bytes(), bytes);
    let mut off_curve = bytes.clone();
    off_curve[63] ^= 1;
    assert!(matches!(
        PublicKey::from_bytes(&off_curve),
        Err(Secp256k1SchnorrError::InvalidPublicKey)
    ));
    assert!(matches!(
        PublicKey::from_bytes(&bytes[..100]),
        Err(Secp256k1SchnorrError::InvalidPublicKey)
    ));
}

#[test]
fn instructions_are_authorized_by_the_owner_key() {
    let (sk, pk) = LatticeSchnorrVault::generate_keypair().unwrap();
    let message = b"withdraw 5";
    let signature = LatticeSchnorrVault::sign(&sk, message).unwrap();
    let mut instruction = signature.to_bytes();
    instruction.extend_from_slice(message);
    let owner = pk.to_bytes();
    assert_eq!(authorize(&instruction, &owner), Ok(()));
    assert_eq!(
        authorize(&instruction[..SIGNATURE_BYTES - 1], &owner),
        Err(InstructionRejection::ShortInstruction)
    );
    assert_eq!(authorize(&instruction, &owner[..64]), Err(InstructionRejection::BadOwnerKey));
    let mut altered = instruction.clone();
    let last = altered.len() - 1;
    altered[last] ^= 1;
    assert_eq!(authorize(&altered, &owner), Err(InstructionRejection::Unverified));
}
