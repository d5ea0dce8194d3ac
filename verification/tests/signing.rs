use malachitebft::signing::{Ed25519, Error, InvalidSignature, PrivateKey, PublicKey, Signature};

/// 32-byte value that is NOT a valid Ed25519 curve point.
/// Used across tests for deterministic invalid-key rejection.
const INVALID_ED25519_POINT: [u8; 32] = {
    let mut b = [0x01; 32];
    b[31] = 0x00;
    b
};

#[test]
fn public_key_from_bytes_valid() {
    let seed = [1u8; 32];
    let sk = ed25519_consensus::SigningKey::from(seed);
    let vk = sk.verification_key();
    let bytes: [u8; 32] = vk.into();

    let result = PublicKey::from_bytes(bytes);
    assert!(result.is_ok());
    assert_eq!(result.unwrap().as_bytes(), &bytes);
}

#[test]
fn public_key_from_bytes_invalid_curve_point() {
    let result = PublicKey::from_bytes(INVALID_ED25519_POINT);
    assert!(result.is_err(), "non-curve-point should be rejected");
    assert_eq!(result.unwrap_err(), Error::MalformedPublicKey);
}

#[test]
fn decode_public_key_invalid_curve_point() {
    let result = Ed25519::decode_public_key(&INVALID_ED25519_POINT);
    assert!(result.is_err(), "non-curve-point should be rejected");
}

#[test]
fn decode_public_key_invalid_length() {
    let short_bytes = [0u8; 16];
    let result = Ed25519::decode_public_key(&short_bytes);
    assert!(result.is_err());
    assert_eq!(result.unwrap_err(), Error::InvalidSliceLength);
}

#[test]
fn private_key_zeroize() {
    let seed = [0x42; 32];
    let mut key = PrivateKey::from(seed);
    let public_key = key.public_key();
    // Seed is present before zeroization.
    assert_eq!(key.as_bytes(), &seed);
    key.zeroize();
    // After zeroization the seed bytes must be all zeros.
    assert_eq!(key.as_bytes(), &[0u8; 32]);
    assert_eq!(key.public_key(), public_key);
}

/// The first test vector of the Ed25519 standard: the empty message.
#[test]
fn known_key_and_signature() {
    let seed: [u8; 32] = [
        0x9d, 0x61, 0xb1, 0x9d, 0xef, 0xfd, 0x5a, 0x60, 0xba, 0x84, 0x4a, 0xf4, 0x92, 0xec, 0x2c,
        0xc4, 0x44, 0x49, 0xc5, 0x69, 0x7b, 0x32, 0x69, 0x19, 0x70, 0x3b, 0xac, 0x03, 0x1c, 0xae,
        0x7f, 0x60,
    ];
    let public: [u8; 32] = [
        0xd7, 0x5a, 0x98, 0x01, 0x82, 0xb1, 0x0a, 0xb7, 0xd5, 0x4b, 0xfe, 0xd3, 0xc9, 0x64, 0x07,
        0x3a, 0x0e, 0xe1, 0x72, 0xf3, 0xda, 0xa6, 0x23, 0x25, 0xaf, 0x02, 0x1a, 0x68, 0xf7, 0x07,
        0x51, 0x1a,
    ];
    let key = PrivateKey::from(seed);
    assert_eq!(key.public_key().as_bytes(), &public);
    let signature = key.sign(b"");
    assert_eq!(&signature.to_bytes()[..4], &[0xe5, 0x56, 0x43, 0x00]);
    assert!(key.public_key().verify(b"", &signature).is_ok());
}

#[test]
fn signed_message_verifies_and_another_does_not() {
    let key = PrivateKey::from([3u8; 32]);
    let signature = key.sign(b"vote");
    assert_eq!(key.public_key().verify(b"vote", &signature), Ok(()));
    assert_eq!(key.public_key().verify(b"veto", &signature), Err(InvalidSignature));
    let other = PrivateKey::from([4u8; 32]);
    assert_eq!(other.public_key().verify(b"vote", &signature), Err(InvalidSignature));
    assert_eq!(key.public_key().verify(b"vote", &Signature::test()), Err(InvalidSignature));
}

#[test]
fn encodings_round_trip() {
    let key = PrivateKey::from([5u8; 32]);
    let signature = key.sign(b"m");
    let encoded = Ed25519::encode_signature(&signature);
    assert_eq!(encoded.len(), 64);
    assert_eq!(Ed25519::decode_signature(&encoded), Ok(signature));
    assert_eq!(Ed25519::decode_signature(&encoded[1..]), Err(Error::InvalidSliceLength));
    assert_eq!(Signature::try_from(&encoded[..]), Ok(signature));
    assert_eq!(Signature::from_bytes(signature.to_bytes()), signature);

    let encoded = Ed25519::encode_public_key(&key.public_key());
    assert_eq!(encoded.len(), 32);
    assert_eq!(Ed25519::decode_public_key(&encoded), Ok(key.public_key()));
}

#[test]
fn signatures_are_ordered_by_their_bytes() {
    let mut high = [0u8; 64];
    high[0] = 1;
    let mut low = [0xff; 64];
    low[0] = 0;
    assert!(Signature::from_bytes(low) < Signature::from_bytes(high));
}

#[test]
fn errors_have_texts() {
    assert_eq!(Error::MalformedPublicKey.message(), "Malformed public key encoding.");
    assert_eq!(
        Error::InvalidSliceLength.message(),
        "Invalid length when parsing byte slice."
    );
}

/// An erased key signs with what is left of it, and not for its public key.
#[test]
fn erased_key_signs_nothing_valid() {
    let seed = [0x42; 32];
    let mut key = PrivateKey::from(seed);
    let before = key.sign(b"message");
    assert!(key.public_key().verify(b"message", &before).is_ok());
    let kept = key.clone();
    key.zeroize();
    let mut outside = ed25519_consensus::SigningKey::from(seed);
    zeroize::Zeroize::zeroize(&mut outside);
    let left = outside.sign(b"message").to_bytes();
    assert_eq!(key.sign(b"message").to_bytes(), left);
    assert!(key.public_key().verify(b"message", &key.sign(b"message")).is_err());
    key.zeroize();
    assert_eq!(key.sign(b"message").to_bytes(), left);
    assert_eq!(kept.sign(b"message"), before);
}
