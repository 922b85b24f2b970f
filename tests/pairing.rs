use ic_bls12_381::{G1Affine, G2Affine, Scalar};
use vetkd_notes::curve::{
    augmented_hash_to_g1, augmented_hash_to_g2, deserialize_g1, deserialize_g2, CryptoError,
    G1Point, G2Point,
};
use vetkd_notes::ibe::{
    DerivedPublicKey, DerivedPublicKeyDeserializationError, EncryptedKey,
    EncryptedKeyDeserializationError, IBECiphertext,
};
use vetkd_notes::signature::{verify_pairing, verify_vrf_proof};
use vetkd_notes::timestamp::NANOS_PER_SEC;
use vetkd_notes::users::{IdentifiedUserData, LoginError};

fn g1_of(sk: u64) -> [u8; 48] {
    G1Affine::from(G1Affine::generator() * Scalar::from(sk)).to_compressed()
}

fn g2_of(sk: u64) -> [u8; 96] {
    G2Affine::from(G2Affine::generator() * Scalar::from(sk)).to_compressed()
}

/// A signature in G2 on `msg` under the G1 key of `sk`.
fn sign_g2(sk: u64, msg: &[u8]) -> [u8; 96] {
    let h = augmented_hash_to_g2(&G1Point::generator(), msg).to_bytes();
    let h = G2Affine::from_compressed(&h).unwrap();
    G2Affine::from(h * Scalar::from(sk)).to_compressed()
}

/// A VRF proof in G1 on `msg` under the G2 key of `sk`.
fn prove_g1(sk: u64, msg: &[u8]) -> [u8; 48] {
    let h = augmented_hash_to_g1(&G2Point::generator(), msg).to_bytes();
    let h = G1Affine::from_compressed(&h).unwrap();
    G1Affine::from(h * Scalar::from(sk)).to_compressed()
}

/// The IBE decryption key for `identity` under the master secret `msk`.
fn ibe_key(msk: u64, identity: &[u8]) -> [u8; 48] {
    let dpk = deserialize_g2(&g2_of(msk)).unwrap();
    let h = augmented_hash_to_g1(&dpk, identity).to_bytes();
    let h = G1Affine::from_compressed(&h).unwrap();
    G1Affine::from(h * Scalar::from(msk)).to_compressed()
}

#[test]
fn generators_match_curve_library() {
    assert_eq!(G1Point::generator().to_bytes(), G1Affine::generator().to_compressed());
    assert_eq!(G2Point::generator().to_bytes(), G2Affine::generator().to_compressed());
}

#[test]
fn deserialize_g1_accepts_valid_point() {
    let p = g1_of(7);
    let point = deserialize_g1(&p).unwrap();
    assert_eq!(point.to_bytes(), p);
}

#[test]
fn deserialize_g1_rejects_wrong_length() {
    assert!(matches!(deserialize_g1(&[0u8; 47]), Err(CryptoError::InvalidLength)));
    assert!(matches!(deserialize_g1(&[0u8; 49]), Err(CryptoError::InvalidLength)));
}

#[test]
fn deserialize_g1_rejects_all_zero() {
    assert!(matches!(deserialize_g1(&[0u8; 48]), Err(CryptoError::InvalidEncoding)));
}

#[test]
fn deserialize_g2_rejects_off_curve() {
    let mut p = g2_of(5);
    p[20] ^= 0x01;
    assert!(matches!(deserialize_g2(&p), Err(CryptoError::InvalidEncoding)));
    assert!(matches!(deserialize_g2(&[0u8; 48]), Err(CryptoError::InvalidLength)));
}

#[test]
fn hash_to_g1_depends_on_public_key() {
    let pk1 = deserialize_g2(&g2_of(1)).unwrap();
    let pk2 = deserialize_g2(&g2_of(2)).unwrap();
    let a = augmented_hash_to_g1(&pk1, b"note").to_bytes();
    let b = augmented_hash_to_g1(&pk2, b"note").to_bytes();
    let c = augmented_hash_to_g1(&pk1, b"note").to_bytes();
    assert_ne!(a, b);
    assert_eq!(a, c);
}

#[test]
fn derived_public_key_round_trip() {
    let bytes = g2_of(11);
    let dpk = DerivedPublicKey::deserialize(&bytes).unwrap();
    assert_eq!(dpk.serialize(), bytes);
    assert!(matches!(
        DerivedPublicKey::deserialize(&bytes[..95]),
        Err(DerivedPublicKeyDeserializationError::InvalidPublicKey)
    ));
}

#[test]
fn encrypted_key_requires_exact_length() {
    let mut bytes = Vec::new();
    bytes.extend_from_slice(&g1_of(2));
    bytes.extend_from_slice(&g2_of(3));
    bytes.extend_from_slice(&g1_of(4));
    assert!(EncryptedKey::deserialize(&bytes).is_ok());
    assert!(matches!(EncryptedKey::deserialize(&bytes[..191]), Err(CryptoError::InvalidLength)));
    bytes.push(0);
    assert!(matches!(EncryptedKey::deserialize(&bytes), Err(CryptoError::InvalidLength)));
}

#[test]
fn encrypted_key_rejects_bad_point() {
    let mut arr = [0u8; 192];
    arr[..48].copy_from_slice(&g1_of(2));
    arr[48..144].copy_from_slice(&g2_of(3));
    assert!(matches!(
        EncryptedKey::deserialize_array(&arr),
        Err(EncryptedKeyDeserializationError::InvalidEncryptedKey)
    ));
    assert!(matches!(EncryptedKey::deserialize(&arr), Err(CryptoError::InvalidEncoding)));
    arr[144..].copy_from_slice(&g1_of(4));
    assert!(EncryptedKey::deserialize_array(&arr).is_ok());
}

#[test]
fn ibe_decrypt_of_encrypt_gives_message() {
    let dpk = g2_of(1234567);
    let identity = b"reader-identity";
    let msg = b"the quick brown fox jumps over the lazy dog, twice over".to_vec();
    let seed = [7u8; 32];
    let c = IBECiphertext::encrypt(&dpk, identity, &msg, &seed).unwrap();
    let k = ibe_key(1234567, identity);
    assert_eq!(c.decrypt(&k).unwrap(), msg);
}

#[test]
fn ibe_empty_message_round_trip() {
    let dpk = g2_of(99);
    let c = IBECiphertext::encrypt(&dpk, b"id", b"", &[1u8; 32]).unwrap();
    assert_eq!(c.serialize().len(), 128);
    assert_eq!(c.decrypt(&ibe_key(99, b"id")).unwrap(), Vec::<u8>::new());
}

#[test]
fn ibe_wrong_key_fails() {
    let dpk = g2_of(1234567);
    let msg = b"secret".to_vec();
    let c = IBECiphertext::encrypt(&dpk, b"alice", &msg, &[9u8; 32]).unwrap();
    let other_identity = ibe_key(1234567, b"bob");
    assert!(matches!(c.decrypt(&other_identity), Err(CryptoError::VerificationFailed)));
    let other_master = ibe_key(7654321, b"alice");
    assert!(matches!(c.decrypt(&other_master), Err(CryptoError::VerificationFailed)));
    assert!(matches!(c.decrypt(&[0u8; 10]), Err(CryptoError::InvalidLength)));
}

#[test]
fn ibe_masks_message() {
    let dpk = g2_of(5);
    let msg = vec![0u8; 40];
    let c = IBECiphertext::encrypt(&dpk, b"id", &msg, &[3u8; 32]).unwrap();
    let bytes = c.serialize();
    assert_eq!(bytes.len(), 96 + 32 + 40);
    assert_ne!(&bytes[128..], &msg[..]);
}

#[test]
fn ibe_encrypt_rejects_bad_inputs() {
    let dpk = g2_of(5);
    assert!(matches!(
        IBECiphertext::encrypt(&dpk, b"id", b"m", &[0u8; 31]),
        Err(CryptoError::InvalidLength)
    ));
    assert!(matches!(
        IBECiphertext::encrypt(&dpk[..90], b"id", b"m", &[0u8; 32]),
        Err(CryptoError::InvalidLength)
    ));
    assert!(matches!(
        IBECiphertext::encrypt(&[0u8; 96], b"id", b"m", &[0u8; 32]),
        Err(CryptoError::InvalidEncoding)
    ));
}

#[test]
fn ibe_ciphertext_serialize_round_trip() {
    let dpk = g2_of(77);
    let c = IBECiphertext::encrypt(&dpk, b"id", b"hello", &[4u8; 32]).unwrap();
    let bytes = c.serialize();
    let d = IBECiphertext::deserialize(&bytes).unwrap();
    assert_eq!(d.serialize(), bytes);
    assert_eq!(d.decrypt(&ibe_key(77, b"id")).unwrap(), b"hello".to_vec());
}

#[test]
fn ibe_ciphertext_deserialize_errors() {
    assert!(matches!(IBECiphertext::deserialize(&[0u8; 127]), Err(CryptoError::InvalidLength)));
    assert!(matches!(IBECiphertext::deserialize(&[0u8; 128]), Err(CryptoError::InvalidEncoding)));
}

#[test]
fn tampered_ciphertext_fails() {
    let dpk = g2_of(77);
    let c = IBECiphertext::encrypt(&dpk, b"id", b"hello world", &[4u8; 32]).unwrap();
    let mut bytes = c.serialize();
    let last = bytes.len() - 1;
    bytes[last] ^= 0x80;
    let d = IBECiphertext::deserialize(&bytes).unwrap();
    assert!(matches!(d.decrypt(&ibe_key(77, b"id")), Err(CryptoError::VerificationFailed)));
}

#[test]
fn verify_pairing_accepts_signature() {
    let pk = g1_of(42);
    let sig = sign_g2(42, b"message");
    assert_eq!(verify_pairing(&pk, &sig, b"message").unwrap(), true);
}

#[test]
fn verify_pairing_rejects_flipped_bytes() {
    let pk = g1_of(42);
    let sig = sign_g2(42, b"message");
    assert_eq!(verify_pairing(&pk, &sig, b"messagf").unwrap(), false);
    let mut bad_sig = sig;
    bad_sig[50] ^= 1;
    assert!(!matches!(verify_pairing(&pk, &bad_sig, b"message"), Ok(true)));
    let mut bad_pk = pk;
    bad_pk[30] ^= 1;
    assert!(!matches!(verify_pairing(&bad_pk, &sig, b"message"), Ok(true)));
    assert_eq!(verify_pairing(&g1_of(43), &sig, b"message").unwrap(), false);
}

#[test]
fn verify_pairing_reports_malformed_input() {
    let sig = sign_g2(42, b"m");
    assert!(matches!(verify_pairing(&[1u8; 10], &sig, b"m"), Err(CryptoError::InvalidLength)));
    assert!(matches!(
        verify_pairing(&g1_of(42), &sig[..95], b"m"),
        Err(CryptoError::InvalidLength)
    ));
}

#[test]
fn verify_vrf_proof_accepts_and_rejects() {
    let pk = g2_of(8);
    let proof = prove_g1(8, b"auth-code");
    assert_eq!(verify_vrf_proof(&pk, &proof, b"auth-code").unwrap(), true);
    assert_eq!(verify_vrf_proof(&pk, &proof, b"auth-codf").unwrap(), false);
    assert_eq!(verify_vrf_proof(&g2_of(9), &proof, b"auth-code").unwrap(), false);
    assert!(matches!(verify_vrf_proof(&pk, &[0u8; 48], b"x"), Err(CryptoError::InvalidEncoding)));
}

#[test]
fn login_with_registered_signature() {
    let mut user = IdentifiedUserData::new(vec![], None);
    assert_eq!(user.login_with_signature(b"code", 0), Err(LoginError::SignatureNotSet));
    let t = 100 * NANOS_PER_SEC;
    assert_eq!(user.set_signature(g1_of(3).to_vec(), sign_g2(3, b"code").to_vec(), t), t);
    assert_eq!(user.login_with_signature(b"code", t + NANOS_PER_SEC), Ok(()));
    assert_eq!(
        user.login_with_signature(b"other", t + NANOS_PER_SEC),
        Err(LoginError::InvalidSignature)
    );
    assert_eq!(
        user.login_with_signature(b"code", t + 31 * NANOS_PER_SEC),
        Err(LoginError::SignatureExpired)
    );
}
