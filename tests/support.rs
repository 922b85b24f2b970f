use vetkd_notes::bytes::{bytes_eq, to_le_bytes, vec_to_fixed_array, LengthError};
use vetkd_notes::curve::CryptoError;
use vetkd_notes::keys::EncryptionKeys;
use vetkd_notes::oracle::RandomOracle;
use vetkd_notes::stable::MemoryPartition;
use vetkd_notes::timestamp::{add_secs, elapsed_secs, NANOS_PER_SEC};
use vetkd_notes::users::{AnonymousUserData, EncryptedText, IdentifiedUserData, UserError};

#[test]
fn vec_to_fixed_array_checks_length() {
    let a: [u8; 3] = vec_to_fixed_array(&[1, 2, 3]).unwrap();
    assert_eq!(a, [1, 2, 3]);
    let e = vec_to_fixed_array::<4>(&[1, 2, 3]);
    assert_eq!(e, Err(LengthError::WrongLength { expected: 4, found: 3 }));
}

#[test]
fn byte_helpers() {
    assert!(bytes_eq(&[1, 2], &[1, 2]));
    assert!(!bytes_eq(&[1, 2], &[1, 3]));
    assert!(!bytes_eq(&[1, 2], &[1]));
    assert_eq!(to_le_bytes(0x0102030405060708), [8, 7, 6, 5, 4, 3, 2, 1]);
}

#[test]
fn time_arithmetic() {
    assert_eq!(add_secs(5, 2), 5 + 2 * NANOS_PER_SEC);
    assert_eq!(add_secs(u64::MAX - 1, 1), u64::MAX);
    assert_eq!(elapsed_secs(NANOS_PER_SEC, 4 * NANOS_PER_SEC + 7), 3);
    assert_eq!(elapsed_secs(10, 5), 0);
}

#[test]
fn random_oracle_is_deterministic_and_separated() {
    let mut a = RandomOracle::new("domain-a");
    a.update_bin(b"x");
    let mut b = RandomOracle::new("domain-a");
    b.update_bin(b"x");
    let mut c = RandomOracle::new("domain-b");
    c.update_bin(b"x");
    let oa = a.finalize_to_vec(70);
    assert_eq!(oa.len(), 70);
    assert_eq!(oa, b.finalize_to_vec(70));
    assert_ne!(oa, c.finalize_to_vec(70));
    let short: [u8; 32] = a.finalize_to_array();
    assert_eq!(&short[..], &oa[..32]);
}

#[test]
fn random_oracle_frames_fields() {
    let mut a = RandomOracle::new("d");
    a.update_bin(b"ab");
    a.update_bin(b"c");
    let mut b = RandomOracle::new("d");
    b.update_bin(b"a");
    b.update_bin(b"bc");
    assert_ne!(a.finalize_to_vec(32), b.finalize_to_vec(32));
}

#[test]
fn key_cache_starts_empty() {
    let mut keys = EncryptionKeys::new();
    assert_eq!(keys.get_ibe_encrypted_key(), None);
    assert_eq!(keys.set_ibe_encryption_key(vec![1; 95]), Err(CryptoError::InvalidLength));
    assert_eq!(keys.get_ibe_encrypted_key(), None);
    assert_eq!(keys.set_ibe_encryption_key(vec![1; 96]), Ok(()));
    assert_eq!(keys.get_ibe_encrypted_key(), Some([1; 96]));
    assert_eq!(keys.set_symmetric_encryption_key(vec![2; 96]), Ok(()));
    assert_eq!(keys.get_symmetric_encrypted_key(), Some([2; 96]));
    assert_eq!(keys.get_two_factor_authentication_key(), None);
    assert_eq!(keys.set_two_factor_authentication_key(vec![3; 96]), Ok(()));
    assert_eq!(keys.get_two_factor_authentication_key(), Some([3; 96]));
}

#[test]
fn partition_ids() {
    assert_eq!(MemoryPartition::TaskTimer.id(), 1);
    assert_eq!(MemoryPartition::TextCounter.id(), 2);
    assert_eq!(MemoryPartition::EncryptedTexts.id(), 3);
    assert_eq!(MemoryPartition::IdentifiedUsers.id(), 4);
    assert_eq!(MemoryPartition::AnonymousUsers.id(), 5);
    assert_eq!(MemoryPartition::OneTimeKeys.id(), 6);
}

#[test]
fn encrypted_text_accessors() {
    let mut t = EncryptedText::new(vec![1, 2, 3]);
    assert_eq!(t.into_inner(), vec![1, 2, 3]);
    t.set_text(vec![4]);
    assert_eq!(t.clone(), vec![4]);
}

#[test]
fn anonymous_user_text_limit() {
    let mut u = AnonymousUserData::new(None, 0);
    assert_eq!(u.remove_text_id(1), Err(UserError::NoTexts));
    for id in 1..=5 {
        assert_eq!(u.add_text_id(id), Ok(()));
    }
    assert_eq!(u.add_text_id(6), Err(UserError::TooManyTexts));
    assert!(u.has_text_id(3));
    assert_eq!(u.remove_text_id(3), Ok(()));
    assert!(!u.has_text_id(3));
    assert_eq!(u.iter_texts(), &[1, 2, 4, 5]);
}

#[test]
fn anonymous_user_decryption_key() {
    let mut u = AnonymousUserData::new(None, 0);
    assert_eq!(u.get_decryption_key(1), Err(UserError::NotFound));
    u.set_decryption_key(vec![0; 10]);
    assert_eq!(u.get_decryption_key(1), Err(UserError::InvalidKey));
    u.set_decryption_key(vec![7; 192]);
    assert_eq!(u.get_decryption_key(1), Ok(vec![7; 192]));
    let day = 24 * 60 * 60 * NANOS_PER_SEC;
    assert!(!u.is_expired(day));
    assert!(u.is_expired(day + NANOS_PER_SEC));
    assert_eq!(u.get_decryption_key(day + NANOS_PER_SEC), Err(UserError::Expired));
    assert_eq!(u.get_created_at(), 0);
}

#[test]
fn identified_user_texts() {
    let mut u = IdentifiedUserData::new(vec![1, 2], Some(9));
    assert_eq!(u.iter_texts(), &[9]);
    for id in 0..10 {
        assert_eq!(u.add_text_id(id), Ok(()));
    }
    assert_eq!(u.add_text_id(99), Err(UserError::TooManyTexts));
    assert_eq!(u.remove_text_id(9), Ok(()));
    assert_eq!(u.iter_texts(), &[0, 1, 2, 3, 4, 5, 6, 7, 8]);
    let mut empty = IdentifiedUserData::new(vec![], None);
    assert_eq!(empty.remove_text_id(1), Err(UserError::NoTexts));
}
