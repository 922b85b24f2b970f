use ic_bls12_381::{G1Affine, G2Affine, Scalar};
use vetkd_notes::curve::{augmented_hash_to_g2, G1Point};
use vetkd_notes::one_time::{AccessError, NotesVault, OneTimeKey, ONE_TIME_KEY_EXPIRATION};
use vetkd_notes::task::{execute_task, global_timer, schedule_task, Task, TaskAction, TaskTimer};
use vetkd_notes::timestamp::NANOS_PER_SEC;
use vetkd_notes::users::AnonymousUserData;

fn pk_of(sk: u64) -> [u8; 48] {
    G1Affine::from(G1Affine::generator() * Scalar::from(sk)).to_compressed()
}

/// A signature by `sk` over the note id's little-endian bytes.
fn sign_note(sk: u64, note: u64) -> Vec<u8> {
    let h = augmented_hash_to_g2(&G1Point::generator(), &note.to_le_bytes()).to_bytes();
    let h = G2Affine::from_compressed(&h).unwrap();
    G2Affine::from(h * Scalar::from(sk)).to_compressed().to_vec()
}

const T0: u64 = 1_700_000_000 * NANOS_PER_SEC;

/// A vault with note `note` owned by the anonymous user of `sk`.
fn vault_with_note(ttl: u64, sk: u64, note: u64, now: u64) -> NotesVault {
    let mut vault = NotesVault::new(ttl);
    vault.set_encrypted_text(note, b"ciphertext".to_vec());
    let mut user = AnonymousUserData::new(None, now);
    user.add_text_id(note).unwrap();
    vault.set_anonymous_user(pk_of(sk), user);
    vault
}

#[test]
fn one_time_key_scenario() {
    let mut vault = vault_with_note(60, 5, 42, T0);
    vault.set_one_time_key(42, &pk_of(5), T0).unwrap();
    assert_eq!(vault.get_one_time_key(42).unwrap(), pk_of(5).to_vec());

    let r = vault.read_with_one_time_key(42, &sign_note(6, 42), T0 + 1);
    assert_eq!(r, Err(AccessError::InvalidSignature));
    assert_eq!(vault.get_one_time_key_details(42).unwrap().tries(), 1);

    let r = vault.read_with_one_time_key(42, &sign_note(5, 42), T0 + 10 * NANOS_PER_SEC);
    assert_eq!(r, Ok(b"ciphertext".to_vec()));
    assert!(vault.get_one_time_key_details(42).is_none());

    let r = vault.read_with_one_time_key(42, &sign_note(5, 42), T0 + 11 * NANOS_PER_SEC);
    assert_eq!(r, Err(AccessError::NotFound));
}

#[test]
fn redeemed_key_cannot_be_redeemed_again() {
    let mut vault = vault_with_note(60, 5, 7, T0);
    vault.set_one_time_key(7, &pk_of(5), T0).unwrap();
    let sig = sign_note(5, 7);
    assert!(vault.read_with_one_time_key(7, &sig, T0).is_ok());
    assert_eq!(vault.read_with_one_time_key(7, &sig, T0), Err(AccessError::NotFound));
}

#[test]
fn three_failures_then_out_of_tries() {
    let mut vault = vault_with_note(60, 5, 9, T0);
    vault.set_one_time_key(9, &pk_of(5), T0).unwrap();
    for _ in 0..3 {
        assert_eq!(
            vault.read_with_one_time_key(9, &sign_note(6, 9), T0),
            Err(AccessError::InvalidSignature)
        );
    }
    assert_eq!(vault.get_one_time_key_details(9).unwrap().tries(), 3);
    assert_eq!(
        vault.read_with_one_time_key(9, &sign_note(5, 9), T0),
        Err(AccessError::OutOfTries)
    );
}

#[test]
fn malformed_signature_counts_as_a_try() {
    let mut vault = vault_with_note(60, 5, 9, T0);
    vault.set_one_time_key(9, &pk_of(5), T0).unwrap();
    assert_eq!(vault.read_with_one_time_key(9, &[1, 2, 3], T0), Err(AccessError::InvalidSignature));
    assert_eq!(vault.get_one_time_key_details(9).unwrap().tries(), 1);
}

#[test]
fn signature_for_other_note_is_rejected() {
    let mut vault = vault_with_note(60, 5, 9, T0);
    vault.set_one_time_key(9, &pk_of(5), T0).unwrap();
    assert_eq!(
        vault.read_with_one_time_key(9, &sign_note(5, 10), T0),
        Err(AccessError::InvalidSignature)
    );
}

#[test]
fn expired_grant_is_refused() {
    let mut vault = vault_with_note(60, 5, 3, T0);
    vault.set_one_time_key(3, &pk_of(5), T0).unwrap();
    let late = T0 + 61 * NANOS_PER_SEC;
    assert_eq!(vault.read_with_one_time_key(3, &sign_note(5, 3), late), Err(AccessError::Expired));
    assert_eq!(vault.get_one_time_key_details(3).unwrap().tries(), 0);
}

#[test]
fn out_of_tries_takes_precedence_over_expiry() {
    let mut vault = vault_with_note(60, 5, 3, T0);
    vault.set_one_time_key(3, &pk_of(5), T0).unwrap();
    for _ in 0..3 {
        let _ = vault.read_with_one_time_key(3, &sign_note(6, 3), T0);
    }
    let late = T0 + 61 * NANOS_PER_SEC;
    assert_eq!(
        vault.read_with_one_time_key(3, &sign_note(5, 3), late),
        Err(AccessError::OutOfTries)
    );
}

#[test]
fn set_one_time_key_checks_owner() {
    let mut vault = vault_with_note(60, 5, 3, T0);
    assert_eq!(vault.set_one_time_key(4, &pk_of(5), T0), Err(AccessError::NotOwner));
    assert_eq!(vault.set_one_time_key(3, &pk_of(6), T0), Err(AccessError::NotFound));
    assert_eq!(vault.set_one_time_key(3, &[0u8; 47], T0), Err(AccessError::InvalidPublicKey));
    assert_eq!(vault.get_one_time_key(3), Err(AccessError::NotFound));
}

#[test]
fn one_time_key_expiry_and_tries() {
    let mut key = OneTimeKey::new(pk_of(1), T0);
    assert_eq!(key.expiration(), T0 + ONE_TIME_KEY_EXPIRATION * NANOS_PER_SEC);
    assert!(!key.is_expired(T0 + ONE_TIME_KEY_EXPIRATION * NANOS_PER_SEC));
    assert!(key.is_expired(T0 + ONE_TIME_KEY_EXPIRATION * NANOS_PER_SEC + 1));
    assert!(!key.out_of_tries());
    key.add_try();
    key.add_try();
    key.add_try();
    assert!(key.out_of_tries());
    assert_eq!(key.public_key(), &pk_of(1)[..]);
}

#[test]
fn one_time_key_expiry_saturates() {
    let key = OneTimeKey::new_with_ttl(pk_of(1), u64::MAX - 5, 10);
    assert_eq!(key.expiration(), u64::MAX);
}

#[test]
fn cleanup_removes_exactly_expired_grants() {
    let mut vault = NotesVault::new(60);
    let mut user = AnonymousUserData::new(None, T0);
    for note in [1u64, 2, 3] {
        vault.set_encrypted_text(note, vec![note as u8]);
        user.add_text_id(note).unwrap();
    }
    vault.set_anonymous_user(pk_of(5), user);
    vault.set_one_time_key(1, &pk_of(5), T0).unwrap();
    vault.set_one_time_key(2, &pk_of(5), T0).unwrap();
    vault.set_one_time_key(3, &pk_of(5), T0 + 100 * NANOS_PER_SEC).unwrap();

    let now = T0 + 120 * NANOS_PER_SEC;
    let mut timer = TaskTimer::new();
    schedule_task(&mut timer, now, 0, Task::CleanUpKeys);
    let outcome = global_timer(&mut vault, &mut timer, now);
    assert_eq!(outcome.actions, vec![TaskAction::Done]);

    assert!(vault.get_one_time_key_details(1).is_none());
    assert!(vault.get_one_time_key_details(2).is_none());
    assert!(vault.get_one_time_key_details(3).is_some());
    assert_eq!(
        outcome.wake_at,
        Some(now + ONE_TIME_KEY_EXPIRATION * NANOS_PER_SEC)
    );
}

#[test]
fn cleanup_removes_expired_anonymous_users() {
    let mut vault = NotesVault::new(60);
    vault.set_anonymous_user(pk_of(1), AnonymousUserData::new(None, T0));
    let later = T0 + 2 * 24 * 60 * 60 * NANOS_PER_SEC;
    vault.set_anonymous_user(pk_of(2), AnonymousUserData::new(None, later));
    let mut timer = TaskTimer::new();
    let action = execute_task(&mut vault, &mut timer, Task::CleanUpAnonymousUsers, later);
    assert_eq!(action, TaskAction::Done);
    assert!(vault.get_anonymous_user(&pk_of(1)).is_none());
    assert!(vault.get_anonymous_user(&pk_of(2)).is_some());
    assert_eq!(timer.get_timers().len(), 1);
}

#[test]
fn nonce_increments() {
    let mut vault = NotesVault::new(60);
    assert_eq!(vault.get_nonce(), 0);
    assert_eq!(vault.increment_nonce(), Ok(1));
    assert_eq!(vault.increment_nonce(), Ok(2));
    assert_eq!(vault.get_nonce(), 2);
}

#[test]
fn encrypted_text_store() {
    let mut vault = NotesVault::new(60);
    assert_eq!(vault.encrypted_text(1), None);
    vault.set_encrypted_text(1, vec![1, 2]);
    vault.set_encrypted_text(1, vec![3]);
    assert_eq!(vault.encrypted_text(1), Some(vec![3]));
}

#[test]
fn save_encrypted_text_assigns_ids_and_limits() {
    let mut vault = NotesVault::new(60);
    let pk = pk_of(5);
    for expected in 1u64..=5 {
        assert_eq!(vault.save_encrypted_text(vec![expected as u8], pk, T0), Ok(expected));
    }
    assert_eq!(vault.save_encrypted_text(vec![9], pk, T0), Err(AccessError::TooManyTexts));
    assert_eq!(vault.get_nonce(), 5);
    assert_eq!(vault.encrypted_text(3), Some(vec![3]));
    assert_eq!(vault.get_anonymous_user(&pk).unwrap().iter_texts(), &[1, 2, 3, 4, 5]);
    assert_eq!(vault.save_encrypted_text(vec![1], pk_of(6), T0), Ok(6));
}

#[test]
fn decryption_key_cache() {
    let mut vault = NotesVault::new(60);
    let pk = pk_of(5);
    assert_eq!(vault.cached_decryption_key(&pk, T0), None);
    vault.cache_decryption_key(pk, vec![4; 192], T0);
    assert_eq!(vault.cached_decryption_key(&pk, T0 + 1), Some(vec![4; 192]));
    let two_days = T0 + 2 * 24 * 60 * 60 * NANOS_PER_SEC;
    assert_eq!(vault.cached_decryption_key(&pk, two_days), None);
    vault.cache_decryption_key(pk_of(6), vec![4; 10], T0);
    assert_eq!(vault.cached_decryption_key(&pk_of(6), T0), None);
}
