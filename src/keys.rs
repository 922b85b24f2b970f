//! The cache of public keys fetched from the key-derivation service.
//!
//! The cache starts empty and is filled by the initialization task; until then
//! every getter reports the key as absent.
use crate::bytes::vec_to_fixed_array;
use crate::curve::CryptoError;
use vstd::prelude::*;

verus! {

/// Size of a cached public key, a compressed G2 point.
pub const ENCRYPTION_KEY_BYTES: usize = 96;

/// A cached public key.
pub type EncryptionKey = [u8; 96];

/// The public keys the service works with.
pub struct EncryptionKeys {
    ibe: Option<EncryptionKey>,
    symmetric: Option<EncryptionKey>,
    two_factor: Option<EncryptionKey>,
}

/// The cache entry made from `key`: its bytes, if it has the right length.
pub open spec fn cached(key: Seq<u8>) -> Option<Seq<u8>> {
    if key.len() == ENCRYPTION_KEY_BYTES {
        Some(key)
    } else {
        None
    }
}

/// The bytes of a cache entry.
pub open spec fn entry_view(e: Option<EncryptionKey>) -> Option<Seq<u8>> {
    match e {
        Some(k) => Some(k@),
        None => None,
    }
}

/// Stores `key` in `slot` if it has the right length.
fn store_key(slot: &mut Option<EncryptionKey>, key: Vec<u8>) -> (r: Result<(), CryptoError>)
    ensures
        key@.len() == ENCRYPTION_KEY_BYTES ==> r is Ok && entry_view(*final(slot)) == Some(key@),
        key@.len() != ENCRYPTION_KEY_BYTES ==> r == Err::<(), CryptoError>(
            CryptoError::InvalidLength,
        ) && *final(slot) == *old(slot),
{
    match vec_to_fixed_array::<96>(key.as_slice()) {
        Ok(a) => {
            *slot = Some(a);
            Ok(())
        },
        Err(_) => Err(CryptoError::InvalidLength),
    }
}

impl EncryptionKeys {
    /// The cached IBE key.
    pub closed spec fn ibe_view(&self) -> Option<Seq<u8>> {
        entry_view(self.ibe)
    }

    /// The cached symmetric-key verification key.
    pub closed spec fn symmetric_view(&self) -> Option<Seq<u8>> {
        entry_view(self.symmetric)
    }

    /// The cached two-factor authentication key.
    pub closed spec fn two_factor_view(&self) -> Option<Seq<u8>> {
        entry_view(self.two_factor)
    }

    /// An empty cache.
    pub fn new() -> (r: EncryptionKeys)
        ensures
            r.ibe_view() is None,
            r.symmetric_view() is None,
            r.two_factor_view() is None,
    {
        EncryptionKeys { ibe: None, symmetric: None, two_factor: None }
    }

    /// Caches the IBE key; a key of the wrong length is refused.
    pub fn set_ibe_encryption_key(&mut self, key: Vec<u8>) -> (r: Result<(), CryptoError>)
        ensures
            key@.len() == ENCRYPTION_KEY_BYTES ==> r is Ok && final(self).ibe_view() == Some(
                key@,
            ),
            key@.len() != ENCRYPTION_KEY_BYTES ==> r == Err::<(), CryptoError>(
                CryptoError::InvalidLength,
            ) && final(self).ibe_view() == old(self).ibe_view(),
            final(self).symmetric_view() == old(self).symmetric_view(),
            final(self).two_factor_view() == old(self).two_factor_view(),
    {
        store_key(&mut self.ibe, key)
    }

    /// Caches the symmetric-key verification key; a key of the wrong length is
    /// refused.
    pub fn set_symmetric_encryption_key(&mut self, key: Vec<u8>) -> (r: Result<(), CryptoError>)
        ensures
            key@.len() == ENCRYPTION_KEY_BYTES ==> r is Ok && final(self).symmetric_view() == Some(
                key@,
            ),
            key@.len() != ENCRYPTION_KEY_BYTES ==> r == Err::<(), CryptoError>(
                CryptoError::InvalidLength,
            ) && final(self).symmetric_view() == old(self).symmetric_view(),
            final(self).ibe_view() == old(self).ibe_view(),
            final(self).two_factor_view() == old(self).two_factor_view(),
    {
        store_key(&mut self.symmetric, key)
    }

    /// Caches the two-factor authentication key; a key of the wrong length is
    /// refused.
    pub fn set_two_factor_authentication_key(&mut self, key: Vec<u8>) -> (r: Result<
        (),
        CryptoError,
    >)
        ensures
            key@.len() == ENCRYPTION_KEY_BYTES ==> r is Ok && final(self).two_factor_view()
                == Some(key@),
            key@.len() != ENCRYPTION_KEY_BYTES ==> r == Err::<(), CryptoError>(
                CryptoError::InvalidLength,
            ) && final(self).two_factor_view() == old(self).two_factor_view(),
            final(self).ibe_view() == old(self).ibe_view(),
            final(self).symmetric_view() == old(self).symmetric_view(),
    {
        store_key(&mut self.two_factor, key)
    }

    /// The cached IBE key, if fetched.
    pub fn get_ibe_encrypted_key(&self) -> (r: Option<EncryptionKey>)
        ensures
            entry_view(r) == self.ibe_view(),
    {
        self.ibe
    }

    /// The cached symmetric-key verification key, if fetched.
    pub fn get_symmetric_encrypted_key(&self) -> (r: Option<EncryptionKey>)
        ensures
            entry_view(r) == self.symmetric_view(),
    {
        self.symmetric
    }

    /// The cached two-factor authentication key, if fetched.
    pub fn get_two_factor_authentication_key(&self) -> (r: Option<EncryptionKey>)
        ensures
            entry_view(r) == self.two_factor_view(),
    {
        self.two_factor
    }
}

} // verus!
