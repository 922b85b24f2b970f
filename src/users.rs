//! Encrypted notes and the records of the users who own them.
use crate::signature::{signature_accepted, verify_pairing};
use crate::timestamp::{add_secs, add_secs_spec, elapsed_secs, elapsed_secs_spec};
use vstd::prelude::*;
use vstd::slice::slice_to_vec;

verus! {

/// How long, in seconds, an anonymous user's record lives.
pub const ANONYMOUS_USER_DATA_EXPIRATION: u64 = 60 * 60 * 24;

/// The most notes an anonymous user may hold.
pub const MAX_ANONYMOUS_TEXTS: usize = 5;

/// The number of notes past which an identified user may add no more.
pub const MAX_IDENTIFIED_TEXTS: usize = 10;

/// How long, in seconds, a registered login signature stays usable.
pub const SIGNATURE_VALIDITY_SECS: u64 = 30;

/// Size of a cached encrypted decryption key.
pub const DECRYPTION_KEY_BYTES: usize = 192;

/// A note's public key, a compressed G1 point.
pub type PublicKey = [u8; 48];

/// Why an operation on a user's record failed.
#[derive(Debug, Clone, Copy, PartialEq, Eq, Structural)]
pub enum UserError {
    /// The user already holds the most notes allowed.
    TooManyTexts,
    /// The user holds no note to remove.
    NoTexts,
    /// The record has expired.
    Expired,
    /// The cached key does not have the expected length.
    InvalidKey,
    /// There is nothing cached.
    NotFound,
}

/// An encrypted note, as stored.
pub struct EncryptedText(Vec<u8>);

impl View for EncryptedText {
    type V = Seq<u8>;

    closed spec fn view(&self) -> Seq<u8> {
        self.0@
    }
}

impl EncryptedText {
    /// A note holding `text`.
    pub fn new(text: Vec<u8>) -> (r: EncryptedText)
        ensures
            r@ == text@,
    {
        EncryptedText(text)
    }

    /// Replaces the content.
    pub fn set_text(&mut self, text: Vec<u8>)
        ensures
            final(self)@ == text@,
    {
        self.0 = text;
    }

    /// A copy of the content.
    pub fn into_inner(&self) -> (r: Vec<u8>)
        ensures
            r@ == self@,
    {
        slice_to_vec(self.0.as_slice())
    }

    /// A copy of the content.
    pub fn clone(&self) -> (r: Vec<u8>)
        ensures
            r@ == self@,
    {
        self.into_inner()
    }
}

/// `s` without any occurrence of `x`, in order.
pub open spec fn without(s: Seq<u64>, x: u64) -> Seq<u64> {
    s.filter(|y: u64| y != x)
}

/// A copy of `v` without any occurrence of `x`.
fn retain_other(v: &Vec<u64>, x: u64) -> (r: Vec<u64>)
    ensures
        r@ == without(v@, x),
{
    let mut out: Vec<u64> = Vec::new();
    let mut i: usize = 0;
    while i < v.len()
        invariant
            i <= v@.len(),
            out@ == without(v@.subrange(0, i as int), x),
        decreases v@.len() - i,
    {
        let ghost prefix = v@.subrange(0, i as int);
        proof {
            let next = v@.subrange(0, i + 1);
            assert(next.drop_last() =~= prefix);
            assert(next.last() == v@[i as int]);
            reveal_with_fuel(Seq::filter, 1);
        }
        if v[i] != x {
            out.push(v[i]);
        }
        i = i + 1;
    }
    assert(v@.subrange(0, i as int) =~= v@);
    out
}

/// Whether `x` occurs in `v`.
fn contains_id(v: &Vec<u64>, x: u64) -> (r: bool)
    ensures
        r == v@.contains(x),
{
    let mut i: usize = 0;
    while i < v.len()
        invariant
            i <= v@.len(),
            forall|k: int| 0 <= k < i ==> v@[k] != x,
        decreases v@.len() - i,
    {
        if v[i] == x {
            return true;
        }
        i = i + 1;
    }
    false
}

/// What is kept of an anonymous user: the notes, when the record was made, and
/// the last encrypted decryption key handed out.
pub struct AnonymousUserData {
    texts: Vec<u64>,
    created_at: u64,
    decryption_key: Option<Vec<u8>>,
}

/// Whether a record made at `created_at` has expired at `now`.
pub open spec fn anonymous_expired(created_at: u64, now: u64) -> bool {
    elapsed_secs_spec(created_at, now) > ANONYMOUS_USER_DATA_EXPIRATION
}

impl AnonymousUserData {
    /// The notes held, in the order they were added.
    pub closed spec fn texts_view(&self) -> Seq<u64> {
        self.texts@
    }

    /// When the record was made.
    pub closed spec fn created_at_view(&self) -> u64 {
        self.created_at
    }

    /// The cached key, if any.
    pub closed spec fn key_view(&self) -> Option<Seq<u8>> {
        match self.decryption_key {
            Some(k) => Some(k@),
            None => None,
        }
    }

    /// A record with no notes, made at `now`.
    pub fn new(decryption_key: Option<Vec<u8>>, now: u64) -> (r: AnonymousUserData)
        ensures
            r.texts_view() == Seq::<u64>::empty(),
            r.created_at_view() == now,
            r.key_view() == (match decryption_key {
                Some(k) => Some(k@),
                None => None::<Seq<u8>>,
            }),
    {
        AnonymousUserData { texts: Vec::new(), created_at: now, decryption_key }
    }

    /// Caches `key`.
    pub fn set_decryption_key(&mut self, key: Vec<u8>)
        ensures
            final(self).key_view() == Some(key@),
            final(self).texts_view() == old(self).texts_view(),
            final(self).created_at_view() == old(self).created_at_view(),
    {
        self.decryption_key = Some(key);
    }

    /// Whether the record has outlived its lifetime at `now`.
    pub fn is_expired(&self, now: u64) -> (r: bool)
        ensures
            r == anonymous_expired(self.created_at_view(), now),
    {
        elapsed_secs(self.created_at, now) > ANONYMOUS_USER_DATA_EXPIRATION
    }

    /// Whether the user holds the note `text_id`.
    pub fn has_text_id(&self, text_id: u64) -> (r: bool)
        ensures
            r == self.texts_view().contains(text_id),
    {
        contains_id(&self.texts, text_id)
    }

    /// Adds a note, unless the user already holds the most allowed.
    pub fn add_text_id(&mut self, text_id: u64) -> (r: Result<(), UserError>)
        ensures
            old(self).texts_view().len() >= MAX_ANONYMOUS_TEXTS ==> r == Err::<(), UserError>(
                UserError::TooManyTexts,
            ) && final(self).texts_view() == old(self).texts_view(),
            old(self).texts_view().len() < MAX_ANONYMOUS_TEXTS ==> r == Ok::<(), UserError>(())
                && final(self).texts_view() == old(self).texts_view().push(text_id),
            final(self).created_at_view() == old(self).created_at_view(),
            final(self).key_view() == old(self).key_view(),
    {
        if self.texts.len() >= MAX_ANONYMOUS_TEXTS {
            return Err(UserError::TooManyTexts);
        }
        self.texts.push(text_id);
        Ok(())
    }

    /// Removes every occurrence of a note; fails if the user holds none at all.
    pub fn remove_text_id(&mut self, text_id: u64) -> (r: Result<(), UserError>)
        ensures
            old(self).texts_view().len() == 0 ==> r == Err::<(), UserError>(UserError::NoTexts)
                && final(self).texts_view() == old(self).texts_view(),
            old(self).texts_view().len() > 0 ==> r == Ok::<(), UserError>(()) && final(self).texts_view() == without(old(self).texts_view(), text_id),
            final(self).created_at_view() == old(self).created_at_view(),
            final(self).key_view() == old(self).key_view(),
    {
        if self.texts.len() < 1 {
            return Err(UserError::NoTexts);
        }
        self.texts = retain_other(&self.texts, text_id);
        Ok(())
    }

    /// The notes held, in the order they were added.
    pub fn iter_texts(&self) -> (r: &[u64])
        ensures
            r@ == self.texts_view(),
    {
        self.texts.as_slice()
    }

    /// When the record was made.
    pub fn get_created_at(&self) -> (r: u64)
        ensures
            r == self.created_at_view(),
    {
        self.created_at
    }

    /// The cached key, if the record is alive and the key has the right length.
    pub fn get_decryption_key(&self, now: u64) -> (r: Result<Vec<u8>, UserError>)
        ensures
            anonymous_expired(self.created_at_view(), now) ==> r == Err::<Vec<u8>, UserError>(
                UserError::Expired,
            ),
            !anonymous_expired(self.created_at_view(), now) ==> match self.key_view() {
                None => r == Err::<Vec<u8>, UserError>(UserError::NotFound),
                Some(k) => if k.len() == DECRYPTION_KEY_BYTES {
                    r matches Ok(v) && v@ == k
                } else {
                    r == Err::<Vec<u8>, UserError>(UserError::InvalidKey)
                },
            },
    {
        if self.is_expired(now) {
            return Err(UserError::Expired);
        }
        match &self.decryption_key {
            Some(key) => {
                if key.len() != DECRYPTION_KEY_BYTES {
                    return Err(UserError::InvalidKey);
                }
                Ok(slice_to_vec(key.as_slice()))
            },
            None => Err(UserError::NotFound),
        }
    }
}

/// A login signature and when it was registered.
pub struct AuthenticatedSignature {
    pub signature: Vec<u8>,
    pub created_at: u64,
}

impl AuthenticatedSignature {
    /// `signature`, registered at `now`.
    pub fn new(signature: Vec<u8>, now: u64) -> (r: AuthenticatedSignature)
        ensures
            r.signature@ == signature@,
            r.created_at == now,
    {
        AuthenticatedSignature { signature, created_at: now }
    }
}

/// Why a login with a registered signature was refused.
#[derive(Debug, Clone, Copy, PartialEq, Eq, Structural)]
pub enum LoginError {
    /// No signature has been registered.
    SignatureNotSet,
    /// The registered signature is older than its validity window.
    SignatureExpired,
    /// The signature does not verify under the registered key.
    InvalidSignature,
}

/// What is kept of a user who signed in with an identity.
pub struct IdentifiedUserData {
    texts: Vec<u64>,
    public_key: Vec<u8>,
    signature: Option<AuthenticatedSignature>,
}

impl IdentifiedUserData {
    /// The notes held, in the order they were added.
    pub closed spec fn texts_view(&self) -> Seq<u64> {
        self.texts@
    }

    /// The user's key material.
    pub closed spec fn public_key_view(&self) -> Seq<u8> {
        self.public_key@
    }

    /// The registered login signature and its registration time, if any.
    pub closed spec fn signature_view(&self) -> Option<(Seq<u8>, u64)> {
        match &self.signature {
            Some(s) => Some((s.signature@, s.created_at)),
            None => None,
        }
    }

    /// A record holding `public_key` and at most the one note `text_id`.
    pub fn new(public_key: Vec<u8>, text_id: Option<u64>) -> (r: IdentifiedUserData)
        ensures
            r.public_key_view() == public_key@,
            r.texts_view() == (match text_id {
                Some(t) => seq![t],
                None => Seq::<u64>::empty(),
            }),
            r.signature_view() is None,
    {
        let mut texts: Vec<u64> = Vec::new();
        if let Some(t) = text_id {
            texts.push(t);
        }
        proof {
            if let Some(t) = text_id {
                assert(texts@ =~= seq![t]);
            } else {
                assert(texts@ =~= Seq::<u64>::empty());
            }
        }
        IdentifiedUserData { texts, public_key, signature: None }
    }

    /// Adds a note, unless the user already holds more than the limit.
    pub fn add_text_id(&mut self, text_id: u64) -> (r: Result<(), UserError>)
        ensures
            old(self).texts_view().len() > MAX_IDENTIFIED_TEXTS ==> r == Err::<(), UserError>(
                UserError::TooManyTexts,
            ) && final(self).texts_view() == old(self).texts_view(),
            old(self).texts_view().len() <= MAX_IDENTIFIED_TEXTS ==> r == Ok::<(), UserError>(())
                && final(self).texts_view() == old(self).texts_view().push(text_id),
            final(self).public_key_view() == old(self).public_key_view(),
            final(self).signature_view() == old(self).signature_view(),
    {
        if self.texts.len() > MAX_IDENTIFIED_TEXTS {
            return Err(UserError::TooManyTexts);
        }
        self.texts.push(text_id);
        Ok(())
    }

    /// Removes every occurrence of a note; fails if the user holds none at all.
    pub fn remove_text_id(&mut self, text_id: u64) -> (r: Result<(), UserError>)
        ensures
            old(self).texts_view().len() == 0 ==> r == Err::<(), UserError>(UserError::NoTexts)
                && final(self).texts_view() == old(self).texts_view(),
            old(self).texts_view().len() > 0 ==> r == Ok::<(), UserError>(())
                && final(self).texts_view() == without(old(self).texts_view(), text_id),
            final(self).public_key_view() == old(self).public_key_view(),
            final(self).signature_view() == old(self).signature_view(),
    {
        if self.texts.len() < 1 {
            return Err(UserError::NoTexts);
        }
        self.texts = retain_other(&self.texts, text_id);
        Ok(())
    }

    /// The notes held, in the order they were added.
    pub fn iter_texts(&self) -> (r: &[u64])
        ensures
            r@ == self.texts_view(),
    {
        self.texts.as_slice()
    }

    /// Registers `public_key` and a login `signature` at `now`; returns `now`.
    pub fn set_signature(&mut self, public_key: Vec<u8>, signature: Vec<u8>, now: u64) -> (r: u64)
        ensures
            r == now,
            final(self).public_key_view() == public_key@,
            final(self).signature_view() == Some((signature@, now)),
            final(self).texts_view() == old(self).texts_view(),
    {
        self.signature = Some(AuthenticatedSignature::new(signature, now));
        self.public_key = public_key;
        now
    }

    /// Logs in with the registered signature over `auth_code`: it must be set,
    /// at most `SIGNATURE_VALIDITY_SECS` old at `now`, and verify under the
    /// registered key.
    pub fn login_with_signature(&self, auth_code: &[u8], now: u64) -> (r: Result<(), LoginError>)
        ensures
            self.signature_view() is None ==> r == Err::<(), LoginError>(
                LoginError::SignatureNotSet,
            ),
            self.signature_view() matches Some((sig, created)) ==> {
                &&& now > add_secs_spec(created, SIGNATURE_VALIDITY_SECS) ==> r == Err::<
                    (),
                    LoginError,
                >(LoginError::SignatureExpired)
                &&& now <= add_secs_spec(created, SIGNATURE_VALIDITY_SECS) && signature_accepted(
                    self.public_key_view(),
                    sig,
                    auth_code@,
                ) ==> r == Ok::<(), LoginError>(())
                &&& now <= add_secs_spec(created, SIGNATURE_VALIDITY_SECS) && !signature_accepted(
                    self.public_key_view(),
                    sig,
                    auth_code@,
                ) ==> r == Err::<(), LoginError>(LoginError::InvalidSignature)
            },
    {
        match &self.signature {
            None => Err(LoginError::SignatureNotSet),
            Some(s) => {
                if now > add_secs(s.created_at, SIGNATURE_VALIDITY_SECS) {
                    return Err(LoginError::SignatureExpired);
                }
                match verify_pairing(self.public_key.as_slice(), s.signature.as_slice(), auth_code) {
                    Ok(true) => Ok(()),
                    _ => Err(LoginError::InvalidSignature),
                }
            },
        }
    }
}

} // verus!
