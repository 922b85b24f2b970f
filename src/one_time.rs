//! Single-use, time-boxed grants that let a reader redeem one encrypted note.
//!
//! A grant for a note holds the owner's public key, an expiry and a count of
//! failed attempts. Redeeming checks, in this order: that the grant exists,
//! that fewer than `MAX_TRIES` attempts have failed, that it has not expired,
//! and that the signature over the note id verifies under the owner's key. A
//! failed signature counts one try; a good one deletes the grant in the same
//! step that releases the note.
use crate::bytes::{le64, to_le_bytes};
use crate::idmap::IdMap;
use crate::signature::{signature_accepted, verify_pairing};
use crate::timestamp::{add_secs, add_secs_spec};
use crate::users::{
    anonymous_expired, AnonymousUserData, EncryptedText, PublicKey, DECRYPTION_KEY_BYTES,
    MAX_ANONYMOUS_TEXTS,
};
use vstd::prelude::*;
use vstd::slice::slice_to_vec;

verus! {

/// How long, in seconds, a grant lives by default.
pub const ONE_TIME_KEY_EXPIRATION: u64 = 60 * 60 * 24;

/// Failed attempts after which a grant is dead.
pub const MAX_TRIES: u8 = 3;

/// The contents of a grant.
pub struct OneTimeKeyView {
    pub time_lock: u64,
    pub public_key: Seq<u8>,
    pub tries: u8,
}

/// A single-use grant on a note.
pub struct OneTimeKey {
    time_lock: u64,
    public_key: Vec<u8>,
    tries: u8,
}

impl View for OneTimeKey {
    type V = OneTimeKeyView;

    closed spec fn view(&self) -> OneTimeKeyView {
        OneTimeKeyView { time_lock: self.time_lock, public_key: self.public_key@, tries: self.tries }
    }
}

/// Whether a grant has expired at `now`.
pub open spec fn grant_expired(k: OneTimeKeyView, now: u64) -> bool {
    now > k.time_lock
}

/// The grant after one more failed attempt.
pub open spec fn with_try(k: OneTimeKeyView) -> OneTimeKeyView {
    OneTimeKeyView { tries: (k.tries + 1) as u8, ..k }
}

impl OneTimeKey {
    /// A fresh grant for `public_key`, expiring the default lifetime after `now`.
    pub fn new(public_key: PublicKey, now: u64) -> (r: OneTimeKey)
        ensures
            r@ == (OneTimeKeyView {
                time_lock: add_secs_spec(now, ONE_TIME_KEY_EXPIRATION),
                public_key: public_key@,
                tries: 0,
            }),
    {
        Self::new_with_ttl(public_key, now, ONE_TIME_KEY_EXPIRATION)
    }

    /// A fresh grant for `public_key`, expiring `ttl_secs` seconds after `now`.
    pub fn new_with_ttl(public_key: PublicKey, now: u64, ttl_secs: u64) -> (r: OneTimeKey)
        ensures
            r@ == (OneTimeKeyView {
                time_lock: add_secs_spec(now, ttl_secs),
                public_key: public_key@,
                tries: 0,
            }),
    {
        OneTimeKey {
            time_lock: add_secs(now, ttl_secs),
            public_key: slice_to_vec(public_key.as_slice()),
            tries: 0,
        }
    }

    /// Whether the grant has used up its attempts.
    pub fn out_of_tries(&self) -> (r: bool)
        ensures
            r == (self@.tries >= MAX_TRIES),
    {
        self.tries >= MAX_TRIES
    }

    /// Counts one failed attempt.
    pub fn add_try(&mut self)
        requires
            old(self)@.tries < MAX_TRIES,
        ensures
            final(self)@ == with_try(old(self)@),
    {
        self.tries = self.tries + 1;
    }

    /// Whether the grant has expired at `now`.
    pub fn is_expired(&self, now: u64) -> (r: bool)
        ensures
            r == grant_expired(self@, now),
    {
        now > self.time_lock
    }

    /// The owner's public key.
    pub fn public_key(&self) -> (r: &[u8])
        ensures
            r@ == self@.public_key,
    {
        self.public_key.as_slice()
    }

    /// The number of failed attempts so far.
    pub fn tries(&self) -> (r: u8)
        ensures
            r == self@.tries,
    {
        self.tries
    }

    /// When the grant expires.
    pub fn expiration(&self) -> (r: u64)
        ensures
            r == self@.time_lock,
    {
        self.time_lock
    }
}

/// Why a request on notes or grants was refused.
#[derive(Debug, Clone, Copy, PartialEq, Eq, Structural)]
pub enum AccessError {
    /// The grant, note or user does not exist.
    NotFound,
    /// The grant has used up its attempts.
    OutOfTries,
    /// The grant has expired.
    Expired,
    /// The signature did not verify under the owner's key.
    InvalidSignature,
    /// The public key does not have the expected length.
    InvalidPublicKey,
    /// The user does not own the note.
    NotOwner,
    /// The note counter cannot grow any further.
    NonceExhausted,
    /// The user already holds the most notes allowed.
    TooManyTexts,
}

/// What redeeming the grant on note `id` with `sig` at `now` does: the grants
/// afterwards, and the note or the error returned.
pub open spec fn redeem_spec(
    grants: Map<u64, OneTimeKeyView>,
    notes: Map<u64, Seq<u8>>,
    id: u64,
    sig: Seq<u8>,
    now: u64,
) -> (Map<u64, OneTimeKeyView>, Result<Seq<u8>, AccessError>) {
    if !grants.contains_key(id) {
        (grants, Err(AccessError::NotFound))
    } else if grants[id].tries >= MAX_TRIES {
        (grants, Err(AccessError::OutOfTries))
    } else if grant_expired(grants[id], now) {
        (grants, Err(AccessError::Expired))
    } else if !signature_accepted(grants[id].public_key, sig, le64(id)) {
        (grants.insert(id, with_try(grants[id])), Err(AccessError::InvalidSignature))
    } else if !notes.contains_key(id) {
        (grants, Err(AccessError::NotFound))
    } else {
        (grants.remove(id), Ok(notes[id]))
    }
}

/// Once a grant has been redeemed, any further attempt on it finds nothing.
pub proof fn lemma_redeem_once(
    grants: Map<u64, OneTimeKeyView>,
    notes: Map<u64, Seq<u8>>,
    id: u64,
    sig: Seq<u8>,
    now: u64,
    sig2: Seq<u8>,
    now2: u64,
)
    requires
        redeem_spec(grants, notes, id, sig, now).1 is Ok,
    ensures
        redeem_spec(redeem_spec(grants, notes, id, sig, now).0, notes, id, sig2, now2).1 == Err::<
            Seq<u8>,
            AccessError,
        >(AccessError::NotFound),
{
}

/// After three failed attempts on a fresh grant, the next attempt is refused
/// as out of tries, whatever its signature.
pub proof fn lemma_three_failures_exhaust(
    grants: Map<u64, OneTimeKeyView>,
    notes: Map<u64, Seq<u8>>,
    id: u64,
    s1: Seq<u8>,
    t1: u64,
    s2: Seq<u8>,
    t2: u64,
    s3: Seq<u8>,
    t3: u64,
    s4: Seq<u8>,
    t4: u64,
)
    requires
        grants.contains_key(id),
        grants[id].tries == 0,
        redeem_spec(grants, notes, id, s1, t1).1 == Err::<Seq<u8>, AccessError>(
            AccessError::InvalidSignature,
        ),
        redeem_spec(redeem_spec(grants, notes, id, s1, t1).0, notes, id, s2, t2).1 == Err::<
            Seq<u8>,
            AccessError,
        >(AccessError::InvalidSignature),
        redeem_spec(
            redeem_spec(redeem_spec(grants, notes, id, s1, t1).0, notes, id, s2, t2).0,
            notes,
            id,
            s3,
            t3,
        ).1 == Err::<Seq<u8>, AccessError>(AccessError::InvalidSignature),
    ensures
        redeem_spec(
            redeem_spec(
                redeem_spec(redeem_spec(grants, notes, id, s1, t1).0, notes, id, s2, t2).0,
                notes,
                id,
                s3,
                t3,
            ).0,
            notes,
            id,
            s4,
            t4,
        ).1 == Err::<Seq<u8>, AccessError>(AccessError::OutOfTries),
{
    let g1 = redeem_spec(grants, notes, id, s1, t1).0;
    assert(g1[id].tries == 1);
    let g2 = redeem_spec(g1, notes, id, s2, t2).0;
    assert(g2[id].tries == 2);
    let g3 = redeem_spec(g2, notes, id, s3, t3).0;
    assert(g3[id].tries == 3);
}

/// The service's state: notes, anonymous users, grants and the note counter.
pub struct NotesVault {
    texts: IdMap<u64, EncryptedText>,
    anonymous_users: IdMap<PublicKey, AnonymousUserData>,
    one_time_keys: IdMap<u64, OneTimeKey>,
    nonce: u64,
    grant_ttl_secs: u64,
}

/// The grants of `g` that are still alive at `now`.
pub open spec fn live_grants(g: Map<u64, OneTimeKeyView>, now: u64) -> Map<u64, OneTimeKeyView> {
    Map::new(|id: u64| g.contains_key(id) && !grant_expired(g[id], now), |id: u64| g[id])
}

/// The entries of `m` whose user, made at `created`, is still alive at `now`.
pub open spec fn live_users<V>(
    m: Map<PublicKey, V>,
    created: Map<PublicKey, u64>,
    now: u64,
) -> Map<PublicKey, V> {
    Map::new(
        |k: PublicKey|
            m.contains_key(k) && created.contains_key(k) && !anonymous_expired(created[k], now),
        |k: PublicKey| m[k],
    )
}

/// Whether two vaults hold the same anonymous users.
pub open spec fn users_same(a: NotesVault, b: NotesVault) -> bool {
    &&& a.user_texts() == b.user_texts()
    &&& a.user_created() == b.user_created()
    &&& a.user_keys() == b.user_keys()
}

/// The live, well-formed key cached for the user with `public_key`.
pub open spec fn live_cached_key(v: NotesVault, public_key: PublicKey, now: u64) -> Option<Seq<u8>> {
    if v.user_keys().contains_key(public_key) && v.user_created().contains_key(public_key)
        && !anonymous_expired(v.user_created()[public_key], now) {
        match v.user_keys()[public_key] {
            Some(k) => if k.len() == DECRYPTION_KEY_BYTES {
                Some(k)
            } else {
                None
            },
            None => None,
        }
    } else {
        None
    }
}

impl NotesVault {
    /// Whether the stores are consistent and no grant has more than
    /// `MAX_TRIES` failed attempts.
    pub closed spec fn wf(&self) -> bool {
        &&& self.texts.wf()
        &&& self.anonymous_users.wf()
        &&& self.one_time_keys.wf()
        &&& forall|id: u64| #[trigger]
            self.one_time_keys.view().contains_key(id) ==> self.one_time_keys.view()[id]@.tries
                <= MAX_TRIES
    }

    /// The grants, by note id.
    pub closed spec fn grants(&self) -> Map<u64, OneTimeKeyView> {
        self.one_time_keys.view().map_values(|k: OneTimeKey| k@)
    }

    /// The encrypted notes, by id.
    pub closed spec fn notes(&self) -> Map<u64, Seq<u8>> {
        self.texts.view().map_values(|t: EncryptedText| t@)
    }

    /// The notes each anonymous user holds, by public key.
    pub closed spec fn user_texts(&self) -> Map<PublicKey, Seq<u64>> {
        self.anonymous_users.view().map_values(|u: AnonymousUserData| u.texts_view())
    }

    /// When each anonymous user's record was made, by public key.
    pub closed spec fn user_created(&self) -> Map<PublicKey, u64> {
        self.anonymous_users.view().map_values(|u: AnonymousUserData| u.created_at_view())
    }

    /// The decryption key cached for each anonymous user, by public key.
    pub closed spec fn user_keys(&self) -> Map<PublicKey, Option<Seq<u8>>> {
        self.anonymous_users.view().map_values(|u: AnonymousUserData| u.key_view())
    }

    /// When the user with `public_key` was made, or `now` for an unknown user.
    pub open spec fn created_or(&self, public_key: PublicKey, now: u64) -> u64 {
        if self.user_created().contains_key(public_key) {
            self.user_created()[public_key]
        } else {
            now
        }
    }

    /// The key cached for the user with `public_key`; none for an unknown user.
    pub open spec fn key_of(&self, public_key: PublicKey) -> Option<Seq<u8>> {
        if self.user_keys().contains_key(public_key) {
            self.user_keys()[public_key]
        } else {
            None
        }
    }

    /// The last note id handed out.
    pub closed spec fn nonce_view(&self) -> u64 {
        self.nonce
    }

    /// The lifetime, in seconds, of new grants.
    pub closed spec fn grant_ttl(&self) -> u64 {
        self.grant_ttl_secs
    }

    /// An empty vault whose grants live `grant_ttl_secs` seconds.
    pub fn new(grant_ttl_secs: u64) -> (r: NotesVault)
        ensures
            r.wf(),
            r.grants() == Map::<u64, OneTimeKeyView>::empty(),
            r.notes() == Map::<u64, Seq<u8>>::empty(),
            r.user_texts() == Map::<PublicKey, Seq<u64>>::empty(),
            r.user_created() == Map::<PublicKey, u64>::empty(),
            r.user_keys() == Map::<PublicKey, Option<Seq<u8>>>::empty(),
            r.nonce_view() == 0,
            r.grant_ttl() == grant_ttl_secs,
    {
        let r = NotesVault {
            texts: IdMap::new(),
            anonymous_users: IdMap::new(),
            one_time_keys: IdMap::new(),
            nonce: 0,
            grant_ttl_secs,
        };
        assert(r.grants() =~= Map::<u64, OneTimeKeyView>::empty());
        assert(r.notes() =~= Map::<u64, Seq<u8>>::empty());
        assert(r.user_texts() =~= Map::<PublicKey, Seq<u64>>::empty());
        assert(r.user_created() =~= Map::<PublicKey, u64>::empty());
        assert(r.user_keys() =~= Map::<PublicKey, Option<Seq<u8>>>::empty());
        r
    }

    /// Hands out the next note id; ids are never reused.
    pub fn increment_nonce(&mut self) -> (r: Result<u64, AccessError>)
        requires
            old(self).wf(),
        ensures
            final(self).wf(),
            old(self).nonce_view() == u64::MAX ==> r == Err::<u64, AccessError>(
                AccessError::NonceExhausted,
            ) && final(self).nonce_view() == old(self).nonce_view(),
            old(self).nonce_view() < u64::MAX ==> r == Ok::<u64, AccessError>(
                (old(self).nonce_view() + 1) as u64,
            ) && final(self).nonce_view() == old(self).nonce_view() + 1,
            final(self).grants() == old(self).grants(),
            final(self).notes() == old(self).notes(),
            users_same(*final(self), *old(self)),
            final(self).grant_ttl() == old(self).grant_ttl(),
    {
        if self.nonce == u64::MAX {
            return Err(AccessError::NonceExhausted);
        }
        self.nonce = self.nonce + 1;
        Ok(self.nonce)
    }

    /// The last note id handed out.
    pub fn get_nonce(&self) -> (r: u64)
        ensures
            r == self.nonce_view(),
    {
        self.nonce
    }

    /// Stores `text` as the content of note `id`.
    pub fn set_encrypted_text(&mut self, id: u64, text: Vec<u8>)
        requires
            old(self).wf(),
        ensures
            final(self).wf(),
            final(self).notes() == old(self).notes().insert(id, text@),
            final(self).grants() == old(self).grants(),
            users_same(*final(self), *old(self)),
            final(self).nonce_view() == old(self).nonce_view(),
            final(self).grant_ttl() == old(self).grant_ttl(),
    {
        let t = EncryptedText::new(text);
        self.texts.insert(id, t);
        assert(self.notes() =~= old(self).notes().insert(id, text@));
    }

    /// A copy of note `id`.
    pub fn encrypted_text(&self, id: u64) -> (r: Option<Vec<u8>>)
        requires
            self.wf(),
        ensures
            self.notes().contains_key(id) ==> (r matches Some(v) && v@ == self.notes()[id]),
            !self.notes().contains_key(id) ==> r is None,
    {
        match self.texts.get(id) {
            Some(t) => Some(t.into_inner()),
            None => None,
        }
    }

    /// The record of the anonymous user with `public_key`.
    pub fn get_anonymous_user(&self, public_key: &PublicKey) -> (r: Option<&AnonymousUserData>)
        requires
            self.wf(),
        ensures
            r matches Some(u) ==> self.user_texts().contains_key(*public_key) && u.texts_view()
                == self.user_texts()[*public_key] && u.created_at_view()
                == self.user_created()[*public_key],
            r is None ==> !self.user_texts().contains_key(*public_key),
    {
        self.anonymous_users.get(*public_key)
    }

    /// Stores the record of the anonymous user with `public_key`.
    pub fn set_anonymous_user(&mut self, public_key: PublicKey, user: AnonymousUserData)
        requires
            old(self).wf(),
        ensures
            final(self).wf(),
            final(self).user_texts() == old(self).user_texts().insert(
                public_key,
                user.texts_view(),
            ),
            final(self).user_created() == old(self).user_created().insert(
                public_key,
                user.created_at_view(),
            ),
            final(self).user_keys() == old(self).user_keys().insert(public_key, user.key_view()),
            final(self).grants() == old(self).grants(),
            final(self).notes() == old(self).notes(),
            final(self).nonce_view() == old(self).nonce_view(),
            final(self).grant_ttl() == old(self).grant_ttl(),
    {
        let ghost tv = user.texts_view();
        let ghost cv = user.created_at_view();
        let ghost kv = user.key_view();
        self.anonymous_users.insert(public_key, user);
        assert(self.user_texts() =~= old(self).user_texts().insert(public_key, tv));
        assert(self.user_created() =~= old(self).user_created().insert(public_key, cv));
        assert(self.user_keys() =~= old(self).user_keys().insert(public_key, kv));
    }

    /// The notes an anonymous user holds, or none for an unknown user.
    pub open spec fn texts_of(&self, public_key: PublicKey) -> Seq<u64> {
        if self.user_texts().contains_key(public_key) {
            self.user_texts()[public_key]
        } else {
            Seq::<u64>::empty()
        }
    }

    /// Saves a new note for the anonymous user with `public_key`, creating the
    /// user's record at `now` if there is none, and returns the note's id.
    /// Nothing changes when the user already holds the most notes allowed or
    /// the counter is exhausted.
    pub fn save_encrypted_text(&mut self, encrypted_text: Vec<u8>, public_key: PublicKey, now: u64)
        -> (r: Result<u64, AccessError>)
        requires
            old(self).wf(),
        ensures
            final(self).wf(),
            old(self).texts_of(public_key).len() >= MAX_ANONYMOUS_TEXTS ==> r == Err::<
                u64,
                AccessError,
            >(AccessError::TooManyTexts),
            old(self).texts_of(public_key).len() < MAX_ANONYMOUS_TEXTS && old(self).nonce_view()
                == u64::MAX ==> r == Err::<u64, AccessError>(AccessError::NonceExhausted),
            r is Err ==> final(self).notes() == old(self).notes() && users_same(
                *final(self),
                *old(self),
            ) && final(self).nonce_view() == old(self).nonce_view(),
            old(self).texts_of(public_key).len() < MAX_ANONYMOUS_TEXTS && old(self).nonce_view()
                < u64::MAX ==> {
                let id = (old(self).nonce_view() + 1) as u64;
                &&& r == Ok::<u64, AccessError>(id)
                &&& final(self).nonce_view() == id
                &&& final(self).notes() == old(self).notes().insert(id, encrypted_text@)
                &&& final(self).user_texts() == old(self).user_texts().insert(
                    public_key,
                    old(self).texts_of(public_key).push(id),
                )
                &&& final(self).user_created() == old(self).user_created().insert(
                    public_key,
                    old(self).created_or(public_key, now),
                )
                &&& final(self).user_keys() == old(self).user_keys().insert(
                    public_key,
                    old(self).key_of(public_key),
                )
            },
            final(self).grants() == old(self).grants(),
            final(self).grant_ttl() == old(self).grant_ttl(),
    {
        let count = match self.anonymous_users.get(public_key) {
            Some(u) => u.iter_texts().len(),
            None => 0,
        };
        if count >= MAX_ANONYMOUS_TEXTS {
            return Err(AccessError::TooManyTexts);
        }
        let id = self.increment_nonce()?;
        self.set_encrypted_text(id, encrypted_text);
        let ghost before = self.user_texts();
        let ghost before_created = self.user_created();
        let ghost before_keys = self.user_keys();
        let mut user = match self.anonymous_users.remove(public_key) {
            Some(u) => u,
            None => AnonymousUserData::new(None, now),
        };
        assert(user.texts_view() == old(self).texts_of(public_key));
        assert(user.created_at_view() == old(self).created_or(public_key, now));
        assert(user.key_view() == old(self).key_of(public_key));
        let _added = user.add_text_id(id);
        let ghost tv = user.texts_view();
        let ghost cv = user.created_at_view();
        let ghost kv = user.key_view();
        self.anonymous_users.insert(public_key, user);
        assert(self.user_texts() =~= before.insert(public_key, tv));
        assert(self.user_created() =~= before_created.insert(public_key, cv));
        assert(self.user_keys() =~= before_keys.insert(public_key, kv));
        Ok(id)
    }

    /// The encrypted decryption key cached for the anonymous user with
    /// `public_key`, if the user exists, is alive at `now`, and the key is
    /// well-formed.
    pub fn cached_decryption_key(&self, public_key: &PublicKey, now: u64) -> (r: Option<Vec<u8>>)
        requires
            self.wf(),
        ensures
            match live_cached_key(*self, *public_key, now) {
                Some(k) => r matches Some(v) && v@ == k,
                None => r is None,
            },
    {
        match self.anonymous_users.get(*public_key) {
            Some(u) => match u.get_decryption_key(now) {
                Ok(k) => Some(k),
                Err(_) => None,
            },
            None => None,
        }
    }

    /// Caches `key` for the anonymous user with `public_key`, creating the
    /// user's record at `now` if there is none.
    pub fn cache_decryption_key(&mut self, public_key: PublicKey, key: Vec<u8>, now: u64)
        requires
            old(self).wf(),
        ensures
            final(self).wf(),
            final(self).user_texts() == old(self).user_texts().insert(
                public_key,
                old(self).texts_of(public_key),
            ),
            final(self).user_created() == old(self).user_created().insert(
                public_key,
                old(self).created_or(public_key, now),
            ),
            final(self).user_keys() == old(self).user_keys().insert(public_key, Some(key@)),
            final(self).grants() == old(self).grants(),
            final(self).notes() == old(self).notes(),
            final(self).nonce_view() == old(self).nonce_view(),
            final(self).grant_ttl() == old(self).grant_ttl(),
    {
        let ghost before = self.user_texts();
        let ghost before_created = self.user_created();
        let ghost before_keys = self.user_keys();
        let ghost kseq = key@;
        let mut user = match self.anonymous_users.remove(public_key) {
            Some(u) => u,
            None => AnonymousUserData::new(None, now),
        };
        assert(user.texts_view() == old(self).texts_of(public_key));
        assert(user.created_at_view() == old(self).created_or(public_key, now));
        user.set_decryption_key(key);
        let ghost tv = user.texts_view();
        let ghost cv = user.created_at_view();
        self.anonymous_users.insert(public_key, user);
        assert(self.user_texts() =~= before.insert(public_key, tv));
        assert(self.user_created() =~= before_created.insert(public_key, cv));
        assert(self.user_keys() =~= before_keys.insert(public_key, Some(kseq)));
    }

    /// Registers a grant on `text_id` for the anonymous user with
    /// `public_key`, who must own the note. Replaces any earlier grant.
    pub fn set_one_time_key(&mut self, text_id: u64, public_key: &[u8], now: u64) -> (r: Result<
        (),
        AccessError,
    >)
        requires
            old(self).wf(),
        ensures
            final(self).wf(),
            public_key@.len() != 48 ==> r == Err::<(), AccessError>(AccessError::InvalidPublicKey),
            public_key@.len() == 48 && !(exists|k: PublicKey|
                k@ == public_key@ && #[trigger] old(self).user_texts().contains_key(k)) ==> r
                == Err::<(), AccessError>(AccessError::NotFound),
            forall|k: PublicKey|
                k@ == public_key@ && #[trigger] old(self).user_texts().contains_key(k) ==> {
                    &&& !old(self).user_texts()[k].contains(text_id) ==> r == Err::<
                        (),
                        AccessError,
                    >(AccessError::NotOwner)
                    &&& old(self).user_texts()[k].contains(text_id) ==> r == Ok::<(), AccessError>(
                        (),
                    ) && final(self).grants() == old(self).grants().insert(
                        text_id,
                        OneTimeKeyView {
                            time_lock: add_secs_spec(now, old(self).grant_ttl()),
                            public_key: public_key@,
                            tries: 0,
                        },
                    )
                },
            r is Err ==> final(self).grants() == old(self).grants(),
            final(self).notes() == old(self).notes(),
            users_same(*final(self), *old(self)),
            final(self).nonce_view() == old(self).nonce_view(),
            final(self).grant_ttl() == old(self).grant_ttl(),
    {
        let key: PublicKey = match crate::bytes::vec_to_fixed_array::<48>(public_key) {
            Ok(a) => a,
            Err(_) => {
                return Err(AccessError::InvalidPublicKey);
            },
        };
        proof {
            assert forall|k: PublicKey| k@ == public_key@ implies k == key by {
                assert(k@ =~= key@);
                vstd::array::axiom_array_ext_equal(k, key);
            }
        }
        let owns = match self.anonymous_users.get(key) {
            None => {
                return Err(AccessError::NotFound);
            },
            Some(user) => user.has_text_id(text_id),
        };
        assert(key@ == public_key@ && old(self).user_texts().contains_key(key));
        if !owns {
            return Err(AccessError::NotOwner);
        }
        let grant = OneTimeKey::new_with_ttl(key, now, self.grant_ttl_secs);
        let ghost gv = grant@;
        self.one_time_keys.insert(text_id, grant);
        assert(self.grants() =~= old(self).grants().insert(text_id, gv));
        Ok(())
    }

    /// The owner's public key of the grant on `text_id`.
    pub fn get_one_time_key(&self, text_id: u64) -> (r: Result<Vec<u8>, AccessError>)
        requires
            self.wf(),
        ensures
            self.grants().contains_key(text_id) ==> (r matches Ok(v) && v@ == self.grants()[text_id].public_key),
            !self.grants().contains_key(text_id) ==> r == Err::<Vec<u8>, AccessError>(
                AccessError::NotFound,
            ),
    {
        match self.one_time_keys.get(text_id) {
            Some(k) => Ok(slice_to_vec(k.public_key())),
            None => Err(AccessError::NotFound),
        }
    }

    /// The grant on `text_id`.
    pub fn get_one_time_key_details(&self, text_id: u64) -> (r: Option<&OneTimeKey>)
        requires
            self.wf(),
        ensures
            self.grants().contains_key(text_id) ==> (r matches Some(k) && k@ == self.grants()[text_id]),
            !self.grants().contains_key(text_id) ==> r is None,
    {
        self.one_time_keys.get(text_id)
    }

    /// Redeems the grant on `text_id` with a signature over the note id's
    /// eight little-endian bytes. On success the grant is gone and the note's
    /// ciphertext is returned; the caller then asks for the decryption key.
    pub fn read_with_one_time_key(&mut self, text_id: u64, signature: &[u8], now: u64) -> (r:
        Result<Vec<u8>, AccessError>)
        requires
            old(self).wf(),
        ensures
            final(self).wf(),
            final(self).grants() == redeem_spec(
                old(self).grants(),
                old(self).notes(),
                text_id,
                signature@,
                now,
            ).0,
            match redeem_spec(old(self).grants(), old(self).notes(), text_id, signature@, now).1 {
                Ok(note) => r matches Ok(v) && v@ == note,
                Err(e) => r == Err::<Vec<u8>, AccessError>(e),
            },
            final(self).notes() == old(self).notes(),
            users_same(*final(self), *old(self)),
            final(self).nonce_view() == old(self).nonce_view(),
            final(self).grant_ttl() == old(self).grant_ttl(),
    {
        let ok = match self.one_time_keys.get(text_id) {
            None => {
                return Err(AccessError::NotFound);
            },
            Some(key) => {
                if key.out_of_tries() {
                    return Err(AccessError::OutOfTries);
                }
                if key.is_expired(now) {
                    return Err(AccessError::Expired);
                }
                let msg = to_le_bytes(text_id);
                match verify_pairing(key.public_key(), signature, msg.as_slice()) {
                    Ok(b) => b,
                    Err(_) => false,
                }
            },
        };
        if !ok {
            let mut key = match self.one_time_keys.remove(text_id) {
                Some(k) => k,
                None => {
                    proof {
                        assert(false);
                    }
                    return Err(AccessError::NotFound);
                },
            };
            key.add_try();
            let ghost kv = key@;
            self.one_time_keys.insert(text_id, key);
            assert(self.grants() =~= old(self).grants().insert(text_id, kv));
            return Err(AccessError::InvalidSignature);
        }
        let text = match self.texts.get(text_id) {
            Some(t) => t.into_inner(),
            None => {
                return Err(AccessError::NotFound);
            },
        };
        self.one_time_keys.remove(text_id);
        assert(self.grants() =~= old(self).grants().remove(text_id));
        Ok(text)
    }

    /// Deletes every grant that has expired at `now`; the others stay as they are.
    pub fn remove_expired_one_time_keys(&mut self, now: u64)
        requires
            old(self).wf(),
        ensures
            final(self).wf(),
            final(self).grants() == live_grants(old(self).grants(), now),
            final(self).notes() == old(self).notes(),
            users_same(*final(self), *old(self)),
            final(self).nonce_view() == old(self).nonce_view(),
            final(self).grant_ttl() == old(self).grant_ttl(),
    {
        let expired = |k: &OneTimeKey| -> (r: bool)
            ensures
                r == grant_expired(k@, now),
            { k.is_expired(now) };
        self.one_time_keys.remove_where(expired);
        assert forall|id: u64| #[trigger]
            self.grants().contains_key(id) == live_grants(old(self).grants(), now).contains_key(
                id,
            ) by {
            if old(self).grants().contains_key(id) && !self.grants().contains_key(id) {
                assert(old(self).one_time_keys.view().contains_key(id));
            }
        }
        assert(self.grants() =~= live_grants(old(self).grants(), now));
    }

    /// Deletes every anonymous user whose record has expired at `now`.
    pub fn remove_expired_anonymous_users(&mut self, now: u64)
        requires
            old(self).wf(),
        ensures
            final(self).wf(),
            final(self).user_texts() == live_users(
                old(self).user_texts(),
                old(self).user_created(),
                now,
            ),
            final(self).user_created() == live_users(
                old(self).user_created(),
                old(self).user_created(),
                now,
            ),
            final(self).user_keys() == live_users(
                old(self).user_keys(),
                old(self).user_created(),
                now,
            ),
            final(self).grants() == old(self).grants(),
            final(self).notes() == old(self).notes(),
            final(self).nonce_view() == old(self).nonce_view(),
            final(self).grant_ttl() == old(self).grant_ttl(),
    {
        let expired = |u: &AnonymousUserData| -> (r: bool)
            ensures
                r == anonymous_expired(u.created_at_view(), now),
            { u.is_expired(now) };
        self.anonymous_users.remove_where(expired);
        let ghost created = old(self).user_created();
        assert forall|k: PublicKey| #[trigger]
            self.anonymous_users.view().contains_key(k) == (created.contains_key(k)
                && !anonymous_expired(created[k], now)) by {
            if created.contains_key(k) && !self.anonymous_users.view().contains_key(k) {
                assert(old(self).anonymous_users.view().contains_key(k));
            }
        }
        assert(self.user_texts() =~= live_users(old(self).user_texts(), created, now));
        assert(self.user_created() =~= live_users(created, created, now));
        assert(self.user_keys() =~= live_users(old(self).user_keys(), created, now));
    }
}

} // verus!
