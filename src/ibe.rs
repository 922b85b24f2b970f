//! Identity-based encryption over BLS12-381, and the wire formats of the key
//! material that the key-derivation service hands out.
use crate::curve::{
    augmented_hash_to_g1, augmented_hash_to_g1_spec, deserialize_g1, deserialize_g2,
    g1_mul_of, g1_valid, g2_generator_mul_of, g2_valid, pairing, pairing_of, CryptoError,
    G1Point, G2Point, G1_BYTES, G2_BYTES,
};
use crate::oracle::{frame, oracle_output, RandomOracle};
use vstd::prelude::*;
use vstd::slice::{slice_subrange, slice_to_vec};
use vstd::string::StringSliceAdditionalSpecFns;

verus! {

/// Size of the random seed of an IBE encryption.
pub const IBE_SEED_BYTES: usize = 32;

/// Size of a serialized encrypted key: two G1 points and a G2 point.
pub const ENCRYPTED_KEY_BYTES: usize = 192;

/// Oracle domain for the scalar that masks an encryption.
pub const HASH_TO_MASK_DOMAIN: &'static str = "ic-crypto-vetkd-bls12-381-ibe-hash-to-mask";

/// Oracle domain for the mask over the seed.
pub const MASK_SEED_DOMAIN: &'static str = "ic-crypto-vetkd-bls12-381-ibe-mask-seed";

/// Oracle domain for the mask over the message.
pub const MASK_MSG_DOMAIN: &'static str = "ic-crypto-vetkd-bls12-381-ibe-mask-msg";

/// Byte-wise exclusive or of `a` with the first `a.len()` bytes of `b`.
pub open spec fn xor_bytes(a: Seq<u8>, b: Seq<u8>) -> Seq<u8> {
    Seq::new(a.len(), |i: int| a[i] ^ b[i])
}

/// The 64-byte wide scalar `t` drawn for `(seed, msg)`.
pub open spec fn hash_to_mask_spec(seed: Seq<u8>, msg: Seq<u8>) -> Seq<u8> {
    oracle_output(frame(HASH_TO_MASK_DOMAIN.spec_bytes()) + frame(seed) + frame(msg), 64)
}

/// The 32-byte mask over the seed, derived from the serialized shared secret.
pub open spec fn seed_mask_spec(shared: Seq<u8>) -> Seq<u8> {
    oracle_output(frame(MASK_SEED_DOMAIN.spec_bytes()) + frame(shared), 32)
}

/// The `n`-byte mask over the message, derived from the seed.
pub open spec fn msg_mask_spec(seed: Seq<u8>, n: nat) -> Seq<u8> {
    oracle_output(frame(MASK_MSG_DOMAIN.spec_bytes()) + frame(seed), n)
}

/// The serialized shared secret of an encryption: `e(t * H(dpk, id), dpk)`.
pub open spec fn encryption_secret(dpk: Seq<u8>, identity: Seq<u8>, t: Seq<u8>) -> Seq<u8> {
    pairing_of(g1_mul_of(augmented_hash_to_g1_spec(dpk, identity), t), dpk)
}

/// The ciphertext `(c1, c2, c3)` of `msg` for `identity` under `dpk` with `seed`.
pub open spec fn ibe_encrypt_spec(dpk: Seq<u8>, identity: Seq<u8>, msg: Seq<u8>, seed: Seq<u8>) -> (
    Seq<u8>,
    Seq<u8>,
    Seq<u8>,
) {
    let t = hash_to_mask_spec(seed, msg);
    (
        g2_generator_mul_of(t),
        xor_bytes(seed, seed_mask_spec(encryption_secret(dpk, identity, t))),
        xor_bytes(msg, msg_mask_spec(seed, msg.len())),
    )
}

/// The seed recovered from `c2` with the shared secret `e(k, c1)`.
pub open spec fn recovered_seed(c1: Seq<u8>, c2: Seq<u8>, k: Seq<u8>) -> Seq<u8> {
    xor_bytes(c2, seed_mask_spec(pairing_of(k, c1)))
}

/// The message recovered from `c3` with the recovered seed.
pub open spec fn recovered_msg(c1: Seq<u8>, c2: Seq<u8>, c3: Seq<u8>, k: Seq<u8>) -> Seq<u8> {
    xor_bytes(c3, msg_mask_spec(recovered_seed(c1, c2, k), c3.len()))
}

/// What decrypting `(c1, c2, c3)` with the key `k` gives: the recovered message
/// if it re-encrypts to `c1`, and nothing otherwise.
pub open spec fn ibe_decrypt_spec(c1: Seq<u8>, c2: Seq<u8>, c3: Seq<u8>, k: Seq<u8>) -> Option<
    Seq<u8>,
> {
    let seed = recovered_seed(c1, c2, k);
    let msg = recovered_msg(c1, c2, c3, k);
    if g2_generator_mul_of(hash_to_mask_spec(seed, msg)) == c1 {
        Some(msg)
    } else {
        None
    }
}

/// Whether the key `k` matches an encryption: its pairing with `c1` gives the
/// encryption's shared secret. A key derived for `identity` under the master
/// key behind `dpk` has this property by bilinearity of the pairing.
pub open spec fn key_matches(
    k: Seq<u8>,
    dpk: Seq<u8>,
    identity: Seq<u8>,
    msg: Seq<u8>,
    seed: Seq<u8>,
) -> bool {
    let t = hash_to_mask_spec(seed, msg);
    pairing_of(k, g2_generator_mul_of(t)) == encryption_secret(dpk, identity, t)
}

/// Masking twice with the same mask gives the input back.
pub proof fn lemma_xor_twice(a: Seq<u8>, m: Seq<u8>)
    requires
        a.len() <= m.len(),
    ensures
        xor_bytes(xor_bytes(a, m), m) == a,
{
    assert forall|i: int| 0 <= i < a.len() implies #[trigger] xor_bytes(xor_bytes(a, m), m)[i]
        == a[i] by {
        let x = a[i];
        let y = m[i];
        assert((x ^ y) ^ y == x) by (bit_vector);
    }
    assert(xor_bytes(xor_bytes(a, m), m) =~= a);
}

/// Decrypting an encryption with key material that matches it gives back the
/// message.
pub proof fn lemma_decrypt_encrypt(
    dpk: Seq<u8>,
    identity: Seq<u8>,
    msg: Seq<u8>,
    seed: Seq<u8>,
    k: Seq<u8>,
)
    requires
        seed.len() == IBE_SEED_BYTES,
        key_matches(k, dpk, identity, msg, seed),
    ensures
        ({
            let (c1, c2, c3) = ibe_encrypt_spec(dpk, identity, msg, seed);
            ibe_decrypt_spec(c1, c2, c3, k) == Some(msg)
        }),
{
    let (c1, c2, c3) = ibe_encrypt_spec(dpk, identity, msg, seed);
    let t = hash_to_mask_spec(seed, msg);
    lemma_xor_twice(seed, seed_mask_spec(encryption_secret(dpk, identity, t)));
    assert(recovered_seed(c1, c2, k) == seed);
    lemma_xor_twice(msg, msg_mask_spec(seed, msg.len()));
    assert(recovered_msg(c1, c2, c3, k) == msg);
}

/// Decryption never returns a plaintext that fails the re-encryption check:
/// whatever it returns, encrypting it again with the recovered seed gives the
/// same `c1`.
pub proof fn lemma_decrypt_is_checked(c1: Seq<u8>, c2: Seq<u8>, c3: Seq<u8>, k: Seq<u8>)
    ensures
        ibe_decrypt_spec(c1, c2, c3, k) matches Some(m) ==> m == recovered_msg(c1, c2, c3, k)
            && g2_generator_mul_of(hash_to_mask_spec(recovered_seed(c1, c2, k), m)) == c1,
{
}

/// A per-context public key derived from a master key: a point of G2.
#[derive(Debug, Clone, Copy)]
pub struct DerivedPublicKey {
    pub point: G2Point,
}

/// Why a derived public key could not be read.
#[derive(Debug, Clone, Copy, PartialEq, Eq, Structural)]
pub enum DerivedPublicKeyDeserializationError {
    /// The bytes are not a valid compressed G2 point.
    InvalidPublicKey,
}

impl DerivedPublicKey {
    /// Reads a derived public key from its 96-byte compressed form.
    pub fn deserialize(bytes: &[u8]) -> (r: Result<
        DerivedPublicKey,
        DerivedPublicKeyDeserializationError,
    >)
        ensures
            bytes@.len() == G2_BYTES && g2_valid(bytes@) ==> (r matches Ok(k) && k.point@
                == bytes@),
            !(bytes@.len() == G2_BYTES && g2_valid(bytes@)) ==> r == Err::<
                DerivedPublicKey,
                DerivedPublicKeyDeserializationError,
            >(DerivedPublicKeyDeserializationError::InvalidPublicKey),
    {
        match deserialize_g2(bytes) {
            Ok(point) => Ok(DerivedPublicKey { point }),
            Err(_) => Err(DerivedPublicKeyDeserializationError::InvalidPublicKey),
        }
    }

    /// The 96-byte compressed form.
    pub fn serialize(&self) -> (r: [u8; 96])
        ensures
            r@ == self.point@,
    {
        self.point.to_bytes()
    }
}

/// Why an encrypted key could not be read.
#[derive(Debug, Clone, Copy, PartialEq, Eq, Structural)]
pub enum EncryptedKeyDeserializationError {
    /// One or more of the points was invalid.
    InvalidEncryptedKey,
}

/// Encrypted key material as returned by the key-derivation service.
#[derive(Debug, Clone, Copy)]
pub struct EncryptedKey {
    c1: G1Point,
    c2: G2Point,
    c3: G1Point,
}

/// Whether 192 bytes split into a valid G1, G2 and G1 point.
pub open spec fn encrypted_key_valid(b: Seq<u8>) -> bool {
    &&& g1_valid(b.subrange(0, 48))
    &&& g2_valid(b.subrange(48, 144))
    &&& g1_valid(b.subrange(144, 192))
}

impl EncryptedKey {
    /// The three components, compressed.
    pub closed spec fn view(&self) -> (Seq<u8>, Seq<u8>, Seq<u8>) {
        (self.c1@, self.c2@, self.c3@)
    }

    /// Reads an encrypted key from exactly 192 bytes.
    pub fn deserialize(bytes: &[u8]) -> (r: Result<EncryptedKey, CryptoError>)
        ensures
            bytes@.len() != ENCRYPTED_KEY_BYTES ==> r == Err::<EncryptedKey, CryptoError>(
                CryptoError::InvalidLength,
            ),
            bytes@.len() == ENCRYPTED_KEY_BYTES && !encrypted_key_valid(bytes@) ==> r == Err::<
                EncryptedKey,
                CryptoError,
            >(CryptoError::InvalidEncoding),
            bytes@.len() == ENCRYPTED_KEY_BYTES && encrypted_key_valid(bytes@) ==> (r matches Ok(
                k,
            ) && k.view() == (
                bytes@.subrange(0, 48),
                bytes@.subrange(48, 144),
                bytes@.subrange(144, 192),
            )),
    {
        let arr: [u8; 192] = match crate::bytes::vec_to_fixed_array::<192>(bytes) {
            Ok(a) => a,
            Err(_) => {
                return Err(CryptoError::InvalidLength);
            },
        };
        match Self::deserialize_array(&arr) {
            Ok(k) => Ok(k),
            Err(_) => Err(CryptoError::InvalidEncoding),
        }
    }

    /// Reads an encrypted key from a 192-byte array.
    pub fn deserialize_array(val: &[u8; 192]) -> (r: Result<
        EncryptedKey,
        EncryptedKeyDeserializationError,
    >)
        ensures
            !encrypted_key_valid(val@) ==> r == Err::<
                EncryptedKey,
                EncryptedKeyDeserializationError,
            >(EncryptedKeyDeserializationError::InvalidEncryptedKey),
            encrypted_key_valid(val@) ==> (r matches Ok(k) && k.view() == (
                val@.subrange(0, 48),
                val@.subrange(48, 144),
                val@.subrange(144, 192),
            )),
    {
        let c2_start: usize = G1_BYTES;
        let c3_start: usize = G1_BYTES + G2_BYTES;
        let all = val.as_slice();
        let c1_bytes = slice_subrange(all, 0, c2_start);
        let c2_bytes = slice_subrange(all, c2_start, c3_start);
        let c3_bytes = slice_subrange(all, c3_start, ENCRYPTED_KEY_BYTES);
        let c1 = deserialize_g1(c1_bytes);
        let c2 = deserialize_g2(c2_bytes);
        let c3 = deserialize_g1(c3_bytes);
        match (c1, c2, c3) {
            (Ok(c1), Ok(c2), Ok(c3)) => Ok(EncryptedKey { c1, c2, c3 }),
            (_, _, _) => Err(EncryptedKeyDeserializationError::InvalidEncryptedKey),
        }
    }
}

/// An IBE ciphertext: a G2 point, a masked 32-byte seed and the masked message.
#[derive(Debug)]
pub struct IBECiphertext {
    c1: G2Point,
    c2: [u8; 32],
    c3: Vec<u8>,
}

/// The fields of a well-formed serialized ciphertext.
pub open spec fn ibe_fields(b: Seq<u8>) -> (Seq<u8>, Seq<u8>, Seq<u8>) {
    (b.subrange(0, 96), b.subrange(96, 128), b.subrange(128, b.len() as int))
}

/// Reading back a serialized ciphertext gives its fields: a valid `c1` of 96
/// bytes and a `c2` of 32 bytes, followed by any `c3`, are accepted by
/// `IBECiphertext::deserialize` and split back into the same three fields.
pub proof fn lemma_ciphertext_round_trip(c1: Seq<u8>, c2: Seq<u8>, c3: Seq<u8>)
    requires
        c1.len() == G2_BYTES,
        g2_valid(c1),
        c2.len() == IBE_SEED_BYTES,
    ensures
        (c1 + c2 + c3).len() >= G2_BYTES + IBE_SEED_BYTES,
        g2_valid((c1 + c2 + c3).subrange(0, 96)),
        ibe_fields(c1 + c2 + c3) == (c1, c2, c3),
{
    let b = c1 + c2 + c3;
    assert(b.subrange(0, 96) =~= c1);
    assert(b.subrange(96, 128) =~= c2);
    assert(b.subrange(128, b.len() as int) =~= c3);
}

/// Byte-wise exclusive or of `a` and the first `a.len()` bytes of `m`.
fn xor_into(a: &[u8], m: &[u8]) -> (r: Vec<u8>)
    requires
        a@.len() <= m@.len(),
    ensures
        r@ == xor_bytes(a@, m@),
{
    let mut out: Vec<u8> = Vec::new();
    let mut i: usize = 0;
    while i < a.len()
        invariant
            i <= a@.len(),
            a@.len() <= m@.len(),
            out@ == xor_bytes(a@.subrange(0, i as int), m@),
        decreases a@.len() - i,
    {
        out.push(a[i] ^ m[i]);
        i = i + 1;
        assert(out@ =~= xor_bytes(a@.subrange(0, i as int), m@));
    }
    assert(a@.subrange(0, i as int) =~= a@);
    out
}

impl IBECiphertext {
    /// The three fields `(c1, c2, c3)`.
    pub closed spec fn view(&self) -> (Seq<u8>, Seq<u8>, Seq<u8>) {
        (self.c1@, self.c2@, self.c3@)
    }

    /// `c1 || c2 || c3`.
    pub fn serialize(&self) -> (r: Vec<u8>)
        ensures
            r@ == self.view().0 + self.view().1 + self.view().2,
            self.view().0.len() == G2_BYTES && g2_valid(self.view().0),
            self.view().1.len() == IBE_SEED_BYTES,
    {
        let c1 = self.c1.to_bytes();
        let mut out = crate::curve::concat(c1.as_slice(), self.c2.as_slice());
        let tail = crate::curve::concat(out.as_slice(), self.c3.as_slice());
        out = tail;
        out
    }

    /// Reads a ciphertext: a valid compressed G2 point, a 32-byte seed and the
    /// rest as the masked message.
    pub fn deserialize(bytes: &[u8]) -> (r: Result<IBECiphertext, CryptoError>)
        ensures
            bytes@.len() < G2_BYTES + IBE_SEED_BYTES ==> r == Err::<IBECiphertext, CryptoError>(
                CryptoError::InvalidLength,
            ),
            bytes@.len() >= G2_BYTES + IBE_SEED_BYTES && !g2_valid(bytes@.subrange(0, 96)) ==> r
                == Err::<IBECiphertext, CryptoError>(CryptoError::InvalidEncoding),
            bytes@.len() >= G2_BYTES + IBE_SEED_BYTES && g2_valid(bytes@.subrange(0, 96)) ==> (r
                matches Ok(c) && c.view() == ibe_fields(bytes@)),
    {
        if bytes.len() < G2_BYTES + IBE_SEED_BYTES {
            return Err(CryptoError::InvalidLength);
        }
        let c1 = match deserialize_g2(slice_subrange(bytes, 0, G2_BYTES)) {
            Ok(p) => p,
            Err(_) => {
                return Err(CryptoError::InvalidEncoding);
            },
        };
        let c2: [u8; 32] = match crate::bytes::vec_to_fixed_array::<32>(
            slice_subrange(bytes, G2_BYTES, G2_BYTES + IBE_SEED_BYTES),
        ) {
            Ok(a) => a,
            Err(_) => {
                return Err(CryptoError::InvalidLength);
            },
        };
        let c3 = slice_to_vec(slice_subrange(bytes, G2_BYTES + IBE_SEED_BYTES, bytes.len()));
        Ok(IBECiphertext { c1, c2, c3 })
    }

    fn hash_to_mask(seed: &[u8; 32], msg: &[u8]) -> (r: [u8; 64])
        ensures
            r@ == hash_to_mask_spec(seed@, msg@),
    {
        let mut ro = RandomOracle::new(HASH_TO_MASK_DOMAIN);
        ro.update_bin(seed.as_slice());
        ro.update_bin(msg);
        ro.finalize_to_array::<64>()
    }

    fn mask_seed(seed: &[u8; 32], t: &[u8]) -> (r: [u8; 32])
        ensures
            r@ == xor_bytes(seed@, seed_mask_spec(t@)),
    {
        let mut ro = RandomOracle::new(MASK_SEED_DOMAIN);
        ro.update_bin(t);
        let mask = ro.finalize_to_array::<32>();
        let mut masked_seed = [0u8; 32];
        let mut i: usize = 0;
        while i < IBE_SEED_BYTES
            invariant
                i <= 32,
                mask@ == seed_mask_spec(t@),
                masked_seed@.len() == 32,
                forall|k: int| 0 <= k < i ==> masked_seed@[k] == seed@[k] ^ mask@[k],
            decreases 32 - i,
        {
            masked_seed[i] = seed[i] ^ mask[i];
            i = i + 1;
        }
        assert(masked_seed@ =~= xor_bytes(seed@, seed_mask_spec(t@)));
        masked_seed
    }

    fn mask_msg(msg: &[u8], seed: &[u8; 32]) -> (r: Vec<u8>)
        ensures
            r@ == xor_bytes(msg@, msg_mask_spec(seed@, msg@.len())),
    {
        let mut ro = RandomOracle::new(MASK_MSG_DOMAIN);
        ro.update_bin(seed.as_slice());
        let mask = ro.finalize_to_vec(msg.len());
        xor_into(msg, mask.as_slice())
    }

    /// Encrypts `msg` for `derivation_id` under the derived public key, with the
    /// caller's 32-byte random `seed`.
    pub fn encrypt(
        derived_public_key_bytes: &[u8],
        derivation_id: &[u8],
        msg: &[u8],
        seed: &[u8],
    ) -> (r: Result<IBECiphertext, CryptoError>)
        ensures
            derived_public_key_bytes@.len() != G2_BYTES ==> r == Err::<IBECiphertext, CryptoError>(
                CryptoError::InvalidLength,
            ),
            derived_public_key_bytes@.len() == G2_BYTES && !g2_valid(derived_public_key_bytes@)
                ==> r == Err::<IBECiphertext, CryptoError>(CryptoError::InvalidEncoding),
            derived_public_key_bytes@.len() == G2_BYTES && g2_valid(derived_public_key_bytes@)
                && seed@.len() != IBE_SEED_BYTES ==> r == Err::<IBECiphertext, CryptoError>(
                CryptoError::InvalidLength,
            ),
            derived_public_key_bytes@.len() == G2_BYTES && g2_valid(derived_public_key_bytes@)
                && seed@.len() == IBE_SEED_BYTES ==> (r matches Ok(c) && c.view()
                == ibe_encrypt_spec(derived_public_key_bytes@, derivation_id@, msg@, seed@)),
    {
        let dpk = deserialize_g2(derived_public_key_bytes)?;
        let seed: [u8; 32] = match crate::bytes::vec_to_fixed_array::<32>(seed) {
            Ok(a) => a,
            Err(_) => {
                return Err(CryptoError::InvalidLength);
            },
        };
        let t = Self::hash_to_mask(&seed, msg);
        let pt = augmented_hash_to_g1(&dpk, derivation_id);
        let tsig = pairing(&pt.mul_wide(&t), &dpk);
        let c1 = G2Point::generator_mul_wide(&t);
        let c2 = Self::mask_seed(&seed, tsig.as_slice());
        let c3 = Self::mask_msg(msg, &seed);
        Ok(IBECiphertext { c1, c2, c3 })
    }

    /// Decrypts with the 48-byte key `k_bytes`; fails unless the recovered
    /// message re-encrypts to this ciphertext.
    pub fn decrypt(&self, k_bytes: &[u8]) -> (r: Result<Vec<u8>, CryptoError>)
        ensures
            k_bytes@.len() != G1_BYTES ==> r == Err::<Vec<u8>, CryptoError>(
                CryptoError::InvalidLength,
            ),
            k_bytes@.len() == G1_BYTES && !g1_valid(k_bytes@) ==> r == Err::<Vec<u8>, CryptoError>(
                CryptoError::InvalidEncoding,
            ),
            k_bytes@.len() == G1_BYTES && g1_valid(k_bytes@) ==> match ibe_decrypt_spec(
                self.view().0,
                self.view().1,
                self.view().2,
                k_bytes@,
            ) {
                Some(m) => r matches Ok(v) && v@ == m,
                None => r == Err::<Vec<u8>, CryptoError>(CryptoError::VerificationFailed),
            },
    {
        let k = deserialize_g1(k_bytes)?;
        let t = pairing(&k, &self.c1);
        let seed = Self::mask_seed(&self.c2, t.as_slice());
        let msg = Self::mask_msg(self.c3.as_slice(), &seed);
        let t = Self::hash_to_mask(&seed, msg.as_slice());
        let g_t = G2Point::generator_mul_wide(&t);
        if self.c1.equals(&g_t) {
            Ok(msg)
        } else {
            Err(CryptoError::VerificationFailed)
        }
    }
}

} // verus!
