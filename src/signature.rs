//! Pairing-based signature and VRF-proof checks.
//!
//! A signature `s` on `msg` under the public key `pk` is accepted when
//! `e(g, s) == e(pk, H(g, msg))`, where `g` is the generator of the group that
//! holds `pk` and `H` hashes to the group that holds `s`, augmented with `g`.
use crate::bytes::bytes_eq;
use crate::curve::{
    augmented_hash_to_g1, augmented_hash_to_g1_spec, augmented_hash_to_g2,
    augmented_hash_to_g2_spec, deserialize_g1, deserialize_g2, g1_generator_spec, g1_valid,
    g2_generator_spec, g2_valid, pairing, pairing_of, CryptoError, G1Point, G2Point, G1_BYTES,
    G2_BYTES,
};
use vstd::prelude::*;

verus! {

/// Whether `sig` (in G2) is a signature on `msg` under `pk` (in G1).
pub open spec fn g1_key_signature_holds(pk: Seq<u8>, sig: Seq<u8>, msg: Seq<u8>) -> bool {
    pairing_of(g1_generator_spec(), sig) == pairing_of(
        pk,
        augmented_hash_to_g2_spec(g1_generator_spec(), msg),
    )
}

/// Whether `proof` (in G1) is a VRF proof on `msg` under `pk` (in G2).
pub open spec fn g2_key_proof_holds(pk: Seq<u8>, proof: Seq<u8>, msg: Seq<u8>) -> bool {
    pairing_of(proof, g2_generator_spec()) == pairing_of(
        augmented_hash_to_g1_spec(g2_generator_spec(), msg),
        pk,
    )
}

/// Whether `pk` and `sig` are well-formed and `sig` signs `msg` under `pk`.
pub open spec fn signature_accepted(pk: Seq<u8>, sig: Seq<u8>, msg: Seq<u8>) -> bool {
    &&& pk.len() == G1_BYTES
    &&& g1_valid(pk)
    &&& sig.len() == G2_BYTES
    &&& g2_valid(sig)
    &&& g1_key_signature_holds(pk, sig, msg)
}

/// Checks a signature in G2 on `input` under a public key in G1.
pub fn verify_pairing(public_key: &[u8], signature: &[u8], input: &[u8]) -> (r: Result<
    bool,
    CryptoError,
>)
    ensures
        public_key@.len() != G1_BYTES ==> r == Err::<bool, CryptoError>(
            CryptoError::InvalidLength,
        ),
        public_key@.len() == G1_BYTES && !g1_valid(public_key@) ==> r == Err::<bool, CryptoError>(
            CryptoError::InvalidEncoding,
        ),
        public_key@.len() == G1_BYTES && g1_valid(public_key@) && signature@.len() != G2_BYTES
            ==> r == Err::<bool, CryptoError>(CryptoError::InvalidLength),
        public_key@.len() == G1_BYTES && g1_valid(public_key@) && signature@.len() == G2_BYTES
            && !g2_valid(signature@) ==> r == Err::<bool, CryptoError>(
            CryptoError::InvalidEncoding,
        ),
        public_key@.len() == G1_BYTES && g1_valid(public_key@) && signature@.len() == G2_BYTES
            && g2_valid(signature@) ==> r == Ok::<bool, CryptoError>(
            g1_key_signature_holds(public_key@, signature@, input@),
        ),
        r == Ok::<bool, CryptoError>(true) <==> signature_accepted(public_key@, signature@, input@),
{
    let public_key = deserialize_g1(public_key)?;
    let signature = deserialize_g2(signature)?;
    let generator = G1Point::generator();
    let hashed_input = augmented_hash_to_g2(&generator, input);
    let lhs = pairing(&generator, &signature);
    let rhs = pairing(&public_key, &hashed_input);
    Ok(bytes_eq(lhs.as_slice(), rhs.as_slice()))
}

/// Checks a VRF proof in G1 on `data_bytes` under a public key in G2.
pub fn verify_vrf_proof(public_key_bytes: &[u8], signature_bytes: &[u8], data_bytes: &[u8]) -> (r:
    Result<bool, CryptoError>)
    ensures
        public_key_bytes@.len() != G2_BYTES ==> r == Err::<bool, CryptoError>(
            CryptoError::InvalidLength,
        ),
        public_key_bytes@.len() == G2_BYTES && !g2_valid(public_key_bytes@) ==> r == Err::<
            bool,
            CryptoError,
        >(CryptoError::InvalidEncoding),
        public_key_bytes@.len() == G2_BYTES && g2_valid(public_key_bytes@)
            && signature_bytes@.len() != G1_BYTES ==> r == Err::<bool, CryptoError>(
            CryptoError::InvalidLength,
        ),
        public_key_bytes@.len() == G2_BYTES && g2_valid(public_key_bytes@)
            && signature_bytes@.len() == G1_BYTES && !g1_valid(signature_bytes@) ==> r == Err::<
            bool,
            CryptoError,
        >(CryptoError::InvalidEncoding),
        public_key_bytes@.len() == G2_BYTES && g2_valid(public_key_bytes@)
            && signature_bytes@.len() == G1_BYTES && g1_valid(signature_bytes@) ==> r == Ok::<
            bool,
            CryptoError,
        >(g2_key_proof_holds(public_key_bytes@, signature_bytes@, data_bytes@)),
{
    let public_key = deserialize_g2(public_key_bytes)?;
    let signature = deserialize_g1(signature_bytes)?;
    let generator = G2Point::generator();
    let hashed_input = augmented_hash_to_g1(&generator, data_bytes);
    let lhs = pairing(&signature, &generator);
    let rhs = pairing(&hashed_input, &public_key);
    Ok(bytes_eq(lhs.as_slice(), rhs.as_slice()))
}

} // verus!
