//! Compressed points of the BLS12-381 groups G1 and G2, and the few group
//! operations the rest of the library needs.
//!
//! A point is held as its compressed encoding. Every `G1Point` and `G2Point`
//! was accepted by the curve library's validating decompression, so no
//! off-curve or malformed encoding ever reaches a pairing.
use ic_bls12_381::hash_to_curve::{ExpandMsgXmd, HashToCurve};
use ic_bls12_381::{G1Affine, G1Projective, G2Affine, G2Projective, Scalar};
use vstd::prelude::*;

verus! {

/// Size of a compressed G1 point.
pub const G1_BYTES: usize = 48;

/// Size of a compressed G2 point.
pub const G2_BYTES: usize = 96;

/// Size of a wide (512-bit, little-endian) scalar before reduction.
pub const WIDE_SCALAR_BYTES: usize = 64;

/// Why a buffer could not be used as a curve point or as a value made of them.
#[derive(Debug, Clone, Copy, PartialEq, Eq, Structural)]
pub enum CryptoError {
    /// A fixed-size field had the wrong number of bytes.
    InvalidLength,
    /// The bytes are not the compressed encoding of a valid group element.
    InvalidEncoding,
    /// A pairing or re-encryption check did not hold.
    VerificationFailed,
}

/// Whether 48 bytes are the canonical compressed encoding of an element of G1.
pub uninterp spec fn g1_valid(b: Seq<u8>) -> bool;

/// Whether 96 bytes are the canonical compressed encoding of an element of G2.
pub uninterp spec fn g2_valid(b: Seq<u8>) -> bool;

/// Compressed result of hashing `msg` to G1 with domain separation tag `dst`.
pub uninterp spec fn hash_to_g1_of(msg: Seq<u8>, dst: Seq<char>) -> Seq<u8>;

/// Compressed result of hashing `msg` to G2 with domain separation tag `dst`.
pub uninterp spec fn hash_to_g2_of(msg: Seq<u8>, dst: Seq<char>) -> Seq<u8>;

/// Compressed `p * s`, where `s` is the 64-byte little-endian `w` reduced modulo
/// the group order.
pub uninterp spec fn g1_mul_of(p: Seq<u8>, w: Seq<u8>) -> Seq<u8>;

/// Compressed `g2 * s` for the generator `g2`, where `s` is the 64-byte
/// little-endian `w` reduced modulo the group order.
pub uninterp spec fn g2_generator_mul_of(w: Seq<u8>) -> Seq<u8>;

/// Serialized target-group element `e(p, q)`.
pub uninterp spec fn pairing_of(p: Seq<u8>, q: Seq<u8>) -> Seq<u8>;

/// Compressed encoding of the standard generator of G1.
pub open spec fn g1_generator_spec() -> Seq<u8> {
    seq![
        0x97u8, 0xf1, 0xd3, 0xa7, 0x31, 0x97, 0xd7, 0x94, 0x26, 0x95, 0x63, 0x8c,
        0x4f, 0xa9, 0xac, 0x0f, 0xc3, 0x68, 0x8c, 0x4f, 0x97, 0x74, 0xb9, 0x05,
        0xa1, 0x4e, 0x3a, 0x3f, 0x17, 0x1b, 0xac, 0x58, 0x6c, 0x55, 0xe8, 0x3f,
        0xf9, 0x7a, 0x1a, 0xef, 0xfb, 0x3a, 0xf0, 0x0a, 0xdb, 0x22, 0xc6, 0xbb,
    ]
}

/// Compressed encoding of the standard generator of G2.
pub open spec fn g2_generator_spec() -> Seq<u8> {
    seq![
        0x93u8, 0xe0, 0x2b, 0x60, 0x52, 0x71, 0x9f, 0x60, 0x7d, 0xac, 0xd3, 0xa0,
        0x88, 0x27, 0x4f, 0x65, 0x59, 0x6b, 0xd0, 0xd0, 0x99, 0x20, 0xb6, 0x1a,
        0xb5, 0xda, 0x61, 0xbb, 0xdc, 0x7f, 0x50, 0x49, 0x33, 0x4c, 0xf1, 0x12,
        0x13, 0x94, 0x5d, 0x57, 0xe5, 0xac, 0x7d, 0x05, 0x5d, 0x04, 0x2b, 0x7e,
        0x02, 0x4a, 0xa2, 0xb2, 0xf0, 0x8f, 0x0a, 0x91, 0x26, 0x08, 0x05, 0x27,
        0x2d, 0xc5, 0x10, 0x51, 0xc6, 0xe4, 0x7a, 0xd4, 0xfa, 0x40, 0x3b, 0x02,
        0xb4, 0x51, 0x0b, 0x64, 0x7a, 0xe3, 0xd1, 0x77, 0x0b, 0xac, 0x03, 0x26,
        0xa8, 0x05, 0xbb, 0xef, 0xd4, 0x80, 0x56, 0xc8, 0xc1, 0x21, 0xbd, 0xb8,
    ]
}

/// Relies on `G1Affine::from_compressed`: it accepts exactly the canonical
/// compressed encodings of elements of G1.
#[verifier::external_body]
fn g1_decodes(b: &[u8; 48]) -> (r: bool)
    ensures
        r == g1_valid(b@),
{
    bool::from(G1Affine::from_compressed(b).is_some())
}

/// Relies on `G2Affine::from_compressed`: it accepts exactly the canonical
/// compressed encodings of elements of G2.
#[verifier::external_body]
fn g2_decodes(b: &[u8; 96]) -> (r: bool)
    ensures
        r == g2_valid(b@),
{
    bool::from(G2Affine::from_compressed(b).is_some())
}

/// Relies on `G1Affine::generator` and `to_compressed`: the standard generator,
/// which is an element of G1.
#[verifier::external_body]
fn g1_generator_bytes() -> (r: [u8; 48])
    ensures
        r@ == g1_generator_spec(),
        g1_valid(r@),
{
    G1Affine::generator().to_compressed()
}

/// Relies on `G2Affine::generator` and `to_compressed`: the standard generator,
/// which is an element of G2.
#[verifier::external_body]
fn g2_generator_bytes() -> (r: [u8; 96])
    ensures
        r@ == g2_generator_spec(),
        g2_valid(r@),
{
    G2Affine::generator().to_compressed()
}

/// Relies on `HashToCurve::hash_to_curve` for G1 with `ExpandMsgXmd<Sha256>`:
/// a deterministic map of `(msg, dst)` to an element of G1.
#[verifier::external_body]
fn hash_to_g1_bytes(msg: &[u8], dst: &str) -> (r: [u8; 48])
    ensures
        r@ == hash_to_g1_of(msg@, dst@),
        g1_valid(r@),
{
    let pt = <G1Projective as HashToCurve<ExpandMsgXmd<sha2::Sha256>>>::hash_to_curve(
        msg,
        dst.as_bytes(),
    );
    G1Affine::from(pt).to_compressed()
}

/// Relies on `HashToCurve::hash_to_curve` for G2 with `ExpandMsgXmd<Sha256>`:
/// a deterministic map of `(msg, dst)` to an element of G2.
#[verifier::external_body]
fn hash_to_g2_bytes(msg: &[u8], dst: &str) -> (r: [u8; 96])
    ensures
        r@ == hash_to_g2_of(msg@, dst@),
        g2_valid(r@),
{
    let pt = <G2Projective as HashToCurve<ExpandMsgXmd<sha2::Sha256>>>::hash_to_curve(
        msg,
        dst.as_bytes(),
    );
    G2Affine::from(pt).to_compressed()
}

/// Relies on `G1Affine * Scalar` with `Scalar::from_bytes_wide`: the product
/// of a group element and a scalar is a group element.
#[verifier::external_body]
fn g1_mul_bytes(p: &[u8; 48], w: &[u8; 64]) -> (r: [u8; 48])
    requires
        g1_valid(p@),
    ensures
        r@ == g1_mul_of(p@, w@),
        g1_valid(r@),
{
    let p = G1Affine::from_compressed(p).unwrap();
    G1Affine::from(p * Scalar::from_bytes_wide(w)).to_compressed()
}

/// Relies on `G2Affine::generator() * Scalar` with `Scalar::from_bytes_wide`:
/// a multiple of the generator is a group element.
#[verifier::external_body]
fn g2_generator_mul_bytes(w: &[u8; 64]) -> (r: [u8; 96])
    ensures
        r@ == g2_generator_mul_of(w@),
        g2_valid(r@),
{
    G2Affine::from(G2Affine::generator() * Scalar::from_bytes_wide(w)).to_compressed()
}

/// Relies on `ic_bls12_381::pairing` and `Gt::to_bytes`: the serialized
/// pairing of two valid points, 576 bytes long.
#[verifier::external_body]
fn pairing_bytes(p: &[u8; 48], q: &[u8; 96]) -> (r: Vec<u8>)
    requires
        g1_valid(p@),
        g2_valid(q@),
    ensures
        r@ == pairing_of(p@, q@),
{
    let p = G1Affine::from_compressed(p).unwrap();
    let q = G2Affine::from_compressed(q).unwrap();
    ic_bls12_381::pairing(&p, &q).to_bytes().to_vec()
}

/// A validated element of G1, held in compressed form.
#[derive(Debug, Clone, Copy)]
pub struct G1Point {
    bytes: [u8; 48],
}

/// A validated element of G2, held in compressed form.
#[derive(Debug, Clone, Copy)]
pub struct G2Point {
    bytes: [u8; 96],
}

impl View for G1Point {
    type V = Seq<u8>;

    closed spec fn view(&self) -> Seq<u8> {
        self.bytes@
    }
}

impl View for G2Point {
    type V = Seq<u8>;

    closed spec fn view(&self) -> Seq<u8> {
        self.bytes@
    }
}

impl G1Point {
    #[verifier::type_invariant]
    closed spec fn inv(&self) -> bool {
        g1_valid(self.bytes@)
    }

    /// The compressed encoding, which is valid.
    pub fn to_bytes(&self) -> (r: [u8; 48])
        ensures
            r@ == self@,
            g1_valid(r@),
    {
        proof {
            use_type_invariant(self);
        }
        self.bytes
    }

    /// The standard generator of G1.
    pub fn generator() -> (r: G1Point)
        ensures
            r@ == g1_generator_spec(),
    {
        G1Point { bytes: g1_generator_bytes() }
    }

    /// `self * s`, for the scalar `s` that the wide value `w` reduces to.
    pub fn mul_wide(&self, w: &[u8; 64]) -> (r: G1Point)
        ensures
            r@ == g1_mul_of(self@, w@),
    {
        proof {
            use_type_invariant(self);
        }
        G1Point { bytes: g1_mul_bytes(&self.bytes, w) }
    }
}

impl G2Point {
    #[verifier::type_invariant]
    closed spec fn inv(&self) -> bool {
        g2_valid(self.bytes@)
    }

    /// The compressed encoding, which is valid.
    pub fn to_bytes(&self) -> (r: [u8; 96])
        ensures
            r@ == self@,
            g2_valid(r@),
    {
        proof {
            use_type_invariant(self);
        }
        self.bytes
    }

    /// The standard generator of G2.
    pub fn generator() -> (r: G2Point)
        ensures
            r@ == g2_generator_spec(),
    {
        G2Point { bytes: g2_generator_bytes() }
    }

    /// `g2 * s` for the generator `g2` and the scalar `s` that `w` reduces to.
    pub fn generator_mul_wide(w: &[u8; 64]) -> (r: G2Point)
        ensures
            r@ == g2_generator_mul_of(w@),
    {
        G2Point { bytes: g2_generator_mul_bytes(w) }
    }

    /// Whether two points are the same group element.
    pub fn equals(&self, other: &G2Point) -> (r: bool)
        ensures
            r == (self@ == other@),
    {
        let mut i: usize = 0;
        while i < 96
            invariant
                i <= 96,
                self.bytes@.len() == 96,
                other.bytes@.len() == 96,
                forall|k: int| 0 <= k < i ==> self.bytes@[k] == other.bytes@[k],
            decreases 96 - i,
        {
            if self.bytes[i] != other.bytes[i] {
                return false;
            }
            i = i + 1;
        }
        assert(self.bytes@ =~= other.bytes@);
        true
    }
}

/// Serialized `e(p, q)`.
pub fn pairing(p: &G1Point, q: &G2Point) -> (r: Vec<u8>)
    ensures
        r@ == pairing_of(p@, q@),
{
    proof {
        use_type_invariant(p);
        use_type_invariant(q);
    }
    pairing_bytes(&p.bytes, &q.bytes)
}

/// Reads a compressed G1 point, accepting only a valid encoding of 48 bytes.
pub fn deserialize_g1(bytes: &[u8]) -> (r: Result<G1Point, CryptoError>)
    ensures
        bytes@.len() != G1_BYTES ==> r == Err::<G1Point, CryptoError>(CryptoError::InvalidLength),
        bytes@.len() == G1_BYTES && !g1_valid(bytes@) ==> r == Err::<G1Point, CryptoError>(
            CryptoError::InvalidEncoding,
        ),
        bytes@.len() == G1_BYTES && g1_valid(bytes@) ==> (r matches Ok(p) && p@ == bytes@),
{
    let arr: [u8; 48] = match crate::bytes::vec_to_fixed_array::<48>(bytes) {
        Ok(a) => a,
        Err(_) => {
            return Err(CryptoError::InvalidLength);
        },
    };
    if g1_decodes(&arr) {
        Ok(G1Point { bytes: arr })
    } else {
        Err(CryptoError::InvalidEncoding)
    }
}

/// Reads a compressed G2 point, accepting only a valid encoding of 96 bytes.
pub fn deserialize_g2(bytes: &[u8]) -> (r: Result<G2Point, CryptoError>)
    ensures
        bytes@.len() != G2_BYTES ==> r == Err::<G2Point, CryptoError>(CryptoError::InvalidLength),
        bytes@.len() == G2_BYTES && !g2_valid(bytes@) ==> r == Err::<G2Point, CryptoError>(
            CryptoError::InvalidEncoding,
        ),
        bytes@.len() == G2_BYTES && g2_valid(bytes@) ==> (r matches Ok(p) && p@ == bytes@),
{
    let arr: [u8; 96] = match crate::bytes::vec_to_fixed_array::<96>(bytes) {
        Ok(a) => a,
        Err(_) => {
            return Err(CryptoError::InvalidLength);
        },
    };
    if g2_decodes(&arr) {
        Ok(G2Point { bytes: arr })
    } else {
        Err(CryptoError::InvalidEncoding)
    }
}

/// Domain separation tag for hashing to G1 in the augmented scheme.
pub const DST_G1: &'static str = "BLS_SIG_BLS12381G1_XMD:SHA-256_SSWU_RO_AUG_";

/// Domain separation tag for hashing to G2 in the augmented scheme.
pub const DST_G2: &'static str = "BLS_SIG_BLS12381G2_XMD:SHA-256_SSWU_RO_AUG_";

/// Hash of `data` to G1, bound to the public key `pk`: the input to the hash
/// is the compressed `pk` followed by `data`.
pub open spec fn augmented_hash_to_g1_spec(pk: Seq<u8>, data: Seq<u8>) -> Seq<u8> {
    hash_to_g1_of(pk + data, DST_G1@)
}

/// Hash of `data` to G2, bound to the public key `pk`.
pub open spec fn augmented_hash_to_g2_spec(pk: Seq<u8>, data: Seq<u8>) -> Seq<u8> {
    hash_to_g2_of(pk + data, DST_G2@)
}

/// `a` followed by `b`, in a new vector.
pub fn concat(a: &[u8], b: &[u8]) -> (r: Vec<u8>)
    ensures
        r@ == a@ + b@,
{
    let mut out: Vec<u8> = Vec::new();
    let mut i: usize = 0;
    while i < a.len()
        invariant
            i <= a@.len(),
            out@ == a@.subrange(0, i as int),
        decreases a@.len() - i,
    {
        out.push(a[i]);
        i = i + 1;
        assert(out@ =~= a@.subrange(0, i as int));
    }
    let mut j: usize = 0;
    while j < b.len()
        invariant
            i == a@.len(),
            j <= b@.len(),
            out@ == a@ + b@.subrange(0, j as int),
        decreases b@.len() - j,
    {
        out.push(b[j]);
        j = j + 1;
        assert(out@ =~= a@ + b@.subrange(0, j as int));
    }
    assert(b@.subrange(0, j as int) =~= b@);
    out
}

/// Hashes `data` to G1 with the compressed `pk` prefixed to it.
pub fn augmented_hash_to_g1(pk: &G2Point, data: &[u8]) -> (r: G1Point)
    ensures
        r@ == augmented_hash_to_g1_spec(pk@, data@),
{
    let pk_bytes = pk.to_bytes();
    let input = concat(pk_bytes.as_slice(), data);
    G1Point { bytes: hash_to_g1_bytes(input.as_slice(), DST_G1) }
}

/// Hashes `data` to G2 with the compressed `pk` prefixed to it.
pub fn augmented_hash_to_g2(pk: &G1Point, data: &[u8]) -> (r: G2Point)
    ensures
        r@ == augmented_hash_to_g2_spec(pk@, data@),
{
    let pk_bytes = pk.to_bytes();
    let input = concat(pk_bytes.as_slice(), data);
    G2Point { bytes: hash_to_g2_bytes(input.as_slice(), DST_G2) }
}

} // verus!
