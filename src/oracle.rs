//! A random oracle built on SHA-256, used to derive IBE masks and scalars.
//!
//! Inputs are absorbed as length-framed fields after a domain separator, so
//! that distinct field sequences and distinct domains never collide as byte
//! strings. The output is SHA-256 of the absorbed input, expanded in counter
//! mode to the requested length.
use sha2::Digest;
use vstd::arithmetic::div_mod::lemma_fundamental_div_mod_converse;
use vstd::prelude::*;
use vstd::string::StringSliceAdditionalSpecFns;

verus! {

/// SHA-256 digest of `b`.
pub uninterp spec fn sha256_of(b: Seq<u8>) -> Seq<u8>;

/// Relies on `sha2::Sha256::digest`: the 32-byte SHA-256 digest of the input.
#[verifier::external_body]
fn sha256(data: &[u8]) -> (r: [u8; 32])
    ensures
        r@ == sha256_of(data@),
{
    sha2::Sha256::digest(data).into()
}

/// The eight big-endian bytes of `x`.
pub open spec fn be64(x: u64) -> Seq<u8> {
    Seq::new(8, |k: int| ((x >> ((56 - 8 * k) as u64)) & 0xffu64) as u8)
}

/// A field as absorbed: its length as eight big-endian bytes, then its bytes.
pub open spec fn frame(v: Seq<u8>) -> Seq<u8> {
    be64(v.len() as u64) + v
}

/// The `i`-th 32-byte block of output for the digest `d`.
pub open spec fn oracle_block(d: Seq<u8>, i: int) -> Seq<u8> {
    sha256_of(d + be64(i as u64))
}

/// `n` bytes of counter-mode output for the digest `d`.
pub open spec fn expand(d: Seq<u8>, n: nat) -> Seq<u8> {
    Seq::new(n, |j: int| oracle_block(d, j / 32)[j % 32])
}

/// The `n` output bytes of an oracle that absorbed `input`.
pub open spec fn oracle_output(input: Seq<u8>, n: nat) -> Seq<u8> {
    expand(sha256_of(input), n)
}

/// Appends the eight big-endian bytes of `x` to `out`.
fn push_be64(out: &mut Vec<u8>, x: u64)
    ensures
        final(out)@ == old(out)@ + be64(x),
{
    let ghost start = old(out)@;
    let mut k: u64 = 0;
    while k < 8
        invariant
            k <= 8,
            out@ == start + be64(x).subrange(0, k as int),
        decreases 8 - k,
    {
        out.push(((x >> (56 - 8 * k)) & 0xff) as u8);
        k = k + 1;
        assert(out@ =~= start + be64(x).subrange(0, k as int));
    }
    assert(be64(x).subrange(0, 8) =~= be64(x));
}

/// Appends the bytes of `v` to `out`.
fn push_all(out: &mut Vec<u8>, v: &[u8])
    ensures
        final(out)@ == old(out)@ + v@,
{
    let ghost start = old(out)@;
    let mut i: usize = 0;
    while i < v.len()
        invariant
            i <= v@.len(),
            out@ == start + v@.subrange(0, i as int),
        decreases v@.len() - i,
    {
        out.push(v[i]);
        i = i + 1;
        assert(out@ =~= start + v@.subrange(0, i as int));
    }
    assert(v@.subrange(0, i as int) =~= v@);
}

/// A domain-separated random oracle that absorbs byte strings.
pub struct RandomOracle {
    input: Vec<u8>,
}

impl RandomOracle {
    /// Everything absorbed so far, framed.
    pub closed spec fn absorbed(&self) -> Seq<u8> {
        self.input@
    }

    /// An oracle that has absorbed only the domain separator.
    pub fn new(domain: &str) -> (r: RandomOracle)
        ensures
            r.absorbed() == frame(domain.spec_bytes()),
    {
        let mut input: Vec<u8> = Vec::new();
        let d = domain.as_bytes();
        push_be64(&mut input, d.len() as u64);
        push_all(&mut input, d);
        assert(input@ =~= frame(domain.spec_bytes()));
        RandomOracle { input }
    }

    /// Absorbs one more field.
    pub fn update_bin(&mut self, v: &[u8])
        ensures
            final(self).absorbed() == old(self).absorbed() + frame(v@),
    {
        push_be64(&mut self.input, v.len() as u64);
        push_all(&mut self.input, v);
        assert(self.input@ =~= old(self).absorbed() + frame(v@));
    }

    /// `n` bytes of output.
    pub fn finalize_to_vec(&self, n: usize) -> (r: Vec<u8>)
        ensures
            r@ == oracle_output(self.absorbed(), n as nat),
    {
        let digest = sha256(self.input.as_slice());
        let ghost d = digest@;
        let mut out: Vec<u8> = Vec::new();
        let mut block: u64 = 0;
        while out.len() < n
            invariant
                out@.len() <= n,
                out@.len() == 32 * block || out@.len() == n,
                out@.len() < n ==> out@.len() == 32 * block,
                out@ == expand(d, out@.len()),
                d == sha256_of(self.input@),
                d == digest@,
            decreases n - out@.len(),
        {
            let mut seed: Vec<u8> = Vec::new();
            push_all(&mut seed, digest.as_slice());
            push_be64(&mut seed, block);
            assert(seed@ =~= d + be64(block));
            let h = sha256(seed.as_slice());
            assert(h@ == oracle_block(d, block as int));
            let mut k: usize = 0;
            while k < 32 && out.len() < n
                invariant
                    k <= 32,
                    out@.len() == 32 * block + k,
                    out@.len() <= n,
                    out@ == expand(d, out@.len()),
                    h@ == oracle_block(d, block as int),
                    h@.len() == 32,
                decreases 32 - k,
            {
                let ghost j = out@.len() as int;
                proof {
                    lemma_fundamental_div_mod_converse(j, 32, block as int, k as int);
                }
                out.push(h[k]);
                k = k + 1;
                assert(out@ =~= expand(d, out@.len()));
            }
            block = block + 1;
        }
        out
    }

    /// Exactly `N` bytes of output, as an array.
    pub fn finalize_to_array<const N: usize>(&self) -> (r: [u8; N])
        ensures
            r@ == oracle_output(self.absorbed(), N as nat),
    {
        let v = self.finalize_to_vec(N);
        match crate::bytes::vec_to_fixed_array::<N>(v.as_slice()) {
            Ok(a) => a,
            Err(_) => {
                proof {
                    assert(false);
                }
                [0u8; N]
            },
        }
    }
}

} // verus!
