use vstd::prelude::*;

verus! {

/// Why a byte buffer could not be read as a fixed-size value.
#[derive(Debug, Clone, Copy, PartialEq, Eq, Structural)]
pub enum LengthError {
    /// The buffer did not have the expected number of bytes.
    WrongLength { expected: usize, found: usize },
}

/// Copies `slice` into an array of exactly `N` bytes.
pub fn vec_to_fixed_array<const N: usize>(slice: &[u8]) -> (r: Result<[u8; N], LengthError>)
    ensures
        slice@.len() == N ==> (r matches Ok(a) && a@ == slice@),
        slice@.len() != N ==> r == Err::<[u8; N], LengthError>(
            LengthError::WrongLength { expected: N, found: slice@.len() as usize },
        ),
{
    if slice.len() != N {
        return Err(LengthError::WrongLength { expected: N, found: slice.len() });
    }
    let mut array = [0u8; N];
    let mut i: usize = 0;
    while i < N
        invariant
            i <= N,
            slice@.len() == N,
            array@.len() == N,
            forall|k: int| 0 <= k < i ==> array@[k] == slice@[k],
        decreases N - i,
    {
        array[i] = slice[i];
        i = i + 1;
    }
    assert(array@ =~= slice@);
    Ok(array)
}

} // verus!

verus! {

/// Whether two byte strings are equal.
pub fn bytes_eq(a: &[u8], b: &[u8]) -> (r: bool)
    ensures
        r == (a@ == b@),
{
    if a.len() != b.len() {
        return false;
    }
    let mut i: usize = 0;
    while i < a.len()
        invariant
            i <= a@.len(),
            a@.len() == b@.len(),
            forall|k: int| 0 <= k < i ==> a@[k] == b@[k],
        decreases a@.len() - i,
    {
        if a[i] != b[i] {
            return false;
        }
        i = i + 1;
    }
    assert(a@ =~= b@);
    true
}

/// The eight little-endian bytes of `x`.
pub open spec fn le64(x: u64) -> Seq<u8> {
    Seq::new(8, |k: int| ((x >> ((8 * k) as u64)) & 0xffu64) as u8)
}

/// The eight little-endian bytes of `x`, as an array.
pub fn to_le_bytes(x: u64) -> (r: [u8; 8])
    ensures
        r@ == le64(x),
{
    let mut out = [0u8; 8];
    let mut k: u64 = 0;
    while k < 8
        invariant
            k <= 8,
            out@.len() == 8,
            forall|j: int| 0 <= j < k ==> out@[j] == le64(x)[j],
        decreases 8 - k,
    {
        out[k as usize] = ((x >> (8 * k)) & 0xff) as u8;
        k = k + 1;
    }
    assert(out@ =~= le64(x));
    out
}

} // verus!
