//! Byte-buffer helpers shared by the codecs and the slot table.

use vstd::prelude::*;

verus! {

/// Copy `src` into `dst` starting at `offset`, leaving every other byte as it
/// was.
pub fn write_bytes_at(dst: &mut Vec<u8>, offset: usize, src: &[u8])
    requires
        offset + src@.len() <= old(dst)@.len(),
    ensures
        final(dst)@.len() == old(dst)@.len(),
        forall|k: int| 0 <= k < src@.len() ==> final(dst)@[offset + k] == src@[k],
        forall|k: int|
            0 <= k < final(dst)@.len() && !(offset <= k < offset + src@.len())
                ==> final(dst)@[k] == old(dst)@[k],
{
    let n = src.len();
    let total = dst.len();
    let mut j: usize = 0;
    while j < n
        invariant
            n == src@.len(),
            offset + n <= total,
            dst@.len() == total,
            dst@.len() == old(dst)@.len(),
            j <= n,
            forall|k: int| 0 <= k < j ==> dst@[offset + k] == src@[k],
            forall|k: int|
                0 <= k < dst@.len() && !(offset <= k < offset + n) ==> dst@[k] == old(dst)@[k],
        decreases n - j,
    {
        let b = src[j];
        dst[offset + j] = b;
        j += 1;
    }
}

/// Overwrite `len` bytes of `dst` starting at `offset` with zeros.
pub fn zero_bytes_at(dst: &mut Vec<u8>, offset: usize, len: usize)
    requires
        offset + len <= old(dst)@.len(),
    ensures
        final(dst)@.len() == old(dst)@.len(),
        forall|k: int| offset <= k < offset + len ==> final(dst)@[k] == 0u8,
        forall|k: int|
            0 <= k < final(dst)@.len() && !(offset <= k < offset + len)
                ==> final(dst)@[k] == old(dst)@[k],
{
    let total = dst.len();
    let mut j: usize = 0;
    while j < len
        invariant
            offset + len <= total,
            dst@.len() == total,
            dst@.len() == old(dst)@.len(),
            j <= len,
            forall|k: int| offset <= k < offset + j ==> dst@[k] == 0u8,
            forall|k: int|
                0 <= k < dst@.len() && !(offset <= k < offset + len) ==> dst@[k] == old(dst)@[k],
        decreases len - j,
    {
        dst[offset + j] = 0u8;
        j += 1;
    }
}

/// A run of `n` zero bytes.
pub open spec fn zero_bytes(n: nat) -> Seq<u8> {
    Seq::new(n, |i: int| 0u8)
}

/// Append all of `src` to the end of `dst`.
pub fn append_bytes(dst: &mut Vec<u8>, src: &[u8])
    requires
        old(dst)@.len() + src@.len() <= usize::MAX,
    ensures
        final(dst)@ == old(dst)@ + src@,
{
    let n = src.len();
    let mut j: usize = 0;
    while j < n
        invariant
            n == src@.len(),
            old(dst)@.len() + n <= usize::MAX,
            j <= n,
            dst@ == old(dst)@ + src@.subrange(0, j as int),
        decreases n - j,
    {
        dst.push(src[j]);
        proof {
            assert(dst@ =~= old(dst)@ + src@.subrange(0, j + 1));
        }
        j += 1;
    }
    proof {
        assert(old(dst)@ + src@.subrange(0, n as int) =~= old(dst)@ + src@);
    }
}

/// Append `n` zero bytes to the end of `dst`.
pub fn append_zeros(dst: &mut Vec<u8>, n: usize)
    requires
        old(dst)@.len() + n <= usize::MAX,
    ensures
        final(dst)@ == old(dst)@ + zero_bytes(n as nat),
{
    let mut j: usize = 0;
    while j < n
        invariant
            old(dst)@.len() + n <= usize::MAX,
            j <= n,
            dst@ == old(dst)@ + zero_bytes(j as nat),
        decreases n - j,
    {
        dst.push(0u8);
        proof {
            assert(dst@ =~= old(dst)@ + zero_bytes((j + 1) as nat));
        }
        j += 1;
    }
}

/// Read a fixed-width array out of `src` starting at `offset`.
pub fn read_array<const N: usize>(src: &[u8], offset: usize) -> (r: [u8; N])
    requires
        offset + N <= src@.len(),
    ensures
        r@ == src@.subrange(offset as int, offset + N),
{
    let mut a = [0u8; N];
    let n = src.len();
    let mut j: usize = 0;
    while j < N
        invariant
            n == src@.len(),
            offset + N <= n,
            j <= N,
            forall|k: int| 0 <= k < j ==> a@[k] == src@[offset + k],
        decreases N - j,
    {
        a[j] = src[offset + j];
        j += 1;
    }
    proof {
        assert(a@ =~= src@.subrange(offset as int, offset + N));
    }
    a
}

} // verus!
