//! Small verified helpers for byte buffers, shared by the transfer loops.

use vstd::prelude::*;

verus! {

/// A fresh buffer of `len` zero bytes.
pub fn zeroed(len: usize) -> (v: Vec<u8>)
    ensures
        v@.len() == len,
        v@ == Seq::new(len as nat, |i: int| 0u8),
{
    let mut v: Vec<u8> = Vec::new();
    while v.len() < len
        invariant
            v@.len() <= len,
            v@ == Seq::new(v@.len(), |i: int| 0u8),
        decreases len - v@.len(),
    {
        v.push(0);
        assert(v@ =~= Seq::new(v@.len(), |i: int| 0u8));
    }
    assert(v@ =~= Seq::new(len as nat, |i: int| 0u8));
    v
}

/// Copies `src[src_at .. src_at + n]` into `dst` starting at `at`, leaving
/// the rest of `dst` as it was.
pub fn copy_into(dst: &mut Vec<u8>, at: usize, src: &Vec<u8>, src_at: usize, n: usize)
    requires
        at + n <= old(dst)@.len(),
        src_at + n <= src@.len(),
    ensures
        final(dst)@.len() == old(dst)@.len(),
        final(dst)@ == old(dst)@.take(at as int) + src@.subrange(
            src_at as int,
            src_at as int + n as int,
        ) + old(dst)@.skip(at + n),
{
    let total = dst.len();
    let src_len = src.len();
    let mut i: usize = 0;
    while i < n
        invariant
            i <= n,
            at + n <= total,
            src_at + n <= src_len,
            src_len == src@.len(),
            total == old(dst)@.len(),
            dst@.len() == old(dst)@.len(),
            forall|j: int| 0 <= j < at ==> dst@[j] == old(dst)@[j],
            forall|j: int| at <= j < at + i ==> dst@[j] == src@[src_at + (j - at)],
            forall|j: int| at + i <= j < old(dst)@.len() ==> dst@[j] == old(dst)@[j],
        decreases n - i,
    {
        dst[at + i] = src[src_at + i];
        i += 1;
    }
    assert(dst@ =~= old(dst)@.take(at as int) + src@.subrange(
        src_at as int,
        src_at as int + n as int,
    ) + old(dst)@.skip(at + n));
}

} // verus!
