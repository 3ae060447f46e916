//! Bytes handed to a reader's caller, and positions to seek to.

use vstd::prelude::*;

verus! {

/// Where to seek to: so far from the start, from the end or from the current position.
#[derive(Debug, Clone, Copy, PartialEq, Eq, Structural)]
pub enum SeekTarget {
    Start(u64),
    End(i64),
    Current(i64),
}

/// `buf` with its beginning overwritten by `bytes`.
pub open spec fn overwritten(buf: Seq<u8>, bytes: Seq<u8>) -> Seq<u8> {
    bytes + buf.skip(bytes.len() as int)
}

/// Copies `n` bytes of `src`, from index `from` on, to the beginning of `buf`.
pub fn copy_into(buf: &mut [u8], src: &Vec<u8>, from: usize, n: usize)
    requires
        n <= old(buf)@.len(),
        from + n <= src@.len(),
    ensures
        final(buf)@ == overwritten(old(buf)@, src@.subrange(from as int, from + n)),
{
    let total: usize = src.len();
    let mut i: usize = 0;
    while i < n
        invariant
            i <= n,
            n <= old(buf)@.len() == buf@.len(),
            from + n <= src@.len() == total,
            forall|k: int| 0 <= k < i ==> buf@[k] == src@[from + k],
            forall|k: int| i <= k < buf@.len() ==> buf@[k] == old(buf)@[k],
        decreases n - i,
    {
        buf[i] = src[from + i];
        i += 1;
    }
    assert(buf@ =~= overwritten(old(buf)@, src@.subrange(from as int, from + n)));
}

/// What is handed out stands at the beginning of the caller's buffer, byte for byte; the rest of
/// the buffer stays as it was, and so does its length.
pub proof fn law_only_the_beginning_is_overwritten(buf: Seq<u8>, bytes: Seq<u8>)
    requires
        bytes.len() <= buf.len(),
    ensures
        overwritten(buf, bytes).len() == buf.len(),
        forall|i: int| 0 <= i < bytes.len() ==> #[trigger] overwritten(buf, bytes)[i] == bytes[i],
        forall|i: int|
            bytes.len() <= i < buf.len() ==> #[trigger] overwritten(buf, bytes)[i] == buf[i],
{
}

} // verus!
