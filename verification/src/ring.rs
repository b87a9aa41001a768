//! The shared model of the ring-buffer index arithmetic: the abstract view of
//! a circular buffer as the sequence of its occupied elements, and the lemmas
//! that relate one `get` or `put` step to that view.

use vstd::prelude::*;
use vstd::arithmetic::div_mod::lemma_small_mod;
use vstd::arithmetic::div_mod::lemma_mod_self_0;

verus! {

/// The error a FIFO operation can fail with: `get` on an empty buffer returns
/// `Empty`, `put` on a full buffer returns `Full`. Both failures leave the
/// buffer exactly as it was.
#[derive(Debug, PartialEq, Eq)]
pub enum StaticFifoError {
    Empty,
    Full,
}

/// The occupied elements of a circular buffer, oldest first: the slots from
/// `read` up to but not including `write`, wrapping past the end of the raw
/// storage when `read > write`.
pub open spec fn ring_view<T>(buf: Seq<T>, read: int, write: int) -> Seq<T> {
    if read <= write {
        buf.subrange(read, write)
    } else {
        buf.subrange(read, buf.len() as int) + buf.subrange(0, write)
    }
}

/// Advancing a cursor by one with wraparound: `(x + 1) % m` steps to `x + 1`,
/// or back to `0` from the last slot.
pub proof fn lemma_mod_incr(x: int, m: int)
    requires
        0 < m,
        0 <= x < m,
    ensures
        (x + 1) % m == if x + 1 < m { x + 1 } else { 0int },
{
    if x + 1 < m {
        lemma_small_mod((x + 1) as nat, m as nat);
    } else {
        lemma_mod_self_0(m);
    }
}

/// The number of occupied elements: `write - read` when the occupied range
/// does not wrap, `len - read + write` when it does. It is always strictly
/// below the raw storage length, so one slot is never used for data.
pub proof fn lemma_ring_view_len<T>(buf: Seq<T>, read: int, write: int)
    requires
        0 <= read < buf.len(),
        0 <= write < buf.len(),
    ensures
        ring_view(buf, read, write).len() == if read > write {
            buf.len() - read + write
        } else {
            write - read
        },
        ring_view(buf, read, write).len() < buf.len(),
{
}

/// What one successful `get` does to the view: the element at the read cursor
/// is the oldest element, and advancing the read cursor drops exactly that
/// element from the front.
pub proof fn lemma_ring_get<T>(buf: Seq<T>, read: int, write: int)
    requires
        0 <= read < buf.len(),
        0 <= write < buf.len(),
        read != write,
    ensures
        buf[read] == ring_view(buf, read, write)[0],
        ring_view(buf, (read + 1) % (buf.len() as int), write) == ring_view(
            buf,
            read,
            write,
        ).drop_first(),
{
    let len = buf.len() as int;
    lemma_mod_incr(read, len);
    let read2 = (read + 1) % len;
    assert(ring_view(buf, read2, write) =~= ring_view(buf, read, write).drop_first());
}

/// What one successful `put` does to the view: writing at the write cursor and
/// advancing it appends the new value at the back, provided the buffer is not
/// full (the advanced write cursor would not collide with the read cursor).
pub proof fn lemma_ring_put<T>(buf: Seq<T>, read: int, write: int, v: T)
    requires
        0 <= read < buf.len(),
        0 <= write < buf.len(),
        (write + 1) % (buf.len() as int) != read,
    ensures
        ring_view(buf.update(write, v), read, (write + 1) % (buf.len() as int)) == ring_view(
            buf,
            read,
            write,
        ).push(v),
{
    let len = buf.len() as int;
    lemma_mod_incr(write, len);
    let write2 = (write + 1) % len;
    assert(ring_view(buf.update(write, v), read, write2) =~= ring_view(buf, read, write).push(v));
}

} // verus!
