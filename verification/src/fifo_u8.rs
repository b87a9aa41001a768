//! A fixed-capacity FIFO of bytes, backed by a compile-time-sized array.

use vstd::prelude::*;
use crate::ring::StaticFifoError;
use crate::ring::ring_view;
use crate::ring::lemma_mod_incr;
use crate::ring::lemma_ring_view_len;
use crate::ring::lemma_ring_get;
use crate::ring::lemma_ring_put;

verus! {

/// A fixed-capacity FIFO of `u8` values. The raw storage holds `N` slots, but
/// one slot is always kept free so that a full buffer can be told apart from
/// an empty one: at most `N - 1` elements can be stored at a time.
pub struct StaticFifoU8<const N: usize> {
    buf: [u8; N],
    read_ptr: usize,
    write_ptr: usize,
    capacity: usize,
}

impl<const N: usize> View for StaticFifoU8<N> {
    type V = Seq<u8>;

    /// The abstract state: the occupied elements in insertion order.
    closed spec fn view(&self) -> Seq<u8> {
        ring_view(self.buf@, self.read_ptr as int, self.write_ptr as int)
    }
}

impl<const N: usize> StaticFifoU8<N> {
    /// Internal invariant: both cursors stay inside the raw storage and
    /// `capacity` mirrors the compile-time length `N`, which must be at least
    /// one so that cursor arithmetic modulo `N` is defined.
    pub closed spec fn wf(&self) -> bool {
        &&& N >= 1
        &&& self.read_ptr < N
        &&& self.write_ptr < N
        &&& self.capacity == N
    }

    /// Creates an empty buffer with zero-initialized storage.
    pub fn new() -> (r: Self)
        requires
            N >= 1,
        ensures
            r.wf(),
            r@ == Seq::<u8>::empty(),
    {
        let r = Self { buf: [0; N], read_ptr: 0, write_ptr: 0, capacity: N };
        proof {
            assert(r@ =~= Seq::<u8>::empty());
        }
        r
    }

    /// Advances the read cursor by one slot, wrapping past the end.
    #[inline]
    fn increment_readptr(&mut self)
        requires
            old(self).wf(),
        ensures
            final(self).wf(),
            final(self).read_ptr == (old(self).read_ptr + 1) % (N as int),
            final(self).write_ptr == old(self).write_ptr,
            final(self).buf == old(self).buf,
    {
        proof {
            lemma_mod_incr(self.read_ptr as int, N as int);
        }
        self.read_ptr = (self.read_ptr + 1) % self.capacity;
    }

    /// Advances the write cursor by one slot, wrapping past the end.
    #[inline]
    fn increment_writeptr(&mut self)
        requires
            old(self).wf(),
        ensures
            final(self).wf(),
            final(self).write_ptr == (old(self).write_ptr + 1) % (N as int),
            final(self).read_ptr == old(self).read_ptr,
            final(self).buf == old(self).buf,
    {
        proof {
            lemma_mod_incr(self.write_ptr as int, N as int);
        }
        self.write_ptr = (self.write_ptr + 1) % self.capacity;
    }

    /// True exactly when no element is stored: the cursors coincide.
    #[inline]
    pub fn is_empty(&self) -> (r: bool)
        requires
            self.wf(),
        ensures
            r == (self@.len() == 0),
    {
        proof {
            lemma_ring_view_len(self.buf@, self.read_ptr as int, self.write_ptr as int);
        }
        if self.read_ptr == self.write_ptr {
            return true;
        }
        return false;
    }

    /// True exactly when the buffer holds its maximum of `N - 1` elements:
    /// the write cursor is one step behind the read cursor.
    #[inline]
    pub fn is_full(&self) -> (r: bool)
        requires
            self.wf(),
        ensures
            r == (self@.len() == N - 1),
    {
        proof {
            lemma_ring_view_len(self.buf@, self.read_ptr as int, self.write_ptr as int);
            lemma_mod_incr(self.write_ptr as int, N as int);
        }
        let rp1: usize = (self.write_ptr + 1) % self.capacity;
        if rp1 == self.read_ptr {
            true
        } else {
            false
        }
    }

    /// Removes and returns the oldest element. On an empty buffer it fails
    /// with `Empty` and changes nothing; otherwise it returns the front
    /// element and the view loses exactly that element.
    #[inline]
    pub fn get(&mut self) -> (r: Result<u8, StaticFifoError>)
        requires
            old(self).wf(),
        ensures
            final(self).wf(),
            old(self)@.len() == 0 ==> r == Err::<u8, StaticFifoError>(StaticFifoError::Empty)
                && *final(self) == *old(self),
            old(self)@.len() > 0 ==> r == Ok::<u8, StaticFifoError>(old(self)@[0])
                && final(self)@ == old(self)@.drop_first(),
    {
        if self.is_empty() {
            return Err(StaticFifoError::Empty);
        }
        proof {
            lemma_ring_view_len(self.buf@, self.read_ptr as int, self.write_ptr as int);
            lemma_ring_get(self.buf@, self.read_ptr as int, self.write_ptr as int);
        }
        let rv: u8 = self.buf[self.read_ptr];
        self.increment_readptr();
        return Ok(rv);
    }

    /// Appends `data` at the back. On a full buffer it fails with `Full` and
    /// changes nothing; otherwise the view gains `data` as its newest element.
    #[inline]
    pub fn put(&mut self, data: u8) -> (r: Result<(), StaticFifoError>)
        requires
            old(self).wf(),
        ensures
            final(self).wf(),
            old(self)@.len() == N - 1 ==> r == Err::<(), StaticFifoError>(StaticFifoError::Full)
                && *final(self) == *old(self),
            old(self)@.len() < N - 1 ==> r == Ok::<(), StaticFifoError>(())
                && final(self)@ == old(self)@.push(data),
    {
        if self.is_full() {
            return Err(StaticFifoError::Full);
        }
        proof {
            lemma_ring_view_len(self.buf@, self.read_ptr as int, self.write_ptr as int);
            lemma_mod_incr(self.write_ptr as int, N as int);
            lemma_ring_put(self.buf@, self.read_ptr as int, self.write_ptr as int, data);
        }
        self.buf[self.write_ptr] = data;
        self.increment_writeptr();
        return Ok(());
    }

    /// The number of stored elements, always in `[0, N - 1]`.
    pub fn len(&self) -> (r: usize)
        requires
            self.wf(),
        ensures
            r == self@.len(),
    {
        proof {
            lemma_ring_view_len(self.buf@, self.read_ptr as int, self.write_ptr as int);
        }
        if self.read_ptr > self.write_ptr {
            (self.capacity - self.read_ptr) + self.write_ptr
        } else {
            self.write_ptr - self.read_ptr
        }
    }

    /// A well-formed buffer never holds more than `N - 1` elements: one slot
    /// of the raw storage is always left free, whatever sequence of
    /// operations produced the current state.
    pub proof fn lemma_view_len_bound(&self)
        requires
            self.wf(),
        ensures
            self@.len() <= N - 1,
    {
        lemma_ring_view_len(self.buf@, self.read_ptr as int, self.write_ptr as int);
    }

    /// The raw storage length `N`. Note that this is one more than the usable
    /// capacity: a buffer of raw length `N` holds at most `N - 1` elements.
    pub fn max_len(&self) -> (r: usize)
        requires
            self.wf(),
        ensures
            r == N,
    {
        self.capacity
    }
}

} // verus!
