//! The general laws of the FIFO buffers, stated and proved over the abstract
//! view that the operation contracts use: a successful `put` appends at the
//! back (`push`), a successful `get` removes the front (`drop_first`), a
//! refused operation changes nothing, and a buffer with raw storage length
//! `cap` holds at most `cap - 1` elements.

use vstd::prelude::*;

verus! {

/// One requested operation on a FIFO buffer: append a value, or take the
/// oldest one.
pub enum FifoOp<T> {
    Put(T),
    Get,
}

/// The view after one requested operation, honoring the refusals: a `Put` on
/// a full buffer and a `Get` on an empty buffer leave the view unchanged.
pub open spec fn apply_op<T>(s: Seq<T>, op: FifoOp<T>, cap: int) -> Seq<T> {
    match op {
        FifoOp::Put(v) => if s.len() < cap - 1 {
            s.push(v)
        } else {
            s
        },
        FifoOp::Get => if s.len() > 0 {
            s.drop_first()
        } else {
            s
        },
    }
}

/// The view after a whole sequence of requested operations, applied left to
/// right.
pub open spec fn apply_ops<T>(s: Seq<T>, ops: Seq<FifoOp<T>>, cap: int) -> Seq<T>
    decreases ops.len(),
{
    if ops.len() == 0 {
        s
    } else {
        apply_ops(apply_op(s, ops[0], cap), ops.drop_first(), cap)
    }
}

/// How many `Put` operations of the sequence succeed, that is, find the
/// buffer not full when their turn comes.
pub open spec fn successful_puts<T>(s: Seq<T>, ops: Seq<FifoOp<T>>, cap: int) -> int
    decreases ops.len(),
{
    if ops.len() == 0 {
        0
    } else {
        let here: int = match ops[0] {
            FifoOp::Put(v) => if s.len() < cap - 1 {
                1
            } else {
                0
            },
            FifoOp::Get => 0,
        };
        here + successful_puts(apply_op(s, ops[0], cap), ops.drop_first(), cap)
    }
}

/// How many `Get` operations of the sequence succeed, that is, find the
/// buffer not empty when their turn comes.
pub open spec fn successful_gets<T>(s: Seq<T>, ops: Seq<FifoOp<T>>, cap: int) -> int
    decreases ops.len(),
{
    if ops.len() == 0 {
        0
    } else {
        let here: int = match ops[0] {
            FifoOp::Put(v) => 0,
            FifoOp::Get => if s.len() > 0 {
                1
            } else {
                0
            },
        };
        here + successful_gets(apply_op(s, ops[0], cap), ops.drop_first(), cap)
    }
}

/// A sequence of `k` `Get` requests.
pub open spec fn get_ops<T>(k: int) -> Seq<FifoOp<T>> {
    Seq::new(k as nat, |i: int| FifoOp::Get)
}

/// One `Put` request for each value of `vs`, in order.
pub open spec fn put_ops<T>(vs: Seq<T>) -> Seq<FifoOp<T>> {
    Seq::new(vs.len(), |i: int| FifoOp::Put(vs[i]))
}

/// A freshly constructed buffer reads as empty — `is_empty` is true and `len`
/// is zero — and, whenever the raw storage holds at least two slots, it does
/// not read as full.
pub proof fn lemma_fresh_buffer<T>(s: Seq<T>, cap: int)
    requires
        s == Seq::<T>::empty(),
        cap >= 2,
    ensures
        s.len() == 0,
        s.len() != cap - 1,
{
}

/// Occupancy accounting: after any sequence of put/get requests honoring the
/// refusals, the element count equals the starting count plus the number of
/// successful puts minus the number of successful gets, and it never leaves
/// the range `[0, cap - 1]`.
pub proof fn lemma_ops_len_accounting<T>(s: Seq<T>, ops: Seq<FifoOp<T>>, cap: int)
    requires
        cap >= 1,
        s.len() <= cap - 1,
    ensures
        apply_ops(s, ops, cap).len() == s.len() + successful_puts(s, ops, cap) - successful_gets(
            s,
            ops,
            cap,
        ),
        0 <= apply_ops(s, ops, cap).len() <= cap - 1,
    decreases ops.len(),
{
    if ops.len() > 0 {
        lemma_ops_len_accounting(apply_op(s, ops[0], cap), ops.drop_first(), cap);
    }
}

/// Round trip on an empty buffer: `put(v)` succeeds, an immediate `get`
/// returns exactly `v`, and the buffer is empty again, as it was before.
pub proof fn lemma_put_then_get_round_trip<T>(s: Seq<T>, v: T, cap: int)
    requires
        cap >= 2,
        s.len() == 0,
    ensures
        s.len() < cap - 1,
        s.push(v)[0] == v,
        s.push(v).drop_first() == s,
{
    assert(s.push(v).drop_first() =~= s);
}

/// On any buffer with room, `put(v)` followed immediately by a `get` succeeds
/// in both steps and restores the element count — and with it the `is_empty`
/// reading — to its prior state.
pub proof fn lemma_put_then_get_restores_len<T>(s: Seq<T>, v: T, cap: int)
    requires
        cap >= 1,
        s.len() < cap - 1,
    ensures
        s.push(v).len() > 0,
        s.push(v).drop_first().len() == s.len(),
{
}

/// Running the operations of two concatenated request sequences is the same
/// as running the first sequence and then the second.
pub proof fn lemma_apply_ops_append<T>(s: Seq<T>, a: Seq<FifoOp<T>>, b: Seq<FifoOp<T>>, cap: int)
    ensures
        apply_ops(s, a + b, cap) == apply_ops(apply_ops(s, a, cap), b, cap),
    decreases a.len(),
{
    if a.len() == 0 {
        assert(a + b =~= b);
        assert(apply_ops(s, a, cap) == s);
    } else {
        assert((a + b)[0] == a[0]);
        assert((a + b).drop_first() =~= a.drop_first() + b);
        lemma_apply_ops_append(apply_op(s, a[0], cap), a.drop_first(), b, cap);
    }
}

/// `k` `Get` requests on a buffer holding at least `k` elements all succeed
/// and remove exactly the `k` oldest elements.
pub proof fn lemma_apply_get_ops<T>(s: Seq<T>, k: int, cap: int)
    requires
        0 <= k <= s.len(),
    ensures
        apply_ops(s, get_ops(k), cap) == s.skip(k),
    decreases k,
{
    if k == 0 {
        assert(get_ops::<T>(0).len() == 0);
        assert(s.skip(0) =~= s);
    } else {
        assert(get_ops::<T>(k)[0] == FifoOp::<T>::Get);
        assert(get_ops::<T>(k).drop_first() =~= get_ops::<T>(k - 1));
        lemma_apply_get_ops(s.drop_first(), k - 1, cap);
        assert(s.drop_first().skip(k - 1) =~= s.skip(k));
    }
}

/// `Put` requests for the values of `vs` on a buffer with room for all of
/// them all succeed and append exactly those values, in order.
pub proof fn lemma_apply_put_ops<T>(s: Seq<T>, vs: Seq<T>, cap: int)
    requires
        s.len() + vs.len() <= cap - 1,
    ensures
        apply_ops(s, put_ops(vs), cap) == s + vs,
    decreases vs.len(),
{
    if vs.len() == 0 {
        assert(put_ops::<T>(vs).len() == 0);
        assert(s + vs =~= s);
    } else {
        assert(put_ops(vs)[0] == FifoOp::Put(vs[0]));
        assert(put_ops(vs).drop_first() =~= put_ops(vs.drop_first()));
        lemma_apply_put_ops(s.push(vs[0]), vs.drop_first(), cap);
        assert(s.push(vs[0]) + vs.drop_first() =~= s + vs);
    }
}

/// Wraparound: removing `k` elements from a full buffer and then inserting
/// `k` new values leaves the buffer full again, holding the surviving old
/// elements followed by the new values — first-in-first-out order is kept
/// even though the cursors have wrapped past the end of the raw storage.
pub proof fn lemma_wraparound_fifo_order<T>(s: Seq<T>, vs: Seq<T>, cap: int)
    requires
        cap >= 1,
        s.len() == cap - 1,
        vs.len() < cap - 1,
    ensures
        apply_ops(s, get_ops(vs.len() as int) + put_ops(vs), cap) == s.skip(vs.len() as int) + vs,
        apply_ops(s, get_ops(vs.len() as int) + put_ops(vs), cap).len() == cap - 1,
{
    let k = vs.len() as int;
    lemma_apply_ops_append(s, get_ops(k), put_ops(vs), cap);
    lemma_apply_get_ops(s, k, cap);
    lemma_apply_put_ops(s.skip(k), vs, cap);
}

} // verus!
