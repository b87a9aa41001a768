use static_fifo::StaticFifoError;
use static_fifo::StaticFifoU8;
use static_fifo::StaticFifoU32;

#[test]
fn fresh_buffer_state_u8() {
    // A freshly constructed buffer is empty, not full (raw length >= 2),
    // holds zero elements, and reports its raw storage length.
    let fifo: StaticFifoU8<4> = StaticFifoU8::<4>::new();
    assert!(fifo.is_empty());
    assert!(!fifo.is_full());
    assert_eq!(fifo.len(), 0);
    assert_eq!(fifo.max_len(), 4);
}

#[test]
fn fresh_buffer_state_u32() {
    let fifo: StaticFifoU32<7> = StaticFifoU32::<7>::new();
    assert!(fifo.is_empty());
    assert!(!fifo.is_full());
    assert_eq!(fifo.len(), 0);
    assert_eq!(fifo.max_len(), 7);
}

#[test]
fn single_slot_buffer_is_both_empty_and_full() {
    // With raw length 1 the one slot is the reserved one: the usable
    // capacity is 0, so the fresh buffer is empty and full at once, and
    // every operation is refused.
    let mut fifo: StaticFifoU8<1> = StaticFifoU8::<1>::new();
    assert!(fifo.is_empty());
    assert!(fifo.is_full());
    assert_eq!(fifo.len(), 0);
    assert_eq!(fifo.max_len(), 1);
    assert!(matches!(fifo.put(9), Err(StaticFifoError::Full)));
    assert!(matches!(fifo.get(), Err(StaticFifoError::Empty)));
}

#[test]
fn get_on_empty_fails_and_changes_nothing() {
    let mut fifo: StaticFifoU8<8> = StaticFifoU8::<8>::new();
    assert!(matches!(fifo.get(), Err(StaticFifoError::Empty)));
    // A second attempt fails identically: the failure was a no-op.
    assert!(matches!(fifo.get(), Err(StaticFifoError::Empty)));
    assert!(fifo.is_empty());
    assert_eq!(fifo.len(), 0);
    // The buffer still works normally afterwards.
    assert!(fifo.put(42).is_ok());
    assert_eq!(fifo.get(), Ok(42));
}

#[test]
fn put_on_full_fails_and_changes_nothing() {
    let mut fifo: StaticFifoU8<4> = StaticFifoU8::<4>::new();
    for v in 0..3u8 {
        assert!(fifo.put(v).is_ok());
    }
    assert!(fifo.is_full());
    assert!(matches!(fifo.put(99), Err(StaticFifoError::Full)));
    // A second attempt fails identically: the failure was a no-op.
    assert!(matches!(fifo.put(99), Err(StaticFifoError::Full)));
    assert!(fifo.is_full());
    assert_eq!(fifo.len(), 3);
    // The stored elements are untouched and still come out in order.
    assert_eq!(fifo.get(), Ok(0));
    assert_eq!(fifo.get(), Ok(1));
    assert_eq!(fifo.get(), Ok(2));
    assert!(fifo.is_empty());
}

#[test]
fn round_trip_restores_empty_u8() {
    let mut fifo: StaticFifoU8<8> = StaticFifoU8::<8>::new();
    assert!(fifo.is_empty());
    assert!(fifo.put(201).is_ok());
    assert_eq!(fifo.get(), Ok(201));
    assert!(fifo.is_empty());
}

#[test]
fn round_trip_restores_empty_u32() {
    let mut fifo: StaticFifoU32<8> = StaticFifoU32::<8>::new();
    assert!(fifo.is_empty());
    assert!(fifo.put(0xdeadbeef).is_ok());
    assert_eq!(fifo.get(), Ok(0xdeadbeef));
    assert!(fifo.is_empty());
}

#[test]
fn occupancy_tracks_successful_puts_minus_gets() {
    // 5 successful puts, 2 successful gets, 1 refused get at the start:
    // the length reads 5 - 2 = 3, always within [0, N - 1].
    let mut fifo: StaticFifoU8<8> = StaticFifoU8::<8>::new();
    assert!(fifo.get().is_err());
    for v in 10..15u8 {
        assert!(fifo.put(v).is_ok());
    }
    assert_eq!(fifo.get(), Ok(10));
    assert_eq!(fifo.get(), Ok(11));
    assert_eq!(fifo.len(), 3);
    assert!(fifo.len() <= fifo.max_len() - 1);
}

#[test]
fn wraparound_keeps_fifo_order_u8() {
    // Fill to N - 1 = 7, remove 4, insert 4 more: the buffer is full again
    // and every later get returns the values in exact insertion order, even
    // though both cursors have wrapped past the end of the raw storage.
    let mut fifo: StaticFifoU8<8> = StaticFifoU8::<8>::new();
    for v in 1..8u8 {
        assert!(fifo.put(v).is_ok());
    }
    assert!(fifo.is_full());
    assert_eq!(fifo.len(), 7);
    for expect in 1..5u8 {
        assert_eq!(fifo.get(), Ok(expect));
    }
    for v in 51..55u8 {
        assert!(fifo.put(v).is_ok());
    }
    assert_eq!(fifo.len(), 7);
    assert!(fifo.is_full());
    for expect in 5..8u8 {
        assert_eq!(fifo.get(), Ok(expect));
    }
    for expect in 51..55u8 {
        assert_eq!(fifo.get(), Ok(expect));
    }
    assert!(fifo.is_empty());
}

#[test]
fn wraparound_keeps_fifo_order_u32() {
    let mut fifo: StaticFifoU32<8> = StaticFifoU32::<8>::new();
    for v in 1..8u32 {
        assert!(fifo.put(v * 100_000).is_ok());
    }
    assert!(fifo.is_full());
    for expect in 1..5u32 {
        assert_eq!(fifo.get(), Ok(expect * 100_000));
    }
    for v in 51..55u32 {
        assert!(fifo.put(v * 100_000).is_ok());
    }
    assert_eq!(fifo.len(), 7);
    assert!(fifo.is_full());
    for expect in 5..8u32 {
        assert_eq!(fifo.get(), Ok(expect * 100_000));
    }
    for expect in 51..55u32 {
        assert_eq!(fifo.get(), Ok(expect * 100_000));
    }
    assert!(fifo.is_empty());
}

#[test]
fn len_formula_in_wrapped_state() {
    // Drive the buffer into a state where the read cursor sits past the
    // write cursor: after 5 puts, 5 gets and 3 more puts on raw length 6,
    // the occupied range wraps and len() still reports exactly 3.
    let mut fifo: StaticFifoU8<6> = StaticFifoU8::<6>::new();
    for v in 0..5u8 {
        assert!(fifo.put(v).is_ok());
    }
    for expect in 0..5u8 {
        assert_eq!(fifo.get(), Ok(expect));
    }
    for v in 30..33u8 {
        assert!(fifo.put(v).is_ok());
    }
    assert_eq!(fifo.len(), 3);
    assert_eq!(fifo.get(), Ok(30));
    assert_eq!(fifo.get(), Ok(31));
    assert_eq!(fifo.get(), Ok(32));
    assert!(fifo.is_empty());
}

#[test]
fn smallest_usable_buffer_alternates() {
    // Raw length 2 stores at most one element at a time.
    let mut fifo: StaticFifoU32<2> = StaticFifoU32::<2>::new();
    for round in 0..5u32 {
        assert!(fifo.put(round).is_ok());
        assert!(fifo.is_full());
        assert!(matches!(fifo.put(round + 1), Err(StaticFifoError::Full)));
        assert_eq!(fifo.get(), Ok(round));
        assert!(fifo.is_empty());
    }
}
