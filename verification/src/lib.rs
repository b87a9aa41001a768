//! Fixed-capacity circular FIFO buffers for environments without dynamic
//! allocation.
//!
//! Each buffer owns a fixed-length backing store of `N` slots together with a
//! read cursor and a write cursor. One slot of the raw storage is always kept
//! free so that a full buffer can be told apart from an empty one: the usable
//! capacity is `N - 1`, while `max_len` deliberately reports the raw length
//! `N`. The buffers are single-owner and every operation completes in O(1)
//! without blocking.

mod fifo_u32;
mod fifo_u8;
pub mod laws;
mod ring;

pub use fifo_u32::StaticFifoU32;
pub use fifo_u8::StaticFifoU8;
pub use ring::StaticFifoError;
