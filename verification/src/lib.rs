//! A fixed-capacity circular buffer with overwrite-on-full semantics.
//!
//! Writers never block and never fail: when the buffer is full, a push
//! silently overwrites the oldest unread slot. Readers drain the buffer
//! one element at a time; when the writer has lapped the reader, the
//! read cursor snaps forward to the oldest value that still survives.
//!
//! The buffer keeps four cursor fields: a read index, a write index, and
//! one 8-bit wrap counter (epoch) per cursor, incremented each time the
//! corresponding index wraps past zero. Comparing epochs, not indices
//! alone, is what tells an empty buffer from a full one.

pub mod buffer;
pub mod laws;
pub mod state;

pub use buffer::HorridRing;
pub use state::RingState;
