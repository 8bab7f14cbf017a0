//! Building blocks for relaying live audio between two hosts on a local
//! network: a jitter buffer of samples, the wire encoding of a sample, the
//! enumeration of a subnet for peer discovery, and the decisions of the
//! relay workers and of the session that owns them.
//!
//! A sample is a 32-bit IEEE-754 single-precision amplitude. The library
//! carries every sample as its bit pattern (`u32`), so that a sample moves
//! through the buffer and over the wire without ever being rounded or
//! canonicalised.

pub mod ring;
pub mod wire;
pub mod latency;
pub mod subnet;
pub mod scan;
pub mod relay;
pub mod session;
