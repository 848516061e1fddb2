use vstd::prelude::*;

pub mod action;
pub mod block;
pub mod checksum;
pub mod codec;
pub mod command;
pub mod filter;
pub mod fuzz;
pub mod handshake;
pub mod header;
pub mod message;
pub mod payload;
pub mod transport;
pub mod version;

verus! {

/// Maximum size in bytes of a single frame's payload; a header claiming more
/// is rejected before any payload byte is read.
pub const MAX_MESSAGE_LEN: u32 = 0x200000;

/// Size in bytes of the fixed wire header.
pub const HEADER_LEN: usize = 24;

} // verus!
