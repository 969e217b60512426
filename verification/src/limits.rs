//! The fixed bounds of the ingress layer.

use vstd::prelude::*;

verus! {

/// Seconds between two keep-alive packets on an otherwise idle connection.
pub const KEEP_ALIVE_SECS: u64 = 10;

/// Milliseconds of inactivity after which the transport closes a connection.
pub const IDLE_TIMEOUT_MILLIS: u32 = 15_000;

/// Largest payload, in bytes, that one unidirectional stream may carry.
pub const MAX_PACKET_BYTES: usize = 1024;

/// Whether a payload of `len` bytes fits into one packet.
pub open spec fn fits_packet(len: nat) -> bool {
    len <= MAX_PACKET_BYTES as nat
}

/// Decides whether a payload of `len` bytes fits into one packet.
pub fn within_packet_limit(len: usize) -> (fits: bool)
    ensures
        fits == fits_packet(len as nat),
{
    len <= MAX_PACKET_BYTES
}

} // verus!
