//! A TCP-over-RPC tunnel core: adapters that turn a raw byte stream into a
//! chunked message stream and back without losing, duplicating or reordering
//! a single byte, plus round-robin backend selection for the gateway side.
//!
//! The surrounding processes (socket I/O, the RPC transport, task spawning)
//! live outside this crate; this library holds the decision logic of each
//! component and its proofs.

use vstd::prelude::*;

pub mod balance;
pub mod chunk;
pub mod copy;
pub mod gateway;

verus! {

/// Error taxonomy for the write side of a tunnel session.
///
/// `WriteZero` is the fatal "sink is stuck" condition: a write call accepted
/// zero bytes of a non-empty buffer. It is kept distinct from every other
/// failure so callers can tell a stuck sink from an ordinary I/O or
/// stream-level error, which both carry a textual cause in `Other`.
#[derive(Clone, Debug, PartialEq, Eq)]
pub enum TunnelError {
    WriteZero,
    Other(String),
}

/// Builds the generic error used wherever a textual cause crosses a
/// component boundary (for example a stream-level failure reported by the
/// remote peer).
pub fn other(desc: &str) -> (e: TunnelError)
    ensures
        e matches TunnelError::Other(m) && m@ == desc@,
{
    TunnelError::Other(desc.to_string())
}

} // verus!
