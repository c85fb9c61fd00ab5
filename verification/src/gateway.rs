//! The gateway-side decisions of a tunnel request.
//!
//! On each inbound request the gateway picks the next backend in rotation,
//! dials it under a bounded timeout, and either proceeds to wire the two copy
//! adapters or fails the request with an internal-error status carrying the
//! underlying cause. The dial itself, the task spawning and the RPC plumbing
//! happen outside; this module fixes which backend is asked for and what
//! every dial outcome means for the request.

use vstd::prelude::*;

use crate::balance::BackendSelector;

verus! {

/// How long one backend dial may take before the request fails, in seconds.
pub const CONNECT_TIMEOUT_SECS: u64 = 3;

/// The outcome of one bounded dial attempt against the selected backend:
/// connected, refused with the connection error's description, or out of
/// time with the timeout's description.
pub enum DialOutcome {
    Connected,
    ConnectFailed(String),
    TimedOut(String),
}

/// The gateway's per-process state: the backend rotation. Everything else a
/// request needs lives for that one request only.
pub struct TunnelServer {
    selector: BackendSelector,
}

impl TunnelServer {
    /// The configured backend address list.
    pub closed spec fn backends(self) -> Seq<String> {
        self.selector.backends()
    }

    /// The rotation counter's value before the next request.
    pub closed spec fn counter(self) -> nat {
        self.selector.counter()
    }

    /// Usable as long as at least one backend is configured.
    pub closed spec fn wf(self) -> bool {
        self.selector.wf()
    }

    /// A gateway over the given non-empty backend list, rotating from the
    /// first address.
    pub fn new(remote_addrs: Vec<String>) -> (s: Self)
        requires
            remote_addrs@.len() > 0,
        ensures
            s.wf(),
            s.counter() == 0,
            s.backends() == remote_addrs@,
    {
        TunnelServer { selector: BackendSelector::new(remote_addrs) }
    }

    /// Chooses the backend for one tunnel request: pure rotation, one counter
    /// step per request.
    pub fn pick_backend(&mut self) -> (a: String)
        requires
            old(self).wf(),
        ensures
            final(self).wf(),
            final(self).backends() == old(self).backends(),
            a == old(self).backends()[(old(self).counter() % old(self).backends().len()) as int],
            final(self).counter() == if old(self).counter() == usize::MAX as nat {
                0nat
            } else {
                old(self).counter() + 1
            },
    {
        self.selector.next_backend()
    }

    /// Decides a request's fate from the dial outcome: only a completed
    /// connection lets the request proceed; a refusal or an elapsed timeout
    /// fails it at once with the cause's description, which the transport
    /// reports as an internal-error status. No other backend is tried.
    pub fn dial_verdict(outcome: DialOutcome) -> (r: Result<(), String>)
        ensures
            r is Ok <==> outcome is Connected,
            outcome matches DialOutcome::ConnectFailed(m) ==> r == Err::<(), String>(m),
            outcome matches DialOutcome::TimedOut(m) ==> r == Err::<(), String>(m),
    {
        match outcome {
            DialOutcome::Connected => Ok(()),
            DialOutcome::ConnectFailed(m) => Err(m),
            DialOutcome::TimedOut(m) => Err(m),
        }
    }
}

} // verus!
