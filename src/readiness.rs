//! The wait for a quorum of peers before the exchange starts.

use crate::CeremonyError;
use vstd::prelude::*;

verus! {

/// What the transport reports while peers are being reached.
#[derive(Debug, Clone, Copy, PartialEq, Eq, Structural)]
pub enum PeerEvent {
    /// A connection to a peer was established.
    Connected,
    /// A connection was closed; before the quorum, that peer counts as not
    /// yet connected again.
    Closed,
    /// The transport failed for good.
    Failed,
}

/// Counts established connections until the expected number is reached.
pub struct PeerQuorum {
    expected: usize,
    connected: usize,
}

pub struct PeerQuorumView {
    pub expected: nat,
    pub connected: nat,
}

impl View for PeerQuorum {
    type V = PeerQuorumView;

    closed spec fn view(&self) -> PeerQuorumView {
        PeerQuorumView { expected: self.expected as nat, connected: self.connected as nat }
    }
}

/// The count of connections after one event. Once the quorum is reached
/// nothing changes it; before that, a connection adds one and a disconnect
/// takes one off.
pub open spec fn connected_after(s: PeerQuorumView, event: PeerEvent) -> nat {
    if s.connected >= s.expected {
        s.connected
    } else {
        match event {
            PeerEvent::Connected => s.connected + 1,
            PeerEvent::Closed => if s.connected > 0 {
                (s.connected - 1) as nat
            } else {
                0
            },
            PeerEvent::Failed => s.connected,
        }
    }
}

impl PeerQuorum {
    pub open spec fn wf(&self) -> bool {
        self@.connected <= self@.expected
    }

    /// A count that waits for `expected` connections.
    pub fn new(expected: usize) -> (r: PeerQuorum)
        ensures
            r.wf(),
            r@ == (PeerQuorumView { expected: expected as nat, connected: 0 }),
    {
        PeerQuorum { expected, connected: 0 }
    }

    /// Whether the quorum has been reached.
    pub fn is_reached(&self) -> (r: bool)
        ensures
            r == (self@.connected >= self@.expected),
    {
        self.connected >= self.expected
    }

    /// Takes one event. Answers whether the quorum has been reached, or
    /// `PeerDiscoveryFailed` when the transport failed first.
    pub fn on_event(&mut self, event: PeerEvent) -> (r: Result<bool, CeremonyError>)
        requires
            old(self).wf(),
        ensures
            final(self).wf(),
            final(self)@.expected == old(self)@.expected,
            final(self)@.connected == connected_after(old(self)@, event),
            event == PeerEvent::Failed && old(self)@.connected < old(self)@.expected ==> r
                == Err::<bool, CeremonyError>(CeremonyError::PeerDiscoveryFailed),
            !(event == PeerEvent::Failed && old(self)@.connected < old(self)@.expected) ==> r
                == Ok::<bool, CeremonyError>(final(self)@.connected >= final(self)@.expected),
    {
        if self.connected >= self.expected {
            return Ok(true);
        }
        match event {
            PeerEvent::Connected => {
                self.connected = self.connected + 1;
                Ok(self.connected >= self.expected)
            },
            PeerEvent::Closed => {
                if self.connected > 0 {
                    self.connected = self.connected - 1;
                }
                Ok(false)
            },
            PeerEvent::Failed => Err(CeremonyError::PeerDiscoveryFailed),
        }
    }
}

} // verus!
