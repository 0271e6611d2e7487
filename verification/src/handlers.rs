use vstd::prelude::*;

use crate::addr::PeerAddr;
use crate::events::{DeliveryFailure, Direction};
use crate::queue::queue_send;
use crate::registry::PeersManager;

verus! {

/// Reacts to the lifecycle of one protocol channel: records outbound sessions
/// in the registry, clears sessions on close, and forwards inbound frames to
/// the delivery queue. The registry itself is handed in by the caller, which
/// owns the lock around it.
pub struct SessionProtocolHandler {
    tx: crossbeam_channel::Sender<(u64, Vec<u8>)>,
}

impl SessionProtocolHandler {
    pub fn new(tx: crossbeam_channel::Sender<(u64, Vec<u8>)>) -> (r: SessionProtocolHandler) {
        SessionProtocolHandler { tx }
    }

    /// A session opened: an outbound one is recorded under its id, an inbound
    /// one leaves the registry untouched.
    pub fn connected(
        &self,
        registry: &mut PeersManager,
        session_id: u64,
        addr: PeerAddr,
        direction: Direction,
    )
        requires
            old(registry).wf(),
        ensures
            final(registry).wf(),
            direction == Direction::Outbound ==> final(registry)@ == old(registry)@.insert(
                session_id,
                addr,
            ),
            direction == Direction::Inbound ==> final(registry)@ == old(registry)@,
    {
        if direction == Direction::Outbound {
            registry.add_peer(session_id, &addr);
        }
    }

    /// A session closed: its id leaves the registry, whether or not it was
    /// ever recorded.
    pub fn disconnected(&self, registry: &mut PeersManager, session_id: u64)
        requires
            old(registry).wf(),
        ensures
            final(registry).wf(),
            final(registry)@ == old(registry)@.remove(session_id),
            !final(registry)@.contains_key(session_id),
    {
        registry.remove_peer(session_id);
    }

    /// A frame arrived: hand `(session_id, payload)` to the delivery queue.
    /// Failure means the consumer side of the queue is gone — a distinct,
    /// locally fatal condition — and the undelivered frame comes back.
    pub fn received(&self, session_id: u64, payload: Vec<u8>) -> (r: Result<(), DeliveryFailure>)
        ensures
            (r matches Err(f) ==> f.session_id == session_id && f.payload == payload),
    {
        match queue_send(&self.tx, session_id, payload) {
            Ok(()) => Ok(()),
            Err((sid, p)) => Err(DeliveryFailure { session_id: sid, payload: p }),
        }
    }
}

} // verus!
