use vstd::prelude::*;

use crate::addr::PeerAddr;

verus! {

/// Whether this node initiated a session (`Outbound`) or accepted it
/// (`Inbound`). Only outbound sessions enter the registry: the registry's one
/// purpose is to suppress redundant outbound dials, and an inbound peer's
/// ephemeral port says nothing about its advertised listening address.
#[derive(Clone, Copy, PartialEq, Eq, Structural, Debug)]
pub enum Direction {
    Outbound,
    Inbound,
}

/// Why a dial attempt failed, as the transport reports it.
#[derive(Clone, Copy, PartialEq, Eq, Structural, Debug)]
pub enum DialFailure {
    /// The target was already connected; the transport names the session that
    /// is already live.
    RepeatedConnection { session_id: u64 },
    /// Any other dial failure; logged by the caller, no state change.
    Other,
}

/// A service-scoped (not session-scoped) notification.
#[derive(Clone, Copy, PartialEq, Eq, Structural, Debug)]
pub enum ServiceFault {
    /// A dial to `addr` failed with `failure`.
    DialerError { addr: PeerAddr, failure: DialFailure },
    /// Any other service-level event; requires no state change.
    Other,
}

/// One event of the node's life, as the transport hands them in.
#[derive(Clone, Debug)]
pub enum NodeEvent {
    /// A session opened.
    Connected { session_id: u64, addr: PeerAddr, direction: Direction },
    /// A session closed; its id is invalid from here on.
    Disconnected { session_id: u64 },
    /// One frame of application data arrived on a session.
    Received { session_id: u64, payload: Vec<u8> },
    /// A service-scoped fault was reported.
    Fault { fault: ServiceFault },
}

/// One item of the delivery queue: a frame and the session it arrived on.
#[derive(Clone, Debug)]
pub struct DeliveryMessage {
    pub session_id: u64,
    pub payload: Vec<u8>,
}

/// A frame that could not be handed to the consumer because the delivery
/// queue is closed; the undelivered message is carried, never dropped.
#[derive(Clone, Debug)]
pub struct DeliveryFailure {
    pub session_id: u64,
    pub payload: Vec<u8>,
}

/// One planned unicast: send `payload` on session `session_id`.
#[derive(Clone, Debug)]
pub struct SendCommand {
    pub session_id: u64,
    pub payload: Vec<u8>,
}

} // verus!
