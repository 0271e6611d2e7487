//! Core logic of a small peer-to-peer node: a registry of active outbound
//! sessions, handlers for session lifecycle and service-level events, the
//! reconnect scheduler's dial decisions, broadcast fan-out planning, and
//! decoding of hex key material.
//!
//! Everything here works on plain values (integer session ids, `PeerAddr`,
//! byte vectors). The surrounding program owns the transport, the threads and
//! the lock around the shared registry, and feeds events into these functions.

pub mod addr;
pub mod events;
pub mod handlers;
pub mod keys;
pub mod lifecycle;
pub mod messaging;
mod queue;
pub mod registry;
pub mod scheduler;
pub mod service;
