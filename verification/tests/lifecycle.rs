use p2p_core::addr::PeerAddr;
use p2p_core::events::{DialFailure, Direction, NodeEvent, ServiceFault};
use p2p_core::handlers::SessionProtocolHandler;
use p2p_core::lifecycle::process_event;
use p2p_core::registry::PeersManager;
use p2p_core::scheduler::dials_for_cycle;
use p2p_core::service::handle_error;

fn addr(ip: u32, port: u16) -> PeerAddr {
    PeerAddr { ip, port }
}

#[test]
fn scenario_single_peer_reconnect_cycle() {
    // Peer list [A], A not yet connected: the first cycle dials A.
    let a = addr(1, 7000);
    let peers = vec![a];
    let mut reg = PeersManager::new();
    let first = dials_for_cycle(&reg, &peers);
    assert_eq!(first.len(), 1);
    assert_eq!(first[0], a);
    // A connects outbound as session 1: the registry now holds it.
    let (tx, _rx) = crossbeam_channel::unbounded();
    let handler = SessionProtocolHandler::new(tx);
    handler.connected(&mut reg, 1, a, Direction::Outbound);
    assert!(reg.contains_session(1));
    assert!(reg.check_addr_exists(&a));
    // The next cycle performs no dial for A.
    let second = dials_for_cycle(&reg, &peers);
    assert!(second.is_empty());
}

#[test]
fn scenario_duplicate_connection_reconciled() {
    // A dial lost the mutual-dial race: the transport reports the session
    // that already exists. The registry records it instead of erring.
    let peer_address = addr(2, 7000);
    let mut reg = PeersManager::new();
    let fault = ServiceFault::DialerError {
        addr: peer_address,
        failure: DialFailure::RepeatedConnection { session_id: 5 },
    };
    handle_error(&mut reg, &fault);
    assert!(reg.contains_session(5));
    assert!(reg.check_addr_exists(&peer_address));
    // The scheduler stops retrying that address.
    let dials = dials_for_cycle(&reg, &vec![peer_address]);
    assert!(dials.is_empty());
}

#[test]
fn other_faults_change_nothing() {
    let mut reg = PeersManager::new();
    reg.add_peer(1, &addr(1, 1));
    handle_error(
        &mut reg,
        &ServiceFault::DialerError { addr: addr(9, 9), failure: DialFailure::Other },
    );
    handle_error(&mut reg, &ServiceFault::Other);
    assert!(reg.contains_session(1));
    assert!(!reg.check_addr_exists(&addr(9, 9)));
}

#[test]
fn inbound_sessions_stay_out_of_registry() {
    let (tx, _rx) = crossbeam_channel::unbounded();
    let handler = SessionProtocolHandler::new(tx);
    let mut reg = PeersManager::new();
    handler.connected(&mut reg, 3, addr(4, 4), Direction::Inbound);
    assert!(!reg.contains_session(3));
    assert!(!reg.check_addr_exists(&addr(4, 4)));
}

#[test]
fn disconnect_cleans_up() {
    let (tx, _rx) = crossbeam_channel::unbounded();
    let handler = SessionProtocolHandler::new(tx);
    let mut reg = PeersManager::new();
    handler.connected(&mut reg, 1, addr(1, 1), Direction::Outbound);
    handler.disconnected(&mut reg, 1);
    assert!(!reg.contains_session(1));
    // Disconnect of a session that was never added is a no-op.
    handler.disconnected(&mut reg, 42);
    assert!(!reg.contains_session(42));
}

#[test]
fn received_frames_reach_the_queue() {
    let (tx, rx) = crossbeam_channel::unbounded();
    let handler = SessionProtocolHandler::new(tx);
    assert!(handler.received(7, vec![1, 2, 3]).is_ok());
    assert_eq!(rx.recv().unwrap(), (7, vec![1, 2, 3]));
}

#[test]
fn received_on_closed_queue_returns_the_frame() {
    let (tx, rx) = crossbeam_channel::unbounded();
    drop(rx);
    let handler = SessionProtocolHandler::new(tx);
    let err = handler.received(7, vec![9, 9]).unwrap_err();
    assert_eq!(err.session_id, 7);
    assert_eq!(err.payload, vec![9, 9]);
}

#[test]
fn interleaved_sessions_lose_no_frame() {
    // Frames of distinct sessions, interleaved arbitrarily: every frame
    // appears in the queue, in per-session order.
    let (tx, rx) = crossbeam_channel::unbounded();
    let handler = SessionProtocolHandler::new(tx);
    let mut reg = PeersManager::new();
    let events = vec![
        NodeEvent::Connected { session_id: 1, addr: addr(1, 1), direction: Direction::Outbound },
        NodeEvent::Received { session_id: 1, payload: vec![10] },
        NodeEvent::Connected { session_id: 2, addr: addr(2, 2), direction: Direction::Inbound },
        NodeEvent::Received { session_id: 2, payload: vec![20] },
        NodeEvent::Received { session_id: 1, payload: vec![11] },
        NodeEvent::Received { session_id: 3, payload: vec![30] },
        NodeEvent::Received { session_id: 2, payload: vec![21] },
        NodeEvent::Disconnected { session_id: 1 },
        NodeEvent::Received { session_id: 3, payload: vec![31] },
    ];
    for e in events {
        assert!(process_event(&handler, &mut reg, e).is_ok());
    }
    let got: Vec<(u64, Vec<u8>)> = rx.try_iter().collect();
    assert_eq!(got.len(), 6);
    let per = |sid: u64| -> Vec<Vec<u8>> {
        got.iter().filter(|(s, _)| *s == sid).map(|(_, p)| p.clone()).collect()
    };
    assert_eq!(per(1), vec![vec![10], vec![11]]);
    assert_eq!(per(2), vec![vec![20], vec![21]]);
    assert_eq!(per(3), vec![vec![30], vec![31]]);
    assert!(!reg.contains_session(1));
    assert!(!reg.contains_session(2));
}

#[test]
fn process_event_reconciles_duplicate_connection() {
    let (tx, _rx) = crossbeam_channel::unbounded();
    let handler = SessionProtocolHandler::new(tx);
    let mut reg = PeersManager::new();
    let fault = ServiceFault::DialerError {
        addr: addr(6, 6),
        failure: DialFailure::RepeatedConnection { session_id: 8 },
    };
    assert!(process_event(&handler, &mut reg, NodeEvent::Fault { fault }).is_ok());
    assert!(reg.contains_session(8));
}
