use p2p_core::addr::PeerAddr;
use p2p_core::registry::PeersManager;
use p2p_core::scheduler::dials_for_cycle;

fn addr(ip: u32, port: u16) -> PeerAddr {
    PeerAddr { ip, port }
}

#[test]
fn all_peers_dialed_when_registry_empty() {
    let reg = PeersManager::new();
    let peers = vec![addr(1, 1), addr(2, 2), addr(3, 3)];
    let dials = dials_for_cycle(&reg, &peers);
    assert_eq!(dials, peers);
}

#[test]
fn registered_addresses_are_never_dialed() {
    let mut reg = PeersManager::new();
    let a = addr(1, 1);
    let b = addr(2, 2);
    let c = addr(3, 3);
    reg.add_peer(10, &b);
    let dials = dials_for_cycle(&reg, &vec![a, b, c]);
    assert_eq!(dials, vec![a, c]);
    for d in &dials {
        assert!(!reg.check_addr_exists(d));
    }
}

#[test]
fn no_dials_when_all_connected() {
    let mut reg = PeersManager::new();
    let a = addr(1, 1);
    let b = addr(2, 2);
    reg.add_peer(1, &a);
    reg.add_peer(2, &b);
    assert!(dials_for_cycle(&reg, &vec![a, b]).is_empty());
}

#[test]
fn empty_peer_list_needs_no_dials() {
    let reg = PeersManager::new();
    assert!(dials_for_cycle(&reg, &Vec::new()).is_empty());
}

#[test]
fn dial_resumes_after_disconnect() {
    let mut reg = PeersManager::new();
    let a = addr(1, 1);
    reg.add_peer(1, &a);
    assert!(dials_for_cycle(&reg, &vec![a]).is_empty());
    reg.remove_peer(1);
    assert_eq!(dials_for_cycle(&reg, &vec![a]), vec![a]);
}
