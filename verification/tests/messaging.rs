use p2p_core::messaging::broadcast_plan;

#[test]
fn broadcast_sends_once_per_session() {
    // "ping" to two open sessions: exactly one send per session, no
    // duplication, no omission.
    let sessions: Vec<u64> = vec![1, 2];
    let payload = b"ping".to_vec();
    let plan = broadcast_plan(&sessions, &payload);
    assert_eq!(plan.len(), 2);
    assert_eq!(plan[0].session_id, 1);
    assert_eq!(plan[1].session_id, 2);
    assert_eq!(plan[0].payload, payload);
    assert_eq!(plan[1].payload, payload);
}

#[test]
fn broadcast_to_nobody_sends_nothing() {
    let plan = broadcast_plan(&Vec::new(), &b"ping".to_vec());
    assert!(plan.is_empty());
}

#[test]
fn broadcast_keeps_session_order_and_payload() {
    let sessions: Vec<u64> = vec![9, 3, 7];
    let payload = vec![0, 255, 128];
    let plan = broadcast_plan(&sessions, &payload);
    let ids: Vec<u64> = plan.iter().map(|c| c.session_id).collect();
    assert_eq!(ids, sessions);
    for cmd in &plan {
        assert_eq!(cmd.payload, payload);
    }
}
