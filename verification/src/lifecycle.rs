use vstd::prelude::*;

use crate::addr::PeerAddr;
use crate::events::{DeliveryFailure, DeliveryMessage, DialFailure, Direction, NodeEvent,
    ServiceFault};
use crate::handlers::SessionProtocolHandler;
use crate::registry::PeersManager;
use crate::service::{fault_effect, handle_error};

verus! {

/// No two live sessions are bound to the same address.
pub open spec fn addr_unique(m: Map<u64, PeerAddr>) -> bool {
    forall|s1: u64, s2: u64| #![auto]
        m.contains_key(s1) && m.contains_key(s2) && m[s1] == m[s2] ==> s1 == s2
}

/// What one event does to the registry.
pub open spec fn step_registry(m: Map<u64, PeerAddr>, e: NodeEvent) -> Map<u64, PeerAddr> {
    match e {
        NodeEvent::Connected { session_id, addr, direction } => if direction
            == Direction::Outbound {
            m.insert(session_id, addr)
        } else {
            m
        },
        NodeEvent::Disconnected { session_id } => m.remove(session_id),
        NodeEvent::Received { .. } => m,
        NodeEvent::Fault { fault } => fault_effect(m, fault),
    }
}

/// The registry after a whole sequence of events, processed in order.
pub open spec fn run_registry(m: Map<u64, PeerAddr>, events: Seq<NodeEvent>) -> Map<
    u64,
    PeerAddr,
>
    decreases events.len(),
{
    if events.len() == 0 {
        m
    } else {
        run_registry(step_registry(m, events.first()), events.drop_first())
    }
}

/// What the transport guarantees of one event against the current registry:
/// a session (or a duplicate-connection report) for an address is only ever
/// announced while no *other* live session serves that address. This is the
/// transport's one-connection-per-address reconciliation; without it two
/// overlapping outbound connects to one address could coexist.
pub open spec fn event_ok(m: Map<u64, PeerAddr>, e: NodeEvent) -> bool {
    match e {
        NodeEvent::Connected { session_id, addr, direction } => direction == Direction::Outbound
            ==> (forall|s: u64| #![auto] m.contains_key(s) && m[s] == addr ==> s == session_id),
        NodeEvent::Fault { fault } => match fault {
            ServiceFault::DialerError {
                addr,
                failure: DialFailure::RepeatedConnection { session_id },
            } => forall|s: u64| #![auto] m.contains_key(s) && m[s] == addr ==> s == session_id,
            _ => true,
        },
        _ => true,
    }
}

/// `event_ok` holding of every event at the state it is processed in.
pub open spec fn events_ok(m: Map<u64, PeerAddr>, events: Seq<NodeEvent>) -> bool
    decreases events.len(),
{
    events.len() == 0 || (event_ok(m, events.first()) && events_ok(
        step_registry(m, events.first()),
        events.drop_first(),
    ))
}

proof fn lemma_insert_preserves_addr_unique(m: Map<u64, PeerAddr>, session_id: u64, addr: PeerAddr)
    requires
        addr_unique(m),
        forall|s: u64| #![auto] m.contains_key(s) && m[s] == addr ==> s == session_id,
    ensures
        addr_unique(m.insert(session_id, addr)),
{
    let m2 = m.insert(session_id, addr);
    assert forall|s1: u64, s2: u64| #![auto]
        m2.contains_key(s1) && m2.contains_key(s2) && m2[s1] == m2[s2] implies s1 == s2 by {
        if s1 != session_id && s2 != session_id {
            assert(m2[s1] == m[s1] && m2[s2] == m[s2]);
        } else if s1 == session_id && s2 != session_id {
            assert(m2[s2] == m[s2] && m[s2] == addr);
        } else if s1 != session_id && s2 == session_id {
            assert(m2[s1] == m[s1] && m[s1] == addr);
        }
    }
}

/// One consistent event keeps the no-two-sessions-per-address invariant.
pub proof fn lemma_step_preserves_addr_unique(m: Map<u64, PeerAddr>, e: NodeEvent)
    requires
        addr_unique(m),
        event_ok(m, e),
    ensures
        addr_unique(step_registry(m, e)),
{
    match e {
        NodeEvent::Connected { session_id, addr, direction } => {
            if direction == Direction::Outbound {
                lemma_insert_preserves_addr_unique(m, session_id, addr);
            }
        },
        NodeEvent::Disconnected { session_id } => {
            assert forall|s1: u64, s2: u64| #![auto]
                m.remove(session_id).contains_key(s1) && m.remove(session_id).contains_key(s2)
                    && m.remove(session_id)[s1] == m.remove(session_id)[s2] implies s1 == s2 by {
                assert(m.contains_key(s1) && m.contains_key(s2));
            }
        },
        NodeEvent::Received { .. } => {},
        NodeEvent::Fault { fault } => {
            match fault {
                ServiceFault::DialerError {
                    addr,
                    failure: DialFailure::RepeatedConnection { session_id },
                } => {
                    lemma_insert_preserves_addr_unique(m, session_id, addr);
                },
                _ => {},
            }
        },
    }
}

/// Law: for every sequence of connect, disconnect, data and dial-fault
/// events that the transport reports consistently (`events_ok`), the registry
/// never comes to hold two entries with the same address — the
/// duplicate-connection reconciliation is idempotent bookkeeping, not a
/// second entry.
pub proof fn lemma_run_preserves_addr_unique(m: Map<u64, PeerAddr>, events: Seq<NodeEvent>)
    requires
        addr_unique(m),
        events_ok(m, events),
    ensures
        addr_unique(run_registry(m, events)),
    decreases events.len(),
{
    if events.len() > 0 {
        lemma_step_preserves_addr_unique(m, events.first());
        lemma_run_preserves_addr_unique(step_registry(m, events.first()), events.drop_first());
    }
}

proof fn lemma_run_registry_snoc(m: Map<u64, PeerAddr>, events: Seq<NodeEvent>)
    requires
        events.len() > 0,
    ensures
        run_registry(m, events) == step_registry(
            run_registry(m, events.drop_last()),
            events.last(),
        ),
    decreases events.len(),
{
    if events.len() == 1 {
        assert(events.drop_first() =~= Seq::<NodeEvent>::empty());
        assert(events.drop_last() =~= Seq::<NodeEvent>::empty());
        assert(events.last() == events.first());
        assert(run_registry(m, events) == run_registry(
            step_registry(m, events.first()),
            events.drop_first(),
        ));
        assert(run_registry(step_registry(m, events.first()), events.drop_first())
            == step_registry(m, events.first()));
        assert(run_registry(m, events.drop_last()) == m);
    } else {
        lemma_run_registry_snoc(step_registry(m, events.first()), events.drop_first());
        assert(events.drop_first().drop_last() =~= events.drop_last().drop_first());
        assert(events.drop_first().last() == events.last());
        assert(events.drop_last().first() == events.first());
        assert(run_registry(m, events.drop_last()) == run_registry(
            step_registry(m, events.drop_last().first()),
            events.drop_last().drop_first(),
        ));
        assert(run_registry(m, events) == run_registry(
            step_registry(m, events.first()),
            events.drop_first(),
        ));
    }
}

/// Law: after a session's disconnect event, its id is absent from the
/// registry — whether or not the session was ever added.
pub proof fn lemma_disconnect_completeness(
    m: Map<u64, PeerAddr>,
    events: Seq<NodeEvent>,
    session_id: u64,
)
    requires
        events.len() > 0,
        events.last() == (NodeEvent::Disconnected { session_id }),
    ensures
        !run_registry(m, events).contains_key(session_id),
{
    lemma_run_registry_snoc(m, events);
}

/// The frames the delivery queue is owed when `events` are processed in
/// order: exactly one message per data event, in arrival order.
pub open spec fn deliveries_of(events: Seq<NodeEvent>) -> Seq<DeliveryMessage>
    decreases events.len(),
{
    if events.len() == 0 {
        Seq::empty()
    } else {
        (match events.first() {
            NodeEvent::Received { session_id, payload } => seq![
                DeliveryMessage { session_id, payload },
            ],
            _ => Seq::empty(),
        }) + deliveries_of(events.drop_first())
    }
}

/// The payloads among `msgs` that belong to session `sid`, in order.
pub open spec fn session_payloads(msgs: Seq<DeliveryMessage>, sid: u64) -> Seq<Seq<u8>>
    decreases msgs.len(),
{
    if msgs.len() == 0 {
        Seq::empty()
    } else {
        (if msgs.first().session_id == sid {
            seq![msgs.first().payload@]
        } else {
            Seq::empty()
        }) + session_payloads(msgs.drop_first(), sid)
    }
}

/// The payloads received on session `sid` among `events`, in order.
pub open spec fn received_payloads(events: Seq<NodeEvent>, sid: u64) -> Seq<Seq<u8>>
    decreases events.len(),
{
    if events.len() == 0 {
        Seq::empty()
    } else {
        (match events.first() {
            NodeEvent::Received { session_id, payload } => if session_id == sid {
                seq![payload@]
            } else {
                Seq::empty()
            },
            _ => Seq::empty(),
        }) + received_payloads(events.drop_first(), sid)
    }
}

/// Law: for every session, the payloads owed to the delivery queue are
/// exactly the payloads received on that session, in their arrival order.
/// Data from any number of sessions, interleaved arbitrarily, is neither
/// lost, duplicated nor misrouted; order across sessions is unconstrained.
pub proof fn lemma_delivery_completeness(events: Seq<NodeEvent>, sid: u64)
    ensures
        session_payloads(deliveries_of(events), sid) == received_payloads(events, sid),
    decreases events.len(),
{
    if events.len() > 0 {
        lemma_delivery_completeness(events.drop_first(), sid);
        let d = deliveries_of(events.drop_first());
        match events.first() {
            NodeEvent::Received { session_id, payload } => {
                let msg = DeliveryMessage { session_id, payload };
                assert(deliveries_of(events) == seq![msg] + d);
                assert((seq![msg] + d).first() == msg);
                assert((seq![msg] + d).drop_first() =~= d);
            },
            _ => {
                assert(deliveries_of(events) == Seq::<DeliveryMessage>::empty() + d);
                assert(Seq::<DeliveryMessage>::empty() + d =~= d);
            },
        }
    }
}

/// One step of the node's event loop: dispatch one event to the handler that
/// owns it. The registry moves to exactly `step_registry` of the old state;
/// a data event's frame goes to the delivery queue, and only a data event
/// can fail — by returning the frame that the closed queue did not take.
pub fn process_event(
    handler: &SessionProtocolHandler,
    registry: &mut PeersManager,
    event: NodeEvent,
) -> (r: Result<(), DeliveryFailure>)
    requires
        old(registry).wf(),
    ensures
        final(registry).wf(),
        final(registry)@ == step_registry(old(registry)@, event),
        (r matches Err(f) ==> event matches NodeEvent::Received { session_id, payload }
            && f.session_id == session_id && f.payload == payload),
        !(event matches NodeEvent::Received { .. }) ==> r is Ok,
{
    match event {
        NodeEvent::Connected { session_id, addr, direction } => {
            handler.connected(registry, session_id, addr, direction);
            Ok(())
        },
        NodeEvent::Disconnected { session_id } => {
            handler.disconnected(registry, session_id);
            Ok(())
        },
        NodeEvent::Received { session_id, payload } => handler.received(session_id, payload),
        NodeEvent::Fault { fault } => {
            handle_error(registry, &fault);
            Ok(())
        },
    }
}

} // verus!
