use vstd::prelude::*;

use crate::addr::PeerAddr;
use crate::events::{DialFailure, ServiceFault};
use crate::registry::PeersManager;

verus! {

/// What a service fault does to the registry: the duplicate-connection race
/// is bookkeeping success — the session that already exists is registered
/// under the dialed address — and every other fault changes nothing.
pub open spec fn fault_effect(m: Map<u64, PeerAddr>, fault: ServiceFault) -> Map<u64, PeerAddr> {
    match fault {
        ServiceFault::DialerError {
            addr,
            failure: DialFailure::RepeatedConnection { session_id },
        } => m.insert(session_id, addr),
        _ => m,
    }
}

/// Reacts to service-scoped errors. A dial that failed because the target is
/// already connected is reconciled into the registry, so the reconnect
/// scheduler stops retrying that address; all other faults are left to the
/// caller to log and require no state change.
pub fn handle_error(registry: &mut PeersManager, fault: &ServiceFault)
    requires
        old(registry).wf(),
    ensures
        final(registry).wf(),
        final(registry)@ == fault_effect(old(registry)@, *fault),
{
    match fault {
        ServiceFault::DialerError {
            addr,
            failure: DialFailure::RepeatedConnection { session_id },
        } => {
            registry.add_peer(*session_id, addr);
        },
        _ => {},
    }
}

} // verus!
