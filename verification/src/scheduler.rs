use vstd::prelude::*;

use crate::addr::PeerAddr;
use crate::registry::{addr_registered, PeersManager};

verus! {

/// The dials one scheduler cycle must issue: the configured peers, in their
/// configured order, that have no session in the registry.
pub open spec fn dials_needed(m: Map<u64, PeerAddr>, peers: Seq<PeerAddr>) -> Seq<PeerAddr>
    decreases peers.len(),
{
    if peers.len() == 0 {
        Seq::empty()
    } else {
        dials_needed(m, peers.drop_last()) + (if addr_registered(m, peers.last()) {
            Seq::empty()
        } else {
            seq![peers.last()]
        })
    }
}

/// Every configured peer that is not registered appears among the dials of
/// the cycle: the scheduler converges, it never forgets an unconnected peer.
pub proof fn lemma_dials_needed_complete(m: Map<u64, PeerAddr>, peers: Seq<PeerAddr>)
    ensures
        forall|j: int|
            0 <= j < peers.len() && !addr_registered(m, #[trigger] peers[j])
                ==> dials_needed(m, peers).contains(peers[j]),
    decreases peers.len(),
{
    if peers.len() > 0 {
        lemma_dials_needed_complete(m, peers.drop_last());
        let d = dials_needed(m, peers.drop_last());
        assert forall|j: int|
            0 <= j < peers.len() && !addr_registered(m, #[trigger] peers[j]) implies dials_needed(
            m,
            peers,
        ).contains(peers[j]) by {
            if j < peers.len() - 1 {
                assert(peers.drop_last()[j] == peers[j]);
                let k = choose|k: int| 0 <= k < d.len() && d[k] == peers[j];
                assert(dials_needed(m, peers)[k] == peers[j]);
            } else {
                assert(dials_needed(m, peers)[d.len() as int] == peers[j]);
            }
        }
    }
}

/// One cycle of the reconnect scheduler's decision: for each configured peer
/// address with no current session, a dial is due. No dial is ever issued for
/// an address already present in the registry, and every absent peer is
/// dialed. The caller performs the dials and sleeps between cycles; a failed
/// dial is reconciled asynchronously by the service-fault handler.
#[verifier::loop_isolation(false)]
pub fn dials_for_cycle(registry: &PeersManager, peer_addrs: &Vec<PeerAddr>) -> (dials: Vec<
    PeerAddr,
>)
    requires
        registry.wf(),
    ensures
        dials@ == dials_needed(registry@, peer_addrs@),
        forall|i: int|
            0 <= i < dials@.len() ==> !addr_registered(registry@, #[trigger] dials@[i]),
{
    let n = peer_addrs.len();
    let mut dials: Vec<PeerAddr> = Vec::new();
    let mut i: usize = 0;
    while i < n
        invariant
            n == peer_addrs@.len(),
            0 <= i <= n,
            dials@ == dials_needed(registry@, peer_addrs@.take(i as int)),
            forall|k: int|
                0 <= k < dials@.len() ==> !addr_registered(registry@, #[trigger] dials@[k]),
        decreases n - i,
    {
        proof {
            assert(peer_addrs@.take(i + 1).drop_last() =~= peer_addrs@.take(i as int));
            assert(peer_addrs@.take(i + 1).last() == peer_addrs@[i as int]);
        }
        if !registry.check_addr_exists(&peer_addrs[i]) {
            dials.push(peer_addrs[i]);
        }
        i += 1;
    }
    proof {
        assert(peer_addrs@.take(n as int) =~= peer_addrs@);
    }
    dials
}

} // verus!
