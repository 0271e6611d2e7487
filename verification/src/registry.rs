use vstd::prelude::*;

use crate::addr::PeerAddr;

verus! {

/// The map that a sequence of `(session id, address)` entries denotes; on a
/// repeated id the later entry wins.
pub open spec fn map_of(s: Seq<(u64, PeerAddr)>) -> Map<u64, PeerAddr>
    decreases s.len(),
{
    if s.len() == 0 {
        Map::empty()
    } else {
        map_of(s.drop_last()).insert(s.last().0, s.last().1)
    }
}

/// Whether some session in `m` is bound to `addr`.
pub open spec fn addr_registered(m: Map<u64, PeerAddr>, addr: PeerAddr) -> bool {
    exists|sid: u64| #![auto] m.contains_key(sid) && m[sid] == addr
}

/// No two entries of `s` carry the same session id.
pub open spec fn unique_ids(s: Seq<(u64, PeerAddr)>) -> bool {
    forall|i: int, j: int|
        0 <= i < j < s.len() ==> (#[trigger] s[i]).0 != (#[trigger] s[j]).0
}

proof fn lemma_map_of_contains_key(s: Seq<(u64, PeerAddr)>, k: u64)
    ensures
        map_of(s).contains_key(k) <==> exists|i: int|
            0 <= i < s.len() && (#[trigger] s[i]).0 == k,
    decreases s.len(),
{
    if s.len() > 0 {
        lemma_map_of_contains_key(s.drop_last(), k);
        if s.last().0 == k {
            assert((s[s.len() - 1]).0 == k);
        } else {
            if exists|i: int| 0 <= i < s.len() && (#[trigger] s[i]).0 == k {
                let i = choose|i: int| 0 <= i < s.len() && (#[trigger] s[i]).0 == k;
                assert(i < s.len() - 1);
                assert((s.drop_last()[i]).0 == k);
            }
            if map_of(s).contains_key(k) {
                let i = choose|i: int|
                    0 <= i < s.drop_last().len() && (#[trigger] s.drop_last()[i]).0 == k;
                assert((s[i]).0 == k);
            }
        }
    }
}

proof fn lemma_map_of_entry(s: Seq<(u64, PeerAddr)>, i: int)
    requires
        unique_ids(s),
        0 <= i < s.len(),
    ensures
        map_of(s).contains_key(s[i].0),
        map_of(s)[s[i].0] == s[i].1,
    decreases s.len(),
{
    if i < s.len() - 1 {
        assert(s[i].0 != s.last().0);
        lemma_map_of_entry(s.drop_last(), i);
        assert(s.drop_last()[i] == s[i]);
    }
}

proof fn lemma_map_of_remove_at(s: Seq<(u64, PeerAddr)>, i: int)
    requires
        unique_ids(s),
        0 <= i < s.len(),
    ensures
        map_of(s.remove(i)) == map_of(s).remove(s[i].0),
        unique_ids(s.remove(i)),
    decreases s.len(),
{
    let k = s[i].0;
    assert forall|x: int, y: int|
        0 <= x < y < s.remove(i).len() implies (#[trigger] s.remove(i)[x]).0
        != (#[trigger] s.remove(i)[y]).0 by {
        assert(s.remove(i)[x] == if x < i { s[x] } else { s[x + 1] });
        assert(s.remove(i)[y] == if y < i { s[y] } else { s[y + 1] });
    }
    if i == s.len() - 1 {
        assert(s.remove(i) =~= s.drop_last());
        lemma_map_of_contains_key(s.drop_last(), k);
        assert(!map_of(s.drop_last()).contains_key(k));
        assert(map_of(s).remove(k) =~= map_of(s.drop_last()));
    } else {
        let d = s.drop_last();
        let e = s.last();
        assert(e.0 != k);
        assert(s.remove(i).drop_last() =~= d.remove(i));
        assert(s.remove(i).last() == e);
        assert(map_of(s.remove(i)) == map_of(d.remove(i)).insert(e.0, e.1));
        lemma_map_of_remove_at(d, i);
        assert(map_of(d).remove(k).insert(e.0, e.1) =~= map_of(d).insert(e.0, e.1).remove(k));
    }
}

/// Table of the active outbound sessions, keyed by session id; the remote
/// address of each is the value. The abstract state is the finite map `self@`.
pub struct PeersManager {
    entries: Vec<(u64, PeerAddr)>,
}

impl PeersManager {
    /// The registry as a map from session id to remote address.
    pub closed spec fn view(&self) -> Map<u64, PeerAddr> {
        map_of(self.entries@)
    }

    /// Internal well-formedness: one entry per session id.
    pub closed spec fn wf(&self) -> bool {
        unique_ids(self.entries@)
    }

    /// A freshly started node has no active outbound session.
    pub fn new() -> (r: PeersManager)
        ensures
            r.wf(),
            r@ == Map::<u64, PeerAddr>::empty(),
    {
        PeersManager { entries: Vec::new() }
    }

    /// Linear scan for an entry bound to `addr`; used by the reconnect
    /// scheduler to suppress a dial to an already connected peer.
    #[verifier::loop_isolation(false)]
    pub fn check_addr_exists(&self, addr: &PeerAddr) -> (r: bool)
        requires
            self.wf(),
        ensures
            r == addr_registered(self@, *addr),
    {
        let n = self.entries.len();
        let mut i: usize = 0;
        while i < n
            invariant
                n == self.entries@.len(),
                0 <= i <= n,
                forall|j: int| 0 <= j < i ==> (#[trigger] self.entries@[j]).1 != *addr,
            decreases n - i,
        {
            if self.entries[i].1 == *addr {
                proof {
                    lemma_map_of_entry(self.entries@, i as int);
                }
                return true;
            }
            i += 1;
        }
        proof {
            if addr_registered(self@, *addr) {
                let sid = choose|sid: u64| #![auto]
                    self@.contains_key(sid) && self@[sid] == *addr;
                lemma_map_of_contains_key(self.entries@, sid);
                let j = choose|j: int|
                    0 <= j < self.entries@.len() && (#[trigger] self.entries@[j]).0 == sid;
                lemma_map_of_entry(self.entries@, j);
                assert(self.entries@[j].1 == *addr);
            }
        }
        false
    }

    /// Whether a session with this id is currently registered.
    #[verifier::loop_isolation(false)]
    pub fn contains_session(&self, session_id: u64) -> (r: bool)
        ensures
            r == self@.contains_key(session_id),
    {
        let n = self.entries.len();
        let mut i: usize = 0;
        while i < n
            invariant
                n == self.entries@.len(),
                0 <= i <= n,
                forall|j: int| 0 <= j < i ==> (#[trigger] self.entries@[j]).0 != session_id,
            decreases n - i,
        {
            if self.entries[i].0 == session_id {
                proof {
                    lemma_map_of_contains_key(self.entries@, session_id);
                }
                return true;
            }
            i += 1;
        }
        proof {
            lemma_map_of_contains_key(self.entries@, session_id);
        }
        false
    }

    /// Record that session `session_id` reaches `addr`; a stale entry for the
    /// same id is replaced.
    pub fn add_peer(&mut self, session_id: u64, addr: &PeerAddr)
        requires
            old(self).wf(),
        ensures
            final(self).wf(),
            final(self)@ == old(self)@.insert(session_id, *addr),
    {
        self.remove_peer(session_id);
        proof {
            lemma_map_of_contains_key(self.entries@, session_id);
        }
        let ghost pre = self.entries@;
        let ghost prior = old(self)@;
        self.entries.push((session_id, *addr));
        proof {
            assert(self.entries@.drop_last() =~= pre);
            assert(self.entries@.last() == (session_id, *addr));
            assert(self@ == map_of(pre).insert(session_id, *addr));
            assert(prior.remove(session_id).insert(session_id, *addr) =~= prior.insert(
                session_id,
                *addr,
            ));
            assert forall|i: int, j: int|
                0 <= i < j < self.entries@.len() implies (#[trigger] self.entries@[i]).0
                != (#[trigger] self.entries@[j]).0 by {
                if j == self.entries@.len() - 1 {
                    assert(self.entries@[i] == pre[i]);
                }
            }
        }
    }

    /// Forget session `session_id`; a no-op when it was never registered.
    #[verifier::loop_isolation(false)]
    pub fn remove_peer(&mut self, session_id: u64)
        requires
            old(self).wf(),
        ensures
            final(self).wf(),
            final(self)@ == old(self)@.remove(session_id),
            !final(self)@.contains_key(session_id),
    {
        let n = self.entries.len();
        let mut i: usize = 0;
        while i < n
            invariant
                self == old(self),
                n == self.entries@.len(),
                0 <= i <= n,
                forall|j: int| 0 <= j < i ==> (#[trigger] self.entries@[j]).0 != session_id,
            decreases n - i,
        {
            if self.entries[i].0 == session_id {
                proof {
                    lemma_map_of_remove_at(self.entries@, i as int);
                    lemma_map_of_contains_key(self.entries@.remove(i as int), session_id);
                    assert forall|j: int|
                        0 <= j < self.entries@.remove(i as int).len() implies (
                        #[trigger] self.entries@.remove(i as int)[j]).0 != session_id by {
                        if j >= i {
                            assert(self.entries@.remove(i as int)[j] == self.entries@[j + 1]);
                        }
                    }
                }
                self.entries.remove(i);
                return;
            }
            i += 1;
        }
        proof {
            lemma_map_of_contains_key(self.entries@, session_id);
            assert(!self@.contains_key(session_id));
            assert(self@.remove(session_id) =~= self@);
        }
    }
}

} // verus!
