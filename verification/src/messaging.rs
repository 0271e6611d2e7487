use vstd::prelude::*;

use crate::events::SendCommand;

verus! {

fn copy_payload(v: &Vec<u8>) -> (r: Vec<u8>)
    ensures
        r@ == v@,
{
    let n = v.len();
    let mut r: Vec<u8> = Vec::new();
    let mut i: usize = 0;
    while i < n
        invariant
            n == v@.len(),
            0 <= i <= n,
            r@ == v@.take(i as int),
        decreases n - i,
    {
        proof {
            assert(v@.take(i + 1) =~= v@.take(i as int).push(v@[i as int]));
        }
        r.push(v[i]);
        i += 1;
    }
    proof {
        assert(v@.take(n as int) =~= v@);
    }
    r
}

/// The sends a broadcast owes: exactly one per currently open session, in
/// the order given, each carrying the payload unchanged — no session missed,
/// none served twice, no frame altered. The caller hands each command to the
/// transport's fire-and-forget send.
#[verifier::loop_isolation(false)]
pub fn broadcast_plan(open_sessions: &Vec<u64>, payload: &Vec<u8>) -> (cmds: Vec<SendCommand>)
    ensures
        cmds@.len() == open_sessions@.len(),
        forall|i: int|
            0 <= i < cmds@.len() ==> (#[trigger] cmds@[i]).session_id == open_sessions@[i]
                && cmds@[i].payload@ == payload@,
{
    let n = open_sessions.len();
    let mut cmds: Vec<SendCommand> = Vec::new();
    let mut i: usize = 0;
    while i < n
        invariant
            0 <= i <= n,
            cmds@.len() == i,
            forall|k: int|
                0 <= k < i ==> (#[trigger] cmds@[k]).session_id == open_sessions@[k]
                    && cmds@[k].payload@ == payload@,
        decreases n - i,
    {
        let body = copy_payload(payload);
        cmds.push(SendCommand { session_id: open_sessions[i], payload: body });
        i += 1;
    }
    cmds
}

} // verus!
