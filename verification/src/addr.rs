use vstd::prelude::*;

verus! {

/// A peer's remote endpoint: an IPv4 host and a TCP port, held as plain
/// integers so that contracts can speak of address equality directly.
#[derive(Clone, Copy, PartialEq, Eq, Structural, Debug, Hash)]
pub struct PeerAddr {
    pub ip: u32,
    pub port: u16,
}

} // verus!
