use vstd::prelude::*;

use crate::address::HostAndPort;

verus! {

/// A strict majority of a cluster of `n` replicas.
pub open spec fn quorum_of(n: int) -> int {
    n / 2 + 1
}

/// The identity of one node: its id, its own address and the addresses of its peers.
#[derive(Clone, Debug)]
pub struct Replica {
    pub(crate) id: u64,
    pub(crate) self_address: HostAndPort,
    pub(crate) peers: Vec<HostAndPort>,
}

impl Replica {
    pub open(crate) spec fn spec_id(&self) -> u64 {
        self.id
    }

    pub open(crate) spec fn spec_self_address(&self) -> HostAndPort {
        self.self_address
    }

    pub open(crate) spec fn spec_peers(&self) -> Seq<HostAndPort> {
        self.peers@
    }

    /// The number of replicas in the cluster, this one included.
    pub open(crate) spec fn spec_cluster_size(&self) -> int {
        self.peers@.len() as int + 1
    }

    /// The cluster is small enough for its counts to fit in a `u32`.
    pub open(crate) spec fn wf(&self) -> bool {
        self.peers@.len() < u32::MAX
    }

    pub fn new(id: u64, self_address: HostAndPort, peers: Vec<HostAndPort>) -> (r: Replica)
        ensures
            r.spec_id() == id,
            r.spec_self_address() == self_address,
            r.spec_peers() == peers@,
    {
        Replica { id, self_address, peers }
    }

    pub fn get_id(&self) -> (r: u64)
        ensures
            r == self.spec_id(),
    {
        self.id
    }

    pub fn get_self_address(&self) -> (r: HostAndPort)
        ensures
            r == self.spec_self_address(),
    {
        self.self_address
    }

    pub fn get_peers(&self) -> (r: &Vec<HostAndPort>)
        ensures
            r@ == self.spec_peers(),
    {
        &self.peers
    }

    /// The number of replicas in the cluster, this one included.
    pub fn cluster_size(&self) -> (r: u32)
        requires
            self.wf(),
        ensures
            r == self.spec_cluster_size(),
    {
        self.peers.len() as u32 + 1
    }

    /// The number of replicas that make a strict majority: half the cluster plus one.
    pub fn quorum_size(&self) -> (r: u32)
        requires
            self.wf(),
        ensures
            r == quorum_of(self.spec_cluster_size()),
    {
        self.cluster_size() / 2 + 1
    }
}

} // verus!
