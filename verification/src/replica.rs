//! The root coordinator of one replica: it owns the next local instance
//! number and turns client submissions into fresh proposer instances.

use vstd::prelude::*;

use crate::instance::{Instance, InstanceID, InstanceIdentity, ReplicaID};
use crate::protocol::StateView;

verus! {

/// Root state of one replica.  The communicators, the connection handler and
/// the running instances live in their own tasks; the replica itself only
/// mints instance IDs and spawns proposers.
pub struct Replica {
    /// Number of replicas in the cluster (including this one).
    pub n: u64,
    /// This replica's index, in `[0, n)`.
    pub id: ReplicaID,
    /// The instance ID the next submission will take.
    pub instance_id: InstanceID,
}

/// A replica only ever mints instance IDs stamped with its own index.
pub open spec fn replica_wf(r: Replica) -> bool {
    r.id < r.n && r.instance_id.originator == r.id
}

/// The instance ID minted by the `k`-th submission of a replica whose first
/// submission minted local sequence number `s0`, as an (originator,
/// local sequence) pair of unbounded integers.
pub open spec fn nth_minted_id(id: ReplicaID, s0: int, k: int) -> (int, int) {
    (id as int, s0 + k)
}

/// InstanceID uniqueness: within one replica lifetime, two distinct
/// submissions mint distinct instance IDs, because every submission raises
/// the local sequence number by exactly one (see [`Replica::submit`]).
pub proof fn lemma_instance_id_uniqueness(id: ReplicaID, s0: int, k1: int, k2: int)
    requires
        k1 != k2,
    ensures
        nth_minted_id(id, s0, k1) != nth_minted_id(id, s0, k2),
{
}

impl Replica {
    /// A fresh replica with index `id` in a cluster of `n`: its first
    /// submission will mint instance ID `(id, 0)`.
    pub fn new(id: ReplicaID, n: u64) -> (r: Replica)
        requires
            id < n,
        ensures
            r.n == n,
            r.id == id,
            r.instance_id == (InstanceID { originator: id, local_seq: 0 }),
            replica_wf(r),
    {
        Replica { n, id, instance_id: InstanceID { originator: id, local_seq: 0 } }
    }

    /// Proposes `value` in a fresh instance: reserves the next instance ID,
    /// advances the counter by exactly one, and returns the proposer
    /// instance to be spawned.  The caller broadcasts nothing yet; the
    /// instance's first run emits its initial `Propose`.
    pub fn submit(&mut self, value: Vec<u8>) -> (inst: Instance)
        requires
            replica_wf(*old(self)),
            old(self).instance_id.local_seq < u64::MAX,
        ensures
            replica_wf(*final(self)),
            final(self).n == old(self).n,
            final(self).id == old(self).id,
            final(self).instance_id.originator == old(self).id,
            final(self).instance_id.local_seq == old(self).instance_id.local_seq + 1,
            inst@.identity == InstanceIdentity::Proposer,
            inst@.replica_id == old(self).id as int,
            inst@.id == old(self).instance_id,
            inst@.value == value@,
            inst@.state == StateView::Null,
    {
        let iid = self.instance_id;
        self.instance_id = InstanceID {
            originator: self.instance_id.originator,
            local_seq: self.instance_id.local_seq + 1,
        };
        Instance::new_as_proposer(self.id, iid, value)
    }
}

} // verus!
