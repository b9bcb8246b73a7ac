//! Link establishment: one TCP link per peer pair, obtained through an
//! asymmetric rule — the replica with the higher index dials, the one with
//! the lower index listens — so the simultaneous-open race cannot produce a
//! second link.

use vstd::prelude::*;

use crate::instance::ReplicaID;
use crate::message::{Message, MessageView};

verus! {

/// Replica `a` is the one that dials the link of the pair `{a, b}` exactly
/// when `a` carries the higher index.
pub open spec fn initiates(a: int, b: int) -> bool {
    b < a
}

/// Link uniqueness: of two distinct replicas, exactly one is the initiator
/// of the pair's link, so at most one TCP connection can ever be live
/// between an ordered pair of replicas.
pub proof fn lemma_link_uniqueness(a: int, b: int)
    requires
        a != b,
    ensures
        initiates(a, b) != initiates(b, a),
{
}

/// Per-replica link establisher.  It dials the peers this replica initiates
/// towards, listens for the others, and hands each established stream to the
/// communicator the peer belongs to.
pub struct ConnectionHandler {
    /// This replica's index.
    pub id: ReplicaID,
    /// Number of replicas in the cluster.
    pub n: u64,
}

impl ConnectionHandler {
    /// A handler for replica `id` in a cluster of `n`.
    pub fn new(id: ReplicaID, n: u64) -> (r: ConnectionHandler)
        requires
            id < n,
        ensures
            r.id == id,
            r.n == n,
    {
        ConnectionHandler { id, n }
    }

    /// Whether this replica dials `peer` (true) or waits for `peer` to dial
    /// (false).
    pub fn should_initiate(&self, peer: ReplicaID) -> (r: bool)
        ensures
            r == initiates(self.id as int, peer as int),
    {
        peer < self.id
    }

    /// First-frame screening of an inbound connection: the stream goes to
    /// the communicator for the peer that identified itself, provided it is
    /// a cluster member that really is the pair's initiator; any other first
    /// frame closes the stream.
    pub fn handle_inbound(&self, first: &Message) -> (r: Option<ReplicaID>)
        ensures
            match r {
                Some(peer) => first@ matches MessageView::NetworkM(m) && m.replica_id == peer
                    && self.id < peer && peer < self.n,
                None => !(first@ matches MessageView::NetworkM(m) && self.id < m.replica_id
                    && m.replica_id < self.n),
            },
    {
        match first {
            Message::NetworkM(m) => {
                if self.id < m.replica_id && m.replica_id < self.n {
                    Some(m.replica_id)
                } else {
                    None
                }
            },
            _ => None,
        }
    }
}

} // verus!
