//! The per-peer multiplexer: it owns the single link to one remote peer,
//! keeps the routing table from instance IDs to per-instance channels, and
//! decides for every inbound Paxos message whether to forward it, to spawn a
//! fresh acceptor instance, or to drop it as a stray.

use vstd::prelude::*;

use crate::codec::{encode_frame, spec_encode_frame};
use crate::instance::{InstanceID, ReplicaID};
use crate::message::{
    Message, MessageView, NetworkMessage, PaxosMessage, PaxosMessageContent, PaxosMessageView,
};

verus! {

/// What a communicator does with an inbound Paxos message.
#[derive(Clone, Copy, PartialEq, Eq, Structural, Debug)]
pub enum RouteDecision {
    /// The instance is known: push the content onto its channel.
    Forward,
    /// First contact, and the content is a `Propose`: spawn an acceptor
    /// instance for this ID, register it, then deliver the `Propose`.
    SpawnAcceptor,
    /// A stray message for an unknown instance: drop it.
    Drop,
}

/// Routing state of the communicator owning the link to peer `peer_id`.
/// The channel endpoints themselves live with the I/O task; the library
/// keeps the set of instance IDs that have a registered channel.
pub struct Communicator {
    /// The replica this communicator belongs to.
    pub my_id: ReplicaID,
    /// The remote peer this communicator talks to.
    pub peer_id: ReplicaID,
    /// Instance IDs with a registered per-instance channel, oldest first.
    pub instances: Vec<InstanceID>,
}

impl Communicator {
    /// A communicator for the link from `my_id` to `peer_id`, with no
    /// instance registered yet.
    pub fn new(my_id: ReplicaID, peer_id: ReplicaID) -> (r: Communicator)
        ensures
            r.my_id == my_id,
            r.peer_id == peer_id,
            r.instances@ == Seq::<InstanceID>::empty(),
    {
        Communicator { my_id, peer_id, instances: Vec::new() }
    }

    /// Whether a channel is registered for `iid`.
    pub fn knows_instance(&self, iid: InstanceID) -> (r: bool)
        ensures
            r == self.instances@.contains(iid),
    {
        let mut i: usize = 0;
        while i < self.instances.len()
            invariant
                i <= self.instances@.len(),
                forall|k: int| 0 <= k < i ==> self.instances@[k] != iid,
            decreases self.instances@.len() - i,
        {
            if self.instances[i] == iid {
                return true;
            }
            i = i + 1;
        }
        false
    }

    /// Registers the per-instance channel for `iid`; registering an ID a
    /// second time changes nothing.
    pub fn register_instance(&mut self, iid: InstanceID)
        ensures
            final(self).my_id == old(self).my_id,
            final(self).peer_id == old(self).peer_id,
            final(self).instances@.contains(iid),
            forall|x: InstanceID|
                final(self).instances@.contains(x) == (old(self).instances@.contains(x) || x
                    == iid),
    {
        if !self.knows_instance(iid) {
            self.instances.push(iid);
            assert(self.instances@.last() == iid);
            assert(forall|x: InstanceID|
                old(self).instances@.contains(x) ==> #[trigger] self.instances@.contains(x)) by {
                assert(forall|k: int|
                    0 <= k < old(self).instances@.len() ==> self.instances@[k] == old(
                        self,
                    ).instances@[k]);
            }
            assert(forall|x: InstanceID| #[trigger]
                self.instances@.contains(x) ==> old(self).instances@.contains(x) || x == iid) by {
                assert(forall|k: int|
                    0 <= k < self.instances@.len() - 1 ==> self.instances@[k] == old(
                        self,
                    ).instances@[k]);
            }
        }
    }

    /// The identification frame written first on every fresh link: it names
    /// this replica to the peer that accepted the connection.
    pub fn hello_frame(&self) -> (r: Vec<u8>)
        ensures
            r@ == spec_encode_frame(
                MessageView::NetworkM(NetworkMessage { replica_id: self.my_id }),
            ),
    {
        encode_frame(&Message::NetworkM(NetworkMessage { replica_id: self.my_id }))
    }

    /// One outbound content of instance `iid`, wrapped into the wire frame
    /// the peer will read.
    pub fn outbound_frame(&self, iid: InstanceID, content: PaxosMessageContent) -> (r: Vec<u8>)
        ensures
            r@ == spec_encode_frame(
                MessageView::PaxosM(PaxosMessageView { instance_id: iid, content: content@ }),
            ),
    {
        encode_frame(&Message::PaxosM(PaxosMessage { instance_id: iid, content }))
    }

    /// The routing rule for an inbound Paxos message: forward it if its
    /// instance is registered; spawn an acceptor upon a `Propose` for an
    /// unknown instance; drop anything else as a stray.
    pub fn route(&self, msg: &PaxosMessage) -> (d: RouteDecision)
        ensures
            (d == RouteDecision::Forward) == self.instances@.contains(msg.instance_id),
            (d == RouteDecision::SpawnAcceptor) == (!self.instances@.contains(msg.instance_id)
                && msg@.content is Propose),
            (d == RouteDecision::Drop) == (!self.instances@.contains(msg.instance_id)
                && !(msg@.content is Propose)),
    {
        if self.knows_instance(msg.instance_id) {
            RouteDecision::Forward
        } else {
            match &msg.content {
                PaxosMessageContent::Propose(_) => RouteDecision::SpawnAcceptor,
                _ => RouteDecision::Drop,
            }
        }
    }
}

} // verus!
