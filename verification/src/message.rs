//! The messages replicas exchange: per-instance Paxos contents, the
//! identification message that opens a fresh link, and the frame that carries
//! either across the wire.

use vstd::prelude::*;

use crate::instance::{Ballot, InstanceID, ReplicaID, SequenceID};

verus! {

/// One step of the per-instance Paxos conversation.  `RejectPropose` and
/// `RejectRequest` carry first the rejected ballot, then the conflicting
/// ballot the rejection is based on.
#[derive(Clone, PartialEq, Eq, Debug)]
pub enum PaxosMessageContent {
    Propose(SequenceID),
    Promise(SequenceID),
    RejectPropose(SequenceID, SequenceID),
    Request(SequenceID, Vec<u8>),
    Accept(SequenceID),
    RejectRequest(SequenceID, SequenceID),
    Commit(SequenceID),
    Acknowledge(SequenceID),
}

/// Mathematical image of `PaxosMessageContent`: ballots as `Ballot`, the
/// submitted value as a byte sequence.
pub enum ContentView {
    Propose(Ballot),
    Promise(Ballot),
    RejectPropose(Ballot, Ballot),
    Request(Ballot, Seq<u8>),
    Accept(Ballot),
    RejectRequest(Ballot, Ballot),
    Commit(Ballot),
    Acknowledge(Ballot),
}

impl View for PaxosMessageContent {
    type V = ContentView;

    open spec fn view(&self) -> ContentView {
        match self {
            PaxosMessageContent::Propose(s) => ContentView::Propose(s@),
            PaxosMessageContent::Promise(s) => ContentView::Promise(s@),
            PaxosMessageContent::RejectPropose(s1, s2) => ContentView::RejectPropose(s1@, s2@),
            PaxosMessageContent::Request(s, v) => ContentView::Request(s@, v@),
            PaxosMessageContent::Accept(s) => ContentView::Accept(s@),
            PaxosMessageContent::RejectRequest(s1, s2) => ContentView::RejectRequest(s1@, s2@),
            PaxosMessageContent::Commit(s) => ContentView::Commit(s@),
            PaxosMessageContent::Acknowledge(s) => ContentView::Acknowledge(s@),
        }
    }
}

/// The views of a batch of delivered contents, in delivery order.
pub open spec fn views_of(msgs: Seq<PaxosMessageContent>) -> Seq<ContentView> {
    msgs.map_values(|c: PaxosMessageContent| c@)
}

/// Every ballot carried by `c` has a round below `bound`.  The executable
/// handlers ask this of inbound contents with `bound = u64::MAX`, so that a
/// re-proposal one round higher always fits the machine word.
pub open spec fn rounds_below(c: ContentView, bound: int) -> bool {
    match c {
        ContentView::Propose(s) => s.round < bound,
        ContentView::Promise(s) => s.round < bound,
        ContentView::RejectPropose(s1, s2) => s1.round < bound && s2.round < bound,
        ContentView::Request(s, _) => s.round < bound,
        ContentView::Accept(s) => s.round < bound,
        ContentView::RejectRequest(s1, s2) => s1.round < bound && s2.round < bound,
        ContentView::Commit(s) => s.round < bound,
        ContentView::Acknowledge(s) => s.round < bound,
    }
}

/// The view of an optional content, for contracts over functions that may or
/// may not produce a message.
pub open spec fn view_opt(c: Option<PaxosMessageContent>) -> Option<ContentView> {
    match c {
        Some(m) => Some(m@),
        None => None,
    }
}

/// Sent exactly once as the first frame on a freshly established link, by the
/// connecting side, to identify itself.
#[derive(Clone, Copy, PartialEq, Eq, Structural, Debug)]
pub struct NetworkMessage {
    pub replica_id: ReplicaID,
}

/// A Paxos content tagged with the instance it belongs to.
#[derive(Clone, PartialEq, Eq, Debug)]
pub struct PaxosMessage {
    pub instance_id: InstanceID,
    pub content: PaxosMessageContent,
}

/// Mathematical image of `PaxosMessage`.
pub struct PaxosMessageView {
    pub instance_id: InstanceID,
    pub content: ContentView,
}

impl View for PaxosMessage {
    type V = PaxosMessageView;

    open spec fn view(&self) -> PaxosMessageView {
        PaxosMessageView { instance_id: self.instance_id, content: self.content@ }
    }
}

/// One complete wire record: either a link identification or a Paxos message.
#[derive(Clone, PartialEq, Eq, Debug)]
pub enum Message {
    NetworkM(NetworkMessage),
    PaxosM(PaxosMessage),
}

/// Mathematical image of `Message`.
pub enum MessageView {
    NetworkM(NetworkMessage),
    PaxosM(PaxosMessageView),
}

impl View for Message {
    type V = MessageView;

    open spec fn view(&self) -> MessageView {
        match self {
            Message::NetworkM(m) => MessageView::NetworkM(*m),
            Message::PaxosM(m) => MessageView::PaxosM(m@),
        }
    }
}

} // verus!
