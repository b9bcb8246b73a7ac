//! Identifiers for Paxos rounds and instances, and the per-instance state
//! machine that drives a single-decree Paxos round as proposer or acceptor.

use vstd::prelude::*;

use crate::message::{rounds_below, view_opt, views_of, ContentView, PaxosMessageContent};
use crate::protocol::{
    acceptor_reply_log, acceptor_run, acceptor_step, acceptor_wf, condense,
    lemma_acceptor_reply_log_len, lemma_acceptor_step_wf, lemma_condense_push,
    lemma_proposer_emit_log_len, lemma_proposer_step_count, opt_to_seq, proposer_activate,
    proposer_emit_log, proposer_run, proposer_step, state_count, with_state, InstanceView,
    StateView,
};

verus! {

/// A replica's index within the cluster, in `[0, N)`.
pub type ReplicaID = u64;

/// A ballot number: ordered first by `round`, then by `proposer`, so that two
/// proposers can never mint the same ballot.
#[derive(Clone, Copy, PartialEq, Eq, Structural, Hash, Debug)]
pub struct SequenceID {
    pub round: u64,
    pub proposer: ReplicaID,
}

/// Identifies one Paxos instance cluster-wide: only `originator` mints IDs
/// carrying its own replica index, with `local_seq` increasing per mint.
#[derive(Clone, Copy, PartialEq, Eq, Structural, Hash, Debug)]
pub struct InstanceID {
    pub originator: ReplicaID,
    pub local_seq: u64,
}

/// The mathematical image of a `SequenceID`: the same pair over unbounded
/// integers, so that proofs about ballot growth need no overflow side
/// conditions.
pub struct Ballot {
    pub round: int,
    pub proposer: int,
}

impl View for SequenceID {
    type V = Ballot;

    open spec fn view(&self) -> Ballot {
        Ballot { round: self.round as int, proposer: self.proposer as int }
    }
}

/// Total order on ballots: compare `round` first, then `proposer`.
pub open spec fn bal_lt(a: Ballot, b: Ballot) -> bool {
    a.round < b.round || (a.round == b.round && a.proposer < b.proposer)
}

/// Reflexive closure of `bal_lt`.
pub open spec fn bal_le(a: Ballot, b: Ballot) -> bool {
    bal_lt(a, b) || a == b
}

/// Strict ballot comparison, `a < b` in the (round, proposer) order.
pub fn seq_id_lt(a: &SequenceID, b: &SequenceID) -> (r: bool)
    ensures
        r == bal_lt(a@, b@),
{
    a.round < b.round || (a.round == b.round && a.proposer < b.proposer)
}

/// Ballot comparison, `a <= b` in the (round, proposer) order.
pub fn seq_id_le(a: &SequenceID, b: &SequenceID) -> (r: bool)
    ensures
        r == bal_le(a@, b@),
{
    let lt = seq_id_lt(a, b);
    lt || (a.round == b.round && a.proposer == b.proposer)
}

/// The ballot a proposer moves to after `sid`, claimed for replica `rid`: one
/// round higher, so it dominates `sid` no matter which proposer owned it.
pub fn increment_seq(sid: SequenceID, rid: ReplicaID) -> (r: SequenceID)
    requires
        sid.round < u64::MAX,
    ensures
        r.round == sid.round + 1,
        r.proposer == rid,
        bal_lt(sid@, r@),
{
    SequenceID { round: sid.round + 1, proposer: rid }
}

/// The next instance ID a replica mints after `iid`: same originator, next
/// local sequence number.
pub fn increment_iid(iid: InstanceID) -> (r: InstanceID)
    requires
        iid.local_seq < u64::MAX,
    ensures
        r.originator == iid.originator,
        r.local_seq == iid.local_seq + 1,
{
    InstanceID { originator: iid.originator, local_seq: iid.local_seq + 1 }
}

/// A copy of a submitted value whose contents provably equal the original's.
pub fn clone_bytes(v: &Vec<u8>) -> (r: Vec<u8>)
    ensures
        r@ == v@,
{
    let r = v.clone();
    proof {
        assert(r@ =~= v@);
    }
    r
}

/// What one batch run of an instance hands back to the channels around it.
#[derive(Debug)]
pub enum RunOutput {
    /// Produced by a proposer: contents to broadcast to every peer, in order.
    Broadcasts(Vec<PaxosMessageContent>),
    /// Produced by an acceptor: entry `i` is the reply, if any, owed to the
    /// peer whose message stood at position `i` of the batch.
    Replies(Vec<Option<PaxosMessageContent>>),
}

/// The role an instance plays in its Paxos round.
#[derive(Clone, Copy, PartialEq, Eq, Structural, Debug)]
pub enum InstanceIdentity {
    Proposer,
    Acceptor,
}

/// Per-instance mutable state.  `Null` is the entry state of both roles; an
/// acceptor moves through `Promised` and `Accepted`, a proposer through
/// `Proposed` and `Requested`; `Committed` is terminal for both.
#[derive(Clone, PartialEq, Eq, Debug)]
pub enum InstanceState {
    Null,
    /// Ballot proposed, promises counted so far.
    Proposed(SequenceID, u64),
    /// Ballot below which this acceptor will accept nothing.
    Promised(SequenceID),
    /// Ballot and value requested, accepts counted so far.
    Requested(SequenceID, Vec<u8>, u64),
    /// Ballot and value this acceptor has accepted.
    Accepted(SequenceID, Vec<u8>),
    /// Decided ballot and value, acknowledgements counted so far.
    Committed(SequenceID, Vec<u8>, u64),
}

impl View for InstanceState {
    type V = StateView;

    open spec fn view(&self) -> StateView {
        match self {
            InstanceState::Null => StateView::Null,
            InstanceState::Proposed(s, k) => StateView::Proposed(s@, *k as nat),
            InstanceState::Promised(s) => StateView::Promised(s@),
            InstanceState::Requested(s, v, k) => StateView::Requested(s@, v@, *k as nat),
            InstanceState::Accepted(s, v) => StateView::Accepted(s@, v@),
            InstanceState::Committed(s, v, k) => StateView::Committed(s@, v@, *k as nat),
        }
    }
}

/// One single-decree Paxos round, run by this replica either as the proposer
/// (it minted `id` and pushes `value`) or as an acceptor (it was contacted by
/// the originator's proposer).
#[derive(Debug)]
pub struct Instance {
    pub identity: InstanceIdentity,
    pub replica_id: ReplicaID,
    pub id: InstanceID,
    pub value: Vec<u8>,
    pub state: InstanceState,
}

impl View for Instance {
    type V = InstanceView;

    open spec fn view(&self) -> InstanceView {
        InstanceView {
            identity: self.identity,
            replica_id: self.replica_id as int,
            id: self.id,
            value: self.value@,
            state: self.state@,
        }
    }
}

impl Instance {
    /// A proposer instance for the freshly minted `iid`, pushing `value`; it
    /// broadcasts nothing until it is first run.
    pub fn new_as_proposer(rid: ReplicaID, iid: InstanceID, value: Vec<u8>) -> (r: Instance)
        ensures
            r@.identity == InstanceIdentity::Proposer,
            r@.replica_id == rid as int,
            r@.id == iid,
            r@.value == value@,
            r@.state == StateView::Null,
    {
        Instance {
            identity: InstanceIdentity::Proposer,
            replica_id: rid,
            id: iid,
            value,
            state: InstanceState::Null,
        }
    }

    /// An acceptor instance for `iid`, spawned upon first contact.
    pub fn new_as_acceptor(rid: ReplicaID, iid: InstanceID) -> (r: Instance)
        ensures
            r@.identity == InstanceIdentity::Acceptor,
            r@.replica_id == rid as int,
            r@.id == iid,
            r@.value == Seq::<u8>::empty(),
            r@.state == StateView::Null,
    {
        Instance {
            identity: InstanceIdentity::Acceptor,
            replica_id: rid,
            id: iid,
            value: Vec::new(),
            state: InstanceState::Null,
        }
    }

    /// Proposer move to ballot `seq`: forget any counted replies and
    /// broadcast `Propose(seq)` to every peer.
    pub fn propose(&mut self, seq: SequenceID) -> (out: PaxosMessageContent)
        ensures
            final(self)@ == with_state(old(self)@, StateView::Proposed(seq@, 0)),
            out@ == ContentView::Propose(seq@),
    {
        self.state = InstanceState::Proposed(seq, 0);
        PaxosMessageContent::Propose(seq)
    }

    /// Proposer handling of `Promise(seq)`: count it if it matches the
    /// current ballot, broadcasting `Request` once a strict majority of the
    /// `n` peer channels has promised; a promise for a higher ballot makes
    /// the proposer re-propose above it.
    pub fn handle_promise(&mut self, seq: SequenceID, n: u64) -> (out: Option<PaxosMessageContent>)
        requires
            seq.round < u64::MAX,
            old(self)@.state matches StateView::Proposed(_, k) ==> k < u64::MAX,
        ensures
            final(self)@ == proposer_step(old(self)@, ContentView::Promise(seq@), n as nat).0,
            view_opt(out) == proposer_step(old(self)@, ContentView::Promise(seq@), n as nat).1,
    {
        let majority = n / 2 + 1;
        let mut requested: Option<Vec<u8>> = None;
        let mut reproposal: Option<SequenceID> = None;
        match &mut self.state {
            InstanceState::Proposed(cur, k) => {
                if seq == *cur {
                    if *k + 1 >= majority {
                        requested = Some(clone_bytes(&self.value));
                    } else {
                        *k = *k + 1;
                    }
                } else if seq_id_lt(cur, &seq) {
                    reproposal = Some(seq);
                }
            },
            _ => {},
        }
        if let Some(v) = requested {
            let out = PaxosMessageContent::Request(seq, clone_bytes(&v));
            self.state = InstanceState::Requested(seq, v, 0);
            return Some(out);
        }
        if let Some(high) = reproposal {
            let b = increment_seq(high, self.replica_id);
            return Some(self.propose(b));
        }
        None
    }

    /// Proposer handling of `RejectPropose(s1, s2)`: if `s1` is the current
    /// ballot and `s2` the conflicting one that beat it, re-propose above
    /// `s2`.
    pub fn handle_reject_propose(&mut self, s1: SequenceID, s2: SequenceID, n: u64) -> (out: Option<
        PaxosMessageContent,
    >)
        requires
            s2.round < u64::MAX,
        ensures
            final(self)@ == proposer_step(
                old(self)@,
                ContentView::RejectPropose(s1@, s2@),
                n as nat,
            ).0,
            view_opt(out) == proposer_step(
                old(self)@,
                ContentView::RejectPropose(s1@, s2@),
                n as nat,
            ).1,
    {
        let mut reproposal: Option<SequenceID> = None;
        match &self.state {
            InstanceState::Proposed(cur, _) => {
                if s1 == *cur && seq_id_lt(&s1, &s2) {
                    reproposal = Some(s2);
                }
            },
            _ => {},
        }
        if let Some(high) = reproposal {
            let b = increment_seq(high, self.replica_id);
            return Some(self.propose(b));
        }
        None
    }

    /// Proposer handling of `Accept(seq)`: count it if it matches the
    /// requested ballot, broadcasting `Commit` once a strict majority of the
    /// `n` peer channels has accepted; an accept for a higher ballot makes
    /// the proposer re-propose above it.
    pub fn handle_accept(&mut self, seq: SequenceID, n: u64) -> (out: Option<PaxosMessageContent>)
        requires
            seq.round < u64::MAX,
            old(self)@.state matches StateView::Requested(_, _, k) ==> k < u64::MAX,
        ensures
            final(self)@ == proposer_step(old(self)@, ContentView::Accept(seq@), n as nat).0,
            view_opt(out) == proposer_step(old(self)@, ContentView::Accept(seq@), n as nat).1,
    {
        let majority = n / 2 + 1;
        let mut decided: Option<Vec<u8>> = None;
        let mut reproposal: Option<SequenceID> = None;
        match &mut self.state {
            InstanceState::Requested(cur, v, k) => {
                if seq == *cur {
                    if *k + 1 >= majority {
                        decided = Some(clone_bytes(v));
                    } else {
                        *k = *k + 1;
                    }
                } else if seq_id_lt(cur, &seq) {
                    reproposal = Some(seq);
                }
            },
            _ => {},
        }
        if let Some(v) = decided {
            self.state = InstanceState::Committed(seq, v, 0);
            return Some(PaxosMessageContent::Commit(seq));
        }
        if let Some(high) = reproposal {
            let b = increment_seq(high, self.replica_id);
            return Some(self.propose(b));
        }
        None
    }

    /// Proposer handling of `RejectRequest(s1, s2)`: if `s1` is the current
    /// ballot and `s2` the conflicting one that beat it, re-propose above
    /// `s2`.
    pub fn handle_reject_request(&mut self, s1: SequenceID, s2: SequenceID, n: u64) -> (out:
        Option<PaxosMessageContent>)
        requires
            s2.round < u64::MAX,
        ensures
            final(self)@ == proposer_step(
                old(self)@,
                ContentView::RejectRequest(s1@, s2@),
                n as nat,
            ).0,
            view_opt(out) == proposer_step(
                old(self)@,
                ContentView::RejectRequest(s1@, s2@),
                n as nat,
            ).1,
    {
        let mut reproposal: Option<SequenceID> = None;
        match &self.state {
            InstanceState::Requested(cur, _, _) => {
                if s1 == *cur && seq_id_lt(&s1, &s2) {
                    reproposal = Some(s2);
                }
            },
            _ => {},
        }
        if let Some(high) = reproposal {
            let b = increment_seq(high, self.replica_id);
            return Some(self.propose(b));
        }
        None
    }

    /// Proposer handling of `Acknowledge(seq)`: count it if it matches the
    /// committed ballot; tracked for liveness only.
    pub fn handle_acknowledge(&mut self, seq: SequenceID, n: u64) -> (out: Option<
        PaxosMessageContent,
    >)
        requires
            old(self)@.state matches StateView::Committed(_, _, k) ==> k < u64::MAX,
        ensures
            final(self)@ == proposer_step(old(self)@, ContentView::Acknowledge(seq@), n as nat).0,
            view_opt(out) == proposer_step(old(self)@, ContentView::Acknowledge(seq@), n as nat).1,
    {
        match &mut self.state {
            InstanceState::Committed(cur, _, k) => {
                if seq == *cur {
                    *k = *k + 1;
                }
            },
            _ => {},
        }
        None
    }

    /// Acceptor handling of `Propose(seq)`: promise the ballot if it is at
    /// least the one already promised or accepted, otherwise reject with the
    /// conflicting ballot; drop it once committed.
    pub fn handle_propose(&mut self, seq: SequenceID) -> (reply: Option<PaxosMessageContent>)
        requires
            acceptor_wf(old(self)@.state),
        ensures
            final(self)@ == with_state(
                old(self)@,
                acceptor_step(old(self)@.state, ContentView::Propose(seq@)).0,
            ),
            view_opt(reply) == acceptor_step(old(self)@.state, ContentView::Propose(seq@)).1,
    {
        let (promote, reply) = match &self.state {
            InstanceState::Null => (true, Some(PaxosMessageContent::Promise(seq))),
            InstanceState::Promised(cur) => {
                if seq_id_le(cur, &seq) {
                    (true, Some(PaxosMessageContent::Promise(seq)))
                } else {
                    (false, Some(PaxosMessageContent::RejectPropose(seq, *cur)))
                }
            },
            InstanceState::Accepted(cur, _) => {
                if seq_id_le(cur, &seq) {
                    (true, Some(PaxosMessageContent::Promise(seq)))
                } else {
                    (false, Some(PaxosMessageContent::RejectPropose(seq, *cur)))
                }
            },
            _ => (false, None),
        };
        if promote {
            self.state = InstanceState::Promised(seq);
        }
        reply
    }

    /// Acceptor handling of `Request(seq, value)`: accept the value if `seq`
    /// is exactly the promised ballot, drop an exact duplicate of an already
    /// accepted request, and reject anything else with the conflicting ballot.
    pub fn handle_request(&mut self, seq: SequenceID, value: Vec<u8>) -> (reply: Option<
        PaxosMessageContent,
    >)
        requires
            acceptor_wf(old(self)@.state),
        ensures
            final(self)@ == with_state(
                old(self)@,
                acceptor_step(old(self)@.state, ContentView::Request(seq@, value@)).0,
            ),
            view_opt(reply) == acceptor_step(
                old(self)@.state,
                ContentView::Request(seq@, value@),
            ).1,
    {
        let (accept, reply) = match &self.state {
            InstanceState::Promised(cur) => {
                if seq == *cur {
                    (true, Some(PaxosMessageContent::Accept(seq)))
                } else {
                    (false, Some(PaxosMessageContent::RejectRequest(seq, *cur)))
                }
            },
            InstanceState::Accepted(cur, _) => {
                if seq == *cur {
                    (false, None)
                } else {
                    (false, Some(PaxosMessageContent::RejectRequest(seq, *cur)))
                }
            },
            _ => (false, None),
        };
        if accept {
            self.state = InstanceState::Accepted(seq, value);
        }
        reply
    }

    /// Acceptor handling of `Commit(seq)`: if `seq` matches the accepted
    /// ballot, the accepted value is decided; acknowledge it.  The committed
    /// pair is then available through [`Instance::commit`] for the sink.
    pub fn handle_commit(&mut self, seq: SequenceID) -> (reply: Option<PaxosMessageContent>)
        requires
            acceptor_wf(old(self)@.state),
        ensures
            final(self)@ == with_state(
                old(self)@,
                acceptor_step(old(self)@.state, ContentView::Commit(seq@)).0,
            ),
            view_opt(reply) == acceptor_step(old(self)@.state, ContentView::Commit(seq@)).1,
    {
        let mut committed: Option<(SequenceID, Vec<u8>)> = None;
        match &self.state {
            InstanceState::Accepted(cur, v) => {
                if seq == *cur {
                    committed = Some((seq, clone_bytes(v)));
                }
            },
            _ => {},
        }
        match committed {
            Some((s, v)) => {
                self.state = InstanceState::Committed(s, v, 0);
                Some(PaxosMessageContent::Acknowledge(s))
            },
            None => None,
        }
    }

    /// Runs the proposer over one batch of delivered contents.  A fresh
    /// proposer first broadcasts `Propose` at its initial ballot; every
    /// output element is then a content to broadcast to all `n` peer
    /// channels, in order.
    pub fn run_as_proposer(&mut self, msgs: &Vec<PaxosMessageContent>, n: u64) -> (out: Vec<
        PaxosMessageContent,
    >)
        requires
            forall|j: int|
                0 <= j < msgs@.len() ==> rounds_below(#[trigger] views_of(msgs@)[j], u64::MAX as int),
            state_count(old(self)@.state) + msgs@.len() <= u64::MAX,
        ensures
            final(self)@ == proposer_run(
                proposer_activate(old(self)@).0,
                views_of(msgs@),
                n as nat,
            ),
            views_of(out@) == opt_to_seq(proposer_activate(old(self)@).1) + condense(
                proposer_emit_log(proposer_activate(old(self)@).0, views_of(msgs@), n as nat),
            ),
    {
        let ghost m1 = proposer_activate(old(self)@).0;
        let ghost act = proposer_activate(old(self)@).1;
        let ghost vs = views_of(msgs@);
        let mut out: Vec<PaxosMessageContent> = Vec::new();
        let start = match &self.state {
            InstanceState::Null => true,
            _ => false,
        };
        if start {
            let b0 = SequenceID { round: 0, proposer: self.replica_id };
            let c = self.propose(b0);
            out.push(c);
        }
        assert(self@ == m1);
        assert(views_of(out@) =~= opt_to_seq(act) + condense(
            proposer_emit_log(m1, vs.take(0), n as nat),
        ));
        let mut i: usize = 0;
        while i < msgs.len()
            invariant
                i <= msgs.len(),
                vs == views_of(msgs@),
                vs.len() == msgs@.len(),
                forall|j: int| 0 <= j < vs.len() ==> rounds_below(#[trigger] vs[j], u64::MAX as int),
                state_count(m1.state) + msgs@.len() <= u64::MAX,
                self@ == proposer_run(m1, vs.take(i as int), n as nat),
                state_count(self@.state) <= state_count(m1.state) + i,
                views_of(out@) == opt_to_seq(act) + condense(
                    proposer_emit_log(m1, vs.take(i as int), n as nat),
                ),
            decreases msgs.len() - i,
        {
            let ghost prev = self@;
            assert(vs[i as int] == msgs@[i as int]@);
            let o = match &msgs[i] {
                PaxosMessageContent::Promise(s) => self.handle_promise(*s, n),
                PaxosMessageContent::RejectPropose(s1, s2) => self.handle_reject_propose(
                    *s1,
                    *s2,
                    n,
                ),
                PaxosMessageContent::Accept(s) => self.handle_accept(*s, n),
                PaxosMessageContent::RejectRequest(s1, s2) => self.handle_reject_request(
                    *s1,
                    *s2,
                    n,
                ),
                PaxosMessageContent::Acknowledge(s) => self.handle_acknowledge(*s, n),
                _ => None,
            };
            proof {
                assert(self@ == proposer_step(prev, vs[i as int], n as nat).0);
                assert(view_opt(o) == proposer_step(prev, vs[i as int], n as nat).1);
                let t1 = vs.take(i + 1 as int);
                assert(t1.drop_last() =~= vs.take(i as int));
                assert(t1.last() == vs[i as int]);
                assert(proposer_run(m1, t1, n as nat) == self@);
                lemma_proposer_emit_log_len(m1, vs.take(i as int), n as nat);
                assert(proposer_emit_log(m1, t1, n as nat) =~= proposer_emit_log(
                    m1,
                    vs.take(i as int),
                    n as nat,
                ).push(view_opt(o)));
                lemma_condense_push(
                    proposer_emit_log(m1, vs.take(i as int), n as nat),
                    view_opt(o),
                );
                lemma_proposer_step_count(prev, vs[i as int], n as nat);
            }
            if let Some(b) = o {
                let ghost out0 = out@;
                out.push(b);
                proof {
                    assert(views_of(out@) =~= views_of(out0).push(b@));
                    assert(condense(
                        proposer_emit_log(m1, vs.take(i + 1 as int), n as nat),
                    ) =~= condense(proposer_emit_log(m1, vs.take(i as int), n as nat)) + seq![b@]);
                    assert(views_of(out@) =~= opt_to_seq(act) + condense(
                        proposer_emit_log(m1, vs.take(i + 1 as int), n as nat),
                    ));
                }
            } else {
                proof {
                    assert(condense(
                        proposer_emit_log(m1, vs.take(i + 1 as int), n as nat),
                    ) =~= condense(proposer_emit_log(m1, vs.take(i as int), n as nat)));
                }
            }
            i = i + 1;
        }
        proof {
            assert(vs.take(msgs@.len() as int) =~= vs);
        }
        out
    }

    /// Runs the acceptor over one batch of delivered contents.  Entry `i` of
    /// the output is the reply (if any) owed to the peer that sent `msgs[i]`.
    pub fn run_as_acceptor(&mut self, msgs: &Vec<PaxosMessageContent>) -> (out: Vec<
        Option<PaxosMessageContent>,
    >)
        requires
            acceptor_wf(old(self)@.state),
        ensures
            final(self)@ == with_state(
                old(self)@,
                acceptor_run(old(self)@.state, views_of(msgs@)),
            ),
            out@.len() == msgs@.len(),
            forall|j: int|
                0 <= j < out@.len() ==> view_opt(#[trigger] out@[j]) == acceptor_reply_log(
                    old(self)@.state,
                    views_of(msgs@),
                )[j],
    {
        let ghost st0 = old(self)@.state;
        let ghost vs = views_of(msgs@);
        let mut out: Vec<Option<PaxosMessageContent>> = Vec::new();
        let mut i: usize = 0;
        while i < msgs.len()
            invariant
                i <= msgs.len(),
                acceptor_wf(st0),
                vs == views_of(msgs@),
                vs.len() == msgs@.len(),
                self@ == with_state(old(self)@, acceptor_run(st0, vs.take(i as int))),
                acceptor_wf(self@.state),
                out@.len() == i,
                forall|j: int|
                    0 <= j < i ==> view_opt(#[trigger] out@[j]) == acceptor_reply_log(
                        st0,
                        vs.take(i as int),
                    )[j],
            decreases msgs.len() - i,
        {
            let ghost prev = self@.state;
            assert(vs[i as int] == msgs@[i as int]@);
            let o = match &msgs[i] {
                PaxosMessageContent::Propose(s) => self.handle_propose(*s),
                PaxosMessageContent::Request(s, v) => {
                    let value = clone_bytes(v);
                    self.handle_request(*s, value)
                },
                PaxosMessageContent::Commit(s) => self.handle_commit(*s),
                _ => None,
            };
            proof {
                assert(self@.state == acceptor_step(prev, vs[i as int]).0);
                assert(view_opt(o) == acceptor_step(prev, vs[i as int]).1);
                let t1 = vs.take(i + 1 as int);
                assert(t1.drop_last() =~= vs.take(i as int));
                assert(t1.last() == vs[i as int]);
                assert(acceptor_run(st0, t1) == self@.state);
                lemma_acceptor_reply_log_len(st0, vs.take(i as int));
                assert(acceptor_reply_log(st0, t1) =~= acceptor_reply_log(
                    st0,
                    vs.take(i as int),
                ).push(view_opt(o)));
                lemma_acceptor_step_wf(prev, vs[i as int]);
            }
            out.push(o);
            i = i + 1;
        }
        proof {
            assert(vs.take(msgs@.len() as int) =~= vs);
        }
        out
    }

    /// Runs the instance over one batch of delivered contents, in its own
    /// role: a proposer produces broadcasts, an acceptor produces replies
    /// aligned with the batch.
    pub fn run(&mut self, msgs: &Vec<PaxosMessageContent>, n: u64) -> (out: RunOutput)
        requires
            old(self)@.identity == InstanceIdentity::Proposer ==> (forall|j: int|
                0 <= j < msgs@.len() ==> rounds_below(
                    #[trigger] views_of(msgs@)[j],
                    u64::MAX as int,
                )) && state_count(old(self)@.state) + msgs@.len() <= u64::MAX,
            old(self)@.identity == InstanceIdentity::Acceptor ==> acceptor_wf(old(self)@.state),
        ensures
            old(self)@.identity == InstanceIdentity::Proposer ==> (out matches
                RunOutput::Broadcasts(b) && final(self)@ == proposer_run(
                proposer_activate(old(self)@).0,
                views_of(msgs@),
                n as nat,
            ) && views_of(b@) == opt_to_seq(proposer_activate(old(self)@).1) + condense(
                proposer_emit_log(proposer_activate(old(self)@).0, views_of(msgs@), n as nat),
            )),
            old(self)@.identity == InstanceIdentity::Acceptor ==> (out matches RunOutput::Replies(
                r,
            ) && final(self)@ == with_state(
                old(self)@,
                acceptor_run(old(self)@.state, views_of(msgs@)),
            ) && r@.len() == msgs@.len() && (forall|j: int|
                0 <= j < r@.len() ==> view_opt(#[trigger] r@[j]) == acceptor_reply_log(
                    old(self)@.state,
                    views_of(msgs@),
                )[j])),
    {
        match self.identity {
            InstanceIdentity::Proposer => RunOutput::Broadcasts(self.run_as_proposer(msgs, n)),
            InstanceIdentity::Acceptor => RunOutput::Replies(self.run_as_acceptor(msgs)),
        }
    }

    /// What an acceptor hands to the commit sink: the decided ballot and
    /// value once the instance is committed, and nothing before that.
    pub fn commit(&self) -> (r: Option<(SequenceID, Vec<u8>)>)
        ensures
            match r {
                Some(p) => self@.state matches StateView::Committed(b, v, _) && p.0@ == b && p.1@
                    == v,
                None => !(self@.state is Committed),
            },
    {
        match &self.state {
            InstanceState::Committed(s, v, _) => Some((*s, clone_bytes(v))),
            _ => None,
        }
    }
}

} // verus!
