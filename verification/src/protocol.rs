//! The mathematical model of one Paxos instance: ghost state, the proposer and
//! acceptor transition functions, and the fold of a transition function over a
//! sequence of delivered messages.  The executable state machine in
//! `instance` is specified against these functions, and the protocol laws in
//! `laws` are proved about them.

use vstd::prelude::*;

use crate::instance::{bal_le, bal_lt, Ballot, InstanceID, InstanceIdentity};
use crate::message::ContentView;

verus! {

/// Ghost state of one instance, mirroring `instance::InstanceState` over
/// unbounded integers and byte sequences.
pub enum StateView {
    Null,
    /// Proposer has broadcast `Propose(b)` and counted this many promises.
    Proposed(Ballot, nat),
    /// Acceptor has promised to accept nothing below `b`.
    Promised(Ballot),
    /// Proposer has broadcast `Request(b, v)` and counted this many accepts.
    Requested(Ballot, Seq<u8>, nat),
    /// Acceptor has accepted value `v` at ballot `b`.
    Accepted(Ballot, Seq<u8>),
    /// Terminal: the value is decided; the count is of acknowledgements.
    Committed(Ballot, Seq<u8>, nat),
}

/// Ghost image of one instance.
pub struct InstanceView {
    pub identity: InstanceIdentity,
    pub replica_id: int,
    pub id: InstanceID,
    pub value: Seq<u8>,
    pub state: StateView,
}

/// The strict-majority threshold for a cluster of `n` peer channels.
pub open spec fn spec_majority(n: nat) -> nat {
    n / 2 + 1
}

/// The ballot a proposer with replica index `me` moves to after observing `b`:
/// one round higher, so it dominates `b` and every ballot of `b`'s round.
pub open spec fn spec_increment(b: Ballot, me: int) -> Ballot {
    Ballot { round: b.round + 1, proposer: me }
}

/// The first ballot a proposer with replica index `me` tries.
pub open spec fn initial_ballot(me: int) -> Ballot {
    Ballot { round: 0, proposer: me }
}

/// The states an acceptor-role instance can inhabit.
pub open spec fn acceptor_wf(st: StateView) -> bool {
    match st {
        StateView::Null => true,
        StateView::Promised(_) => true,
        StateView::Accepted(_, _) => true,
        StateView::Committed(_, _, _) => true,
        _ => false,
    }
}

/// The states a proposer-role instance can inhabit.
pub open spec fn proposer_wf(st: StateView) -> bool {
    match st {
        StateView::Null => true,
        StateView::Proposed(_, _) => true,
        StateView::Requested(_, _, _) => true,
        StateView::Committed(_, _, _) => true,
        _ => false,
    }
}

/// `m` with its state replaced: what a transition leaves of an instance.
pub open spec fn with_state(m: InstanceView, st: StateView) -> InstanceView {
    InstanceView { state: st, ..m }
}

/// A proposer abandoning its current ballot in favour of one that dominates
/// `high`: reset the counter, broadcast the new `Propose`.
pub open spec fn spec_repropose(m: InstanceView, high: Ballot) -> (InstanceView, Option<
    ContentView,
>) {
    let b = spec_increment(high, m.replica_id);
    (
        InstanceView { state: StateView::Proposed(b, 0), ..m },
        Some(ContentView::Propose(b)),
    )
}

/// One proposer transition: the instance consumes one delivered content and
/// produces at most one content, which it broadcasts to every peer.
pub open spec fn proposer_step(m: InstanceView, c: ContentView, n: nat) -> (InstanceView, Option<
    ContentView,
>) {
    match c {
        ContentView::Promise(s) => match m.state {
            StateView::Proposed(cur, k) => {
                if s == cur {
                    if k + 1 >= spec_majority(n) {
                        (
                            InstanceView { state: StateView::Requested(s, m.value, 0), ..m },
                            Some(ContentView::Request(s, m.value)),
                        )
                    } else {
                        (InstanceView { state: StateView::Proposed(cur, k + 1), ..m }, None)
                    }
                } else if bal_lt(cur, s) {
                    spec_repropose(m, s)
                } else {
                    (m, None)
                }
            },
            _ => (m, None),
        },
        ContentView::RejectPropose(s1, s2) => match m.state {
            StateView::Proposed(cur, _) => {
                if s1 == cur && bal_lt(s1, s2) {
                    spec_repropose(m, s2)
                } else {
                    (m, None)
                }
            },
            _ => (m, None),
        },
        ContentView::Accept(s) => match m.state {
            StateView::Requested(cur, v, k) => {
                if s == cur {
                    if k + 1 >= spec_majority(n) {
                        (
                            InstanceView { state: StateView::Committed(s, v, 0), ..m },
                            Some(ContentView::Commit(s)),
                        )
                    } else {
                        (InstanceView { state: StateView::Requested(cur, v, k + 1), ..m }, None)
                    }
                } else if bal_lt(cur, s) {
                    spec_repropose(m, s)
                } else {
                    (m, None)
                }
            },
            _ => (m, None),
        },
        ContentView::RejectRequest(s1, s2) => match m.state {
            StateView::Requested(cur, _, _) => {
                if s1 == cur && bal_lt(s1, s2) {
                    spec_repropose(m, s2)
                } else {
                    (m, None)
                }
            },
            _ => (m, None),
        },
        ContentView::Acknowledge(s) => match m.state {
            StateView::Committed(cur, v, k) => {
                if s == cur {
                    (InstanceView { state: StateView::Committed(cur, v, k + 1), ..m }, None)
                } else {
                    (m, None)
                }
            },
            _ => (m, None),
        },
        _ => (m, None),
    }
}

/// A fresh proposer's first move: broadcast `Propose` at the initial ballot.
pub open spec fn proposer_start(m: InstanceView) -> (InstanceView, ContentView) {
    let b = initial_ballot(m.replica_id);
    (
        InstanceView { state: StateView::Proposed(b, 0), ..m },
        ContentView::Propose(b),
    )
}

/// One acceptor transition: the instance consumes one delivered content and
/// produces at most one content, replied to the peer that sent the input.
pub open spec fn acceptor_step(st: StateView, c: ContentView) -> (StateView, Option<ContentView>) {
    match c {
        ContentView::Propose(s) => match st {
            StateView::Null => (StateView::Promised(s), Some(ContentView::Promise(s))),
            StateView::Promised(cur) => {
                if bal_le(cur, s) {
                    (StateView::Promised(s), Some(ContentView::Promise(s)))
                } else {
                    (st, Some(ContentView::RejectPropose(s, cur)))
                }
            },
            StateView::Accepted(cur, _) => {
                if bal_le(cur, s) {
                    (StateView::Promised(s), Some(ContentView::Promise(s)))
                } else {
                    (st, Some(ContentView::RejectPropose(s, cur)))
                }
            },
            _ => (st, None),
        },
        ContentView::Request(s, v) => match st {
            StateView::Promised(cur) => {
                if s == cur {
                    (StateView::Accepted(s, v), Some(ContentView::Accept(s)))
                } else {
                    (st, Some(ContentView::RejectRequest(s, cur)))
                }
            },
            StateView::Accepted(cur, _) => {
                if s == cur {
                    (st, None)
                } else {
                    (st, Some(ContentView::RejectRequest(s, cur)))
                }
            },
            _ => (st, None),
        },
        ContentView::Commit(s) => match st {
            StateView::Accepted(cur, v) => {
                if s == cur {
                    (StateView::Committed(s, v, 0), Some(ContentView::Acknowledge(s)))
                } else {
                    (st, None)
                }
            },
            _ => (st, None),
        },
        _ => (st, None),
    }
}

/// Brings a fresh proposer to life if it has not yet started: its first
/// `Propose` broadcast happens before any delivered message is consumed.
pub open spec fn proposer_activate(m: InstanceView) -> (InstanceView, Option<ContentView>) {
    if m.state is Null {
        let (m1, c) = proposer_start(m);
        (m1, Some(c))
    } else {
        (m, None)
    }
}

/// The value of the counter the state is currently keeping, if any.
pub open spec fn state_count(st: StateView) -> nat {
    match st {
        StateView::Proposed(_, k) => k,
        StateView::Requested(_, _, k) => k,
        StateView::Committed(_, _, k) => k,
        _ => 0,
    }
}

/// A sequence of one or zero contents.
pub open spec fn opt_to_seq(c: Option<ContentView>) -> Seq<ContentView> {
    match c {
        Some(x) => seq![x],
        None => Seq::empty(),
    }
}

/// The contents actually produced by an aligned log, in order.
pub open spec fn condense(log: Seq<Option<ContentView>>) -> Seq<ContentView>
    decreases log.len(),
{
    if log.len() == 0 {
        Seq::empty()
    } else {
        condense(log.drop_last()) + opt_to_seq(log.last())
    }
}

/// The reply log holds one entry per delivered message.
pub proof fn lemma_acceptor_reply_log_len(st: StateView, msgs: Seq<ContentView>)
    ensures
        acceptor_reply_log(st, msgs).len() == msgs.len(),
    decreases msgs.len(),
{
    if msgs.len() > 0 {
        lemma_acceptor_reply_log_len(st, msgs.drop_last());
    }
}

/// The emit log holds one entry per delivered message.
pub proof fn lemma_proposer_emit_log_len(m: InstanceView, msgs: Seq<ContentView>, n: nat)
    ensures
        proposer_emit_log(m, msgs, n).len() == msgs.len(),
    decreases msgs.len(),
{
    if msgs.len() > 0 {
        lemma_proposer_emit_log_len(m, msgs.drop_last(), n);
    }
}

/// Condensing an extended log appends whatever the new entry produced.
pub proof fn lemma_condense_push(log: Seq<Option<ContentView>>, x: Option<ContentView>)
    ensures
        condense(log.push(x)) == condense(log) + opt_to_seq(x),
{
    assert(log.push(x).drop_last() =~= log);
    assert(log.push(x).last() == x);
}

/// One proposer transition moves a counter up by at most one (or resets it).
pub proof fn lemma_proposer_step_count(m: InstanceView, c: ContentView, n: nat)
    ensures
        state_count(proposer_step(m, c, n).0.state) <= state_count(m.state) + 1,
{
}

/// An acceptor transition never leaves the acceptor's states.
pub proof fn lemma_acceptor_step_wf(st: StateView, c: ContentView)
    requires
        acceptor_wf(st),
    ensures
        acceptor_wf(acceptor_step(st, c).0),
{
}

/// An acceptor run never leaves the acceptor's states.
pub proof fn lemma_acceptor_run_wf(st: StateView, msgs: Seq<ContentView>)
    requires
        acceptor_wf(st),
    ensures
        acceptor_wf(acceptor_run(st, msgs)),
    decreases msgs.len(),
{
    if msgs.len() > 0 {
        lemma_acceptor_run_wf(st, msgs.drop_last());
        lemma_acceptor_step_wf(acceptor_run(st, msgs.drop_last()), msgs.last());
    }
}

/// The acceptor state after consuming `msgs` in order, starting from `st`.
pub open spec fn acceptor_run(st: StateView, msgs: Seq<ContentView>) -> StateView
    decreases msgs.len(),
{
    if msgs.len() == 0 {
        st
    } else {
        acceptor_step(acceptor_run(st, msgs.drop_last()), msgs.last()).0
    }
}

/// The acceptor's reply to each delivered message, aligned with `msgs`:
/// entry `i` is the reply (if any) sent back to the sender of `msgs[i]`.
pub open spec fn acceptor_reply_log(st: StateView, msgs: Seq<ContentView>) -> Seq<
    Option<ContentView>,
>
    decreases msgs.len(),
{
    if msgs.len() == 0 {
        Seq::empty()
    } else {
        acceptor_reply_log(st, msgs.drop_last()).push(
            acceptor_step(acceptor_run(st, msgs.drop_last()), msgs.last()).1,
        )
    }
}

/// The proposer instance after consuming `msgs` in order, starting from `m`.
pub open spec fn proposer_run(m: InstanceView, msgs: Seq<ContentView>, n: nat) -> InstanceView
    decreases msgs.len(),
{
    if msgs.len() == 0 {
        m
    } else {
        proposer_step(proposer_run(m, msgs.drop_last(), n), msgs.last(), n).0
    }
}

/// The proposer's broadcast for each delivered message, aligned with `msgs`:
/// entry `i` is the content (if any) broadcast to every peer upon `msgs[i]`.
pub open spec fn proposer_emit_log(m: InstanceView, msgs: Seq<ContentView>, n: nat) -> Seq<
    Option<ContentView>,
>
    decreases msgs.len(),
{
    if msgs.len() == 0 {
        Seq::empty()
    } else {
        proposer_emit_log(m, msgs.drop_last(), n).push(
            proposer_step(proposer_run(m, msgs.drop_last(), n), msgs.last(), n).1,
        )
    }
}

} // verus!
