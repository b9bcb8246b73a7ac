//! The protocol's invariants, proved of the transition functions in
//! `protocol`: ballot monotonicity on the acceptor side, quorum gating on
//! the proposer side, and agreement and validity of committed values.

use vstd::prelude::*;

use crate::instance::{bal_le, Ballot};
use crate::message::ContentView;
use crate::protocol::{
    acceptor_reply_log, acceptor_run, acceptor_step, acceptor_wf, lemma_acceptor_reply_log_len,
    lemma_acceptor_run_wf, lemma_proposer_emit_log_len, proposer_emit_log, proposer_run,
    proposer_step, proposer_wf, spec_majority, InstanceView, StateView,
};

verus! {

/// The ballot a reply acknowledges: the one carried by a `Promise` or an
/// `Accept`; other replies acknowledge nothing.
pub open spec fn acked_ballot(c: Option<ContentView>) -> Option<Ballot> {
    match c {
        Some(ContentView::Promise(s)) => Some(s),
        Some(ContentView::Accept(s)) => Some(s),
        _ => None,
    }
}

/// The ballot a state is bound to, if any.
pub open spec fn state_ballot(st: StateView) -> Option<Ballot> {
    match st {
        StateView::Null => None,
        StateView::Proposed(b, _) => Some(b),
        StateView::Promised(b) => Some(b),
        StateView::Requested(b, _, _) => Some(b),
        StateView::Accepted(b, _) => Some(b),
        StateView::Committed(b, _, _) => Some(b),
    }
}

/// Order on optional ballots: an absent ballot lies below every ballot.
pub open spec fn opt_bal_le(a: Option<Ballot>, b: Option<Ballot>) -> bool {
    match (a, b) {
        (Option::None, _) => true,
        (Option::Some(_), Option::None) => false,
        (Option::Some(x), Option::Some(y)) => bal_le(x, y),
    }
}

/// One acceptor transition never lowers the state's ballot, and whatever it
/// acknowledges is exactly the ballot of the state it moves to.
pub proof fn lemma_acceptor_step_ballot(st: StateView, c: ContentView)
    requires
        acceptor_wf(st),
    ensures
        opt_bal_le(state_ballot(st), state_ballot(acceptor_step(st, c).0)),
        acked_ballot(acceptor_step(st, c).1) matches Some(b) ==> state_ballot(
            acceptor_step(st, c).0,
        ) == Some(b),
{
}

/// Over any run, the acceptor's state ballot never decreases between two
/// prefixes.
pub proof fn lemma_acceptor_run_ballot_monotone(
    st0: StateView,
    msgs: Seq<ContentView>,
    i: int,
    j: int,
)
    requires
        acceptor_wf(st0),
        0 <= i <= j <= msgs.len(),
    ensures
        opt_bal_le(
            state_ballot(acceptor_run(st0, msgs.take(i))),
            state_ballot(acceptor_run(st0, msgs.take(j))),
        ),
    decreases j - i,
{
    if i < j {
        lemma_acceptor_run_ballot_monotone(st0, msgs, i, j - 1);
        lemma_acceptor_run_wf(st0, msgs.take(j - 1));
        assert(msgs.take(j).drop_last() =~= msgs.take(j - 1));
        assert(msgs.take(j).last() == msgs[j - 1]);
        lemma_acceptor_step_ballot(acceptor_run(st0, msgs.take(j - 1)), msgs[j - 1]);
    }
}

/// Entry `i` of the reply log is the reply of the step taken at position
/// `i`, and the run over one more message is that step's state.
pub proof fn lemma_acceptor_log_index(st0: StateView, msgs: Seq<ContentView>, i: int)
    requires
        0 <= i < msgs.len(),
    ensures
        acceptor_reply_log(st0, msgs)[i] == acceptor_step(
            acceptor_run(st0, msgs.take(i)),
            msgs[i],
        ).1,
        acceptor_run(st0, msgs.take(i + 1)) == acceptor_step(
            acceptor_run(st0, msgs.take(i)),
            msgs[i],
        ).0,
    decreases msgs.len(),
{
    lemma_acceptor_reply_log_len(st0, msgs);
    if i == msgs.len() - 1 {
        assert(msgs.take(i) =~= msgs.drop_last());
        assert(msgs.take(i + 1) =~= msgs);
        assert(msgs.last() == msgs[i]);
    } else {
        lemma_acceptor_log_index(st0, msgs.drop_last(), i);
        lemma_acceptor_reply_log_len(st0, msgs.drop_last());
        assert(msgs.drop_last().take(i) =~= msgs.take(i));
        assert(msgs.drop_last().take(i + 1) =~= msgs.take(i + 1));
        assert(msgs.drop_last()[i] == msgs[i]);
    }
}

/// Ballot monotonicity: the sequence of ballots an acceptor acknowledges
/// through `Promise` or `Accept` over one instance is non-decreasing in the
/// total order on ballots.
pub proof fn lemma_ballot_monotonicity(
    msgs: Seq<ContentView>,
    i: int,
    j: int,
    bi: Ballot,
    bj: Ballot,
)
    requires
        0 <= i <= j < msgs.len(),
        acked_ballot(acceptor_reply_log(StateView::Null, msgs)[i]) == Some(bi),
        acked_ballot(acceptor_reply_log(StateView::Null, msgs)[j]) == Some(bj),
    ensures
        bal_le(bi, bj),
{
    let st0 = StateView::Null;
    lemma_acceptor_log_index(st0, msgs, i);
    lemma_acceptor_log_index(st0, msgs, j);
    lemma_acceptor_run_wf(st0, msgs.take(i));
    lemma_acceptor_run_wf(st0, msgs.take(j));
    lemma_acceptor_step_ballot(acceptor_run(st0, msgs.take(i)), msgs[i]);
    lemma_acceptor_step_ballot(acceptor_run(st0, msgs.take(j)), msgs[j]);
    lemma_acceptor_run_ballot_monotone(st0, msgs, i + 1, j + 1);
}

/// Any value a proposer's state carries in `Requested` or `Committed` is the
/// value it was submitted with.
pub open spec fn carries_own_value(m: InstanceView) -> bool {
    match m.state {
        StateView::Requested(_, v, _) => v == m.value,
        StateView::Committed(_, v, _) => v == m.value,
        _ => true,
    }
}

/// One proposer transition touches nothing but the state, keeps the
/// proposer within its states, and keeps the submitted value in them.
pub proof fn lemma_proposer_step_inv(m: InstanceView, c: ContentView, n: nat)
    requires
        proposer_wf(m.state),
        carries_own_value(m),
    ensures
        proposer_step(m, c, n).0.identity == m.identity,
        proposer_step(m, c, n).0.replica_id == m.replica_id,
        proposer_step(m, c, n).0.id == m.id,
        proposer_step(m, c, n).0.value == m.value,
        proposer_wf(proposer_step(m, c, n).0.state),
        carries_own_value(proposer_step(m, c, n).0),
{
}

/// A proposer run touches nothing but the state, keeps the proposer within
/// its states, and keeps the submitted value in them.
pub proof fn lemma_proposer_run_inv(m0: InstanceView, msgs: Seq<ContentView>, n: nat)
    requires
        proposer_wf(m0.state),
        carries_own_value(m0),
    ensures
        proposer_run(m0, msgs, n).identity == m0.identity,
        proposer_run(m0, msgs, n).replica_id == m0.replica_id,
        proposer_run(m0, msgs, n).id == m0.id,
        proposer_run(m0, msgs, n).value == m0.value,
        proposer_wf(proposer_run(m0, msgs, n).state),
        carries_own_value(proposer_run(m0, msgs, n)),
    decreases msgs.len(),
{
    if msgs.len() > 0 {
        lemma_proposer_run_inv(m0, msgs.drop_last(), n);
        lemma_proposer_step_inv(proposer_run(m0, msgs.drop_last(), n), msgs.last(), n);
    }
}

/// Validity of a single committed proposer: it only ever decides the value
/// it was submitted with.
pub proof fn lemma_proposer_commits_own_value(
    m0: InstanceView,
    msgs: Seq<ContentView>,
    n: nat,
    s: Ballot,
    v: Seq<u8>,
    k: nat,
)
    requires
        proposer_wf(m0.state),
        carries_own_value(m0),
        proposer_run(m0, msgs, n).state == StateView::Committed(s, v, k),
    ensures
        v == m0.value,
{
    lemma_proposer_run_inv(m0, msgs, n);
}

/// How many of `msgs` are exactly `Promise(s)`.
pub open spec fn count_promises(msgs: Seq<ContentView>, s: Ballot) -> nat
    decreases msgs.len(),
{
    if msgs.len() == 0 {
        0
    } else {
        count_promises(msgs.drop_last(), s) + (if msgs.last() == ContentView::Promise(s) {
            1nat
        } else {
            0nat
        })
    }
}

/// How many of `msgs` are exactly `Accept(s)`.
pub open spec fn count_accepts(msgs: Seq<ContentView>, s: Ballot) -> nat
    decreases msgs.len(),
{
    if msgs.len() == 0 {
        0
    } else {
        count_accepts(msgs.drop_last(), s) + (if msgs.last() == ContentView::Accept(s) {
            1nat
        } else {
            0nat
        })
    }
}

/// The proposer's reply counter never exceeds what was actually delivered:
/// in `Proposed(s, k)` at most `k` messages `Promise(s)` have arrived, in
/// `Requested(s, _, k)` at most `k` messages `Accept(s)`.
pub open spec fn counter_bounded(m: InstanceView, msgs: Seq<ContentView>) -> bool {
    match m.state {
        StateView::Proposed(s, k) => k <= count_promises(msgs, s),
        StateView::Requested(s, _, k) => k <= count_accepts(msgs, s),
        _ => true,
    }
}

/// Counting is monotone under extension by one message.
pub proof fn lemma_count_extend(msgs: Seq<ContentView>, s: Ballot)
    requires
        msgs.len() > 0,
    ensures
        count_promises(msgs.drop_last(), s) <= count_promises(msgs, s),
        count_accepts(msgs.drop_last(), s) <= count_accepts(msgs, s),
{
}

/// A proposer run keeps its counters bounded by the delivered messages.
pub proof fn lemma_counter_bounded_run(m0: InstanceView, msgs: Seq<ContentView>, n: nat)
    requires
        counter_bounded(m0, Seq::empty()),
    ensures
        counter_bounded(proposer_run(m0, msgs, n), msgs),
    decreases msgs.len(),
{
    if msgs.len() > 0 {
        lemma_counter_bounded_run(m0, msgs.drop_last(), n);
        let prev = proposer_run(m0, msgs.drop_last(), n);
        let stepped = proposer_step(prev, msgs.last(), n);
        assert(proposer_run(m0, msgs, n) == stepped.0);
        match stepped.0.state {
            StateView::Proposed(s, k) => {
                lemma_count_extend(msgs, s);
            },
            StateView::Requested(s, _, k) => {
                lemma_count_extend(msgs, s);
            },
            _ => {},
        }
    }
}

/// Entry `i` of the emit log is the broadcast of the step taken at position
/// `i`, and the run over one more message is that step's state.
pub proof fn lemma_proposer_log_index(m0: InstanceView, msgs: Seq<ContentView>, n: nat, i: int)
    requires
        0 <= i < msgs.len(),
    ensures
        proposer_emit_log(m0, msgs, n)[i] == proposer_step(
            proposer_run(m0, msgs.take(i), n),
            msgs[i],
            n,
        ).1,
        proposer_run(m0, msgs.take(i + 1), n) == proposer_step(
            proposer_run(m0, msgs.take(i), n),
            msgs[i],
            n,
        ).0,
    decreases msgs.len(),
{
    lemma_proposer_emit_log_len(m0, msgs, n);
    if i == msgs.len() - 1 {
        assert(msgs.take(i) =~= msgs.drop_last());
        assert(msgs.take(i + 1) =~= msgs);
        assert(msgs.last() == msgs[i]);
    } else {
        lemma_proposer_log_index(m0, msgs.drop_last(), n, i);
        lemma_proposer_emit_log_len(m0, msgs.drop_last(), n);
        assert(msgs.drop_last().take(i) =~= msgs.take(i));
        assert(msgs.drop_last().take(i + 1) =~= msgs.take(i + 1));
        assert(msgs.drop_last()[i] == msgs[i]);
    }
}

/// Quorum gating: a proposer broadcasts `Request(s, _)` only once a strict
/// majority of the `n` peer channels has delivered `Promise(s)`, and
/// `Commit(s)` only once a strict majority has delivered `Accept(s)`.
pub proof fn lemma_quorum_gating(m0: InstanceView, msgs: Seq<ContentView>, n: nat, i: int)
    requires
        counter_bounded(m0, Seq::empty()),
        0 <= i < msgs.len(),
    ensures
        proposer_emit_log(m0, msgs, n)[i] matches Some(e) ==> match e {
            ContentView::Request(s, _) => spec_majority(n) <= count_promises(msgs.take(i + 1), s),
            ContentView::Commit(s) => spec_majority(n) <= count_accepts(msgs.take(i + 1), s),
            _ => true,
        },
{
    lemma_proposer_log_index(m0, msgs, n, i);
    lemma_counter_bounded_run(m0, msgs.take(i), n);
    let prev = proposer_run(m0, msgs.take(i), n);
    assert(msgs.take(i + 1).drop_last() =~= msgs.take(i));
    assert(msgs.take(i + 1).last() == msgs[i]);
    match proposer_step(prev, msgs[i], n).1 {
        Some(e) => match e {
            ContentView::Request(s, _) => {
                assert(msgs[i] == ContentView::Promise(s));
                assert(count_promises(msgs.take(i + 1), s) == count_promises(msgs.take(i), s)
                    + 1);
            },
            ContentView::Commit(s) => {
                assert(msgs[i] == ContentView::Accept(s));
                assert(count_accepts(msgs.take(i + 1), s) == count_accepts(msgs.take(i), s) + 1);
            },
            _ => {},
        },
        None => {},
    }
}

/// `c` is a `Request` carrying value `v`, at any ballot.
pub open spec fn is_request_with(c: ContentView, v: Seq<u8>) -> bool {
    c matches ContentView::Request(_, w) && w == v
}

/// Some message of `msgs` is a `Request` carrying `v`.
pub open spec fn contains_request(msgs: Seq<ContentView>, v: Seq<u8>) -> bool {
    exists|k: int| 0 <= k < msgs.len() && is_request_with(#[trigger] msgs[k], v)
}

/// An acceptor holds no value it was not sent: whatever it has accepted or
/// committed arrived in a `Request`.
pub proof fn lemma_acceptor_value_from_request(msgs: Seq<ContentView>)
    ensures
        acceptor_run(StateView::Null, msgs) matches StateView::Accepted(_, v) ==> contains_request(
            msgs,
            v,
        ),
        acceptor_run(StateView::Null, msgs) matches StateView::Committed(_, v, _)
            ==> contains_request(msgs, v),
    decreases msgs.len(),
{
    if msgs.len() > 0 {
        lemma_acceptor_value_from_request(msgs.drop_last());
        let prev = acceptor_run(StateView::Null, msgs.drop_last());
        let cur = acceptor_run(StateView::Null, msgs);
        match cur {
            StateView::Accepted(s, v) => {
                if prev matches StateView::Promised(_) {
                    assert(msgs.last() == ContentView::Request(s, v));
                    assert(is_request_with(msgs[msgs.len() - 1], v));
                } else {
                    let k = choose|k: int|
                        0 <= k < msgs.drop_last().len() && is_request_with(
                            #[trigger] msgs.drop_last()[k],
                            v,
                        );
                    assert(is_request_with(msgs[k], v));
                }
            },
            StateView::Committed(s, v, _) => {
                let k = choose|k: int|
                    0 <= k < msgs.drop_last().len() && is_request_with(
                        #[trigger] msgs.drop_last()[k],
                        v,
                    );
                assert(is_request_with(msgs[k], v));
            },
            _ => {},
        }
    }
}

/// The proposer's run broadcast `Request(s, v)` at some point.
pub open spec fn emitted_request(
    m0: InstanceView,
    pmsgs: Seq<ContentView>,
    n: nat,
    s: Ballot,
    v: Seq<u8>,
) -> bool {
    exists|i: int|
        0 <= i < pmsgs.len() && proposer_emit_log(m0, pmsgs, n)[i] == Some(
            ContentView::Request(s, v),
        )
}

/// The ballot and value of a `Request`, if `c` is one.
pub open spec fn request_of(c: ContentView) -> Option<(Ballot, Seq<u8>)> {
    match c {
        ContentView::Request(s, v) => Some((s, v)),
        _ => None,
    }
}

/// Every `Request` among `amsgs` was broadcast by the proposer run
/// `(m0, pmsgs, n)`.  This is what the connection fabric provides for an
/// instance: its `InstanceID` names the one replica that proposes in it,
/// and the communicators route by that ID.
pub open spec fn requests_from_proposer(
    m0: InstanceView,
    pmsgs: Seq<ContentView>,
    n: nat,
    amsgs: Seq<ContentView>,
) -> bool {
    forall|k: int|
        0 <= k < amsgs.len() ==> match request_of(#[trigger] amsgs[k]) {
            Some(p) => emitted_request(m0, pmsgs, n, p.0, p.1),
            None => true,
        }
}

/// Every `Request` a proposer broadcasts carries the value it was submitted
/// with.
pub proof fn lemma_requests_carry_value(
    m0: InstanceView,
    pmsgs: Seq<ContentView>,
    n: nat,
    s: Ballot,
    v: Seq<u8>,
    i: int,
)
    requires
        proposer_wf(m0.state),
        carries_own_value(m0),
        0 <= i < pmsgs.len(),
        proposer_emit_log(m0, pmsgs, n)[i] == Some(ContentView::Request(s, v)),
    ensures
        v == m0.value,
{
    lemma_proposer_log_index(m0, pmsgs, n, i);
    lemma_proposer_run_inv(m0, pmsgs.take(i), n);
}

/// Validity: if every `Request` the acceptor received came from the
/// instance's proposer, then whatever the acceptor commits is exactly the
/// value submitted to that proposer.
pub proof fn lemma_validity(
    m0: InstanceView,
    pmsgs: Seq<ContentView>,
    n: nat,
    amsgs: Seq<ContentView>,
    s: Ballot,
    v: Seq<u8>,
    acks: nat,
)
    requires
        proposer_wf(m0.state),
        carries_own_value(m0),
        requests_from_proposer(m0, pmsgs, n, amsgs),
        acceptor_run(StateView::Null, amsgs) == StateView::Committed(s, v, acks),
    ensures
        v == m0.value,
{
    lemma_acceptor_value_from_request(amsgs);
    let k = choose|k: int| 0 <= k < amsgs.len() && is_request_with(#[trigger] amsgs[k], v);
    match amsgs[k] {
        ContentView::Request(s2, w) => {
            assert(request_of(amsgs[k]) == Some((s2, w)));
            let i = choose|i: int|
                0 <= i < pmsgs.len() && proposer_emit_log(m0, pmsgs, n)[i] == Some(
                    ContentView::Request(s2, w),
                );
            lemma_requests_carry_value(m0, pmsgs, n, s2, w, i);
        },
        _ => {
            assert(false);
        },
    }
}

/// Agreement: two acceptors of one instance that both commit, each fed only
/// `Request`s broadcast by the instance's proposer, commit the same value —
/// and it is the proposer's submitted value.
pub proof fn lemma_agreement(
    m0: InstanceView,
    pmsgs: Seq<ContentView>,
    n: nat,
    amsgs1: Seq<ContentView>,
    s1: Ballot,
    v1: Seq<u8>,
    acks1: nat,
    amsgs2: Seq<ContentView>,
    s2: Ballot,
    v2: Seq<u8>,
    acks2: nat,
)
    requires
        proposer_wf(m0.state),
        carries_own_value(m0),
        requests_from_proposer(m0, pmsgs, n, amsgs1),
        requests_from_proposer(m0, pmsgs, n, amsgs2),
        acceptor_run(StateView::Null, amsgs1) == StateView::Committed(s1, v1, acks1),
        acceptor_run(StateView::Null, amsgs2) == StateView::Committed(s2, v2, acks2),
    ensures
        v1 == v2,
        v1 == m0.value,
{
    lemma_validity(m0, pmsgs, n, amsgs1, s1, v1, acks1);
    lemma_validity(m0, pmsgs, n, amsgs2, s2, v2, acks2);
}

} // verus!
