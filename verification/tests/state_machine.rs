//! The per-instance state machine, driven through the concrete scenarios of
//! a three-replica cluster and the degenerate cluster sizes.

use paxos::instance::{Instance, InstanceID, InstanceState, SequenceID};
use paxos::message::PaxosMessageContent;
use paxos::replica::Replica;

fn sid(round: u64, proposer: u64) -> SequenceID {
    SequenceID { round, proposer }
}

fn iid(originator: u64, local_seq: u64) -> InstanceID {
    InstanceID { originator, local_seq }
}

#[test]
fn proposer_initial_propose() {
    let mut rep = Replica::new(2, 3);
    let mut proposer = rep.submit(vec![9u8]);
    let out = proposer.run_as_proposer(&vec![], 3);
    assert_eq!(out, vec![PaxosMessageContent::Propose(sid(0, 2))]);
    assert_eq!(proposer.state, InstanceState::Proposed(sid(0, 2), 0));
}

#[test]
fn s1_happy_path_three_replicas() {
    let n: u64 = 3;
    let value = vec![0u8, 1u8, 2u8];
    let mut rep2 = Replica::new(2, n);
    let mut proposer = rep2.submit(value.clone());
    assert_eq!(proposer.id, iid(2, 0));
    let mut acc0 = Instance::new_as_acceptor(0, iid(2, 0));
    let mut acc1 = Instance::new_as_acceptor(1, iid(2, 0));

    let out = proposer.run_as_proposer(&vec![], n);
    assert_eq!(out, vec![PaxosMessageContent::Propose(sid(0, 2))]);

    let r0 = acc0.handle_propose(sid(0, 2));
    let r1 = acc1.handle_propose(sid(0, 2));
    assert_eq!(r0, Some(PaxosMessageContent::Promise(sid(0, 2))));
    assert_eq!(r1, Some(PaxosMessageContent::Promise(sid(0, 2))));

    let out = proposer.run_as_proposer(
        &vec![
            PaxosMessageContent::Promise(sid(0, 2)),
            PaxosMessageContent::Promise(sid(0, 2)),
        ],
        n,
    );
    assert_eq!(
        out,
        vec![PaxosMessageContent::Request(sid(0, 2), value.clone())]
    );

    let r0 = acc0.handle_request(sid(0, 2), value.clone());
    let r1 = acc1.handle_request(sid(0, 2), value.clone());
    assert_eq!(r0, Some(PaxosMessageContent::Accept(sid(0, 2))));
    assert_eq!(r1, Some(PaxosMessageContent::Accept(sid(0, 2))));

    let out = proposer.run_as_proposer(
        &vec![
            PaxosMessageContent::Accept(sid(0, 2)),
            PaxosMessageContent::Accept(sid(0, 2)),
        ],
        n,
    );
    assert_eq!(out, vec![PaxosMessageContent::Commit(sid(0, 2))]);
    assert_eq!(
        proposer.state,
        InstanceState::Committed(sid(0, 2), value.clone(), 0)
    );

    let r0 = acc0.handle_commit(sid(0, 2));
    let r1 = acc1.handle_commit(sid(0, 2));
    assert_eq!(r0, Some(PaxosMessageContent::Acknowledge(sid(0, 2))));
    assert_eq!(r1, Some(PaxosMessageContent::Acknowledge(sid(0, 2))));
    assert_eq!(
        acc0.state,
        InstanceState::Committed(sid(0, 2), value.clone(), 0)
    );
    assert_eq!(
        acc1.state,
        InstanceState::Committed(sid(0, 2), value.clone(), 0)
    );
    assert_eq!(acc0.commit(), Some((sid(0, 2), value.clone())));
    assert_eq!(acc1.commit(), Some((sid(0, 2), value.clone())));

    let out = proposer.run_as_proposer(
        &vec![
            PaxosMessageContent::Acknowledge(sid(0, 2)),
            PaxosMessageContent::Acknowledge(sid(0, 2)),
        ],
        n,
    );
    assert_eq!(out, vec![]);
    assert_eq!(proposer.state, InstanceState::Committed(sid(0, 2), value, 2));
}

#[test]
fn s2_contention_independent_instances() {
    let n: u64 = 3;
    let mut rep0 = Replica::new(0, n);
    let mut rep1 = Replica::new(1, n);
    let mut p0 = rep0.submit(vec![10u8]);
    let mut p1 = rep1.submit(vec![11u8]);
    assert_ne!(p0.id, p1.id);

    for (p, me) in [(&mut p0, 0u64), (&mut p1, 1u64)] {
        let out = p.run_as_proposer(&vec![], n);
        assert_eq!(out, vec![PaxosMessageContent::Propose(sid(0, me))]);
        let out = p.run_as_proposer(
            &vec![
                PaxosMessageContent::Promise(sid(0, me)),
                PaxosMessageContent::Promise(sid(0, me)),
            ],
            n,
        );
        assert_eq!(out.len(), 1);
        let out = p.run_as_proposer(
            &vec![
                PaxosMessageContent::Accept(sid(0, me)),
                PaxosMessageContent::Accept(sid(0, me)),
            ],
            n,
        );
        assert_eq!(out, vec![PaxosMessageContent::Commit(sid(0, me))]);
    }
    assert_eq!(p0.state, InstanceState::Committed(sid(0, 0), vec![10u8], 0));
    assert_eq!(p1.state, InstanceState::Committed(sid(0, 1), vec![11u8], 0));
}

#[test]
fn s3_acceptor_ballot_rejection() {
    let mut acc1 = Instance::new_as_acceptor(1, iid(0, 0));
    acc1.state = InstanceState::Promised(sid(7, 1));
    let reply = acc1.handle_propose(sid(5, 0));
    assert_eq!(
        reply,
        Some(PaxosMessageContent::RejectPropose(sid(5, 0), sid(7, 1)))
    );
    assert_eq!(acc1.state, InstanceState::Promised(sid(7, 1)));

    let mut rep0 = Replica::new(0, 3);
    let mut p0 = rep0.submit(vec![1u8]);
    p0.run_as_proposer(&vec![], 3);
    p0.state = InstanceState::Proposed(sid(5, 0), 0);
    let out = p0.run_as_proposer(
        &vec![PaxosMessageContent::RejectPropose(sid(5, 0), sid(7, 1))],
        3,
    );
    assert_eq!(out, vec![PaxosMessageContent::Propose(sid(8, 0))]);
    assert_eq!(p0.state, InstanceState::Proposed(sid(8, 0), 0));
}

#[test]
fn s4_no_spontaneous_resend_after_request() {
    let mut rep0 = Replica::new(0, 3);
    let mut p0 = rep0.submit(vec![7u8]);
    p0.run_as_proposer(&vec![], 3);
    let out = p0.run_as_proposer(
        &vec![
            PaxosMessageContent::Promise(sid(0, 0)),
            PaxosMessageContent::Promise(sid(0, 0)),
        ],
        3,
    );
    assert_eq!(out.len(), 1);
    let before = p0.state.clone();
    // The link to a peer dropped: nothing arrives.  The proposer must not
    // resend on its own; only a new message can move it.
    let out = p0.run_as_proposer(&vec![], 3);
    assert_eq!(out, vec![]);
    assert_eq!(p0.state, before);
}

#[test]
fn s5_idempotent_duplicate_request() {
    let mut acc = Instance::new_as_acceptor(1, iid(0, 0));
    acc.state = InstanceState::Accepted(sid(3, 0), vec![42u8]);
    let reply = acc.handle_request(sid(3, 0), vec![42u8]);
    assert_eq!(reply, None);
    assert_eq!(acc.state, InstanceState::Accepted(sid(3, 0), vec![42u8]));
}

#[test]
fn acceptor_rejects_mismatched_request() {
    let mut acc = Instance::new_as_acceptor(1, iid(0, 0));
    acc.state = InstanceState::Promised(sid(4, 0));
    let reply = acc.handle_request(sid(3, 0), vec![42u8]);
    assert_eq!(
        reply,
        Some(PaxosMessageContent::RejectRequest(sid(3, 0), sid(4, 0)))
    );
    assert_eq!(acc.state, InstanceState::Promised(sid(4, 0)));
}

#[test]
fn acceptor_promise_ballots_never_decrease() {
    let mut acc = Instance::new_as_acceptor(1, iid(0, 0));
    let mut last: Option<SequenceID> = None;
    let proposals = [sid(0, 0), sid(2, 1), sid(2, 1), sid(1, 0), sid(5, 2)];
    for p in proposals {
        if let Some(PaxosMessageContent::Promise(s)) = acc.handle_propose(p) {
            if let Some(prev) = last {
                assert!(prev.round < s.round || (prev.round == s.round && prev.proposer <= s.proposer));
            }
            last = Some(s);
        }
    }
    // the rejected lower ballot left no mark
    assert_eq!(acc.state, InstanceState::Promised(sid(5, 2)));
}

#[test]
fn acceptor_drops_after_commit() {
    let mut acc = Instance::new_as_acceptor(1, iid(0, 0));
    acc.state = InstanceState::Committed(sid(3, 0), vec![1u8], 0);
    assert_eq!(acc.handle_propose(sid(9, 2)), None);
    assert_eq!(acc.handle_request(sid(9, 2), vec![5u8]), None);
    assert_eq!(acc.handle_commit(sid(3, 0)), None);
    assert_eq!(acc.state, InstanceState::Committed(sid(3, 0), vec![1u8], 0));
}

#[test]
fn quorum_gating_three_replicas() {
    // No Request before a strict majority (2 of 3) of promises.
    let mut rep = Replica::new(0, 3);
    let mut p = rep.submit(vec![3u8]);
    p.run_as_proposer(&vec![], 3);
    let out = p.run_as_proposer(&vec![PaxosMessageContent::Promise(sid(0, 0))], 3);
    assert_eq!(out, vec![]);
    assert_eq!(p.state, InstanceState::Proposed(sid(0, 0), 1));
    let out = p.run_as_proposer(&vec![PaxosMessageContent::Promise(sid(0, 0))], 3);
    assert_eq!(out, vec![PaxosMessageContent::Request(sid(0, 0), vec![3u8])]);
}

#[test]
fn degenerate_majority_single_replica() {
    // With one peer channel the majority threshold is 1.
    let mut rep = Replica::new(0, 1);
    let mut p = rep.submit(vec![8u8]);
    p.run_as_proposer(&vec![], 1);
    let out = p.run_as_proposer(&vec![PaxosMessageContent::Promise(sid(0, 0))], 1);
    assert_eq!(out, vec![PaxosMessageContent::Request(sid(0, 0), vec![8u8])]);
    let out = p.run_as_proposer(&vec![PaxosMessageContent::Accept(sid(0, 0))], 1);
    assert_eq!(out, vec![PaxosMessageContent::Commit(sid(0, 0))]);
    assert_eq!(p.state, InstanceState::Committed(sid(0, 0), vec![8u8], 0));
}

#[test]
fn two_replicas_need_both_promises() {
    // With two peer channels the majority threshold is 2.
    let mut rep = Replica::new(1, 2);
    let mut p = rep.submit(vec![6u8]);
    p.run_as_proposer(&vec![], 2);
    let out = p.run_as_proposer(&vec![PaxosMessageContent::Promise(sid(0, 1))], 2);
    assert_eq!(out, vec![]);
    let out = p.run_as_proposer(&vec![PaxosMessageContent::Promise(sid(0, 1))], 2);
    assert_eq!(out, vec![PaxosMessageContent::Request(sid(0, 1), vec![6u8])]);
}

#[test]
fn proposer_reproposes_above_higher_promise() {
    let mut rep = Replica::new(0, 3);
    let mut p = rep.submit(vec![2u8]);
    p.run_as_proposer(&vec![], 3);
    // A promise for a higher ballot means another round overtook ours.
    let out = p.run_as_proposer(&vec![PaxosMessageContent::Promise(sid(4, 2))], 3);
    assert_eq!(out, vec![PaxosMessageContent::Propose(sid(5, 0))]);
    assert_eq!(p.state, InstanceState::Proposed(sid(5, 0), 0));
}

#[test]
fn proposer_ignores_stale_messages() {
    let mut rep = Replica::new(0, 3);
    let mut p = rep.submit(vec![2u8]);
    p.run_as_proposer(&vec![], 3);
    p.state = InstanceState::Proposed(sid(2, 1), 0);
    let out = p.run_as_proposer(
        &vec![
            // lower ballot than the current one: ignored
            PaxosMessageContent::Promise(sid(1, 0)),
            // messages a proposer never handles: ignored
            PaxosMessageContent::Propose(sid(0, 0)),
            PaxosMessageContent::Request(sid(0, 0), vec![1u8]),
            PaxosMessageContent::Commit(sid(0, 0)),
        ],
        3,
    );
    assert_eq!(out, vec![]);
    assert_eq!(p.state, InstanceState::Proposed(sid(2, 1), 0));
}
