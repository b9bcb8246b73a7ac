//! The replica root: instance-ID minting and proposer spawning, and the
//! instance dispatcher.

use paxos::instance::{Instance, InstanceID, InstanceIdentity, InstanceState, RunOutput,
    SequenceID};
use paxos::message::PaxosMessageContent;
use paxos::replica::Replica;

fn sid(round: u64, proposer: u64) -> SequenceID {
    SequenceID { round, proposer }
}

fn iid(originator: u64, local_seq: u64) -> InstanceID {
    InstanceID { originator, local_seq }
}

#[test]
fn fresh_replica_starts_at_zero() {
    let rep = Replica::new(1, 3);
    assert_eq!(rep.id, 1);
    assert_eq!(rep.n, 3);
    assert_eq!(rep.instance_id, iid(1, 0));
}

#[test]
fn submit_mints_distinct_increasing_ids() {
    let mut rep = Replica::new(1, 3);
    let p0 = rep.submit(vec![1u8]);
    let p1 = rep.submit(vec![2u8]);
    let p2 = rep.submit(vec![3u8]);
    assert_eq!(p0.id, iid(1, 0));
    assert_eq!(p1.id, iid(1, 1));
    assert_eq!(p2.id, iid(1, 2));
    assert_ne!(p0.id, p1.id);
    assert_ne!(p1.id, p2.id);
    assert_ne!(p0.id, p2.id);
    assert_eq!(rep.instance_id, iid(1, 3));
}

#[test]
fn submit_spawns_a_fresh_proposer() {
    let mut rep = Replica::new(0, 3);
    let p = rep.submit(vec![5u8, 6u8]);
    assert_eq!(p.identity, InstanceIdentity::Proposer);
    assert_eq!(p.replica_id, 0);
    assert_eq!(p.value, vec![5u8, 6u8]);
    assert_eq!(p.state, InstanceState::Null);
    assert_eq!(p.commit(), None);
}

#[test]
fn run_dispatches_by_role() {
    let mut rep = Replica::new(2, 3);
    let mut proposer = rep.submit(vec![1u8]);
    match proposer.run(&vec![], 3) {
        RunOutput::Broadcasts(b) => {
            assert_eq!(b, vec![PaxosMessageContent::Propose(sid(0, 2))]);
        }
        RunOutput::Replies(_) => panic!("a proposer broadcasts"),
    }

    let mut acceptor = Instance::new_as_acceptor(0, iid(2, 0));
    let batch = vec![
        PaxosMessageContent::Propose(sid(0, 2)),
        PaxosMessageContent::Accept(sid(0, 2)),
    ];
    match acceptor.run(&batch, 3) {
        RunOutput::Replies(r) => {
            assert_eq!(
                r,
                vec![Some(PaxosMessageContent::Promise(sid(0, 2))), None]
            );
        }
        RunOutput::Broadcasts(_) => panic!("an acceptor replies"),
    }
}

#[test]
fn acceptor_batch_replies_align_with_messages() {
    let mut acc = Instance::new_as_acceptor(1, iid(0, 0));
    let batch = vec![
        PaxosMessageContent::Propose(sid(0, 0)),
        PaxosMessageContent::Request(sid(0, 0), vec![9u8]),
        PaxosMessageContent::Request(sid(0, 0), vec![9u8]),
        PaxosMessageContent::Commit(sid(0, 0)),
    ];
    let replies = acc.run_as_acceptor(&batch);
    assert_eq!(
        replies,
        vec![
            Some(PaxosMessageContent::Promise(sid(0, 0))),
            Some(PaxosMessageContent::Accept(sid(0, 0))),
            None,
            Some(PaxosMessageContent::Acknowledge(sid(0, 0))),
        ]
    );
    assert_eq!(acc.state, InstanceState::Committed(sid(0, 0), vec![9u8], 0));
    assert_eq!(acc.commit(), Some((sid(0, 0), vec![9u8])));
}
