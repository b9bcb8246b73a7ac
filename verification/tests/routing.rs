//! The communicator's routing rule, its frames, and the connection
//! handler's link-establishment rule.

use paxos::codec::{decode_frame, DecodedFrame};
use paxos::communicator::{Communicator, RouteDecision};
use paxos::connection_handler::ConnectionHandler;
use paxos::instance::{InstanceID, SequenceID};
use paxos::message::{Message, NetworkMessage, PaxosMessage, PaxosMessageContent};

fn sid(round: u64, proposer: u64) -> SequenceID {
    SequenceID { round, proposer }
}

fn iid(originator: u64, local_seq: u64) -> InstanceID {
    InstanceID { originator, local_seq }
}

#[test]
fn s6_stray_message_is_dropped() {
    let comm = Communicator::new(1, 0);
    let msg = PaxosMessage {
        instance_id: iid(7, 5),
        content: PaxosMessageContent::Accept(sid(1, 0)),
    };
    assert_eq!(comm.route(&msg), RouteDecision::Drop);
}

#[test]
fn propose_for_unknown_instance_spawns_acceptor() {
    let mut comm = Communicator::new(1, 0);
    let msg = PaxosMessage {
        instance_id: iid(0, 0),
        content: PaxosMessageContent::Propose(sid(0, 0)),
    };
    assert_eq!(comm.route(&msg), RouteDecision::SpawnAcceptor);
    // registered before the Propose is delivered, then routed normally
    comm.register_instance(iid(0, 0));
    assert_eq!(comm.route(&msg), RouteDecision::Forward);
}

#[test]
fn registered_instances_are_forwarded() {
    let mut comm = Communicator::new(0, 2);
    comm.register_instance(iid(0, 0));
    comm.register_instance(iid(0, 1));
    comm.register_instance(iid(0, 0)); // registering twice changes nothing
    assert!(comm.knows_instance(iid(0, 0)));
    assert!(comm.knows_instance(iid(0, 1)));
    assert!(!comm.knows_instance(iid(2, 0)));
    let msg = PaxosMessage {
        instance_id: iid(0, 1),
        content: PaxosMessageContent::Commit(sid(2, 0)),
    };
    assert_eq!(comm.route(&msg), RouteDecision::Forward);
}

#[test]
fn hello_frame_identifies_the_sender() {
    let comm = Communicator::new(2, 0);
    let bytes = comm.hello_frame();
    match decode_frame(&bytes, 0) {
        DecodedFrame::Frame(Message::NetworkM(nm), used) => {
            assert_eq!(nm.replica_id, 2);
            assert_eq!(used, bytes.len());
        }
        other => panic!("expected an identification frame, got {:?}", other),
    }
}

#[test]
fn outbound_frame_wraps_instance_and_content() {
    let comm = Communicator::new(2, 0);
    let bytes = comm.outbound_frame(iid(2, 3), PaxosMessageContent::Promise(sid(1, 2)));
    match decode_frame(&bytes, 0) {
        DecodedFrame::Frame(Message::PaxosM(pm), _) => {
            assert_eq!(pm.instance_id, iid(2, 3));
            assert_eq!(pm.content, PaxosMessageContent::Promise(sid(1, 2)));
        }
        other => panic!("expected a Paxos frame, got {:?}", other),
    }
}

#[test]
fn higher_replica_initiates_links() {
    let handler = ConnectionHandler::new(2, 4);
    assert!(handler.should_initiate(0));
    assert!(handler.should_initiate(1));
    assert!(!handler.should_initiate(3));
}

#[test]
fn exactly_one_side_initiates_each_pair() {
    let n: u64 = 4;
    for a in 0..n {
        for b in 0..n {
            if a == b {
                continue;
            }
            let ha = ConnectionHandler::new(a, n);
            let hb = ConnectionHandler::new(b, n);
            assert_ne!(ha.should_initiate(b), hb.should_initiate(a));
        }
    }
}

#[test]
fn inbound_handshake_screens_the_first_frame() {
    let handler = ConnectionHandler::new(1, 3);
    let good = Message::NetworkM(NetworkMessage { replica_id: 2 });
    assert_eq!(handler.handle_inbound(&good), Some(2));

    // a lower index should have been dialled by us, not the peer
    let lower = Message::NetworkM(NetworkMessage { replica_id: 0 });
    assert_eq!(handler.handle_inbound(&lower), None);

    // our own index, and one outside the cluster
    let own = Message::NetworkM(NetworkMessage { replica_id: 1 });
    assert_eq!(handler.handle_inbound(&own), None);
    let outside = Message::NetworkM(NetworkMessage { replica_id: 3 });
    assert_eq!(handler.handle_inbound(&outside), None);

    // a Paxos message cannot open a link
    let wrong = Message::PaxosM(PaxosMessage {
        instance_id: iid(2, 0),
        content: PaxosMessageContent::Propose(sid(0, 2)),
    });
    assert_eq!(handler.handle_inbound(&wrong), None);
}
