//! The wire codec: exact bytes, round trips for every frame kind, framing
//! recovery at offsets, and the malformed and incomplete outcomes.

use paxos::codec::{decode_frame, encode_frame, DecodedFrame};
use paxos::instance::{InstanceID, SequenceID};
use paxos::message::{Message, NetworkMessage, PaxosMessage, PaxosMessageContent};

fn sid(round: u64, proposer: u64) -> SequenceID {
    SequenceID { round, proposer }
}

fn paxos_frame(content: PaxosMessageContent) -> Message {
    Message::PaxosM(PaxosMessage {
        instance_id: InstanceID { originator: 2, local_seq: 7 },
        content,
    })
}

fn assert_round_trip(m: Message) {
    let bytes = encode_frame(&m);
    match decode_frame(&bytes, 0) {
        DecodedFrame::Frame(d, used) => {
            assert_eq!(d, m);
            assert_eq!(used, bytes.len());
        }
        other => panic!("expected a decoded frame, got {:?}", other),
    }
}

#[test]
fn network_frame_exact_bytes() {
    let m = Message::NetworkM(NetworkMessage { replica_id: 5 });
    let bytes = encode_frame(&m);
    // length prefix 9, tag 0, then 5 as a little-endian word
    let expected = vec![
        9u8, 0, 0, 0, 0, 0, 0, 0, //
        0, //
        5, 0, 0, 0, 0, 0, 0, 0,
    ];
    assert_eq!(bytes, expected);
}

#[test]
fn propose_frame_exact_bytes() {
    let m = paxos_frame(PaxosMessageContent::Propose(sid(3, 1)));
    let bytes = encode_frame(&m);
    let expected = vec![
        34u8, 0, 0, 0, 0, 0, 0, 0, // body length: 1 + 16 + 17
        1, // a Paxos message
        2, 0, 0, 0, 0, 0, 0, 0, // originator
        7, 0, 0, 0, 0, 0, 0, 0, // local sequence number
        1, // Propose
        3, 0, 0, 0, 0, 0, 0, 0, // round
        1, 0, 0, 0, 0, 0, 0, 0, // proposer
    ];
    assert_eq!(bytes, expected);
}

#[test]
fn round_trip_every_content_arm() {
    assert_round_trip(Message::NetworkM(NetworkMessage { replica_id: 0 }));
    assert_round_trip(paxos_frame(PaxosMessageContent::Propose(sid(0, 0))));
    assert_round_trip(paxos_frame(PaxosMessageContent::Promise(sid(1, 2))));
    assert_round_trip(paxos_frame(PaxosMessageContent::RejectPropose(
        sid(5, 0),
        sid(7, 1),
    )));
    assert_round_trip(paxos_frame(PaxosMessageContent::Request(
        sid(3, 0),
        vec![0u8, 1, 2, 255],
    )));
    assert_round_trip(paxos_frame(PaxosMessageContent::Request(sid(3, 0), vec![])));
    assert_round_trip(paxos_frame(PaxosMessageContent::Accept(sid(3, 0))));
    assert_round_trip(paxos_frame(PaxosMessageContent::RejectRequest(
        sid(2, 2),
        sid(9, 0),
    )));
    assert_round_trip(paxos_frame(PaxosMessageContent::Commit(sid(3, 0))));
    assert_round_trip(paxos_frame(PaxosMessageContent::Acknowledge(sid(3, 0))));
    assert_round_trip(paxos_frame(PaxosMessageContent::Propose(sid(
        u64::MAX - 1,
        u64::MAX,
    ))));
}

#[test]
fn decode_needs_whole_frame() {
    let m = paxos_frame(PaxosMessageContent::Commit(sid(4, 2)));
    let bytes = encode_frame(&m);
    for cut in 0..bytes.len() {
        let partial: Vec<u8> = bytes[..cut].to_vec();
        assert!(matches!(decode_frame(&partial, 0), DecodedFrame::Incomplete));
    }
}

#[test]
fn decode_skips_consumed_prefix() {
    let m1 = Message::NetworkM(NetworkMessage { replica_id: 1 });
    let m2 = paxos_frame(PaxosMessageContent::Accept(sid(8, 1)));
    let mut stream = encode_frame(&m1);
    let first_len = stream.len();
    stream.extend(encode_frame(&m2));
    match decode_frame(&stream, 0) {
        DecodedFrame::Frame(d, used) => {
            assert_eq!(d, m1);
            assert_eq!(used, first_len);
        }
        other => panic!("expected the first frame, got {:?}", other),
    }
    match decode_frame(&stream, first_len) {
        DecodedFrame::Frame(d, used) => {
            assert_eq!(d, m2);
            assert_eq!(first_len + used, stream.len());
        }
        other => panic!("expected the second frame, got {:?}", other),
    }
}

#[test]
fn decode_reports_malformed_body() {
    // A complete frame whose body carries an unknown tag: dropped whole.
    let stream = vec![
        3u8, 0, 0, 0, 0, 0, 0, 0, // body length 3
        9, 9, 9, // no such message kind
    ];
    match decode_frame(&stream, 0) {
        DecodedFrame::Malformed(skip) => assert_eq!(skip, 11),
        other => panic!("expected a malformed frame, got {:?}", other),
    }
}

#[test]
fn decode_reports_malformed_trailing_body_bytes() {
    // A correct message followed by garbage inside the same frame.
    let m = Message::NetworkM(NetworkMessage { replica_id: 5 });
    let mut stream = encode_frame(&m);
    stream[0] = 10; // body length now says 9 message bytes + 1 stray byte
    stream.push(77);
    match decode_frame(&stream, 0) {
        DecodedFrame::Malformed(skip) => assert_eq!(skip, 18),
        other => panic!("expected a malformed frame, got {:?}", other),
    }
}

#[test]
fn decode_empty_buffer_is_incomplete() {
    let empty: Vec<u8> = vec![];
    assert!(matches!(decode_frame(&empty, 0), DecodedFrame::Incomplete));
}
