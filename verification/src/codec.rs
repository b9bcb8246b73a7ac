//! The wire codec: every frame travels as an 8-byte little-endian length
//! prefix followed by a tagged binary body, so a reader recovers record
//! boundaries from the bytes alone.  Encoding and decoding are proved
//! inverse to each other for every frame.

use vstd::arithmetic::div_mod::lemma_div_denominator;
use vstd::prelude::*;

use crate::instance::{Ballot, InstanceID, SequenceID};
use crate::message::{ContentView, Message, MessageView, NetworkMessage, PaxosMessage,
    PaxosMessageContent, PaxosMessageView};

verus! {

/// One more than the largest value a wire word can carry.
pub open spec fn word_bound() -> int {
    0x10000000000000000
}

/// The eight little-endian bytes of `x`.
pub open spec fn spec_u64_le(x: int) -> Seq<u8> {
    seq![
        (x % 256) as u8,
        ((x / 0x100) % 256) as u8,
        ((x / 0x10000) % 256) as u8,
        ((x / 0x1000000) % 256) as u8,
        ((x / 0x100000000) % 256) as u8,
        ((x / 0x10000000000) % 256) as u8,
        ((x / 0x1000000000000) % 256) as u8,
        ((x / 0x100000000000000) % 256) as u8,
    ]
}

/// The value of eight little-endian bytes.
pub open spec fn spec_le_u64(s: Seq<u8>) -> int {
    s[0] + s[1] * 0x100 + s[2] * 0x10000 + s[3] * 0x1000000 + s[4] * 0x100000000 + s[5]
        * 0x10000000000 + s[6] * 0x1000000000000 + s[7] * 0x100000000000000
}

/// Reading back the eight little-endian bytes of a word yields the word.
pub proof fn lemma_u64_le_round_trip(x: int)
    requires
        0 <= x < word_bound(),
    ensures
        spec_u64_le(x).len() == 8,
        spec_le_u64(spec_u64_le(x)) == x,
{
    lemma_div_denominator(x, 0x100, 0x100);
    lemma_div_denominator(x, 0x10000, 0x100);
    lemma_div_denominator(x, 0x1000000, 0x100);
    lemma_div_denominator(x, 0x100000000, 0x100);
    lemma_div_denominator(x, 0x10000000000, 0x100);
    lemma_div_denominator(x, 0x1000000000000, 0x100);
    lemma_div_denominator(x, 0x100000000000000, 0x100);
    assert(x / 0x10000000000000000 == 0);
}

/// A ballot whose two components fit a wire word.
pub open spec fn wf_ballot(b: Ballot) -> bool {
    0 <= b.round < word_bound() && 0 <= b.proposer < word_bound()
}

/// A content whose ballots and value length fit their wire words.
pub open spec fn wf_content(c: ContentView) -> bool {
    match c {
        ContentView::Propose(s) => wf_ballot(s),
        ContentView::Promise(s) => wf_ballot(s),
        ContentView::RejectPropose(s1, s2) => wf_ballot(s1) && wf_ballot(s2),
        ContentView::Request(s, v) => wf_ballot(s) && v.len() + 64 < word_bound(),
        ContentView::Accept(s) => wf_ballot(s),
        ContentView::RejectRequest(s1, s2) => wf_ballot(s1) && wf_ballot(s2),
        ContentView::Commit(s) => wf_ballot(s),
        ContentView::Acknowledge(s) => wf_ballot(s),
    }
}

/// A frame all of whose numeric fields fit their wire words.  The view of
/// every executable `Message` satisfies this.
pub open spec fn wf_message(m: MessageView) -> bool {
    match m {
        MessageView::NetworkM(_) => true,
        MessageView::PaxosM(pm) => wf_content(pm.content),
    }
}

/// The sixteen bytes of a ballot: round, then proposer.
pub open spec fn spec_ballot_bytes(b: Ballot) -> Seq<u8> {
    spec_u64_le(b.round) + spec_u64_le(b.proposer)
}

/// The ballot whose sixteen bytes sit at the front of `s`.
pub open spec fn spec_decode_ballot(s: Seq<u8>) -> Ballot {
    Ballot { round: spec_le_u64(s.subrange(0, 8)), proposer: spec_le_u64(s.subrange(8, 16)) }
}

/// The body bytes of a content: a tag, the ballots, and for `Request` the
/// value behind its length.
#[verifier::opaque]
pub open spec fn spec_encode_content(c: ContentView) -> Seq<u8> {
    match c {
        ContentView::Propose(s) => seq![1u8] + spec_ballot_bytes(s),
        ContentView::Promise(s) => seq![2u8] + spec_ballot_bytes(s),
        ContentView::RejectPropose(s1, s2) => seq![3u8] + spec_ballot_bytes(s1)
            + spec_ballot_bytes(s2),
        ContentView::Request(s, v) => seq![4u8] + spec_ballot_bytes(s) + spec_u64_le(
            v.len() as int,
        ) + v,
        ContentView::Accept(s) => seq![5u8] + spec_ballot_bytes(s),
        ContentView::RejectRequest(s1, s2) => seq![6u8] + spec_ballot_bytes(s1)
            + spec_ballot_bytes(s2),
        ContentView::Commit(s) => seq![7u8] + spec_ballot_bytes(s),
        ContentView::Acknowledge(s) => seq![8u8] + spec_ballot_bytes(s),
    }
}

/// The content at the front of `s`, with how many bytes it took, if `s`
/// starts with a well-formed content.
#[verifier::opaque]
pub open spec fn spec_decode_content(s: Seq<u8>) -> Option<(ContentView, int)> {
    if s.len() < 1 {
        None
    } else {
        let tag = s[0];
        if tag == 1 || tag == 2 || tag == 5 || tag == 7 || tag == 8 {
            if s.len() >= 17 {
                let b = spec_decode_ballot(s.subrange(1, 17));
                let c = if tag == 1 {
                    ContentView::Propose(b)
                } else if tag == 2 {
                    ContentView::Promise(b)
                } else if tag == 5 {
                    ContentView::Accept(b)
                } else if tag == 7 {
                    ContentView::Commit(b)
                } else {
                    ContentView::Acknowledge(b)
                };
                Some((c, 17))
            } else {
                None
            }
        } else if tag == 3 || tag == 6 {
            if s.len() >= 33 {
                let b1 = spec_decode_ballot(s.subrange(1, 17));
                let b2 = spec_decode_ballot(s.subrange(17, 33));
                let c = if tag == 3 {
                    ContentView::RejectPropose(b1, b2)
                } else {
                    ContentView::RejectRequest(b1, b2)
                };
                Some((c, 33))
            } else {
                None
            }
        } else if tag == 4 {
            if s.len() >= 25 {
                let b = spec_decode_ballot(s.subrange(1, 17));
                let l = spec_le_u64(s.subrange(17, 25));
                if 25 + l <= s.len() {
                    Some((ContentView::Request(b, s.subrange(25, 25 + l)), 25 + l))
                } else {
                    None
                }
            } else {
                None
            }
        } else {
            None
        }
    }
}

/// The body bytes of a frame: which kind of message, then its fields.
#[verifier::opaque]
pub open spec fn spec_encode_message(m: MessageView) -> Seq<u8> {
    match m {
        MessageView::NetworkM(nm) => seq![0u8] + spec_u64_le(nm.replica_id as int),
        MessageView::PaxosM(pm) => seq![1u8] + spec_u64_le(pm.instance_id.originator as int)
            + spec_u64_le(pm.instance_id.local_seq as int) + spec_encode_content(pm.content),
    }
}

/// The message at the front of `s`, with how many bytes it took.
#[verifier::opaque]
pub open spec fn spec_decode_message(s: Seq<u8>) -> Option<(MessageView, int)> {
    if s.len() < 1 {
        None
    } else if s[0] == 0 {
        if s.len() >= 9 {
            let nm = NetworkMessage { replica_id: spec_le_u64(s.subrange(1, 9)) as u64 };
            Some((MessageView::NetworkM(nm), 9))
        } else {
            None
        }
    } else if s[0] == 1 {
        if s.len() >= 17 {
            let iid = InstanceID {
                originator: spec_le_u64(s.subrange(1, 9)) as u64,
                local_seq: spec_le_u64(s.subrange(9, 17)) as u64,
            };
            match spec_decode_content(s.skip(17)) {
                Some(p) => Some(
                    (
                        MessageView::PaxosM(
                            PaxosMessageView { instance_id: iid, content: p.0 },
                        ),
                        17 + p.1,
                    ),
                ),
                None => None,
            }
        } else {
            None
        }
    } else {
        None
    }
}

/// The complete wire record of a frame: the body behind its length.
pub open spec fn spec_encode_frame(m: MessageView) -> Seq<u8> {
    spec_u64_le(spec_encode_message(m).len() as int) + spec_encode_message(m)
}

/// What reading a frame off the front of a byte stream yields.
pub enum FrameDecode {
    /// The buffer does not yet hold one complete frame.
    Incomplete,
    /// A complete but unreadable frame of this many bytes sits at the
    /// front; drop it and continue behind it.
    Malformed(int),
    /// This message sits at the front, over this many bytes.
    Decoded(MessageView, int),
}

/// The frame at the front of `s`: incomplete until the length prefix and
/// the full body are present, then decoded or malformed as the body bytes
/// decide.
pub open spec fn spec_decode_frame(s: Seq<u8>) -> FrameDecode {
    if s.len() < 8 {
        FrameDecode::Incomplete
    } else {
        let l = spec_le_u64(s.subrange(0, 8));
        if s.len() < 8 + l {
            FrameDecode::Incomplete
        } else {
            match spec_decode_message(s.subrange(8, 8 + l)) {
                Some(p) => if p.1 == l {
                    FrameDecode::Decoded(p.0, 8 + l)
                } else {
                    FrameDecode::Malformed(8 + l)
                },
                None => FrameDecode::Malformed(8 + l),
            }
        }
    }
}

/// Reading back the sixteen bytes of a ballot yields the ballot.
pub proof fn lemma_ballot_round_trip(b: Ballot)
    requires
        wf_ballot(b),
    ensures
        spec_ballot_bytes(b).len() == 16,
        spec_decode_ballot(spec_ballot_bytes(b)) == b,
{
    lemma_u64_le_round_trip(b.round);
    lemma_u64_le_round_trip(b.proposer);
    assert(spec_ballot_bytes(b).subrange(0, 8) =~= spec_u64_le(b.round));
    assert(spec_ballot_bytes(b).subrange(8, 16) =~= spec_u64_le(b.proposer));
}

/// Reading back an encoded content yields the content, consuming exactly
/// its bytes, whatever follows them.
pub proof fn lemma_content_round_trip(c: ContentView, rest: Seq<u8>)
    requires
        wf_content(c),
    ensures
        spec_decode_content(spec_encode_content(c) + rest) == Some(
            (c, spec_encode_content(c).len() as int),
        ),
{
    reveal(spec_encode_content);
    reveal(spec_decode_content);
    let e = spec_encode_content(c);
    let s = e + rest;
    match c {
        ContentView::Propose(b) => {
            lemma_ballot_round_trip(b);
            assert(s[0] == 1);
            assert(s.subrange(1, 17) =~= spec_ballot_bytes(b));
        },
        ContentView::Promise(b) => {
            lemma_ballot_round_trip(b);
            assert(s[0] == 2);
            assert(s.subrange(1, 17) =~= spec_ballot_bytes(b));
        },
        ContentView::RejectPropose(b1, b2) => {
            lemma_ballot_round_trip(b1);
            lemma_ballot_round_trip(b2);
            assert(s[0] == 3);
            assert(s.subrange(1, 17) =~= spec_ballot_bytes(b1));
            assert(s.subrange(17, 33) =~= spec_ballot_bytes(b2));
        },
        ContentView::Request(b, v) => {
            lemma_ballot_round_trip(b);
            lemma_u64_le_round_trip(v.len() as int);
            assert(s[0] == 4);
            assert(s.subrange(1, 17) =~= spec_ballot_bytes(b));
            assert(s.subrange(17, 25) =~= spec_u64_le(v.len() as int));
            assert(s.subrange(25, 25 + v.len() as int) =~= v);
        },
        ContentView::Accept(b) => {
            lemma_ballot_round_trip(b);
            assert(s[0] == 5);
            assert(s.subrange(1, 17) =~= spec_ballot_bytes(b));
        },
        ContentView::RejectRequest(b1, b2) => {
            lemma_ballot_round_trip(b1);
            lemma_ballot_round_trip(b2);
            assert(s[0] == 6);
            assert(s.subrange(1, 17) =~= spec_ballot_bytes(b1));
            assert(s.subrange(17, 33) =~= spec_ballot_bytes(b2));
        },
        ContentView::Commit(b) => {
            lemma_ballot_round_trip(b);
            assert(s[0] == 7);
            assert(s.subrange(1, 17) =~= spec_ballot_bytes(b));
        },
        ContentView::Acknowledge(b) => {
            lemma_ballot_round_trip(b);
            assert(s[0] == 8);
            assert(s.subrange(1, 17) =~= spec_ballot_bytes(b));
        },
    }
}

/// Reading back an encoded message yields the message, consuming exactly
/// its bytes, whatever follows them.
pub proof fn lemma_message_round_trip(m: MessageView, rest: Seq<u8>)
    requires
        wf_message(m),
    ensures
        spec_decode_message(spec_encode_message(m) + rest) == Some(
            (m, spec_encode_message(m).len() as int),
        ),
{
    reveal(spec_encode_message);
    reveal(spec_decode_message);
    let e = spec_encode_message(m);
    let s = e + rest;
    match m {
        MessageView::NetworkM(nm) => {
            lemma_u64_le_round_trip(nm.replica_id as int);
            assert(s[0] == 0);
            assert(s.subrange(1, 9) =~= spec_u64_le(nm.replica_id as int));
        },
        MessageView::PaxosM(pm) => {
            lemma_u64_le_round_trip(pm.instance_id.originator as int);
            lemma_u64_le_round_trip(pm.instance_id.local_seq as int);
            assert(s[0] == 1);
            assert(s.subrange(1, 9) =~= spec_u64_le(pm.instance_id.originator as int));
            assert(s.subrange(9, 17) =~= spec_u64_le(pm.instance_id.local_seq as int));
            assert(s.skip(17) =~= spec_encode_content(pm.content) + rest);
            lemma_content_round_trip(pm.content, rest);
        },
    }
}

/// An encoded message is never empty and always fits the length word of
/// its frame.
pub proof fn lemma_encode_message_len(m: MessageView)
    requires
        wf_message(m),
    ensures
        1 <= spec_encode_message(m).len(),
        spec_encode_message(m).len() + 8 < word_bound(),
{
    reveal(spec_encode_message);
    reveal(spec_encode_content);
    match m {
        MessageView::NetworkM(_) => {},
        MessageView::PaxosM(pm) => {
            match pm.content {
                ContentView::Request(_, _) => {},
                _ => {},
            }
        },
    }
}

/// A stream whose front is a correct length prefix, a body that reads back
/// as `m`, and anything after it, decodes to `m` over exactly the frame.
proof fn lemma_frame_decode_exact(s: Seq<u8>, body: Seq<u8>, m: MessageView)
    requires
        spec_le_u64(s.subrange(0, 8)) == body.len(),
        s.len() >= 8 + body.len(),
        s.subrange(8, 8 + body.len() as int) == body,
        spec_decode_message(body) == Some((m, body.len() as int)),
    ensures
        spec_decode_frame(s) == FrameDecode::Decoded(m, 8 + body.len() as int),
{
}

/// The front of a concatenation is its first operand.
proof fn lemma_concat_front(a: Seq<u8>, b: Seq<u8>)
    ensures
        (a + b).subrange(0, a.len() as int) == a,
{
    assert((a + b).subrange(0, a.len() as int) =~= a);
}

/// A slice taken just past the first operand of a concatenation comes from
/// the second operand.
proof fn lemma_concat_tail(a: Seq<u8>, b: Seq<u8>, k: int)
    requires
        0 <= k <= b.len(),
    ensures
        (a + b).subrange(a.len() as int, a.len() as int + k) == b.subrange(0, k),
{
    assert((a + b).subrange(a.len() as int, a.len() as int + k) =~= b.subrange(0, k));
}

/// The round trip of the wire format: a frame read back from its own bytes,
/// however they are followed on the stream, yields the original message and
/// consumes exactly the frame.
pub proof fn lemma_frame_round_trip(m: MessageView, rest: Seq<u8>)
    requires
        wf_message(m),
    ensures
        spec_decode_frame(spec_encode_frame(m) + rest) == FrameDecode::Decoded(
            m,
            spec_encode_frame(m).len() as int,
        ),
{
    let body = spec_encode_message(m);
    let l = body.len() as int;
    let p = spec_u64_le(l);
    let e = spec_encode_frame(m);
    let s = e + rest;
    lemma_encode_message_len(m);
    lemma_u64_le_round_trip(l);
    assert(s == p + (body + rest)) by {
        assert(e + rest =~= p + (body + rest));
    }
    assert(s.subrange(0, 8) == p) by {
        lemma_concat_front(p, body + rest);
    }
    assert(s.subrange(8, 8 + l) == body) by {
        lemma_concat_tail(p, body + rest, l);
        lemma_concat_front(body, rest);
    }
    assert(spec_decode_message(body) == Some((m, l))) by {
        assert(body =~= body + Seq::<u8>::empty());
        lemma_message_round_trip(m, Seq::<u8>::empty());
    }
    lemma_frame_decode_exact(s, body, m);
    assert(e.len() == 8 + l);
}

/// Appends the eight little-endian bytes of `x`.
pub fn encode_u64(x: u64, out: &mut Vec<u8>)
    ensures
        final(out)@ == old(out)@ + spec_u64_le(x as int),
{
    out.push((x % 256) as u8);
    out.push(((x / 0x100) % 256) as u8);
    out.push(((x / 0x10000) % 256) as u8);
    out.push(((x / 0x1000000) % 256) as u8);
    out.push(((x / 0x100000000) % 256) as u8);
    out.push(((x / 0x10000000000) % 256) as u8);
    out.push(((x / 0x1000000000000) % 256) as u8);
    out.push(((x / 0x100000000000000) % 256) as u8);
    proof {
        assert(out@ =~= old(out)@ + spec_u64_le(x as int));
    }
}

/// Appends the sixteen bytes of a ballot.
fn encode_seq_id(s: &SequenceID, out: &mut Vec<u8>)
    ensures
        final(out)@ == old(out)@ + spec_ballot_bytes(s@),
{
    encode_u64(s.round, out);
    encode_u64(s.proposer, out);
    proof {
        assert(out@ =~= old(out)@ + spec_ballot_bytes(s@));
    }
}

/// Appends the body bytes of a content.
fn encode_content(c: &PaxosMessageContent, out: &mut Vec<u8>)
    ensures
        final(out)@ == old(out)@ + spec_encode_content(c@),
{
    proof {
        reveal(spec_encode_content);
    }
    match c {
        PaxosMessageContent::Propose(s) => {
            out.push(1u8);
            encode_seq_id(s, out);
        },
        PaxosMessageContent::Promise(s) => {
            out.push(2u8);
            encode_seq_id(s, out);
        },
        PaxosMessageContent::RejectPropose(s1, s2) => {
            out.push(3u8);
            encode_seq_id(s1, out);
            encode_seq_id(s2, out);
        },
        PaxosMessageContent::Request(s, v) => {
            out.push(4u8);
            encode_seq_id(s, out);
            encode_u64(v.len() as u64, out);
            let mut i: usize = 0;
            let ghost mid = out@;
            while i < v.len()
                invariant
                    i <= v@.len(),
                    out@ == mid + v@.take(i as int),
                decreases v@.len() - i,
            {
                out.push(v[i]);
                proof {
                    assert(out@ =~= mid + v@.take(i + 1 as int));
                }
                i = i + 1;
            }
            proof {
                assert(v@.take(v@.len() as int) =~= v@);
            }
        },
        PaxosMessageContent::Accept(s) => {
            out.push(5u8);
            encode_seq_id(s, out);
        },
        PaxosMessageContent::RejectRequest(s1, s2) => {
            out.push(6u8);
            encode_seq_id(s1, out);
            encode_seq_id(s2, out);
        },
        PaxosMessageContent::Commit(s) => {
            out.push(7u8);
            encode_seq_id(s, out);
        },
        PaxosMessageContent::Acknowledge(s) => {
            out.push(8u8);
            encode_seq_id(s, out);
        },
    }
    proof {
        assert(out@ =~= old(out)@ + spec_encode_content(c@));
    }
}

/// Appends the body bytes of a message.
fn encode_message(m: &Message, out: &mut Vec<u8>)
    ensures
        final(out)@ == old(out)@ + spec_encode_message(m@),
{
    proof {
        reveal(spec_encode_message);
    }
    match m {
        Message::NetworkM(nm) => {
            out.push(0u8);
            encode_u64(nm.replica_id, out);
        },
        Message::PaxosM(pm) => {
            out.push(1u8);
            encode_u64(pm.instance_id.originator, out);
            encode_u64(pm.instance_id.local_seq, out);
            encode_content(&pm.content, out);
        },
    }
    proof {
        assert(out@ =~= old(out)@ + spec_encode_message(m@));
    }
}

/// The complete wire record of one frame: length prefix, then body.
pub fn encode_frame(m: &Message) -> (r: Vec<u8>)
    ensures
        r@ == spec_encode_frame(m@),
{
    let mut body: Vec<u8> = Vec::new();
    encode_message(m, &mut body);
    let mut out: Vec<u8> = Vec::new();
    encode_u64(body.len() as u64, &mut out);
    out.append(&mut body);
    proof {
        assert(out@ =~= spec_encode_frame(m@));
    }
    out
}

/// Reads the word whose eight little-endian bytes sit at `start`.
pub fn decode_u64(buf: &Vec<u8>, start: usize) -> (x: u64)
    requires
        start + 8 <= buf@.len(),
    ensures
        x as int == spec_le_u64(buf@.subrange(start as int, start as int + 8)),
{
    let n = buf.len();
    assert(start + 8 <= n);
    let b0 = buf[start] as u64;
    let b1 = buf[start + 1] as u64;
    let b2 = buf[start + 2] as u64;
    let b3 = buf[start + 3] as u64;
    let b4 = buf[start + 4] as u64;
    let b5 = buf[start + 5] as u64;
    let b6 = buf[start + 6] as u64;
    let b7 = buf[start + 7] as u64;
    let x = b0 + b1 * 0x100 + b2 * 0x10000 + b3 * 0x1000000 + b4 * 0x100000000 + b5
        * 0x10000000000 + b6 * 0x1000000000000 + b7 * 0x100000000000000;
    proof {
        let s = buf@.subrange(start as int, start as int + 8);
        assert(s[0] == buf@[start as int]);
        assert(s[1] == buf@[start as int + 1]);
        assert(s[2] == buf@[start as int + 2]);
        assert(s[3] == buf@[start as int + 3]);
        assert(s[4] == buf@[start as int + 4]);
        assert(s[5] == buf@[start as int + 5]);
        assert(s[6] == buf@[start as int + 6]);
        assert(s[7] == buf@[start as int + 7]);
    }
    x
}

/// Reads the ballot whose sixteen bytes sit at `at`.
fn decode_seq_id(buf: &Vec<u8>, at: usize) -> (s: SequenceID)
    requires
        at + 16 <= buf@.len(),
    ensures
        s@ == spec_decode_ballot(buf@.subrange(at as int, at as int + 16)),
{
    let n = buf.len();
    assert(at + 16 <= n);
    let round = decode_u64(buf, at);
    let proposer = decode_u64(buf, at + 8);
    proof {
        let w = buf@.subrange(at as int, at as int + 16);
        assert(w.subrange(0, 8) =~= buf@.subrange(at as int, at as int + 8));
        assert(w.subrange(8, 16) =~= buf@.subrange(at as int + 8, at as int + 16));
    }
    SequenceID { round, proposer }
}

/// Reads the content whose bytes fill the window `bs..be`, if it starts
/// with one, and how many bytes it took.
fn decode_content(buf: &Vec<u8>, bs: usize, be: usize) -> (r: Option<(PaxosMessageContent, usize)>)
    requires
        bs <= be <= buf@.len(),
    ensures
        match r {
            Some(p) => spec_decode_content(buf@.subrange(bs as int, be as int)) == Some(
                (p.0@, p.1 as int),
            ) && p.1 <= be - bs,
            None => spec_decode_content(buf@.subrange(bs as int, be as int)) is None,
        },
{
    proof {
        reveal(spec_decode_content);
    }
    let ghost w = buf@.subrange(bs as int, be as int);
    let n = buf.len();
    assert(be <= n);
    if be - bs < 1 {
        return None;
    }
    let tag = buf[bs];
    assert(w[0] == tag);
    if tag == 1 || tag == 2 || tag == 5 || tag == 7 || tag == 8 {
        if be - bs >= 17 {
            let sid = decode_seq_id(buf, bs + 1);
            proof {
                assert(w.subrange(1, 17) =~= buf@.subrange(bs as int + 1, bs as int + 17));
            }
            let c = if tag == 1 {
                PaxosMessageContent::Propose(sid)
            } else if tag == 2 {
                PaxosMessageContent::Promise(sid)
            } else if tag == 5 {
                PaxosMessageContent::Accept(sid)
            } else if tag == 7 {
                PaxosMessageContent::Commit(sid)
            } else {
                PaxosMessageContent::Acknowledge(sid)
            };
            Some((c, 17))
        } else {
            None
        }
    } else if tag == 3 || tag == 6 {
        if be - bs >= 33 {
            let s1 = decode_seq_id(buf, bs + 1);
            let s2 = decode_seq_id(buf, bs + 17);
            proof {
                assert(w.subrange(1, 17) =~= buf@.subrange(bs as int + 1, bs as int + 17));
                assert(w.subrange(17, 33) =~= buf@.subrange(bs as int + 17, bs as int + 33));
            }
            let c = if tag == 3 {
                PaxosMessageContent::RejectPropose(s1, s2)
            } else {
                PaxosMessageContent::RejectRequest(s1, s2)
            };
            Some((c, 33))
        } else {
            None
        }
    } else if tag == 4 {
        if be - bs >= 25 {
            let sid = decode_seq_id(buf, bs + 1);
            let l = decode_u64(buf, bs + 17);
            proof {
                assert(w.subrange(1, 17) =~= buf@.subrange(bs as int + 1, bs as int + 17));
                assert(w.subrange(17, 25) =~= buf@.subrange(bs as int + 17, bs as int + 25));
            }
            if l <= (be - bs - 25) as u64 {
                let lu = l as usize;
                let mut v: Vec<u8> = Vec::new();
                let mut i: usize = 0;
                while i < lu
                    invariant
                        i <= lu,
                        bs + 25 + lu <= be <= buf@.len(),
                        v@ == buf@.subrange(bs as int + 25, bs as int + 25 + i as int),
                    decreases lu - i,
                {
                    v.push(buf[bs + 25 + i]);
                    proof {
                        assert(v@ =~= buf@.subrange(
                            bs as int + 25,
                            bs as int + 25 + (i + 1) as int,
                        ));
                    }
                    i = i + 1;
                }
                proof {
                    assert(w.subrange(25, 25 + l as int) =~= buf@.subrange(
                        bs as int + 25,
                        bs as int + 25 + l as int,
                    ));
                }
                Some((PaxosMessageContent::Request(sid, v), 25 + lu))
            } else {
                None
            }
        } else {
            None
        }
    } else {
        None
    }
}

/// Reads the message whose bytes fill the window `bs..be`, if it starts
/// with one, and how many bytes it took.
fn decode_message(buf: &Vec<u8>, bs: usize, be: usize) -> (r: Option<(Message, usize)>)
    requires
        bs <= be <= buf@.len(),
    ensures
        match r {
            Some(p) => spec_decode_message(buf@.subrange(bs as int, be as int)) == Some(
                (p.0@, p.1 as int),
            ) && p.1 <= be - bs,
            None => spec_decode_message(buf@.subrange(bs as int, be as int)) is None,
        },
{
    proof {
        reveal(spec_decode_message);
    }
    let ghost w = buf@.subrange(bs as int, be as int);
    let n = buf.len();
    assert(be <= n);
    if be - bs < 1 {
        return None;
    }
    let tag = buf[bs];
    assert(w[0] == tag);
    if tag == 0 {
        if be - bs >= 9 {
            let rid = decode_u64(buf, bs + 1);
            proof {
                assert(w.subrange(1, 9) =~= buf@.subrange(bs as int + 1, bs as int + 9));
            }
            Some((Message::NetworkM(NetworkMessage { replica_id: rid }), 9))
        } else {
            None
        }
    } else if tag == 1 {
        if be - bs >= 17 {
            let originator = decode_u64(buf, bs + 1);
            let local_seq = decode_u64(buf, bs + 9);
            proof {
                assert(w.subrange(1, 9) =~= buf@.subrange(bs as int + 1, bs as int + 9));
                assert(w.subrange(9, 17) =~= buf@.subrange(bs as int + 9, bs as int + 17));
                assert(w.skip(17) =~= buf@.subrange(bs as int + 17, be as int));
            }
            match decode_content(buf, bs + 17, be) {
                Some((c, used)) => {
                    let iid = InstanceID { originator, local_seq };
                    Some((Message::PaxosM(PaxosMessage { instance_id: iid, content: c }), 17
                        + used))
                },
                None => None,
            }
        } else {
            None
        }
    } else {
        None
    }
}

/// What `decode_frame` found at the front of the buffer.
#[derive(Debug)]
pub enum DecodedFrame {
    /// The buffer does not yet hold one complete frame: read more bytes.
    Incomplete,
    /// A complete but unreadable frame of this many bytes sits at the
    /// front: drop it and continue behind it.
    Malformed(usize),
    /// This message sits at the front, over this many bytes.
    Frame(Message, usize),
}

/// The executable outcome agrees with the specified one.
pub open spec fn decoded_matches(d: DecodedFrame, s: FrameDecode) -> bool {
    match (d, s) {
        (DecodedFrame::Incomplete, FrameDecode::Incomplete) => true,
        (DecodedFrame::Malformed(k), FrameDecode::Malformed(j)) => k as int == j,
        (DecodedFrame::Frame(m, u), FrameDecode::Decoded(mv, j)) => m@ == mv && u as int == j,
        _ => false,
    }
}

/// Reads one frame off `buf` at `start`: incomplete until the length
/// prefix and the whole body are buffered, then the decoded message or a
/// malformed record to skip.
pub fn decode_frame(buf: &Vec<u8>, start: usize) -> (d: DecodedFrame)
    requires
        start <= buf@.len(),
    ensures
        decoded_matches(d, spec_decode_frame(buf@.skip(start as int))),
{
    let ghost s = buf@.skip(start as int);
    let n = buf.len();
    let avail = n - start;
    if avail < 8 {
        return DecodedFrame::Incomplete;
    }
    let l = decode_u64(buf, start);
    proof {
        assert(s.subrange(0, 8) =~= buf@.subrange(start as int, start as int + 8));
    }
    let rem = (avail - 8) as u64;
    if rem < l {
        return DecodedFrame::Incomplete;
    }
    let lu = l as usize;
    proof {
        assert(s.subrange(8, 8 + l as int) =~= buf@.subrange(
            start as int + 8,
            start as int + 8 + l as int,
        ));
    }
    match decode_message(buf, start + 8, start + 8 + lu) {
        Some((m, used)) => {
            if used == lu {
                DecodedFrame::Frame(m, 8 + lu)
            } else {
                DecodedFrame::Malformed(8 + lu)
            }
        },
        None => DecodedFrame::Malformed(8 + lu),
    }
}

} // verus!
