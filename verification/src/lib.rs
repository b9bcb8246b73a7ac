//! A single-decree Paxos core: per-instance proposer/acceptor state machines,
//! the wire codec for the frames the replicas exchange, the per-peer routing
//! rules, and the link-establishment rule, together with proofs of the
//! protocol's central invariants.

pub mod codec;
pub mod communicator;
pub mod connection_handler;
pub mod instance;
pub mod laws;
pub mod message;
pub mod protocol;
pub mod replica;
