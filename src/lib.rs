//! The decision-making core of a leader-driven, Paxos-style consensus
//! protocol: a per-node replica state machine, the quorum it counts
//! acknowledgements with, and the messages replicas exchange.

pub mod message;
pub mod quorum;
pub mod replica;

pub use message::{Message, MessageKind, MessageKindModel, MessageModel};
pub use quorum::{Quorum, QuorumModel};
pub use replica::{PhaseModel, Replica, ReplicaModel};
