use vstd::prelude::*;
use std::time::Duration;

verus! {

/// The messages that federation nodes exchange.
#[derive(Debug, Clone)]
pub enum NetworkMessage {
    NodeAnnouncement(NodeAnnouncement),
    Ping(Ping),
    Pong(Pong),
}

/// A node's announcement of itself: its id, capabilities, software version
/// and optional name.
#[derive(Debug, Clone)]
pub struct NodeAnnouncement {
    pub node_id: String,
    pub capabilities: Vec<String>,
    pub version: String,
    pub name: Option<String>,
}

/// A ping, with a nonce that the pong repeats and the time it was sent.
#[derive(Debug, Clone, Copy)]
pub struct Ping {
    pub nonce: u64,
    pub timestamp_ms: u64,
}

/// The answer to a ping: the ping's nonce, the time it was sent, and
/// optionally how long the connection may live.
#[derive(Debug)]
pub struct Pong {
    pub nonce: u64,
    pub timestamp_ms: u64,
    pub ttl: Option<Duration>,
}

impl Clone for Pong {
    fn clone(&self) -> (p: Self)
        ensures
            p == *self,
    {
        Pong { nonce: self.nonce, timestamp_ms: self.timestamp_ms, ttl: self.ttl }
    }
}

/// A proposal shared across the federation: its id, the namespace it lives
/// in, the options to vote on, its creator, and its creation time (seconds
/// since the Unix epoch).
#[derive(Debug, Clone)]
pub struct FederatedProposal {
    pub proposal_id: String,
    pub namespace: String,
    pub options: Vec<String>,
    pub creator: String,
    pub created_at: i64,
}

/// How the votes on a federated proposal count: each member's vote, or one
/// vote per cooperative.
#[derive(Debug, Clone, Copy, PartialEq, Eq, Structural)]
pub enum VotingModel {
    OneMemberOneVote,
    OneCoopOneVote,
}

/// A vote on a federated proposal: the voter's ranking of the options and
/// the voter's signature. Each ranking value is an `f64`, kept as its IEEE
/// 754 bits (`f64::to_bits`).
#[derive(Debug, Clone)]
pub struct FederatedVote {
    pub proposal_id: String,
    pub voter: String,
    pub ranked_choices: Vec<u64>,
    pub signature: String,
}

} // verus!
