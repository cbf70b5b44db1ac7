//! The federation layer: the messages nodes exchange, its errors, and the
//! store of federated proposals and votes.

use vstd::prelude::*;

pub mod error;
pub mod messages;
pub mod storage;

pub use crate::federation::error::FederationError;
pub use crate::federation::messages::{FederatedProposal, FederatedVote, NetworkMessage, NodeAnnouncement, Ping, Pong};
pub use crate::federation::storage::{FederationStorage, VoteTallyResult};

verus! {

/// The protocol name under which federation nodes talk.
pub const PROTOCOL_ID: &'static str = "/icn-covm/federation/1.0.0";

} // verus!
