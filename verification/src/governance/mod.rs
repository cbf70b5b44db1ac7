pub mod comments;
pub mod proposal_lifecycle;

pub use crate::governance::comments::{CommentVersion, ProposalComment};
pub use crate::governance::proposal_lifecycle::{Comment, ExecutionStatus, ProposalLifecycle, ProposalState};
