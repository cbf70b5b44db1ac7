//! What the command-line front end computes: the text it shows and the
//! arguments it reads.

pub mod federation;
pub mod proposal;
pub mod proposal_step;
pub mod thread;
