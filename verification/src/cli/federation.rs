//! Helpers of the federation commands.

use vstd::prelude::*;
use crate::governance::proposal_lifecycle::VoteChoice;

verus! {

/// The IEEE 754 bits of `1.0_f64`.
pub const ONE_F64_BITS: u64 = 0x3FF0000000000000;

/// The bits of `0.0_f64`.
pub const ZERO_F64_BITS: u64 = 0;

/// The ranking a yes/no/abstain vote stands for over the options `Yes` and
/// `No`, each weight kept as the bits of an `f64`: yes is `[1.0, 0.0]`, no is
/// `[0.0, 1.0]`, abstain is `[0.0, 0.0]`.
pub open spec fn ranking_of(choice: VoteChoice) -> Seq<u64> {
    match choice {
        VoteChoice::Yes => seq![ONE_F64_BITS, ZERO_F64_BITS],
        VoteChoice::No => seq![ZERO_F64_BITS, ONE_F64_BITS],
        VoteChoice::Abstain => seq![ZERO_F64_BITS, ZERO_F64_BITS],
    }
}

/// The ranked choices a yes/no/abstain vote is sent as.
pub fn vote_choice_to_ranked_choices(choice: &VoteChoice) -> (r: Vec<u64>)
    ensures
        r@ == ranking_of(*choice),
{
    match choice {
        VoteChoice::Yes => vec![ONE_F64_BITS, ZERO_F64_BITS],
        VoteChoice::No => vec![ZERO_F64_BITS, ONE_F64_BITS],
        VoteChoice::Abstain => vec![ZERO_F64_BITS, ZERO_F64_BITS],
    }
}

} // verus!
