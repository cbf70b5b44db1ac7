//! Helpers of the proposal endpoints: reading a stored vote type and
//! cutting a listing into pages.

use vstd::prelude::*;
use crate::api::proposal_api::VoteType;
use crate::text::{lowercase, str_eq, to_lowercase};

verus! {

/// The outcome of executing a proposal's logic: whether it succeeded, its
/// output, its logs and the version of the result.
#[derive(Debug)]
pub struct ExecutionResponse {
    pub success: bool,
    pub output: serde_json::Value,
    pub logs: String,
    pub version: u64,
}

/// The vote type a lowercase name stands for.
pub open spec fn vote_type_named(s: Seq<char>) -> Option<VoteType> {
    if s == "yes"@ {
        Some(VoteType::Yes)
    } else if s == "no"@ {
        Some(VoteType::No)
    } else if s == "abstain"@ {
        Some(VoteType::Abstain)
    } else {
        None
    }
}

/// The vote type a stored name stands for, in any case: `yes`, `no` or
/// `abstain`.
pub fn storage_vote_type_to_api(vote_type: &str) -> (r: Option<VoteType>)
    ensures
        r == vote_type_named(lowercase(vote_type@)),
{
    let lower = to_lowercase(vote_type);
    if str_eq(lower.as_str(), "yes") {
        Some(VoteType::Yes)
    } else if str_eq(lower.as_str(), "no") {
        Some(VoteType::No)
    } else if str_eq(lower.as_str(), "abstain") {
        Some(VoteType::Abstain)
    } else {
        None
    }
}

/// Whether a page can be cut without the arithmetic failing: a page size
/// above zero, a page count that fits, and a first item not past the end.
pub open spec fn page_in_range(total: int, page: u64, page_size: u64) -> bool {
    &&& page_size > 0
    &&& total + page_size <= u64::MAX
    &&& (if page == 0 { 0 } else { page - 1 }) * page_size <= total
}

/// The first index of a page (pages count from 1; page 0 is page 1).
pub open spec fn page_start(page: u64, page_size: u64) -> int {
    (if page == 0 { 0 } else { page - 1 }) * page_size
}

/// The items of page `page`, their total, the page asked for and the number
/// of pages.
pub fn paginate_proposals<T>(proposals: Vec<T>, page: u64, page_size: u64) -> (r: (Vec<T>, usize, u64, u64))
    requires
        page_in_range(proposals@.len() as int, page, page_size),
    ensures
        ({
            let start = page_start(page, page_size);
            let end = if start + page_size < proposals@.len() { start + page_size } else { proposals@.len() as int };
            &&& r.0@ == proposals@.subrange(start, end)
            &&& r.1 == proposals@.len()
            &&& r.2 == page
            &&& r.3 == (proposals@.len() + page_size - 1) / (page_size as int)
        }),
{
    let total = proposals.len();
    let ghost n = total as int;
    let total64 = total as u64;
    assert(total64 == n) by {
        assert(n + page_size <= u64::MAX);
    }
    let page_count = (total64 + page_size - 1) / page_size;
    let prev = if page == 0 { 0 } else { page - 1 };
    assert(prev * page_size <= n);
    let start64 = prev * page_size;
    let start = start64 as usize;
    let end = if (total - start) as u64 > page_size { start + page_size as usize } else { total };
    let mut proposals = proposals;
    let ghost all = proposals@;
    let mut rest: Vec<T> = proposals.split_off(start);
    assert(rest@ == all.subrange(start as int, n));
    let _ = rest.split_off(end - start);
    (rest, total, page, page_count)
}

} // verus!
