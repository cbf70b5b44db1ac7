use vstd::prelude::*;

verus! {

/// Which version of an execution result a request asks for; none means the
/// latest.
#[derive(Debug)]
pub struct ExecutionVersionQuery {
    pub version: Option<u64>,
}

} // verus!
