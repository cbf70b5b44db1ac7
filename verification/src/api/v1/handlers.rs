use vstd::prelude::*;

pub mod execution;

verus! {

/// Which version of an execution result a request asks for.
#[derive(Debug)]
pub struct ExecutionResultQuery {
    pub version: Option<u64>,
}

} // verus!
