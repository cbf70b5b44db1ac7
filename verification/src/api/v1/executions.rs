use vstd::prelude::*;

verus! {

/// Which version of an execution result a request asks for; none means the
/// latest.
#[derive(Debug)]
pub struct ExecutionResultQuery {
    pub version: Option<u32>,
}

} // verus!
