use vstd::prelude::*;

verus! {

/// The list of macros that the macro listing answers with.
#[derive(Debug)]
pub struct MacroListResponse {
    macros: Vec<MacroInfo>,
}

/// What the listing says of one macro.
#[derive(Debug)]
pub struct MacroInfo {
    id: String,
    name: String,
    description: Option<String>,
    created_at: String,
    updated_at: String,
    category: Option<String>,
}

/// An edge of a macro's visual graph.
#[derive(Debug)]
pub struct EdgeInfo {
    id: String,
    source: String,
    target: String,
    animated: Option<bool>,
    label: Option<String>,
}

} // verus!
