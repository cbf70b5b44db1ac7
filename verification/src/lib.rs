use vstd::prelude::*;

pub mod api;
pub mod bytecode;
pub mod cli;
pub mod compiler;
pub mod config;
pub mod error;
pub mod errors;
pub mod events;
pub mod federation;
pub mod governance;
pub mod identity;
pub mod kv;
pub mod models;
pub mod numeric;
pub mod ops;
pub mod response;
pub mod text;
pub mod time;

pub use crate::compiler::parse_dsl;
pub use crate::ops::Op;

verus! {

} // verus!
