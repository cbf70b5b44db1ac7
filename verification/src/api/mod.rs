pub mod auth;
pub mod dsl_api;
pub mod error;
pub mod proposal_api;
pub mod storage;
pub mod v1;
