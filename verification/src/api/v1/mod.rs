pub mod executions;
pub mod handlers;
pub mod models;
pub mod proposals;
