use vstd::prelude::*;
use std::collections::HashMap;

verus! {

/// A version of the API: its semver string, release date, stability and
/// planned deprecation.
#[derive(Debug, Clone)]
pub struct ApiVersion {
    pub version: String,
    pub released: String,
    pub stable: bool,
    pub deprecation_date: Option<String>,
}

/// An edge of a macro's visual graph.
#[derive(Debug, Clone)]
pub struct EdgeInfo {
    pub id: String,
    pub source: String,
    pub target: String,
    pub animated: Option<bool>,
    pub label: Option<String>,
}

/// A page of macro summaries.
#[derive(Debug, Clone)]
pub struct MacroListResponse {
    pub total: usize,
    pub page: usize,
    pub page_size: usize,
    pub macros: Vec<MacroSummary>,
}

/// What a listing says of one macro.
#[derive(Debug, Clone)]
pub struct MacroSummary {
    pub id: String,
    pub name: String,
    pub description: Option<String>,
    pub created_at: String,
    pub updated_at: String,
    pub category: Option<String>,
}

/// A file attached to a proposal.
#[derive(Debug, Clone)]
pub struct ProposalAttachment {
    pub name: String,
    pub mime_type: String,
    pub content: String,
}

/// Votes by kind, with their total.
#[derive(Debug, Clone)]
pub struct VoteCounts {
    pub yes: u32,
    pub no: u32,
    pub abstain: u32,
    pub total: u32,
}

/// A new comment as a client submits it.
#[derive(Debug, Clone)]
pub struct CreateCommentRequest {
    pub content: String,
    pub reply_to: Option<String>,
    pub tags: Vec<String>,
}

/// Page number (from 1) and page size of a listing.
#[derive(Debug, Clone)]
pub struct PaginationParams {
    pub page: Option<usize>,
    pub page_size: Option<usize>,
}

/// Field and direction ("asc" or "desc") a listing is sorted by.
#[derive(Debug, Clone)]
pub struct SortParams {
    pub sort_by: Option<String>,
    pub sort_dir: Option<String>,
}

/// A record of a proposal's execution.
#[derive(Debug)]
pub struct ProposalExecution {
    pub proposal_id: String,
    pub status: String,
    pub execution_result: String,
    pub execution_logs: String,
    pub executed_at: String,
}

/// A file attached to a proposal, stored elsewhere.
#[derive(Debug)]
pub struct Attachment {
    pub name: String,
    pub content_type: String,
    pub url: String,
    pub size: i64,
}

/// A stored macro.
#[derive(Debug)]
pub struct Macro {
    pub id: String,
    pub name: String,
    pub description: String,
    pub dsl_code: String,
    pub version: i32,
    pub created_at: String,
    pub updated_at: String,
    pub created_by: String,
    pub tags: Vec<String>,
}

/// The fields of a macro that an update changes.
#[derive(Debug)]
pub struct UpdateMacroRequest {
    pub name: Option<String>,
    pub description: Option<String>,
    pub dsl_code: Option<String>,
    pub tags: Option<Vec<String>>,
}

/// What a storage backend says of itself.
#[derive(Debug)]
pub struct StorageInfo {
    pub name: String,
    pub description: String,
    pub version: String,
    pub item_count: i64,
    pub size_bytes: i64,
}

/// A user account.
#[derive(Debug)]
pub struct User {
    pub id: String,
    pub username: String,
    pub email: String,
    pub roles: Vec<String>,
    pub created_at: String,
    pub updated_at: String,
    pub last_login: Option<String>,
}

/// A new user account as a client submits it.
#[derive(Debug)]
pub struct CreateUserRequest {
    pub username: String,
    pub email: String,
    pub password: String,
    pub roles: Option<Vec<String>>,
}

/// The credentials of a login.
#[derive(Debug)]
pub struct LoginRequest {
    pub username: String,
    pub password: String,
}

/// The answer to a login.
#[derive(Debug)]
pub struct LoginResponse {
    pub token: String,
    pub expires_at: String,
    pub user: User,
}

/// The body of an error reply.
#[derive(Debug)]
pub struct ErrorResponse {
    pub error: String,
    pub message: String,
    pub status_code: u16,
}

/// The body of a successful reply.
#[derive(Debug)]
pub struct SuccessResponse<T> {
    pub data: T,
}

/// A page of a listing.
#[derive(Debug)]
pub struct PagedResponse<T> {
    pub total: usize,
    pub page: usize,
    pub page_size: usize,
    pub data: Vec<T>,
}

/// What a listing says of one version of an execution result.
#[derive(Debug)]
pub struct ExecutionVersionMeta {
    pub version: u64,
    pub executed_at: String,
    pub success: bool,
    pub summary: String,
}

/// The versions of an execution result.
#[derive(Debug)]
pub struct ExecutionVersionsResponse {
    pub total: usize,
    pub versions: Vec<ExecutionVersionMeta>,
}

/// Which version of an execution result a request asks for.
#[derive(Debug)]
pub struct ExecutionVersionQuery {
    pub version: Option<u64>,
}

/// The parameters a macro is executed with.
#[derive(Debug)]
pub struct ExecuteMacroRequest {
    pub params: HashMap<String, serde_json::Value>,
}

} // verus!
