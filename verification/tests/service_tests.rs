use icn_covm::api::auth::{require_role, AuthInfo};
use icn_covm::api::error::{any_error, bad_request, forbidden, internal_error, not_found, unauthorized, ApiError};
use icn_covm::config::{Config, ConfigError, Environment};
use icn_covm::errors::{refusal_reply, ApiError as AppApiError, Refusal};
use icn_covm::governance::comments::{
    comment_path, comment_version_path, edit_comment, fetch_comments_threaded, hide_comment, ProposalComment,
};
use icn_covm::models::{PaginatedResponse, Proposal, ProposalStatus, Vote, VoteType};
use icn_covm::response::{created, ok, paginated, ApiResponse, ResponseMeta};

fn auth(roles: &[&str]) -> AuthInfo {
    AuthInfo { user_id: "u".to_string(), did: None, roles: roles.iter().map(|r| r.to_string()).collect() }
}

#[test]
fn test_api_error_constructors_and_text() {
    assert!(matches!(not_found("x"), ApiError::NotFound(m) if m == "x"));
    assert!(matches!(bad_request("y"), ApiError::BadRequest(m) if m == "y"));
    assert!(matches!(unauthorized("z"), ApiError::Unauthorized(m) if m == "z"));
    assert!(matches!(forbidden("w"), ApiError::Forbidden(m) if m == "w"));
    assert!(matches!(internal_error("v"), ApiError::InternalServerError(m) if m == "v"));
    assert!(matches!(any_error("boom"), ApiError::InternalServerError(m) if m == "boom"));
    assert_eq!(not_found("proposal").to_string(), "Not Found: proposal");
    assert_eq!(internal_error("db").to_string(), "Internal Server Error: db");
}

#[test]
fn test_require_role() {
    let ok_auth = require_role(auth(&["user", "admin"]), "admin").unwrap();
    assert_eq!(ok_auth.user_id, "u");
    match require_role(auth(&["user"]), "admin") {
        Err(ApiError::Forbidden(m)) => assert_eq!(m, "Insufficient permissions"),
        other => panic!("unexpected {:?}", other),
    }
}

#[test]
fn test_refusal_replies() {
    let r = refusal_reply(&Refusal::NoRoute);
    assert_eq!((r.code, r.message.as_str(), r.status.as_str()), (404, "Not Found", "error"));
    let r = refusal_reply(&Refusal::Api(AppApiError::InvalidOperation("nope".to_string())));
    assert_eq!((r.code, r.message.as_str()), (422, "nope"));
    let r = refusal_reply(&Refusal::Api(AppApiError::InvalidInput("bad".to_string())));
    assert_eq!(r.code, 400);
    let r = refusal_reply(&Refusal::CorsForbidden("origin".to_string()));
    assert_eq!((r.code, r.message.as_str()), (403, "CORS forbidden: origin"));
    let r = refusal_reply(&Refusal::BadBody("eof".to_string()));
    assert_eq!((r.code, r.message.as_str()), (400, "Invalid request data: eof"));
    let r = refusal_reply(&Refusal::Other);
    assert_eq!((r.code, r.message.as_str()), (500, "Internal Server Error"));
    assert_eq!(AppApiError::Forbidden("f".to_string()).to_string(), "Forbidden: f");
}

#[test]
fn test_environment() {
    assert_eq!(Environment::from_str("PRODUCTION"), Environment::Production);
    assert_eq!(Environment::from_str("Testing"), Environment::Testing);
    assert_eq!(Environment::from_str("staging"), Environment::Development);
    assert!(Environment::from_str("production").is_prod());
    assert!(Environment::Development.is_dev());
    assert!(Environment::Testing.is_test());
    assert!(!Environment::Testing.is_dev());
}

fn s(x: &str) -> Option<String> {
    Some(x.to_string())
}

#[test]
fn test_config_from_vars() {
    let c = Config::from_vars(None, s("postgres://db"), None, None, s(" a.com , b.com,"), s("secret"), None).unwrap();
    assert_eq!(c.environment, Environment::Development);
    assert_eq!(c.database_url, "postgres://db");
    assert_eq!(c.server_host, "127.0.0.1");
    assert_eq!(c.server_port, 3030);
    assert_eq!(c.cors_allowed_origins, vec!["a.com", "b.com", ""]);
    assert_eq!(c.auth_token_expires_in, std::time::Duration::from_secs(86400));

    let c = Config::from_vars(s("production"), s("d"), s("0.0.0.0"), s("8080"), None, s("k"), s("60")).unwrap();
    assert_eq!(c.environment, Environment::Production);
    assert_eq!(c.server_port, 8080);
    assert_eq!(c.cors_allowed_origins, vec!["http://localhost:3000"]);
    assert_eq!(c.auth_token_expires_in, std::time::Duration::from_secs(60));

    assert_eq!(
        Config::from_vars(None, None, None, None, None, s("k"), None).unwrap_err(),
        ConfigError::MissingDatabaseUrl
    );
    assert_eq!(
        Config::from_vars(None, s("d"), None, s("70000"), None, s("k"), None).unwrap_err(),
        ConfigError::InvalidServerPort
    );
    assert_eq!(
        Config::from_vars(None, s("d"), None, None, None, None, None).unwrap_err(),
        ConfigError::MissingAuthSecret
    );
    assert_eq!(
        Config::from_vars(None, s("d"), None, None, None, s("k"), s("-1")).unwrap_err(),
        ConfigError::InvalidTokenLifetime
    );
    assert_eq!(ConfigError::InvalidServerPort.message(), "SERVER_PORT must be a valid number");
}

#[test]
fn test_responses() {
    let r = ApiResponse::success("done", 5);
    assert_eq!((r.status.as_str(), r.message.as_str(), r.data), ("success", "done", 5));
    assert!(r.meta.is_none());
    let r = ApiResponse::error("bad", ());
    assert_eq!(r.status, "error");
    let r = ApiResponse::no_content(());
    assert_eq!(r.message, "No content");
    let r = ok(1);
    assert_eq!(r.message, "Success");
    let r = created(1);
    assert_eq!(r.message, "Created successfully");
    let r = paginated(vec![1, 2], 2, 10, 42);
    let m: ResponseMeta = r.meta.unwrap();
    assert_eq!((m.total, m.page, m.per_page), (42, 2, 10));
}

#[test]
fn test_models() {
    assert_eq!(ProposalStatus::default(), ProposalStatus::Draft);
    let author = uuid::Uuid::new_v4();
    let mut p = Proposal::new("t".to_string(), "d".to_string(), author, vec!["x".to_string()]);
    assert_eq!(p.status, ProposalStatus::Draft);
    assert_eq!(p.created_at, p.updated_at);
    assert_eq!(p.author_id, author);
    assert_eq!(p.vote_count(), 0);
    for t in [VoteType::Up, VoteType::Up, VoteType::Down, VoteType::Neutral, VoteType::Up] {
        p.votes.push(Vote { user_id: uuid::Uuid::new_v4(), vote_type: t, created_at: 0 });
    }
    assert_eq!(p.vote_count(), 2);

    let page = PaginatedResponse::new(vec![1, 2, 3], 1, 10, 25);
    assert_eq!(page.total_pages, 3);
    let page = PaginatedResponse::new(Vec::<u8>::new(), 1, 0, 0);
    assert_eq!(page.total_pages, 0);
    let page = PaginatedResponse::new(vec![1], 1, 5, 5);
    assert_eq!(page.total_pages, 1);
}

#[test]
fn test_comments() {
    let mut c = ProposalComment::new("did:a".to_string(), "first".to_string(), None, vec!["x".to_string()]);
    assert_eq!(c.edit_history.len(), 1);
    assert!(!c.hidden);
    c.add_tags(&["y".to_string(), "x".to_string(), "z".to_string()]);
    assert_eq!(c.tags, vec!["x", "y", "z"]);
    c.add_reaction("+1");
    c.add_reaction("+1");
    c.add_reaction("heart");
    assert_eq!(c.reactions.get("+1"), Some(2));
    assert_eq!(c.reactions.get("heart"), Some(1));
    assert_eq!(c.reactions.get("-1"), None);

    assert_eq!(edit_comment(&mut c, "did:b", "nope").unwrap_err(), "Only the original author can edit a comment");
    assert_eq!(edit_comment(&mut c, "did:a", "second").unwrap(), 1);
    assert_eq!(c.content, "second");
    assert_eq!(c.get_versions().len(), 2);
    assert_eq!(c.get_versions()[1].content, "second");

    assert_eq!(hide_comment(&mut c, "did:b").unwrap_err(), "Only the original author can hide a comment");
    hide_comment(&mut c, "did:a").unwrap();
    assert!(c.hidden);

    let other = ProposalComment::new("did:c".to_string(), "hello".to_string(), Some(c.id.clone()), vec![]);
    let shown = fetch_comments_threaded(vec![c.clone(), other.clone()], false);
    assert_eq!(shown.len(), 1);
    assert_eq!(shown[0].content, "hello");
    assert_eq!(fetch_comments_threaded(vec![c, other], true).len(), 2);

    assert_eq!(comment_path("p1", "c1"), "governance/proposals/p1/comments/c1");
    assert_eq!(comment_version_path("p1", "c1", 12), "governance/proposals/p1/comments/versions/c1/12");
}

#[test]
fn program_parameters_split_at_first_equals() {
    assert_eq!(
        icn_covm::config::parse_parameter("a=b=c"),
        Some(("a".to_string(), "b=c".to_string()))
    );
    assert_eq!(icn_covm::config::parse_parameter("=x"), Some((String::new(), "x".to_string())));
    assert_eq!(icn_covm::config::parse_parameter("novalue"), None);
}

#[test]
fn string_map_keys_keep_first_arrival_order() {
    let mut m = icn_covm::kv::StringMap::new();
    m.insert("b", "1");
    m.insert("a", "2");
    m.insert("b", "3");
    assert_eq!(m.keys(), vec!["b".to_string(), "a".to_string()]);
    assert_eq!(m.get("b").map(|s| s.as_str()), Some("3"));
}

#[test]
fn storage_keys_of_proposals() {
    let keys = vec![
        "proposals/p1".to_string(),
        "proposals/p1/votes/v1".to_string(),
        "proposals/p1/comments/c1".to_string(),
        "proposals/p1/attachments/a".to_string(),
        "proposals/p1/execution_result".to_string(),
        "proposals/p2".to_string(),
    ];
    assert_eq!(
        icn_covm::api::storage::proposal_record_keys(keys),
        vec!["proposals/p1".to_string(), "proposals/p2".to_string()]
    );
    assert_eq!(icn_covm::api::storage::proposal_key("x"), "proposals/x");
    assert_eq!(icn_covm::api::storage::proposal_items_prefix("x", "votes"), "proposals/x/votes/");
    assert_eq!(icn_covm::api::storage::proposal_item_key("x", "comments", "c9"), "proposals/x/comments/c9");
    assert_eq!(
        icn_covm::api::storage::proposal_entry_key("x", "execution_logs"),
        "proposals/x/execution_logs"
    );
}

#[test]
fn app_errors_status_and_text() {
    let e = icn_covm::error::AppError::EntityNotFound("proposal 7".to_string());
    assert_eq!(e.status_code(), 404);
    assert_eq!(e.to_string(), "Not found: proposal 7");
    let v = icn_covm::error::AppError::ValidationError {
        fields: vec![("title".to_string(), vec!["too short".to_string()])],
        report: "title: too short".to_string(),
    };
    assert_eq!(v.status_code(), 400);
    assert_eq!(v.to_string(), "Validation error: title: too short");
    assert_eq!(icn_covm::error::AppError::ExternalServiceError(String::new()).status_code(), 502);
    assert_eq!(icn_covm::error::AppError::UnauthorizedError("x".to_string()).to_string(), "Unauthorized: x");
}

#[test]
fn bearer_headers_and_anonymous_users() {
    let a = icn_covm::api::auth::authenticate(Some("BEARER abc"));
    assert_eq!(a.user_id, "user123");
    assert_eq!(a.did.as_deref(), Some("did:example:123456789abcdefghi"));
    assert_eq!(a.roles, vec!["user".to_string(), "admin".to_string()]);
    let anon = icn_covm::api::auth::authenticate(Some("Basic abc"));
    assert_eq!(anon.user_id, "anonymous");
    assert!(anon.did.is_none());
    assert_eq!(icn_covm::api::auth::authenticate(None).roles, vec!["anonymous".to_string()]);
    match icn_covm::api::auth::check_authorization("Bearer a b") {
        Err(ApiError::Unauthorized(m)) => assert_eq!(m, "Invalid authorization header format"),
        _ => panic!("expected unauthorized"),
    }
}

#[test]
fn either_of_two_roles_lets_through() {
    let info = AuthInfo { user_id: "u".to_string(), did: None, roles: vec!["member".to_string()] };
    assert!(icn_covm::api::auth::require_roles(info.clone(), "admin", Some("member")).is_ok());
    assert!(icn_covm::api::auth::require_roles(info.clone(), "member", None).is_ok());
    match icn_covm::api::auth::require_roles(info, "admin", None) {
        Err(ApiError::Forbidden(m)) => assert_eq!(m, "Insufficient permissions"),
        _ => panic!("expected forbidden"),
    }
}
