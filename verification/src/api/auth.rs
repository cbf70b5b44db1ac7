use vstd::prelude::*;
use crate::api::error::ApiError;
use crate::text::{chars_of, contains_str, lowercase, str_eq, strs_view, to_lowercase, token_spans, tokens};

verus! {

/// Who made a request: the user, the DID if known, and the user's roles.
#[derive(Debug, Clone)]
pub struct AuthInfo {
    pub user_id: String,
    pub did: Option<String>,
    pub roles: Vec<String>,
}

/// Lets a request through only if its user has `role`; otherwise answers
/// with a forbidden error ("Insufficient permissions").
pub fn require_role(auth_info: AuthInfo, role: &str) -> (r: Result<AuthInfo, ApiError>)
    ensures
        strs_view(auth_info.roles@).contains(role@) ==> r == Ok::<AuthInfo, ApiError>(auth_info),
        !strs_view(auth_info.roles@).contains(role@) ==> (r matches Err(ApiError::Forbidden(m))
            && m@ == "Insufficient permissions"@),
{
    if contains_str(&auth_info.roles, role) {
        Ok(auth_info)
    } else {
        Err(ApiError::Forbidden(String::from_str("Insufficient permissions")))
    }
}

/// The user a well-formed bearer token stands for. Tokens are not checked
/// against any authority yet: every one stands for the same development
/// user, `user123`, with the roles `user` and `admin`.
pub open spec fn is_token_user(a: AuthInfo) -> bool {
    &&& a.user_id@ == "user123"@
    &&& a.did matches Some(d) && d@ == "did:example:123456789abcdefghi"@
    &&& strs_view(a.roles@) == seq!["user"@, "admin"@]
}

/// The user of a request that carries no usable credentials.
pub open spec fn is_anonymous(a: AuthInfo) -> bool {
    &&& a.user_id@ == "anonymous"@
    &&& a.did is None
    &&& strs_view(a.roles@) == seq!["anonymous"@]
}

/// Whether an `Authorization` header has the form `Bearer <token>`: two
/// words, the first `bearer` in any case.
pub open spec fn is_bearer_header(h: Seq<char>) -> bool {
    tokens(h).len() == 2 && lowercase(tokens(h)[0]) == "bearer"@
}

fn token_user() -> (a: AuthInfo)
    ensures
        is_token_user(a),
{
    let mut roles: Vec<String> = Vec::new();
    roles.push(String::from_str("user"));
    roles.push(String::from_str("admin"));
    let a = AuthInfo {
        user_id: String::from_str("user123"),
        did: Some(String::from_str("did:example:123456789abcdefghi")),
        roles,
    };
    assert(strs_view(a.roles@) =~= seq!["user"@, "admin"@]);
    a
}

fn anonymous_user() -> (a: AuthInfo)
    ensures
        is_anonymous(a),
{
    let mut roles: Vec<String> = Vec::new();
    roles.push(String::from_str("anonymous"));
    let a = AuthInfo { user_id: String::from_str("anonymous"), did: None, roles };
    assert(strs_view(a.roles@) =~= seq!["anonymous"@]);
    a
}

/// The user an `Authorization` header stands for: a bearer token gives the
/// token's user; any other header is refused as unauthorized ("Invalid
/// authorization header format").
pub fn check_authorization(header: &str) -> (r: Result<AuthInfo, ApiError>)
    ensures
        is_bearer_header(header@) ==> (r matches Ok(a) && is_token_user(a)),
        !is_bearer_header(header@) ==> (r matches Err(ApiError::Unauthorized(m))
            && m@ == "Invalid authorization header format"@),
{
    let cs = chars_of(header);
    let s = cs.as_slice();
    let spans = token_spans(s);
    if spans.len() != 2 {
        return Err(ApiError::Unauthorized(String::from_str("Invalid authorization header format")));
    }
    let (a, b) = spans[0];
    assert(spans@[0].0 <= spans@[0].1 <= s@.len());
    let first = crate::text::string_of_range(s, a, b);
    assert(first@ == tokens(header@)[0]);
    let lower = to_lowercase(first.as_str());
    if !str_eq(lower.as_str(), "bearer") {
        return Err(ApiError::Unauthorized(String::from_str("Invalid authorization header format")));
    }
    Ok(token_user())
}

/// The user of a request: the one its `Authorization` header stands for,
/// or the anonymous user when it has none or the header is refused.
pub fn authenticate(header: Option<&str>) -> (a: AuthInfo)
    ensures
        (header matches Some(h) && is_bearer_header(h@)) ==> is_token_user(a),
        !(header matches Some(h) && is_bearer_header(h@)) ==> is_anonymous(a),
{
    match header {
        Some(h) => match check_authorization(h) {
            Ok(a) => a,
            Err(_) => anonymous_user(),
        },
        None => anonymous_user(),
    }
}

/// Lets a request through if its user has `role1`, or `role2` when one is
/// given; otherwise answers with a forbidden error ("Insufficient
/// permissions").
pub fn require_roles(auth_info: AuthInfo, role1: &str, role2: Option<&str>) -> (r: Result<AuthInfo, ApiError>)
    ensures
        ({
            let allowed = strs_view(auth_info.roles@).contains(role1@) || (role2 matches Some(r2)
                && strs_view(auth_info.roles@).contains(r2@));
            &&& allowed ==> r == Ok::<AuthInfo, ApiError>(auth_info)
            &&& !allowed ==> (r matches Err(ApiError::Forbidden(m)) && m@ == "Insufficient permissions"@)
        }),
{
    let allowed = contains_str(&auth_info.roles, role1) || match role2 {
        Some(r2) => contains_str(&auth_info.roles, r2),
        None => false,
    };
    if allowed {
        Ok(auth_info)
    } else {
        Err(ApiError::Forbidden(String::from_str("Insufficient permissions")))
    }
}

} // verus!
