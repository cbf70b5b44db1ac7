use vstd::prelude::*;

verus! {

/// The body of an error reply.
pub struct ErrorResponse {
    pub status: u16,
    pub error: String,
    pub message: String,
    pub timestamp: String,
    pub path: String,
}

/// The errors that an endpoint answers with.
#[derive(Debug)]
pub enum ApiError {
    NotFound(String),
    BadRequest(String),
    Unauthorized(String),
    Forbidden(String),
    InternalServerError(String),
}

impl ApiError {
    /// The message the error carries.
    pub open spec fn detail(self) -> Seq<char> {
        match self {
            ApiError::NotFound(m) => m@,
            ApiError::BadRequest(m) => m@,
            ApiError::Unauthorized(m) => m@,
            ApiError::Forbidden(m) => m@,
            ApiError::InternalServerError(m) => m@,
        }
    }

    /// The title of the error's kind.
    pub open spec fn title(self) -> Seq<char> {
        match self {
            ApiError::NotFound(_) => "Not Found"@,
            ApiError::BadRequest(_) => "Bad Request"@,
            ApiError::Unauthorized(_) => "Unauthorized"@,
            ApiError::Forbidden(_) => "Forbidden"@,
            ApiError::InternalServerError(_) => "Internal Server Error"@,
        }
    }

    /// The text of the error: its title, a colon, a space and its message.
    pub open spec fn text(self) -> Seq<char> {
        self.title() + ": "@ + self.detail()
    }

    /// The text of the error, as `Display` would write it.
    pub fn to_string(&self) -> (s: String)
        ensures
            s@ == self.text(),
    {
        let (title, msg) = match self {
            ApiError::NotFound(m) => ("Not Found", m),
            ApiError::BadRequest(m) => ("Bad Request", m),
            ApiError::Unauthorized(m) => ("Unauthorized", m),
            ApiError::Forbidden(m) => ("Forbidden", m),
            ApiError::InternalServerError(m) => ("Internal Server Error", m),
        };
        let mut s = String::from_str(title);
        s.append(": ");
        s.append(msg.as_str());
        s
    }
}

/// A not-found error with the given message.
pub fn not_found(msg: &str) -> (e: ApiError)
    ensures
        e matches ApiError::NotFound(m) && m@ == msg@,
{
    ApiError::NotFound(String::from_str(msg))
}

/// A bad-request error with the given message.
pub fn bad_request(msg: &str) -> (e: ApiError)
    ensures
        e matches ApiError::BadRequest(m) && m@ == msg@,
{
    ApiError::BadRequest(String::from_str(msg))
}

/// An unauthorized error with the given message.
pub fn unauthorized(msg: &str) -> (e: ApiError)
    ensures
        e matches ApiError::Unauthorized(m) && m@ == msg@,
{
    ApiError::Unauthorized(String::from_str(msg))
}

/// A forbidden error with the given message.
pub fn forbidden(msg: &str) -> (e: ApiError)
    ensures
        e matches ApiError::Forbidden(m) && m@ == msg@,
{
    ApiError::Forbidden(String::from_str(msg))
}

/// An internal-server error with the given message.
pub fn internal_error(msg: &str) -> (e: ApiError)
    ensures
        e matches ApiError::InternalServerError(m) && m@ == msg@,
{
    ApiError::InternalServerError(String::from_str(msg))
}

/// Any error, given by the text it displays, as an internal-server error.
pub fn any_error(err_text: &str) -> (e: ApiError)
    ensures
        e matches ApiError::InternalServerError(m) && m@ == err_text@,
{
    ApiError::InternalServerError(String::from_str(err_text))
}

} // verus!
