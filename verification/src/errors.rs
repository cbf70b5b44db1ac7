use vstd::prelude::*;

verus! {

/// The errors of the API layer.
#[derive(Debug)]
pub enum ApiError {
    NotFound(String),
    Unauthorized(String),
    Forbidden(String),
    BadRequest(String),
    InvalidInput(String),
    InvalidOperation(String),
    InternalError(String),
}

impl ApiError {
    /// The message the error carries.
    pub open spec fn detail(self) -> Seq<char> {
        match self {
            ApiError::NotFound(m) => m@,
            ApiError::Unauthorized(m) => m@,
            ApiError::Forbidden(m) => m@,
            ApiError::BadRequest(m) => m@,
            ApiError::InvalidInput(m) => m@,
            ApiError::InvalidOperation(m) => m@,
            ApiError::InternalError(m) => m@,
        }
    }

    /// The title of the error's kind.
    pub open spec fn title(self) -> Seq<char> {
        match self {
            ApiError::NotFound(_) => "Not Found"@,
            ApiError::Unauthorized(_) => "Unauthorized"@,
            ApiError::Forbidden(_) => "Forbidden"@,
            ApiError::BadRequest(_) => "Bad Request"@,
            ApiError::InvalidInput(_) => "Invalid Input"@,
            ApiError::InvalidOperation(_) => "Invalid Operation"@,
            ApiError::InternalError(_) => "Internal Error"@,
        }
    }

    /// The HTTP status that answers the error.
    pub open spec fn status_code(self) -> u16 {
        match self {
            ApiError::NotFound(_) => 404,
            ApiError::Unauthorized(_) => 401,
            ApiError::Forbidden(_) => 403,
            ApiError::BadRequest(_) => 400,
            ApiError::InvalidInput(_) => 400,
            ApiError::InvalidOperation(_) => 422,
            ApiError::InternalError(_) => 500,
        }
    }

    /// The text of the error, as its `Display` writes it: title, colon, space,
    /// message.
    pub fn to_string(&self) -> (s: String)
        ensures
            s@ == self.title() + ": "@ + self.detail(),
    {
        let (title, msg) = match self {
            ApiError::NotFound(m) => ("Not Found", m),
            ApiError::Unauthorized(m) => ("Unauthorized", m),
            ApiError::Forbidden(m) => ("Forbidden", m),
            ApiError::BadRequest(m) => ("Bad Request", m),
            ApiError::InvalidInput(m) => ("Invalid Input", m),
            ApiError::InvalidOperation(m) => ("Invalid Operation", m),
            ApiError::InternalError(m) => ("Internal Error", m),
        };
        let mut s = String::from_str(title);
        s.append(": ");
        s.append(msg.as_str());
        s
    }
}

/// The body of an error reply.
pub struct ErrorResponse {
    pub code: u16,
    pub message: String,
    pub status: String,
}

/// Why a request was refused, as far as the reply depends on it: no route,
/// an [`ApiError`], a CORS refusal or an unreadable body (each with the text
/// its error displays), or anything else.
pub enum Refusal {
    NoRoute,
    Api(ApiError),
    CorsForbidden(String),
    BadBody(String),
    Other,
}

/// The reply to a refusal.
pub open spec fn refusal_code(r: Refusal) -> u16 {
    match r {
        Refusal::NoRoute => 404,
        Refusal::Api(e) => e.status_code(),
        Refusal::CorsForbidden(_) => 403,
        Refusal::BadBody(_) => 400,
        Refusal::Other => 500,
    }
}

/// The message of the reply to a refusal.
pub open spec fn refusal_message(r: Refusal) -> Seq<char> {
    match r {
        Refusal::NoRoute => "Not Found"@,
        Refusal::Api(e) => e.detail(),
        Refusal::CorsForbidden(t) => "CORS forbidden: "@ + t@,
        Refusal::BadBody(t) => "Invalid request data: "@ + t@,
        Refusal::Other => "Internal Server Error"@,
    }
}

/// The error reply to a refused request: its status code, its message, and
/// the status "error".
pub fn refusal_reply(r: &Refusal) -> (resp: ErrorResponse)
    ensures
        resp.code == refusal_code(*r),
        resp.message@ == refusal_message(*r),
        resp.status@ == "error"@,
{
    let (code, message): (u16, String) = match r {
        Refusal::NoRoute => (404, String::from_str("Not Found")),
        Refusal::Api(e) => match e {
            ApiError::NotFound(m) => (404, m.clone()),
            ApiError::Unauthorized(m) => (401, m.clone()),
            ApiError::Forbidden(m) => (403, m.clone()),
            ApiError::BadRequest(m) => (400, m.clone()),
            ApiError::InvalidInput(m) => (400, m.clone()),
            ApiError::InvalidOperation(m) => (422, m.clone()),
            ApiError::InternalError(m) => (500, m.clone()),
        },
        Refusal::CorsForbidden(t) => {
            let mut s = String::from_str("CORS forbidden: ");
            s.append(t.as_str());
            (403, s)
        },
        Refusal::BadBody(t) => {
            let mut s = String::from_str("Invalid request data: ");
            s.append(t.as_str());
            (400, s)
        },
        Refusal::Other => (500, String::from_str("Internal Server Error")),
    };
    ErrorResponse { code, message, status: String::from_str("error") }
}

} // verus!
