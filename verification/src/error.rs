//! The errors of the HTTP service and the status each is answered with.

use vstd::prelude::*;

verus! {

/// An error of the service. A validation failure keeps, for each field that
/// failed, its messages, and the text its validator's report displays as.
#[derive(Debug, Clone)]
pub enum AppError {
    DatabaseError(String),
    EntityNotFound(String),
    AuthenticationError(String),
    UnauthorizedError(String),
    ValidationError { fields: Vec<(String, Vec<String>)>, report: String },
    ExternalServiceError(String),
    BadRequest(String),
    InternalServerError(String),
}

/// The HTTP status an error is answered with.
pub open spec fn status_of(e: AppError) -> u16 {
    match e {
        AppError::DatabaseError(_) => 500,
        AppError::EntityNotFound(_) => 404,
        AppError::AuthenticationError(_) => 401,
        AppError::UnauthorizedError(_) => 403,
        AppError::ValidationError { .. } => 400,
        AppError::ExternalServiceError(_) => 502,
        AppError::BadRequest(_) => 400,
        AppError::InternalServerError(_) => 500,
    }
}

/// The text of an error.
pub open spec fn text_of(e: AppError) -> Seq<char> {
    match e {
        AppError::DatabaseError(m) => "Database error: "@ + m@,
        AppError::EntityNotFound(m) => "Not found: "@ + m@,
        AppError::AuthenticationError(m) => "Authentication error: "@ + m@,
        AppError::UnauthorizedError(m) => "Unauthorized: "@ + m@,
        AppError::ValidationError { report, .. } => "Validation error: "@ + report@,
        AppError::ExternalServiceError(m) => "External service error: "@ + m@,
        AppError::BadRequest(m) => "Bad request: "@ + m@,
        AppError::InternalServerError(m) => "Internal server error: "@ + m@,
    }
}

impl AppError {
    /// The HTTP status the error is answered with.
    pub fn status_code(&self) -> (s: u16)
        ensures
            s == status_of(*self),
    {
        match self {
            AppError::DatabaseError(_) => 500,
            AppError::EntityNotFound(_) => 404,
            AppError::AuthenticationError(_) => 401,
            AppError::UnauthorizedError(_) => 403,
            AppError::ValidationError { .. } => 400,
            AppError::ExternalServiceError(_) => 502,
            AppError::BadRequest(_) => 400,
            AppError::InternalServerError(_) => 500,
        }
    }

    /// The text of the error, as its `Display` writes it.
    pub fn to_string(&self) -> (s: String)
        ensures
            s@ == text_of(*self),
    {
        let (head, m): (&str, &String) = match self {
            AppError::DatabaseError(m) => ("Database error: ", m),
            AppError::EntityNotFound(m) => ("Not found: ", m),
            AppError::AuthenticationError(m) => ("Authentication error: ", m),
            AppError::UnauthorizedError(m) => ("Unauthorized: ", m),
            AppError::ValidationError { report, .. } => ("Validation error: ", report),
            AppError::ExternalServiceError(m) => ("External service error: ", m),
            AppError::BadRequest(m) => ("Bad request: ", m),
            AppError::InternalServerError(m) => ("Internal server error: ", m),
        };
        let mut s = String::from_str(head);
        s.append(m.as_str());
        s
    }
}

} // verus!
