use vstd::prelude::*;

verus! {

/// The errors of federation operations. Errors that come from storage, from
/// I/O, or from the network address parser are kept as the text they
/// display.
#[derive(Debug)]
pub enum FederationError {
    NetworkError(String),
    TransportError(String),
    ConnectionError(String),
    ProtocolError(String),
    SerializationError(String),
    AuthenticationError(String),
    StorageError(String),
    NotFoundError(String),
    ConfigurationError(String),
    ClockError(String),
    PermissionDenied(String),
    ProposalValidationError(String),
    VoteValidationError(String),
    TimeoutError(String),
    IoError(String),
    InvalidArgumentError(String),
    Other(String),
}

impl FederationError {
    /// The title that the error's text begins with.
    pub open spec fn title(self) -> Seq<char> {
        match self {
            FederationError::NetworkError(_) => "Network error"@,
            FederationError::TransportError(_) => "Transport error"@,
            FederationError::ConnectionError(_) => "Connection error"@,
            FederationError::ProtocolError(_) => "Protocol error"@,
            FederationError::SerializationError(_) => "Serialization error"@,
            FederationError::AuthenticationError(_) => "Authentication error"@,
            FederationError::StorageError(_) => "Storage error"@,
            FederationError::NotFoundError(_) => "Not found"@,
            FederationError::ConfigurationError(_) => "Configuration error"@,
            FederationError::ClockError(_) => "Clock error"@,
            FederationError::PermissionDenied(_) => "Permission denied"@,
            FederationError::ProposalValidationError(_) => "Proposal validation error"@,
            FederationError::VoteValidationError(_) => "Vote validation error"@,
            FederationError::TimeoutError(_) => "Timeout"@,
            FederationError::IoError(_) => "IO error"@,
            FederationError::InvalidArgumentError(_) => "Invalid argument"@,
            FederationError::Other(_) => "Error"@,
        }
    }

    /// The message the error carries.
    pub open spec fn detail(self) -> Seq<char> {
        match self {
            FederationError::NetworkError(m) => m@,
            FederationError::TransportError(m) => m@,
            FederationError::ConnectionError(m) => m@,
            FederationError::ProtocolError(m) => m@,
            FederationError::SerializationError(m) => m@,
            FederationError::AuthenticationError(m) => m@,
            FederationError::StorageError(m) => m@,
            FederationError::NotFoundError(m) => m@,
            FederationError::ConfigurationError(m) => m@,
            FederationError::ClockError(m) => m@,
            FederationError::PermissionDenied(m) => m@,
            FederationError::ProposalValidationError(m) => m@,
            FederationError::VoteValidationError(m) => m@,
            FederationError::TimeoutError(m) => m@,
            FederationError::IoError(m) => m@,
            FederationError::InvalidArgumentError(m) => m@,
            FederationError::Other(m) => m@,
        }
    }

    /// The text of the error, as its `Display` writes it: title, colon,
    /// space, message.
    pub fn to_string(&self) -> (s: String)
        ensures
            s@ == self.title() + ": "@ + self.detail(),
    {
        let (title, msg) = match self {
            FederationError::NetworkError(m) => ("Network error", m),
            FederationError::TransportError(m) => ("Transport error", m),
            FederationError::ConnectionError(m) => ("Connection error", m),
            FederationError::ProtocolError(m) => ("Protocol error", m),
            FederationError::SerializationError(m) => ("Serialization error", m),
            FederationError::AuthenticationError(m) => ("Authentication error", m),
            FederationError::StorageError(m) => ("Storage error", m),
            FederationError::NotFoundError(m) => ("Not found", m),
            FederationError::ConfigurationError(m) => ("Configuration error", m),
            FederationError::ClockError(m) => ("Clock error", m),
            FederationError::PermissionDenied(m) => ("Permission denied", m),
            FederationError::ProposalValidationError(m) => ("Proposal validation error", m),
            FederationError::VoteValidationError(m) => ("Vote validation error", m),
            FederationError::TimeoutError(m) => ("Timeout", m),
            FederationError::IoError(m) => ("IO error", m),
            FederationError::InvalidArgumentError(m) => ("Invalid argument", m),
            FederationError::Other(m) => ("Error", m),
        };
        let mut s = String::from_str(title);
        s.append(": ");
        s.append(msg.as_str());
        s
    }

    /// The error for a network address the parser refused, given the text
    /// of the parser's error: "Multiaddr error: <text>".
    pub fn from_multiaddr_error(text: &str) -> (e: Self)
        ensures
            e matches FederationError::NetworkError(m) && m@ == "Multiaddr error: "@ + text@,
    {
        let mut m = String::from_str("Multiaddr error: ");
        m.append(text);
        FederationError::NetworkError(m)
    }
}

} // verus!
