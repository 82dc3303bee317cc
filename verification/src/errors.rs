use vstd::prelude::*;

verus! {

/// A failed command, by category. Every one of these is caught at the
/// dispatch boundary and rendered as a single tagged error response; none
/// aborts the process.
#[derive(Debug, Clone, PartialEq, Eq)]
pub enum DomainError {
    /// A command carried malformed or missing fields.
    Validation(String),
    /// No credentials are set.
    NotAuthenticated,
    /// Credential or role verification against the remote failed.
    Auth(String),
    /// The transport failed before a response arrived.
    Network(String),
    /// The response body did not match the expected shape.
    Protocol,
    /// The remote returned a structured error payload.
    Api(String),
    /// The requested secret is absent.
    NotFound(String),
}

impl DomainError {
    /// The human-readable text that the error response carries.
    pub open spec fn spec_message(&self) -> Seq<char> {
        match self {
            DomainError::Validation(m) => m@,
            DomainError::NotAuthenticated => "credentials not set"@,
            DomainError::Auth(m) => m@,
            DomainError::Network(m) => m@,
            DomainError::Protocol => "unexpected response body from server"@,
            DomainError::Api(m) => m@,
            DomainError::NotFound(m) => m@,
        }
    }

    pub fn message(&self) -> (r: String)
        ensures
            r@ == self.spec_message(),
    {
        match self {
            DomainError::Validation(m) => m.clone(),
            DomainError::NotAuthenticated => String::from_str("credentials not set"),
            DomainError::Auth(m) => m.clone(),
            DomainError::Network(m) => m.clone(),
            DomainError::Protocol => String::from_str("unexpected response body from server"),
            DomainError::Api(m) => m.clone(),
            DomainError::NotFound(m) => m.clone(),
        }
    }
}

} // verus!
