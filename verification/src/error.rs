//! Errors of the protocol layer that the verified code can produce.

use vstd::prelude::*;

use crate::strings::concat2;

verus! {

/// Protocol errors.
#[derive(Debug, Clone, PartialEq, Eq)]
pub enum A2aError {
    /// A TLS configuration problem.
    Tls(String),
    /// An authorization failure (OAuth2).
    Auth(String),
    /// A malformed or unacceptable request.
    InvalidRequest(String),
    /// A signature or credential that did not verify.
    AuthenticationFailed(String),
}

pub open spec fn a2a_error_text(e: A2aError) -> Seq<char> {
    match e {
        A2aError::Tls(m) => "TLS error: "@ + m@,
        A2aError::Auth(m) => "Authentication error: "@ + m@,
        A2aError::InvalidRequest(m) => "Invalid request: "@ + m@,
        A2aError::AuthenticationFailed(m) => "Authentication failed: "@ + m@,
    }
}

impl A2aError {
    /// Human-readable text of the error.
    pub fn to_string(&self) -> (s: String)
        ensures
            s@ == a2a_error_text(*self),
    {
        match self {
            A2aError::Tls(m) => concat2("TLS error: ", m.as_str()),
            A2aError::Auth(m) => concat2("Authentication error: ", m.as_str()),
            A2aError::InvalidRequest(m) => concat2("Invalid request: ", m.as_str()),
            A2aError::AuthenticationFailed(m) => concat2("Authentication failed: ", m.as_str()),
        }
    }
}

} // verus!
