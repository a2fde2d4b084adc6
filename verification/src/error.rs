//! The errors of the registry service and how each is shown to a client.

use vstd::prelude::*;

verus! {

/// What can go wrong while serving a request.
#[derive(Debug, Clone, PartialEq, Eq)]
pub enum ReachError {
    /// A DID in the input is malformed.
    InvalidDid,
    /// A signature did not verify, or the DID does not match the challenge.
    InvalidSignature,
    /// The challenge is unknown, expired or inconsistent.
    InvalidChallenge,
    /// The registry holds no row for the DID.
    NotFound,
    /// The registry holds a row for the DID whose lifetime has elapsed.
    Expired,
    /// The bearer token is missing or malformed, or names no session.
    Unauthorized,
    /// The session was valid and has aged out.
    SessionExpired,
    /// A violation of the handshake that no other kind covers.
    HandshakeError(String),
    /// A failure inside the service.
    Internal(String),
}

/// The HTTP status that stands for each kind of error.
pub open spec fn spec_status_code(e: ReachError) -> int {
    match e {
        ReachError::InvalidDid => 400,
        ReachError::InvalidSignature => 401,
        ReachError::InvalidChallenge => 400,
        ReachError::NotFound => 404,
        ReachError::Expired => 410,
        ReachError::Unauthorized => 401,
        ReachError::SessionExpired => 401,
        ReachError::HandshakeError(_) => 400,
        ReachError::Internal(_) => 500,
    }
}

/// The text that describes each kind of error.
pub open spec fn spec_message(e: ReachError) -> Seq<char> {
    match e {
        ReachError::InvalidDid => "Invalid DID format"@,
        ReachError::InvalidSignature => "Invalid signature"@,
        ReachError::InvalidChallenge => "Invalid or expired challenge"@,
        ReachError::NotFound => "Agent not found"@,
        ReachError::Expired => "Registration expired"@,
        ReachError::Unauthorized => "Unauthorized - valid session required"@,
        ReachError::SessionExpired => "Session expired"@,
        ReachError::HandshakeError(m) => "Handshake error: "@ + m@,
        ReachError::Internal(m) => "Internal error: "@ + m@,
    }
}

/// The text sent to a client: the description of the error, except that an
/// internal failure is reported without its detail.
pub open spec fn spec_client_message(e: ReachError) -> Seq<char> {
    match e {
        ReachError::Internal(_) => "Internal error"@,
        _ => spec_message(e),
    }
}

impl ReachError {
    /// The HTTP status of the response that reports this error.
    pub fn status_code(&self) -> (code: u16)
        ensures
            code == spec_status_code(*self),
    {
        match self {
            ReachError::InvalidDid => 400,
            ReachError::InvalidSignature => 401,
            ReachError::InvalidChallenge => 400,
            ReachError::NotFound => 404,
            ReachError::Expired => 410,
            ReachError::Unauthorized => 401,
            ReachError::SessionExpired => 401,
            ReachError::HandshakeError(_) => 400,
            ReachError::Internal(_) => 500,
        }
    }

    /// The description of this error.
    pub fn message(&self) -> (text: String)
        ensures
            text@ == spec_message(*self),
    {
        match self {
            ReachError::InvalidDid => "Invalid DID format".to_owned(),
            ReachError::InvalidSignature => "Invalid signature".to_owned(),
            ReachError::InvalidChallenge => "Invalid or expired challenge".to_owned(),
            ReachError::NotFound => "Agent not found".to_owned(),
            ReachError::Expired => "Registration expired".to_owned(),
            ReachError::Unauthorized => "Unauthorized - valid session required".to_owned(),
            ReachError::SessionExpired => "Session expired".to_owned(),
            ReachError::HandshakeError(m) => {
                let mut text = "Handshake error: ".to_owned();
                text.append(m.as_str());
                text
            },
            ReachError::Internal(m) => {
                let mut text = "Internal error: ".to_owned();
                text.append(m.as_str());
                text
            },
        }
    }

    /// The status and the text of the `error` field of the response that
    /// reports this error. The detail of an internal failure is withheld.
    pub fn into_response(&self) -> (r: (u16, String))
        ensures
            r.0 == spec_status_code(*self),
            r.1@ == spec_client_message(*self),
    {
        let message = match self {
            ReachError::Internal(_) => "Internal error".to_owned(),
            _ => self.message(),
        };
        (self.status_code(), message)
    }
}

} // verus!
