//! The error taxonomy of one invocation. Every failure aborts the single
//! in-flight operation; nothing is retried. A non-2xx status answering a
//! write is deliberately not an error (see `report`).

use vstd::prelude::*;

verus! {

/// Why an identifier was rejected before any network use.
#[derive(Debug, Clone, Copy, PartialEq, Eq, Structural)]
pub enum ValidationError {
    /// The NetID is not 1 to 8 lowercase alphanumerics starting with a letter.
    InvalidNetId,
    /// The group ID lacks its `u_`/`uw_` prefix or holds a bad character.
    InvalidGroupId,
}

impl ValidationError {
    /// The human-readable reason shown to the operator.
    pub open spec fn spec_message(&self) -> Seq<char> {
        match *self {
            ValidationError::InvalidNetId => "NetID may be too long or contain invalid characters."@,
            ValidationError::InvalidGroupId => "Incomplete group ID or contains invalid characters."@,
        }
    }

    /// Renders the reason.
    pub fn message(&self) -> (r: &'static str)
        ensures
            r@ == self.spec_message(),
    {
        match self {
            ValidationError::InvalidNetId => "NetID may be too long or contain invalid characters.",
            ValidationError::InvalidGroupId => "Incomplete group ID or contains invalid characters.",
        }
    }
}

/// A response body that is not the expected JSON membership envelope
/// (not ASCII text, not JSON, or not `{"data":[{"id":"..."}, ...]}`).
#[derive(Debug, Clone, Copy, PartialEq, Eq, Structural)]
pub struct DecodeError;

impl DecodeError {
    /// The human-readable reason shown to the operator.
    pub open spec fn spec_message(&self) -> Seq<char> {
        "Response body does not match the expected membership envelope."@
    }

    /// Renders the reason.
    pub fn message(&self) -> (r: &'static str)
        ensures
            r@ == self.spec_message(),
    {
        "Response body does not match the expected membership envelope."
    }
}

/// Everything that can abort an invocation: a malformed identifier
/// (caught locally, before any network use), a certificate or key that
/// the transport rejects, a transport failure, or an undecodable
/// response body. The credential and network variants carry the
/// transport's own description verbatim.
pub enum ClientError {
    Validation(ValidationError),
    Credential(String),
    Network(String),
    Decode(DecodeError),
}

impl ClientError {
    /// The human-readable reason shown to the operator.
    pub open spec fn spec_message(&self) -> Seq<char> {
        match *self {
            ClientError::Validation(e) => e.spec_message(),
            ClientError::Credential(m) => m@,
            ClientError::Network(m) => m@,
            ClientError::Decode(e) => e.spec_message(),
        }
    }

    /// Renders the reason.
    pub fn message(&self) -> (r: String)
        ensures
            r@ == self.spec_message(),
    {
        match self {
            ClientError::Validation(e) => e.message().to_owned(),
            ClientError::Credential(m) => m.clone(),
            ClientError::Network(m) => m.clone(),
            ClientError::Decode(e) => e.message().to_owned(),
        }
    }
}

} // verus!
