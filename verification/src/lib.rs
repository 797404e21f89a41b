//! Verified core of a command-line client for a directory/group-membership
//! web service: identifier validation, request construction, response
//! decoding and report formatting. The surrounding binary supplies raw
//! strings and performs the one HTTPS request per invocation; everything
//! that decides or computes lives here, with contracts.

pub mod decode;
pub mod dispatch;
pub mod errors;
pub mod ident;
pub mod report;
