//! Errors of a single HTTP step.

use vstd::prelude::*;

verus! {

/// `reqwest::Error`, the failure of a request at the network level (DNS,
/// TCP, TLS, timeout, or a request that could not be built). Opaque here.
#[verifier::external_type_specification]
#[verifier::external_body]
pub struct ExReqwestError(reqwest::Error);

/// Why a step did not count as a success.
#[derive(Debug)]
pub enum HttpError {
    /// The network itself failed (DNS, TCP, TLS, timeout).
    Request(reqwest::Error),
    /// The server replied, but with a status outside 200..=299.
    BadStatus { status: u16, url: String },
}

} // verus!
