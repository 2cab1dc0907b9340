//! The HTTP client handle, built through `reqwest`.
use vstd::prelude::*;
use crate::error::BotError;

verus! {

#[verifier::external_type_specification]
#[verifier::external_body]
pub struct ExClient(reqwest::Client);

#[verifier::external_type_specification]
#[verifier::external_body]
pub struct ExClientBuilder(reqwest::ClientBuilder);

#[verifier::external_type_specification]
#[verifier::external_body]
pub struct ExReqwestError(reqwest::Error);

/// Calls `reqwest::Client::builder`, a builder with default settings. Nothing
/// is claimed of the builder, which Verus does not see into.
#[verifier::external_body]
fn client_builder() -> reqwest::ClientBuilder {
    reqwest::Client::builder()
}

/// Calls `reqwest::ClientBuilder::timeout` with a total request deadline of
/// `ms` milliseconds. Nothing is claimed of the returned builder.
#[verifier::external_body]
fn builder_with_timeout(builder: reqwest::ClientBuilder, ms: u64) -> reqwest::ClientBuilder {
    builder.timeout(std::time::Duration::from_millis(ms))
}

/// Calls `reqwest::ClientBuilder::build`. Its documentation says it fails when a
/// TLS backend cannot be initialized or the resolver cannot load the system
/// configuration; since that depends on the machine, no outcome is claimed.
#[verifier::external_body]
fn builder_build(builder: reqwest::ClientBuilder) -> Result<reqwest::Client, reqwest::Error> {
    builder.build()
}

/// Calls `to_string` on a `reqwest::Error` (its `Display` text), which is not stated.
#[verifier::external_body]
fn reqwest_error_text(error: &reqwest::Error) -> String {
    error.to_string()
}

/// An HTTP client whose requests time out after `timeout_ms` milliseconds.
/// Whether one can be built depends on the machine; a failure carries the
/// client library's description of it.
pub fn http_client(timeout_ms: u64) -> Result<reqwest::Client, BotError> {
    let builder = builder_with_timeout(client_builder(), timeout_ms);
    match builder_build(builder) {
        Ok(client) => Ok(client),
        Err(error) => Err(BotError { message: reqwest_error_text(&error) }),
    }
}

/// The request timeout a client is built with: the configured one, but never
/// under five seconds.
pub fn effective_timeout_ms(configured_ms: u64) -> (r: u64)
    ensures
        r == if configured_ms > 5000 {
            configured_ms
        } else {
            5000
        },
{
    if configured_ms > 5000 {
        configured_ms
    } else {
        5000
    }
}

} // verus!
