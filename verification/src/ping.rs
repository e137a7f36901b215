//! Judging the reachability of a proxy server from the connection attempts
//! made to its addresses.
use vstd::prelude::*;

use std::time::Duration;

use crate::text::{decimal, decimal_spec};

verus! {

/// The outcome of a ping: the time to the first connection, or why none was
/// made.
#[derive(Debug)]
pub struct PingResult {
    pub latency: Option<Duration>,
    pub error: Option<String>,
}

/// The `host:port` target of a ping.
pub fn ping_target(address: &str, port: u16) -> (r: String)
    ensures
        r@ == address@ + ":"@ + decimal_spec(port as nat),
{
    let p = decimal(port as u32);
    String::from_str(address).concat(":").concat(p.as_str())
}

/// The outcome of a ping whose target name did not resolve.
pub fn dns_failure(error: &str) -> (r: PingResult)
    ensures
        r.latency is None,
        r.error matches Some(e) && e@ == "DNS resolution failed: "@ + error@,
{
    PingResult {
        latency: None,
        error: Some(String::from_str("DNS resolution failed: ").concat(error)),
    }
}

/// What follows one connection attempt.
#[derive(Debug)]
pub enum PingStep {
    /// The ping is over.
    Done(PingResult),
    /// Try the next address; the error so far.
    Continue(Option<String>),
}

/// Takes in one connection attempt: a connection made after `latency` ends
/// the ping; a failure becomes the error so far (replacing any earlier one),
/// and the next address is tried.
pub fn after_attempt(attempt: Result<Duration, String>) -> (r: PingStep)
    ensures
        match attempt {
            Ok(latency) => r matches PingStep::Done(p) && p.latency == Some(latency) && p.error is None,
            Err(e) => r matches PingStep::Continue(Some(err)) && err == e,
        },
{
    match attempt {
        Ok(latency) => PingStep::Done(PingResult { latency: Some(latency), error: None }),
        Err(e) => PingStep::Continue(Some(e)),
    }
}

/// The outcome of a ping where no address took a connection: the last
/// failure, or that there was no address to try.
pub fn no_connection(last_error: Option<String>) -> (r: PingResult)
    ensures
        r.latency is None,
        match last_error {
            Some(e) => r.error == Some(e),
            None => r.error matches Some(m) && m@ == "No addresses available"@,
        },
{
    match last_error {
        Some(e) => PingResult { latency: None, error: Some(e) },
        None => PingResult { latency: None, error: Some(String::from_str("No addresses available")) },
    }
}

} // verus!
