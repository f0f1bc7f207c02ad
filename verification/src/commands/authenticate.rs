//! `authenticate`: the GitHub device flow.
//!
//! The flow polls GitHub until it answers with a token. Each answer is decided here; the
//! caller waits, asks and hands the answer back.

use vstd::prelude::*;
use crate::error::CakeError;
use crate::text::{str_eq, to_owned_string};

verus! {

/// The client id of Cakeman's GitHub application.
pub const CLIENT_ID: &'static str = "Ov23li1y2zrP9nlfgT0b";

/// The seconds between two polls when GitHub names no interval.
pub const DEFAULT_INTERVAL: u64 = 5;

/// The seconds between two polls: GitHub's interval, or five seconds.
pub fn poll_interval(interval: Option<u64>) -> (r: u64)
    ensures
        r == (match interval { Some(i) => i, None => 5 }),
{
    match interval {
        Some(i) => i,
        None => DEFAULT_INTERVAL,
    }
}

/// What to do with one answer of the token endpoint.
#[derive(Debug, PartialEq, Eq)]
pub enum PollOutcome {
    /// The user authorized the device: this is the token.
    Token(String),
    /// Ask again, after waiting this many extra seconds beyond the interval.
    Wait(u64),
    /// The flow failed.
    Fail(CakeError),
}

/// Decides on an answer of the token endpoint: a token ends the flow; `authorization_pending`
/// asks again; `slow_down` asks again after five more seconds; any other error code fails
/// with that code, and an answer with neither fails as unknown.
pub fn poll_outcome(access_token: Option<String>, error: Option<String>) -> (r: PollOutcome)
    ensures
        access_token matches Some(t) ==> r == PollOutcome::Token(t),
        access_token is None && error is None ==> r == PollOutcome::Fail(CakeError::UnknownAuthenticationError),
        (access_token is None && error is Some) ==> ({
            let e = error->0;
            if e@ == "authorization_pending"@ {
                r == PollOutcome::Wait(0)
            } else if e@ == "slow_down"@ {
                r == PollOutcome::Wait(5)
            } else {
                r matches PollOutcome::Fail(CakeError::AuthenticationFailed(c)) && c@ == e@
            }
        }),
{
    if let Some(t) = access_token {
        return PollOutcome::Token(t);
    }
    match error {
        Some(e) => {
            if str_eq(e.as_str(), "authorization_pending") {
                PollOutcome::Wait(0)
            } else if str_eq(e.as_str(), "slow_down") {
                PollOutcome::Wait(5)
            } else {
                PollOutcome::Fail(CakeError::AuthenticationFailed(to_owned_string(e.as_str())))
            }
        },
        None => PollOutcome::Fail(CakeError::UnknownAuthenticationError),
    }
}

} // verus!
