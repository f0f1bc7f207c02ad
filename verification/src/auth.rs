//! The stored GitHub credentials.

use vstd::prelude::*;
use crate::error::CakeError;

verus! {

/// What `auth.json` holds.
#[derive(Debug)]
pub struct AuthConfig {
    pub github_token: String,
}

/// The stored token, or `NotAuthenticated` when no credentials are stored.
pub fn token(config: Option<AuthConfig>) -> (r: Result<String, CakeError>)
    ensures
        config is None <==> r is Err,
        r is Err ==> r == Err::<String, CakeError>(CakeError::NotAuthenticated),
        config matches Some(c) ==> r == Ok::<String, CakeError>(c.github_token),
{
    match config {
        Some(c) => Ok(c.github_token),
        None => Err(CakeError::NotAuthenticated),
    }
}

} // verus!
