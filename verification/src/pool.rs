//! Configuration for the pool of authenticated API connections.
//!
//! The pool itself — creating, leasing and recycling connections — performs
//! network work and lives with the I/O layer; this module holds the verified
//! part: the manager record that stores the personal access token every
//! pooled connection is built with.

use vstd::prelude::*;

verus! {

/// Error type of the connection pool manager.  Creating or recycling a
/// connection cannot itself fail — building a client from a token is a local
/// operation — so no value of this type is ever produced; pool exhaustion is
/// reported by the pool, not by the manager.
#[derive(Debug, Clone)]
pub struct GitHubPoolError;

/// The caretaker of the connection pool: stores the personal access token
/// that every connection handed out by the pool is configured with.
pub struct GitHubConnectionPoolManager {
    github_personal_token_param: String,
}

impl GitHubConnectionPoolManager {
    /// The stored personal access token.
    pub closed spec fn spec_token(&self) -> Seq<char> {
        self.github_personal_token_param@
    }

    /// Creates a manager holding the given personal access token.
    pub fn new(github_personal_token_param: &str) -> (r: Self)
        ensures
            r.spec_token() == github_personal_token_param@,
    {
        GitHubConnectionPoolManager {
            github_personal_token_param: github_personal_token_param.to_owned(),
        }
    }

    /// The stored personal access token, for the I/O layer to configure a
    /// client with.
    pub fn token(&self) -> (r: &str)
        ensures
            r@ == self.spec_token(),
    {
        self.github_personal_token_param.as_str()
    }
}

} // verus!
