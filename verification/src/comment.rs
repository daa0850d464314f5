//! Issue-style comments on a pull request: the plain text snippets submitted
//! through the ordinary comment box, as opposed to reviews or diff comments.

use vstd::prelude::*;

use crate::commit_comment::User;

verus! {

/// An issue-style comment on a pull request.
#[derive(Debug, Clone)]
pub struct Comment {
    pub id: u64,
    pub node_id: String,
    pub url: String,
    pub html_url: String,
    pub user: User,
    pub body: Option<String>,
    pub created_at: i64,
    pub updated_at: Option<i64>,
}

} // verus!
