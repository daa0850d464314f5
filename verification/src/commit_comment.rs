//! Commit-level comments: comments left on a portion of the unified diff of a
//! particular pull request, together with the user and link records that the
//! remote API embeds in them.
//!
//! Nullable JSON fields whose content the scoring logic never reads are held
//! as plain optional values.

use vstd::prelude::*;

verus! {

/// A comment on a portion of the unified diff of a pull request.
#[derive(Debug, Clone)]
pub struct CommitComment {
    pub url: String,
    pub pull_request_review_id: i64,
    pub id: i64,
    pub node_id: String,
    pub diff_hunk: String,
    pub path: String,
    pub position: Option<i64>,
    pub original_position: i64,
    pub commit_id: String,
    pub original_commit_id: String,
    pub user: User,
    pub body: String,
    pub created_at: String,
    pub updated_at: String,
    pub html_url: String,
    pub pull_request_url: String,
    pub author_association: String,
    pub links: Links,
    pub start_line: Option<i64>,
    pub original_start_line: Option<i64>,
    pub start_side: Option<String>,
    pub line: Option<i64>,
    pub original_line: i64,
    pub side: String,
}

/// The account that authored a comment or review.
#[derive(Debug, Clone)]
pub struct User {
    pub login: String,
    pub id: i64,
    pub node_id: String,
    pub avatar_url: String,
    pub gravatar_id: String,
    pub url: String,
    pub html_url: String,
    pub followers_url: String,
    pub following_url: String,
    pub gists_url: String,
    pub starred_url: String,
    pub subscriptions_url: String,
    pub organizations_url: String,
    pub repos_url: String,
    pub events_url: String,
    pub received_events_url: String,
    pub type_field: String,
    pub site_admin: bool,
}

/// Hyperlink records attached to a commit comment.
#[derive(Debug, Clone)]
pub struct Links {
    pub self_field: SelfField,
    pub html: Html,
    pub pull_request: PullRequest,
}

/// The comment's own address.
#[derive(Debug, Clone)]
pub struct SelfField {
    pub href: String,
}

/// The comment's browser address.
#[derive(Debug, Clone)]
pub struct Html {
    pub href: String,
}

/// The address of the pull request the comment belongs to.
#[derive(Debug, Clone)]
pub struct PullRequest {
    pub href: String,
}

} // verus!
