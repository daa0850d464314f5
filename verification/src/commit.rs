//! Commit records of a pull request.
//!
//! Timestamps are held as seconds since the Unix epoch (UTC); signature
//! payloads that the scoring logic never inspects are held as plain optional
//! text.

use vstd::prelude::*;

use crate::commit_comment::User;

verus! {

/// A commit as listed under a pull request.
#[derive(Debug, Clone)]
pub struct CommitRoot {
    pub sha: String,
    pub node_id: String,
    pub commit: Commit,
    pub url: String,
    pub html_url: String,
    pub comments_url: String,
    pub author: Option<User>,
    pub committer: Option<User>,
    pub parents: Vec<Parent>,
}

/// The git-level portion of a commit record.
#[derive(Debug, Clone)]
pub struct Commit {
    pub author: Author,
    pub committer: Committer,
    pub message: String,
    pub tree: Tree,
    pub url: String,
    pub comment_count: i64,
    pub verification: Verification,
}

/// The git author of a commit; `date` is seconds since the Unix epoch.
#[derive(Debug, Clone)]
pub struct Author {
    pub name: String,
    pub email: String,
    pub date: i64,
}

/// The git committer of a commit; `date` is seconds since the Unix epoch.
#[derive(Debug, Clone)]
pub struct Committer {
    pub name: String,
    pub email: String,
    pub date: i64,
}

/// The tree a commit points at.
#[derive(Debug, Clone)]
pub struct Tree {
    pub sha: String,
    pub url: String,
}

/// Signature-verification data of a commit.
#[derive(Debug, Clone)]
pub struct Verification {
    pub verified: bool,
    pub reason: String,
    pub signature: Option<String>,
    pub payload: Option<String>,
}

/// A parent commit reference.
#[derive(Debug, Clone)]
pub struct Parent {
    pub sha: String,
    pub url: String,
    pub html_url: String,
}

} // verus!
