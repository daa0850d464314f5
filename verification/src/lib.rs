//! Quality and health metrics for code-review requests ("PRs") and whole
//! repositories.
//!
//! The crate models a PR as a bundle of five sub-resources (issue comments,
//! commit comments, reviews, commits, parsed diff) and derives a fixed set of
//! named metrics from it; repository-level scores aggregate many PR scores
//! and add a date-bucketed flow ratio.  The network plumbing that fetches the
//! sub-resources lives outside this crate; everything here is pure logic over
//! plain values.

pub mod analyzer;
pub mod comment;
pub mod commit;
pub mod commit_comment;
pub mod diff;
pub mod error;
pub mod markdown;
pub mod metadata;
pub mod page;
pub mod pool;
pub mod pull_request_data;
pub mod repository_data;
pub mod review;
pub mod scorable;
pub mod seqs;
pub mod score;
pub mod text;
