//! A project-wide error taxonomy that also retains the nested cause of a
//! failure.
//!
//! Causes that originate outside the library (transport failures, response
//! decoding, JSON mapping) are carried as plain rendered text; the aggregate
//! per-PR retrieval failure nests the first sub-failure as a value of this
//! same type.

use vstd::prelude::*;

verus! {

/// Closed failure taxonomy for repository and pull-request analysis.
///
/// Each variant carries the repository / PR identity where applicable and the
/// originating cause.
#[derive(Debug)]
pub enum AnalyzeError {
    /// A concurrently spawned retrieval task failed before producing a result.
    AsyncTaskError(String),
    /// The unified-diff text of a PR could not be parsed.
    DiffParseError { repo_name: String, pr_number: u64, nested: String },
    /// The remote API reported a transport-level or non-success error.
    GitHubAPIError { msg: String, nested: String },
    /// The remote API answered, but its response body could not be read.
    GitHubAPIResponseBodyError { msg: String, nested: String },
    /// A response body was read, but could not be mapped from JSON.
    JsonParseError { msg: String, nested: String },
    /// The commit list of a PR came back empty; every PR must carry at least
    /// one commit, so this is a data-integrity violation.
    NoCommitsFoundError,
    /// Aggregate wrapper used when any of the five concurrent sub-fetches of
    /// one PR fails; nests the first failure encountered.
    PullRequestDataRetrievalError { repo_name: String, pr_number: u64, nested: Box<AnalyzeError> },
    /// The PR lacks a merge or close timestamp and is not yet finalized.
    PullRequestIncompleteDataError { reason: String, pr_number: u64 },
    /// The header fetch for an explicitly requested PR number failed.
    PullRequestNotFound { repo_name: String, pr_number: u64, nested: String },
    /// Both repository lookup paths (organization listing, user search) were
    /// exhausted without a match.
    RepositoryNotFoundError(String),
    /// An HTML report template could not be rendered or stored.
    TemplateRenderError { msg: String, nested: String },
    /// Any other failure, carried as rendered text.
    Other(String),
}

} // verus!
