//! Reviews of a pull request and their textual states.
//!
//! The remote API writes a review state in SCREAMING_SNAKE_CASE when it
//! answers a REST request, but in snake_case inside webhook payloads.  Both
//! spellings must be accepted, and there are five states — a schema that
//! models only four fails on any PR containing the fifth — so the state is
//! parsed here from its raw text instead of relying on an external schema.

use vstd::prelude::*;

use crate::commit_comment::User;
use crate::text::str_eq;

verus! {

/// A review of a pull request; `submitted_at` is seconds since the Unix
/// epoch.
#[derive(Debug, Clone)]
pub struct Review {
    pub id: u64,
    pub node_id: String,
    pub html_url: String,
    pub user: User,
    pub body: Option<String>,
    pub commit_id: Option<String>,
    pub state: Option<ReviewState>,
    pub pull_request_url: Option<String>,
    pub submitted_at: Option<i64>,
}

/// The five possible states of a review.
#[derive(Debug, Copy, Clone, PartialEq, Eq, Structural)]
pub enum ReviewState {
    Approved,
    Pending,
    ChangesRequested,
    Commented,
    Dismissed,
}

/// The spelling a given raw state text maps to, or `None` for any text that
/// is not one of the ten recognized spellings.
pub open spec fn spec_review_state(s: Seq<char>) -> Option<ReviewState> {
    if s == "APPROVED"@ || s == "approved"@ {
        Some(ReviewState::Approved)
    } else if s == "PENDING"@ || s == "pending"@ {
        Some(ReviewState::Pending)
    } else if s == "CHANGES_REQUESTED"@ || s == "changes_requested"@ {
        Some(ReviewState::ChangesRequested)
    } else if s == "COMMENTED"@ || s == "commented"@ {
        Some(ReviewState::Commented)
    } else if s == "DISMISSED"@ || s == "dismissed"@ {
        Some(ReviewState::Dismissed)
    } else {
        None
    }
}

impl ReviewState {
    /// Parses a raw review-state text.  The upper-case REST spelling and the
    /// lower-case webhook spelling of each state are accepted; every other
    /// text is rejected.
    pub fn parse(s: &str) -> (r: Option<ReviewState>)
        ensures
            r == spec_review_state(s@),
    {
        if str_eq(s, "APPROVED") || str_eq(s, "approved") {
            Some(ReviewState::Approved)
        } else if str_eq(s, "PENDING") || str_eq(s, "pending") {
            Some(ReviewState::Pending)
        } else if str_eq(s, "CHANGES_REQUESTED") || str_eq(s, "changes_requested") {
            Some(ReviewState::ChangesRequested)
        } else if str_eq(s, "COMMENTED") || str_eq(s, "commented") {
            Some(ReviewState::Commented)
        } else if str_eq(s, "DISMISSED") || str_eq(s, "dismissed") {
            Some(ReviewState::Dismissed)
        } else {
            None
        }
    }
}

} // verus!
