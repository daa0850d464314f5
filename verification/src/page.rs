//! A single page of a paginated response from the remote API.

use vstd::prelude::*;

verus! {

/// One page of items, with the navigation addresses the API returned
/// alongside them.
#[derive(Debug, Clone)]
pub struct Page<T> {
    pub items: Vec<T>,
    pub incomplete_results: Option<bool>,
    pub total_count: Option<u64>,
    pub next: Option<String>,
    pub prev: Option<String>,
    pub first: Option<String>,
    pub last: Option<String>,
}

} // verus!
