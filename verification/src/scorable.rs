//! The capability of producing a [`Score`] from one's own data.

use vstd::prelude::*;

use crate::score::Score;
use crate::score::ScoreType;

verus! {

/// Trait for every type able to produce a [`Score`] from its inner data.
/// Each implementor names its well-formedness condition and the exact metric
/// values it owes, so that callers of [`Scorable::get_score`] know the full
/// result through the trait alone.
pub trait Scorable {
    /// The well-formedness condition under which scoring is defined.
    spec fn score_wf(&self) -> bool;

    /// The PR number the score will carry, if any.
    spec fn spec_pr_number(&self) -> Option<u64>;

    /// The exact metric values the score will hold, in order.
    spec fn spec_scores(&self) -> Seq<ScoreType>;

    /// Produces the score of this value.
    fn get_score(&self) -> (r: Score)
        requires
            self.score_wf(),
        ensures
            r.pr_number == self.spec_pr_number(),
            r.score@ == self.spec_scores(),
    ;
}

} // verus!
