//! The closed enumeration of measurable PR / repository qualities, and the
//! score record an analysis produces.
//!
//! Ratio-valued metrics are carried as exact fractions of machine integers
//! (`num / den`); per-PR ratios are truncated to two decimal places, so they
//! appear as hundredths.  A ratio whose mathematical value is undefined (a
//! division by zero that the metric's rule does not force to zero) is the
//! explicit sentinel `None` rather than a made-up number.

use vstd::prelude::*;
use vstd::string::StrSliceExecFns;
use vstd::string::StringExecFns;

verus! {

/// An exact non-negative fraction.
#[derive(Debug, Clone, Copy, PartialEq, Eq, Structural)]
pub struct Ratio {
    pub num: u128,
    pub den: u128,
}

/// Enumeration of the important qualities of a pull request or a repository
/// that are worth measuring.
#[derive(Debug, Clone, Copy, PartialEq)]
pub enum ScoreType {
    AmountOfParticipants(u64),
    AmountOfReviewers(u64),
    Attachments(u64),
    AuthorCommentaryToChangesRatio(Option<Ratio>),
    PullRequestsDiscussionSize(usize),
    PullRequestFlowRatio(Option<Ratio>),
    PullRequestLeadTime(u64),
    PullRequestSize(usize),
    TestToCodeRatio { loc: usize, test_loc: usize, ratio: Ratio },
    TimeToMerge(u64),
}

/// All metric kinds, with zero payloads, in declaration order.
pub open spec fn spec_all_kinds() -> Seq<ScoreType> {
    seq![
        ScoreType::AmountOfParticipants(0),
        ScoreType::AmountOfReviewers(0),
        ScoreType::Attachments(0),
        ScoreType::AuthorCommentaryToChangesRatio(None),
        ScoreType::PullRequestsDiscussionSize(0),
        ScoreType::PullRequestFlowRatio(None),
        ScoreType::PullRequestLeadTime(0),
        ScoreType::PullRequestSize(0),
        ScoreType::TestToCodeRatio { loc: 0, test_loc: 0, ratio: Ratio { num: 0, den: 1 } },
        ScoreType::TimeToMerge(0),
    ]
}

/// The display name of each metric kind.
pub open spec fn spec_kind_name(k: ScoreType) -> Seq<char> {
    match k {
        ScoreType::AmountOfParticipants(_) => "AmountOfParticipants"@,
        ScoreType::AmountOfReviewers(_) => "AmountOfReviewers"@,
        ScoreType::Attachments(_) => "Attachments"@,
        ScoreType::AuthorCommentaryToChangesRatio(_) => "AuthorCommentaryToChangesRatio"@,
        ScoreType::PullRequestsDiscussionSize(_) => "PullRequestsDiscussionSize"@,
        ScoreType::PullRequestFlowRatio(_) => "PullRequestFlowRatio"@,
        ScoreType::PullRequestLeadTime(_) => "PullRequestLeadTime"@,
        ScoreType::PullRequestSize(_) => "PullRequestSize"@,
        ScoreType::TestToCodeRatio { .. } => "TestToCodeRatio"@,
        ScoreType::TimeToMerge(_) => "TimeToMerge"@,
    }
}

impl ScoreType {
    /// Returns every possible metric kind, with zero payloads; iterating
    /// this list and dispatching exhaustively guarantees no kind is
    /// forgotten when new ones are added.
    pub fn get_iter() -> (r: Vec<ScoreType>)
        ensures
            r@ == spec_all_kinds(),
    {
        let r = vec![
            ScoreType::AmountOfParticipants(0),
            ScoreType::AmountOfReviewers(0),
            ScoreType::Attachments(0),
            ScoreType::AuthorCommentaryToChangesRatio(None),
            ScoreType::PullRequestsDiscussionSize(0),
            ScoreType::PullRequestFlowRatio(None),
            ScoreType::PullRequestLeadTime(0),
            ScoreType::PullRequestSize(0),
            ScoreType::TestToCodeRatio { loc: 0, test_loc: 0, ratio: Ratio { num: 0, den: 1 } },
            ScoreType::TimeToMerge(0),
        ];
        proof {
            assert(r@ =~= spec_all_kinds());
        }
        r
    }

    /// The display name of this metric kind.
    pub fn name(&self) -> (r: &'static str)
        ensures
            r@ == spec_kind_name(*self),
    {
        match self {
            ScoreType::AmountOfParticipants(_) => "AmountOfParticipants",
            ScoreType::AmountOfReviewers(_) => "AmountOfReviewers",
            ScoreType::Attachments(_) => "Attachments",
            ScoreType::AuthorCommentaryToChangesRatio(_) => "AuthorCommentaryToChangesRatio",
            ScoreType::PullRequestsDiscussionSize(_) => "PullRequestsDiscussionSize",
            ScoreType::PullRequestFlowRatio(_) => "PullRequestFlowRatio",
            ScoreType::PullRequestLeadTime(_) => "PullRequestLeadTime",
            ScoreType::PullRequestSize(_) => "PullRequestSize",
            ScoreType::TestToCodeRatio { .. } => "TestToCodeRatio",
            ScoreType::TimeToMerge(_) => "TimeToMerge",
        }
    }

    /// A verbose explanation of what this metric kind represents.
    pub fn get_legend(&self) -> (r: &'static str)
        ensures
            r@ == spec_kind_legend(*self),
    {
        match self {
            ScoreType::AmountOfParticipants(_) => "The amount of non-authoring people participating in a PR's discussion. Bigger participation may enrich discussion and produce higher quality code.",
            ScoreType::AmountOfReviewers(_) => "The amount of non-authoring people that have taken a stand on a PR's outcome, either by approving or requesting for changes. This measures the amount of participants that effectively decide on a PR's fate.",
            ScoreType::Attachments(_) => "Attachments can be anything ranging from added screenshots to embedded PDF files. Particularly useful for those PRs that have a visual component associated to it.",
            ScoreType::AuthorCommentaryToChangesRatio(_) => "Good code should be self-explanatory; but a good PR may also include extra commentary on what it aims to achieve, how it does it and/or why it does it the chosen way. \n\nA slim commentary may make for an ambiguous PR, shifting the burden of understanding onto the review author and consuming extra time from it. On the other hand, too many comments may pollute a PR with unneeded noise, to the same effect.",
            ScoreType::PullRequestsDiscussionSize(_) => "Similar to Author Commentary to Changes Ratio, it measures the total amount of comments in a PR, but irrespective of who they come from. On the contrary to social media posts, too much engagement in pull requests leads to inefficiency. Measuring the number of comments and reactions for each pull request gives an idea of how the team collaborates. Collaboration is great, and its endorsement is something to be desired. However, after a certain level, discussions slow down development. \n\nDiscussions that get too big may be indicative of something wrong: maybe the team is not aligned, or maybe the software requirements are not precise enough. In any case, misalignment in discussions are not collaboration; they are a waste of time. In the opposite scenario, having almost zero engagement means code review is not part of the team's habits. \n\nIn summary, this metric must reach an 'ideal number' based on the team's size and distribution. It can't be too much, and it can't be too little either.",
            ScoreType::PullRequestFlowRatio(_) => "The Pull Request Flow Ratio is the sum of the opened pull requests in a day divided by the sum of closed pull requests in that same day. This metric shows whether the team works in a healthy proportion. Merging pull requests and deploying to production is a good thing, for it adds value to the final user. However, when the team closes more pull requests than opens, soon the pull request queue starves, which means there may be a hiatus in the delivery. Ideally, it is best to make sure the team merges pull requests in a ratio as close as they open; the closer to 1:1, the better.",
            ScoreType::PullRequestLeadTime(_) => "The lead-time metric gives an idea of how many times (usually in days) pull requests take to be merged or closed. To find this number, the date and time for each pull request when opened and then merged is needed. The formula is easy: a simple average for the difference of dates. Calculating this metric across all repositories in an organization can give a team a clearer idea of their dynamics.",
            ScoreType::PullRequestSize(_) => "A large amount of changes per PR imposes a strain on the review author, who sees its attention to detail diminished the bigger a changelog gets. Ironically, developers tend to merge longer pull requests faster than shorter ones, for it is more difficult to perform thorough reviews when there are too many things going on. Regardless of how thorough the reviews are, big PRs lead to the Time To Merge going up, and the quality going down.",
            ScoreType::TestToCodeRatio { .. } => "As a rule of thumb, at least half of a PR should be comprised of tests whenever possible.",
            ScoreType::TimeToMerge(_) => "In general, pull requests are open with some work in progress, which means that measuring Pull Request Lead Time does not tell the whole story. Time to Merge is how much time it takes for the first commit of a branch to reach the target branch. In practice, the math is simple: it is the timestamp of the oldest commit of a branch minus the timestamp of the merge commit. \n\nThe Time to Merge is usually useful while compared against the Pull Request Lead Time.Take the following example:\n\n* Pull Request Lead Time = 3 days \n* Time To Merge = 15 days \n\nIn the above scenario, a pull request took an average time of 3 days to be merged (which is pretty good); but the Time to Merge was 15 days. Which means that the developers worked an average of 12 days (15 - 3) before opening a pull request. \n\nNOTE: \nThis metric is rendered somewhat obsolete if developers work on WIP branches before squashing all the changes into a single commit that is later used as base for the PR (this would make the Time To Merge effectively equal to the Pull Request Lead Time). However, the metric still remains incredibly useful for merge PRs (for example, merge develop into master): said PRs would have a very short Pull Request Lead Time (they don't get thorough re-reviews), but measuring against the first commit's date (Time to Merge) will tell how long it takes for features to get accumulated into a milestone worthy enough of merging into one of the 'big' branches.",
        }
    }

    /// A verbose explanation of every metric kind, each under its underlined
    /// name.
    pub fn get_legends() -> (r: String)
        ensures
            r@ == spec_legends_of(spec_all_kinds()),
    {
        let kinds = ScoreType::get_iter();
        let mut result = String::new();
        let n = kinds.len();
        let mut i: usize = 0;
        proof {
            assert(result@ =~= spec_legends_of(kinds@.take(0)));
        }
        while i < n
            invariant
                i <= n,
                n == kinds@.len(),
                kinds@ == spec_all_kinds(),
                result@ == spec_legends_of(kinds@.take(i as int)),
            decreases n - i,
        {
            let kind = &kinds[i];
            let name = kind.name();
            let rule = dashes(name.unicode_len());
            result.append("\n");
            result.append(rule.as_str());
            result.append("\n");
            result.append(name);
            result.append("\n");
            result.append(rule.as_str());
            result.append("\n\n");
            result.append(kind.get_legend());
            result.append("\n");
            proof {
                crate::seqs::lemma_take_succ(kinds@, i as int);
                assert(spec_legends_of(kinds@.take(i as int + 1)) == spec_legends_of(
                    kinds@.take(i as int),
                ) + spec_legend_block(kinds@[i as int]));
                assert(result@ =~= spec_legends_of(kinds@.take(i as int + 1)));
            }
            i += 1;
        }
        proof {
            crate::seqs::lemma_take_all(kinds@);
        }
        result
    }
}

/// The verbose explanation of each metric kind.
pub open spec fn spec_kind_legend(k: ScoreType) -> Seq<char> {
    match k {
        ScoreType::AmountOfParticipants(_) => "The amount of non-authoring people participating in a PR's discussion. Bigger participation may enrich discussion and produce higher quality code."@,
        ScoreType::AmountOfReviewers(_) => "The amount of non-authoring people that have taken a stand on a PR's outcome, either by approving or requesting for changes. This measures the amount of participants that effectively decide on a PR's fate."@,
        ScoreType::Attachments(_) => "Attachments can be anything ranging from added screenshots to embedded PDF files. Particularly useful for those PRs that have a visual component associated to it."@,
        ScoreType::AuthorCommentaryToChangesRatio(_) => "Good code should be self-explanatory; but a good PR may also include extra commentary on what it aims to achieve, how it does it and/or why it does it the chosen way. \n\nA slim commentary may make for an ambiguous PR, shifting the burden of understanding onto the review author and consuming extra time from it. On the other hand, too many comments may pollute a PR with unneeded noise, to the same effect."@,
        ScoreType::PullRequestsDiscussionSize(_) => "Similar to Author Commentary to Changes Ratio, it measures the total amount of comments in a PR, but irrespective of who they come from. On the contrary to social media posts, too much engagement in pull requests leads to inefficiency. Measuring the number of comments and reactions for each pull request gives an idea of how the team collaborates. Collaboration is great, and its endorsement is something to be desired. However, after a certain level, discussions slow down development. \n\nDiscussions that get too big may be indicative of something wrong: maybe the team is not aligned, or maybe the software requirements are not precise enough. In any case, misalignment in discussions are not collaboration; they are a waste of time. In the opposite scenario, having almost zero engagement means code review is not part of the team's habits. \n\nIn summary, this metric must reach an 'ideal number' based on the team's size and distribution. It can't be too much, and it can't be too little either."@,
        ScoreType::PullRequestFlowRatio(_) => "The Pull Request Flow Ratio is the sum of the opened pull requests in a day divided by the sum of closed pull requests in that same day. This metric shows whether the team works in a healthy proportion. Merging pull requests and deploying to production is a good thing, for it adds value to the final user. However, when the team closes more pull requests than opens, soon the pull request queue starves, which means there may be a hiatus in the delivery. Ideally, it is best to make sure the team merges pull requests in a ratio as close as they open; the closer to 1:1, the better."@,
        ScoreType::PullRequestLeadTime(_) => "The lead-time metric gives an idea of how many times (usually in days) pull requests take to be merged or closed. To find this number, the date and time for each pull request when opened and then merged is needed. The formula is easy: a simple average for the difference of dates. Calculating this metric across all repositories in an organization can give a team a clearer idea of their dynamics."@,
        ScoreType::PullRequestSize(_) => "A large amount of changes per PR imposes a strain on the review author, who sees its attention to detail diminished the bigger a changelog gets. Ironically, developers tend to merge longer pull requests faster than shorter ones, for it is more difficult to perform thorough reviews when there are too many things going on. Regardless of how thorough the reviews are, big PRs lead to the Time To Merge going up, and the quality going down."@,
        ScoreType::TestToCodeRatio { .. } => "As a rule of thumb, at least half of a PR should be comprised of tests whenever possible."@,
        ScoreType::TimeToMerge(_) => "In general, pull requests are open with some work in progress, which means that measuring Pull Request Lead Time does not tell the whole story. Time to Merge is how much time it takes for the first commit of a branch to reach the target branch. In practice, the math is simple: it is the timestamp of the oldest commit of a branch minus the timestamp of the merge commit. \n\nThe Time to Merge is usually useful while compared against the Pull Request Lead Time.Take the following example:\n\n* Pull Request Lead Time = 3 days \n* Time To Merge = 15 days \n\nIn the above scenario, a pull request took an average time of 3 days to be merged (which is pretty good); but the Time to Merge was 15 days. Which means that the developers worked an average of 12 days (15 - 3) before opening a pull request. \n\nNOTE: \nThis metric is rendered somewhat obsolete if developers work on WIP branches before squashing all the changes into a single commit that is later used as base for the PR (this would make the Time To Merge effectively equal to the Pull Request Lead Time). However, the metric still remains incredibly useful for merge PRs (for example, merge develop into master): said PRs would have a very short Pull Request Lead Time (they don't get thorough re-reviews), but measuring against the first commit's date (Time to Merge) will tell how long it takes for features to get accumulated into a milestone worthy enough of merging into one of the 'big' branches."@,
    }
}

/// `n` dashes.
pub open spec fn spec_dashes(n: int) -> Seq<char> {
    Seq::new(n as nat, |i: int| '-')
}

/// A rule of `n` dashes.
fn dashes(n: usize) -> (r: String)
    ensures
        r@ == spec_dashes(n as int),
{
    proof {
        reveal_strlit("-");
    }
    let mut r = String::new();
    let mut i: usize = 0;
    while i < n
        invariant
            i <= n,
            r@ =~= spec_dashes(i as int),
        decreases n - i,
    {
        r.append("-");
        proof {
            reveal_strlit("-");
            assert(r@ =~= spec_dashes(i as int + 1));
        }
        i += 1;
    }
    proof {
        assert(r@ =~= spec_dashes(n as int));
    }
    r
}

/// One titled legend block: the kind's underlined name followed by its
/// explanation.
pub open spec fn spec_legend_block(k: ScoreType) -> Seq<char> {
    "\n"@ + spec_dashes(spec_kind_name(k).len() as int) + "\n"@ + spec_kind_name(k) + "\n"@
        + spec_dashes(spec_kind_name(k).len() as int) + "\n\n"@ + spec_kind_legend(k) + "\n"@
}

/// The legend blocks of a listing of kinds, in order.
pub open spec fn spec_legends_of(kinds: Seq<ScoreType>) -> Seq<char>
    decreases kinds.len(),
{
    if kinds.len() == 0 {
        Seq::empty()
    } else {
        spec_legends_of(kinds.drop_last()) + spec_legend_block(kinds.last())
    }
}

/// A collection of metric values: the end product of an analysis, either for
/// one PR (whose number it then carries) or for a whole repository.
#[derive(Debug, Clone)]
pub struct Score {
    pub pr_number: Option<u64>,
    pub score: Vec<ScoreType>,
}

impl Score {
    /// Creates a score record.
    pub fn new(pr_number: Option<u64>, score: Vec<ScoreType>) -> (r: Self)
        ensures
            r.pr_number == pr_number,
            r.score == score,
    {
        Score { pr_number, score }
    }

    /// The metric values, consuming the record.
    pub fn score(self) -> (r: Vec<ScoreType>)
        ensures
            r == self.score,
    {
        self.score
    }
}

} // verus!
