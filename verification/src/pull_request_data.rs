//! The bundle of all relevant information about one pull request, and the
//! per-PR metric derivations.
//!
//! A bundle holds the PR's header fields together with its five
//! sub-resources: issue comments, commit comments, reviews, the commit list
//! (non-empty by invariant) and the parsed diff.  Every metric here is a
//! pure function of the bundle.  Timestamps are seconds since the Unix
//! epoch.

use vstd::prelude::*;
use vstd::string::StrSliceExecFns;

use crate::comment::Comment;
use crate::commit::CommitRoot;
use crate::commit_comment::CommitComment;
use crate::diff::Hunk;
use crate::diff::PatchSet;
use crate::diff::PatchedFile;
use crate::diff::spec_is_added_file;
use crate::diff::spec_is_modified_file;
use crate::error::AnalyzeError;
use crate::markdown::spec_attachments;
use crate::markdown::find_attachments;
use crate::review::Review;
use crate::score::Ratio;
use crate::score::Score;
use crate::score::ScoreType;
use crate::scorable::Scorable;
use crate::seqs::lemma_dedup_contains;
use crate::seqs::lemma_take_all;
use crate::seqs::lemma_take_succ;
use crate::seqs::spec_dedup;
use crate::seqs::spec_filter_ne;
use crate::text::chars_of;
use crate::text::contains_token;
use crate::text::spec_contains_token;
use crate::text::spec_starts_with_token;
use crate::text::str_eq;
use crate::text::token_at;

verus! {

/// Largest timestamp magnitude (in seconds) the library works with; the
/// hosting API's calendar range lies far inside it, and it keeps every
/// timestamp difference inside a machine word.
pub const TS_BOUND: i64 = 4_000_000_000_000;

/// Whether a timestamp lies within the supported range.
pub open spec fn spec_ts_in_range(t: int) -> bool {
    -(TS_BOUND as int) <= t <= TS_BOUND as int
}

/// A wrapper for an already-retrieved pull request: all structures needed to
/// derive its metrics.
#[derive(Debug)]
pub struct PullRequestData {
    pub repo_name: String,
    pub pr_number: u64,
    pub pr_author: String,
    pub pr_title: String,
    pub main_message: String,
    pub comments: Vec<Comment>,
    pub commit_comments: Vec<CommitComment>,
    pub commits: Vec<CommitRoot>,
    pub reviews: Vec<Review>,
    pub patch_set: PatchSet,
    pub created_at: i64,
    pub merged_at: i64,
    pub closed_at: i64,
}

/// The result of retrieving one pull request: a complete bundle or a typed
/// failure.
pub type PullRequestDataResult = Result<PullRequestData, AnalyzeError>;

// ---------------------------------------------------------------------------
// Sums over the parsed diff
// ---------------------------------------------------------------------------
/// The net added lines of one hunk: `max(added - removed, 0)`.
pub open spec fn spec_hunk_net(h: Hunk) -> int {
    if h.added >= h.removed {
        h.added - h.removed
    } else {
        0
    }
}

/// The total net added lines over a sequence of hunks.
pub open spec fn spec_sum_net(hunks: Seq<Hunk>) -> int
    decreases hunks.len(),
{
    if hunks.len() == 0 {
        0
    } else {
        spec_sum_net(hunks.drop_last()) + spec_hunk_net(hunks.last())
    }
}

/// The total changed lines (additions plus deletions) over a sequence of
/// hunks.
pub open spec fn spec_sum_changes(hunks: Seq<Hunk>) -> int
    decreases hunks.len(),
{
    if hunks.len() == 0 {
        0
    } else {
        spec_sum_changes(hunks.drop_last()) + (hunks.last().added + hunks.last().removed)
    }
}

/// Whether a path names a test suite: a case-insensitive search for the
/// token "test".  Deliberately naive — paths containing the token inside
/// another word (such as "contest") are false positives.
pub open spec fn spec_is_test_path(s: Seq<char>) -> bool {
    spec_contains_token(s, "test"@)
}

/// Whether a file counts toward net-added-line sums with the given test
/// classification: only added or modified files are counted.
pub open spec fn spec_file_counted(f: PatchedFile, want_test: bool) -> bool {
    (spec_is_added_file(f@) || spec_is_modified_file(f@)) && spec_is_test_path(f.target_file@)
        == want_test
}

/// The net added lines over the counted files of the given classification.
pub open spec fn spec_net_lines(files: Seq<PatchedFile>, want_test: bool) -> int
    decreases files.len(),
{
    if files.len() == 0 {
        0
    } else {
        spec_net_lines(files.drop_last(), want_test) + if spec_file_counted(
            files.last(),
            want_test,
        ) {
            spec_sum_net(files.last().hunks@)
        } else {
            0
        }
    }
}

/// The total changed lines over all files, whatever their classification.
pub open spec fn spec_changes(files: Seq<PatchedFile>) -> int
    decreases files.len(),
{
    if files.len() == 0 {
        0
    } else {
        spec_changes(files.drop_last()) + spec_sum_changes(files.last().hunks@)
    }
}

/// Net sums are non-negative and no larger than change sums.
pub proof fn lemma_hunk_sums(hunks: Seq<Hunk>)
    ensures
        0 <= spec_sum_net(hunks) <= spec_sum_changes(hunks),
    decreases hunks.len(),
{
    if hunks.len() > 0 {
        lemma_hunk_sums(hunks.drop_last());
    }
}

/// A prefix of a hunk sequence contributes at most the whole sum.
pub proof fn lemma_sum_changes_take_le(hunks: Seq<Hunk>, k: int)
    requires
        0 <= k <= hunks.len(),
    ensures
        0 <= spec_sum_changes(hunks.take(k)) <= spec_sum_changes(hunks),
    decreases hunks.len() - k,
{
    if k == hunks.len() {
        lemma_take_all(hunks);
        lemma_nonneg_sum_changes(hunks);
    } else {
        lemma_sum_changes_take_le(hunks, k + 1);
        lemma_take_succ(hunks, k);
        lemma_nonneg_sum_changes(hunks.take(k));
        assert(spec_sum_changes(hunks.take(k + 1)) == spec_sum_changes(hunks.take(k)) + (
        hunks[k].added + hunks[k].removed));
    }
}

/// Change sums are non-negative.
pub proof fn lemma_nonneg_sum_changes(hunks: Seq<Hunk>)
    ensures
        spec_sum_changes(hunks) >= 0,
    decreases hunks.len(),
{
    if hunks.len() > 0 {
        lemma_nonneg_sum_changes(hunks.drop_last());
    }
}

/// Per-file change totals are non-negative, so file prefixes contribute at
/// most the whole change total.
pub proof fn lemma_changes_take_le(files: Seq<PatchedFile>, i: int)
    requires
        0 <= i <= files.len(),
    ensures
        0 <= spec_changes(files.take(i)) <= spec_changes(files),
    decreases files.len() - i,
{
    if i == files.len() {
        lemma_take_all(files);
        lemma_nonneg_changes(files);
    } else {
        lemma_changes_take_le(files, i + 1);
        lemma_take_succ(files, i);
        lemma_nonneg_sum_changes(files[i].hunks@);
        lemma_nonneg_changes(files.take(i));
        assert(spec_changes(files.take(i + 1)) == spec_changes(files.take(i)) + spec_sum_changes(
            files[i].hunks@,
        ));
    }
}

/// Change totals over files are non-negative.
pub proof fn lemma_nonneg_changes(files: Seq<PatchedFile>)
    ensures
        spec_changes(files) >= 0,
    decreases files.len(),
{
    if files.len() > 0 {
        lemma_nonneg_changes(files.drop_last());
        lemma_nonneg_sum_changes(files.last().hunks@);
    }
}

/// Net line sums never exceed the total change sum over the same files.
pub proof fn lemma_net_le_changes(files: Seq<PatchedFile>, want_test: bool)
    ensures
        0 <= spec_net_lines(files, want_test) <= spec_changes(files),
    decreases files.len(),
{
    if files.len() > 0 {
        lemma_net_le_changes(files.drop_last(), want_test);
        lemma_hunk_sums(files.last().hunks@);
    }
}

impl PullRequestData {
    /// Creates a bundle from its parts.
    #[allow(clippy::too_many_arguments)]
    pub fn new(
        repo_name: &str,
        pr_number: u64,
        pr_author: &str,
        pr_title: &str,
        main_message: &str,
        comments: Vec<Comment>,
        commit_comments: Vec<CommitComment>,
        commits: Vec<CommitRoot>,
        reviews: Vec<Review>,
        patch_set: PatchSet,
        created_at: i64,
        merged_at: i64,
        closed_at: i64,
    ) -> (r: Self)
        ensures
            r.repo_name@ == repo_name@,
            r.pr_number == pr_number,
            r.pr_author@ == pr_author@,
            r.pr_title@ == pr_title@,
            r.main_message@ == main_message@,
            r.comments == comments,
            r.commit_comments == commit_comments,
            r.commits == commits,
            r.reviews == reviews,
            r.patch_set == patch_set,
            r.created_at == created_at,
            r.merged_at == merged_at,
            r.closed_at == closed_at,
    {
        PullRequestData {
            repo_name: repo_name.to_owned(),
            pr_number,
            pr_author: pr_author.to_owned(),
            pr_title: pr_title.to_owned(),
            main_message: main_message.to_owned(),
            comments,
            commit_comments,
            commits,
            reviews,
            patch_set,
            created_at,
            merged_at,
            closed_at,
        }
    }

    /// The repository's name.
    pub fn repo_name(&self) -> (r: &str)
        ensures
            r@ == self.repo_name@,
    {
        self.repo_name.as_str()
    }

    /// The PR's number.
    pub fn pr_number(&self) -> (r: u64)
        ensures
            r == self.pr_number,
    {
        self.pr_number
    }

    /// The PR author's login.
    pub fn pr_author(&self) -> (r: &str)
        ensures
            r@ == self.pr_author@,
    {
        self.pr_author.as_str()
    }

    /// The PR's title.
    pub fn pr_title(&self) -> (r: &str)
        ensures
            r@ == self.pr_title@,
    {
        self.pr_title.as_str()
    }

    /// The PR's body: its first and usually most informative message.
    pub fn main_message(&self) -> (r: &str)
        ensures
            r@ == self.main_message@,
    {
        self.main_message.as_str()
    }

    /// The PR's issue-style comments.
    pub fn comments(&self) -> (r: &Vec<Comment>)
        ensures
            r == self.comments,
    {
        &self.comments
    }

    /// The PR's commit comments.
    pub fn commit_comments(&self) -> (r: &Vec<CommitComment>)
        ensures
            r == self.commit_comments,
    {
        &self.commit_comments
    }

    /// The PR's commits.
    pub fn commits(&self) -> (r: &Vec<CommitRoot>)
        ensures
            r == self.commits,
    {
        &self.commits
    }

    /// The PR's reviews.
    pub fn reviews(&self) -> (r: &Vec<Review>)
        ensures
            r == self.reviews,
    {
        &self.reviews
    }

    /// The PR's parsed diff.
    pub fn patch_set(&self) -> (r: &PatchSet)
        ensures
            r == self.patch_set,
    {
        &self.patch_set
    }

    /// When the PR was created.
    pub fn created_at(&self) -> (r: i64)
        ensures
            r == self.created_at,
    {
        self.created_at
    }

    /// When the PR was closed.
    pub fn closed_at(&self) -> (r: i64)
        ensures
            r == self.closed_at,
    {
        self.closed_at
    }

    /// The total changed lines of the PR's diff.
    pub open spec fn spec_changes_total(&self) -> int {
        spec_changes(self.patch_set.files@)
    }

    /// The net added test lines of the PR's diff.
    pub open spec fn spec_net_test(&self) -> int {
        spec_net_lines(self.patch_set.files@, true)
    }

    /// The net added non-test lines of the PR's diff.
    pub open spec fn spec_net_non_test(&self) -> int {
        spec_net_lines(self.patch_set.files@, false)
    }

    /// The amount of net added lines in test files, over added or modified
    /// files only; deletions beyond additions floor at zero per hunk.
    pub fn get_amount_of_net_added_test_lines(&self) -> (r: usize)
        requires
            self.spec_changes_total() <= usize::MAX,
        ensures
            r == self.spec_net_test(),
    {
        self.net_added_lines(true)
    }

    /// The amount of net added lines outside test files, over added or
    /// modified files only; deletions beyond additions floor at zero per
    /// hunk.
    pub fn get_amount_of_net_added_non_test_lines(&self) -> (r: usize)
        requires
            self.spec_changes_total() <= usize::MAX,
        ensures
            r == self.spec_net_non_test(),
    {
        self.net_added_lines(false)
    }

    /// The net added lines over files of the given test classification.
    fn net_added_lines(&self, want_test: bool) -> (r: usize)
        requires
            self.spec_changes_total() <= usize::MAX,
        ensures
            r == spec_net_lines(self.patch_set.files@, want_test),
    {
        let files = &self.patch_set.files;
        let n = files.len();
        let mut total: usize = 0;
        let mut i: usize = 0;
        proof {
            lemma_net_le_changes(files@, want_test);
        }
        while i < n
            invariant
                n == files@.len(),
                i <= n,
                files@ == self.patch_set.files@,
                spec_net_lines(files@, want_test) <= spec_changes(files@) <= usize::MAX,
                total == spec_net_lines(files@.take(i as int), want_test),
            decreases n - i,
        {
            let f = &files[i];
            let counted = (f.is_added_file() || f.is_modified_file()) && is_test_file(
                f.target_file.as_str(),
            ) == want_test;
            if counted {
                let mut ft: usize = 0;
                let mut k: usize = 0;
                let m = f.hunks.len();
                proof {
                    lemma_net_lines_take_bound(files@, i as int, want_test);
                }
                while k < m
                    invariant
                        m == f.hunks@.len(),
                        k <= m,
                        f == files@[i as int],
                        ft == spec_sum_net(f.hunks@.take(k as int)),
                        spec_sum_net(f.hunks@) <= usize::MAX,
                    decreases m - k,
                {
                    let h = f.hunks[k];
                    proof {
                        lemma_take_succ(f.hunks@, k as int);
                        assert(spec_sum_net(f.hunks@.take(k as int + 1)) == spec_sum_net(
                            f.hunks@.take(k as int),
                        ) + spec_hunk_net(f.hunks@[k as int]));
                        lemma_sum_net_take_le(f.hunks@, k as int + 1);
                        lemma_sum_net_take_nonneg(f.hunks@, k as int);
                    }
                    ft = ft + h.net_added();
                    k += 1;
                }
                proof {
                    lemma_take_all(f.hunks@);
                    lemma_take_succ(files@, i as int);
                    assert(spec_net_lines(files@.take(i as int + 1), want_test) == spec_net_lines(
                        files@.take(i as int),
                        want_test,
                    ) + spec_sum_net(f.hunks@));
                    lemma_net_lines_take_le(files@, i as int + 1, want_test);
                    lemma_net_lines_take_nonneg(files@, i as int, want_test);
                }
                total = total + ft;
            } else {
                proof {
                    lemma_take_succ(files@, i as int);
                    assert(spec_net_lines(files@.take(i as int + 1), want_test) == spec_net_lines(
                        files@.take(i as int),
                        want_test,
                    ));
                }
            }
            i += 1;
        }
        proof {
            lemma_take_all(files@);
        }
        total
    }

    /// The amount of changed lines, additions and deletions alike, over
    /// every file of the diff.
    pub fn get_amount_of_changes(&self) -> (r: usize)
        requires
            self.spec_changes_total() <= usize::MAX,
        ensures
            r == self.spec_changes_total(),
    {
        let files = &self.patch_set.files;
        let n = files.len();
        let mut total: usize = 0;
        let mut i: usize = 0;
        while i < n
            invariant
                n == files@.len(),
                i <= n,
                files@ == self.patch_set.files@,
                spec_changes(files@) <= usize::MAX,
                total == spec_changes(files@.take(i as int)),
            decreases n - i,
        {
            let f = &files[i];
            let mut ft: usize = 0;
            let mut k: usize = 0;
            let m = f.hunks.len();
            proof {
                lemma_changes_file_bound(files@, i as int);
            }
            while k < m
                invariant
                    m == f.hunks@.len(),
                    k <= m,
                    f == files@[i as int],
                    ft == spec_sum_changes(f.hunks@.take(k as int)),
                    spec_sum_changes(f.hunks@) <= usize::MAX,
                decreases m - k,
            {
                let h = f.hunks[k];
                proof {
                    lemma_take_succ(f.hunks@, k as int);
                    assert(spec_sum_changes(f.hunks@.take(k as int + 1)) == spec_sum_changes(
                        f.hunks@.take(k as int),
                    ) + (f.hunks@[k as int].added + f.hunks@[k as int].removed));
                    lemma_sum_changes_take_le(f.hunks@, k as int + 1);
                    lemma_sum_changes_take_le(f.hunks@, k as int);
                }
                ft = ft + h.added;
                ft = ft + h.removed;
                k += 1;
            }
            proof {
                lemma_take_all(f.hunks@);
                lemma_take_succ(files@, i as int);
                assert(spec_changes(files@.take(i as int + 1)) == spec_changes(
                    files@.take(i as int),
                ) + spec_sum_changes(f.hunks@));
                lemma_changes_take_le(files@, i as int + 1);
                lemma_changes_take_le(files@, i as int);
            }
            total = total + ft;
            i += 1;
        }
        proof {
            lemma_take_all(files@);
        }
        total
    }
}

/// Net sums over hunk prefixes are non-negative.
pub proof fn lemma_sum_net_take_nonneg(hunks: Seq<Hunk>, k: int)
    requires
        0 <= k <= hunks.len(),
    ensures
        spec_sum_net(hunks.take(k)) >= 0,
{
    lemma_hunk_sums(hunks.take(k));
}

/// Net sums over hunk prefixes never exceed the whole net sum.
pub proof fn lemma_sum_net_take_le(hunks: Seq<Hunk>, k: int)
    requires
        0 <= k <= hunks.len(),
    ensures
        spec_sum_net(hunks.take(k)) <= spec_sum_net(hunks),
    decreases hunks.len() - k,
{
    if k == hunks.len() {
        lemma_take_all(hunks);
    } else {
        lemma_sum_net_take_le(hunks, k + 1);
        lemma_take_succ(hunks, k);
        assert(spec_sum_net(hunks.take(k + 1)) == spec_sum_net(hunks.take(k)) + spec_hunk_net(
            hunks[k],
        ));
    }
}

/// Net line sums over file prefixes are non-negative.
pub proof fn lemma_net_lines_take_nonneg(files: Seq<PatchedFile>, i: int, want_test: bool)
    requires
        0 <= i <= files.len(),
    ensures
        spec_net_lines(files.take(i), want_test) >= 0,
{
    lemma_net_le_changes(files.take(i), want_test);
}

/// Net line sums over file prefixes never exceed the whole net line sum.
pub proof fn lemma_net_lines_take_le(files: Seq<PatchedFile>, i: int, want_test: bool)
    requires
        0 <= i <= files.len(),
    ensures
        spec_net_lines(files.take(i), want_test) <= spec_net_lines(files, want_test),
    decreases files.len() - i,
{
    if i == files.len() {
        lemma_take_all(files);
    } else {
        lemma_net_lines_take_le(files, i + 1, want_test);
        lemma_take_succ(files, i);
        lemma_hunk_sums(files[i].hunks@);
        assert(spec_net_lines(files.take(i + 1), want_test) == spec_net_lines(files.take(i),
        want_test) + if spec_file_counted(files[i], want_test) {
            spec_sum_net(files[i].hunks@)
        } else {
            0
        });
    }
}

/// Inside a bounded diff, one counted file's net sum fits a machine word.
pub proof fn lemma_net_lines_take_bound(files: Seq<PatchedFile>, i: int, want_test: bool)
    requires
        0 <= i < files.len(),
        spec_changes(files) <= usize::MAX,
    ensures
        spec_sum_net(files[i].hunks@) <= usize::MAX,
{
    lemma_hunk_sums(files[i].hunks@);
    lemma_changes_file_bound(files, i);
}

/// Inside a bounded diff, one file's change sum fits a machine word.
pub proof fn lemma_changes_file_bound(files: Seq<PatchedFile>, i: int)
    requires
        0 <= i < files.len(),
        spec_changes(files) <= usize::MAX,
    ensures
        spec_sum_changes(files[i].hunks@) <= usize::MAX,
{
    lemma_take_succ(files, i);
    assert(spec_changes(files.take(i + 1)) == spec_changes(files.take(i)) + spec_sum_changes(
        files[i].hunks@,
    ));
    lemma_changes_take_le(files, i);
    lemma_changes_take_le(files, i + 1);
}

/// Whether a file path names a test suite: a case-insensitive search for the
/// token "test" anywhere in the path.  May trigger false positives when the
/// token sits inside an unrelated word (such as "contest").
pub fn is_test_file(name: &str) -> (r: bool)
    ensures
        r == spec_is_test_path(name@),
{
    let cs = chars_of(name);
    proof {
        reveal_strlit("test");
    }
    contains_token(&cs, "test")
}

// ---------------------------------------------------------------------------
// Commentary
// ---------------------------------------------------------------------------
/// The view of an optional author filter.
pub open spec fn spec_opt_view(o: Option<&str>) -> Option<Seq<char>> {
    match o {
        Some(a) => Some(a@),
        None => None,
    }
}

/// What one issue comment contributes to a commentary listing: its body, if
/// it has one and its author passes the filter.
pub open spec fn spec_comment_contrib(c: Comment, author: Option<Seq<char>>) -> Seq<Seq<char>> {
    let pass = match author {
        Some(a) => c.user.login@ == a,
        None => true,
    };
    match c.body {
        Some(b) => if pass {
            seq![b@]
        } else {
            Seq::empty()
        },
        None => Seq::empty(),
    }
}

/// The bodies of the issue comments whose author passes the filter, in
/// order.
pub open spec fn spec_comment_bodies(cs: Seq<Comment>, author: Option<Seq<char>>) -> Seq<Seq<char>>
    decreases cs.len(),
{
    if cs.len() == 0 {
        Seq::empty()
    } else {
        spec_comment_bodies(cs.drop_last(), author) + spec_comment_contrib(cs.last(), author)
    }
}

/// What one commit comment contributes to a commentary listing.
pub open spec fn spec_cc_contrib(c: CommitComment, author: Option<Seq<char>>) -> Seq<Seq<char>> {
    let pass = match author {
        Some(a) => c.user.login@ == a,
        None => true,
    };
    if pass {
        seq![c.body@]
    } else {
        Seq::empty()
    }
}

/// The bodies of the commit comments whose author passes the filter, in
/// order.
pub open spec fn spec_cc_bodies(cs: Seq<CommitComment>, author: Option<Seq<char>>) -> Seq<
    Seq<char>,
>
    decreases cs.len(),
{
    if cs.len() == 0 {
        Seq::empty()
    } else {
        spec_cc_bodies(cs.drop_last(), author) + spec_cc_contrib(cs.last(), author)
    }
}

/// What one review contributes to a commentary listing.
pub open spec fn spec_review_contrib(c: Review, author: Option<Seq<char>>) -> Seq<Seq<char>> {
    let pass = match author {
        Some(a) => c.user.login@ == a,
        None => true,
    };
    match c.body {
        Some(b) => if pass {
            seq![b@]
        } else {
            Seq::empty()
        },
        None => Seq::empty(),
    }
}

/// The bodies of the reviews whose author passes the filter, in order.
pub open spec fn spec_review_bodies(cs: Seq<Review>, author: Option<Seq<char>>) -> Seq<Seq<char>>
    decreases cs.len(),
{
    if cs.len() == 0 {
        Seq::empty()
    } else {
        spec_review_bodies(cs.drop_last(), author) + spec_review_contrib(cs.last(), author)
    }
}

/// The total character count of a listing of texts.
pub open spec fn spec_total_len(ss: Seq<Seq<char>>) -> int
    decreases ss.len(),
{
    if ss.len() == 0 {
        0
    } else {
        spec_total_len(ss.drop_last()) + ss.last().len()
    }
}

/// Character totals are non-negative.
pub proof fn lemma_total_len_nonneg(ss: Seq<Seq<char>>)
    ensures
        spec_total_len(ss) >= 0,
    decreases ss.len(),
{
    if ss.len() > 0 {
        lemma_total_len_nonneg(ss.drop_last());
    }
}

/// Character totals add over concatenation.
pub proof fn lemma_total_len_concat(a: Seq<Seq<char>>, b: Seq<Seq<char>>)
    ensures
        spec_total_len(a + b) == spec_total_len(a) + spec_total_len(b),
    decreases b.len(),
{
    if b.len() == 0 {
        assert(a + b =~= a);
    } else {
        lemma_total_len_concat(a, b.drop_last());
        assert((a + b).drop_last() =~= a + b.drop_last());
        assert((a + b).last() == b.last());
    }
}

/// A prefix of a listing counts at most the whole character total.
pub proof fn lemma_total_len_take_le(ss: Seq<Seq<char>>, i: int)
    requires
        0 <= i <= ss.len(),
    ensures
        0 <= spec_total_len(ss.take(i)) <= spec_total_len(ss),
    decreases ss.len() - i,
{
    if i == ss.len() {
        lemma_take_all(ss);
        lemma_total_len_nonneg(ss);
    } else {
        lemma_total_len_take_le(ss, i + 1);
        lemma_take_succ(ss, i);
        lemma_total_len_nonneg(ss.take(i));
        assert(spec_total_len(ss.take(i + 1)) == spec_total_len(ss.take(i)) + ss[i].len());
    }
}

/// The character total of a one-text listing is that text's length.
pub proof fn lemma_total_len_single(x: Seq<char>)
    ensures
        spec_total_len(seq![x]) == x.len(),
{
    assert(seq![x].len() == 1);
    assert(seq![x].last() == x);
    assert(seq![x].drop_last() =~= Seq::<Seq<char>>::empty());
    assert(spec_total_len(Seq::<Seq<char>>::empty()) == 0);
}

/// An author-filtered comment listing counts at most the unfiltered one.
pub proof fn lemma_comment_bodies_le(cs: Seq<Comment>, author: Option<Seq<char>>)
    ensures
        spec_total_len(spec_comment_bodies(cs, author)) <= spec_total_len(
            spec_comment_bodies(cs, None),
        ),
    decreases cs.len(),
{
    if cs.len() > 0 {
        lemma_comment_bodies_le(cs.drop_last(), author);
        lemma_total_len_concat(
            spec_comment_bodies(cs.drop_last(), author),
            spec_comment_contrib(cs.last(), author),
        );
        lemma_total_len_concat(
            spec_comment_bodies(cs.drop_last(), None),
            spec_comment_contrib(cs.last(), None),
        );
        match cs.last().body {
            Some(b) => lemma_total_len_single(b@),
            None => (),
        }
    }
}

/// An author-filtered commit-comment listing counts at most the unfiltered
/// one.
pub proof fn lemma_cc_bodies_le(cs: Seq<CommitComment>, author: Option<Seq<char>>)
    ensures
        spec_total_len(spec_cc_bodies(cs, author)) <= spec_total_len(spec_cc_bodies(cs, None)),
    decreases cs.len(),
{
    if cs.len() > 0 {
        lemma_cc_bodies_le(cs.drop_last(), author);
        lemma_total_len_concat(
            spec_cc_bodies(cs.drop_last(), author),
            spec_cc_contrib(cs.last(), author),
        );
        lemma_total_len_concat(
            spec_cc_bodies(cs.drop_last(), None),
            spec_cc_contrib(cs.last(), None),
        );
        lemma_total_len_single(cs.last().body@);
    }
}

/// An author-filtered review listing counts at most the unfiltered one.
pub proof fn lemma_review_bodies_le(cs: Seq<Review>, author: Option<Seq<char>>)
    ensures
        spec_total_len(spec_review_bodies(cs, author)) <= spec_total_len(
            spec_review_bodies(cs, None),
        ),
    decreases cs.len(),
{
    if cs.len() > 0 {
        lemma_review_bodies_le(cs.drop_last(), author);
        lemma_total_len_concat(
            spec_review_bodies(cs.drop_last(), author),
            spec_review_contrib(cs.last(), author),
        );
        lemma_total_len_concat(
            spec_review_bodies(cs.drop_last(), None),
            spec_review_contrib(cs.last(), None),
        );
        match cs.last().body {
            Some(b) => lemma_total_len_single(b@),
            None => (),
        }
    }
}

// ---------------------------------------------------------------------------
// Participants and attachments
// ---------------------------------------------------------------------------
/// The logins of all commenting or reviewing accounts, in the order
/// comments, reviews, commit comments.
pub open spec fn spec_all_logins(pr: &PullRequestData) -> Seq<Seq<char>> {
    pr.comments@.map_values(|c: Comment| c.user.login@) + pr.reviews@.map_values(
        |r: Review| r.user.login@,
    ) + pr.commit_comments@.map_values(|c: CommitComment| c.user.login@)
}

/// The attachments found across a listing of texts, in order.
pub open spec fn spec_attach_concat(ss: Seq<Seq<char>>) -> Seq<Seq<char>>
    decreases ss.len(),
{
    if ss.len() == 0 {
        Seq::empty()
    } else {
        spec_attach_concat(ss.drop_last()) + spec_attachments(ss.last())
    }
}

/// Whether the listing of distinct non-author logins holds `x`.
fn vec_contains_str(v: &Vec<String>, x: &str) -> (r: bool)
    ensures
        r == v.deep_view().contains(x@),
{
    let mut i: usize = 0;
    let n = v.len();
    while i < n
        invariant
            i <= n,
            n == v@.len(),
            forall|j: int| 0 <= j < i ==> v.deep_view()[j] != x@,
        decreases n - i,
    {
        if str_eq(v[i].as_str(), x) {
            assert(v.deep_view()[i as int] == x@);
            return true;
        }
        i += 1;
    }
    assert(!v.deep_view().contains(x@)) by {
        if v.deep_view().contains(x@) {
            let j = choose|j: int| 0 <= j < v.deep_view().len() && v.deep_view()[j] == x@;
        }
    }
    false
}

/// The distinct values of `logins` in first-occurrence order, without
/// `author`.
fn distinct_non_author(logins: &Vec<String>, author: &str) -> (r: Vec<String>)
    ensures
        r.deep_view() == spec_filter_ne(spec_dedup(logins.deep_view()), author@),
{
    let ghost lv = logins.deep_view();
    let n = logins.len();
    let mut seen: Vec<String> = Vec::new();
    let mut out: Vec<String> = Vec::new();
    let mut i: usize = 0;
    while i < n
        invariant
            i <= n,
            n == logins@.len(),
            lv == logins.deep_view(),
            lv.len() == logins@.len(),
            seen.deep_view() == spec_dedup(lv.take(i as int)),
            out.deep_view() == spec_filter_ne(spec_dedup(lv.take(i as int)), author@),
        decreases n - i,
    {
        let l = &logins[i];
        proof {
            assert(lv[i as int] == logins@[i as int]@);
            lemma_take_succ(lv, i as int);
            lemma_dedup_contains(lv.take(i as int));
        }
        let ghost d = spec_dedup(lv.take(i as int));
        let ghost f = spec_filter_ne(d, author@);
        if !vec_contains_str(&seen, l.as_str()) {
            let ghost bv = l@;
            seen.push(l.clone());
            proof {
                assert(seen.deep_view() =~= d.push(bv));
                assert(spec_dedup(lv.take(i as int + 1)) == d.push(bv));
            }
            if !str_eq(l.as_str(), author) {
                out.push(l.clone());
                proof {
                    assert(out.deep_view() =~= f.push(bv));
                    assert((d.push(bv)).drop_last() =~= d);
                    assert(spec_filter_ne(d.push(bv), author@) == f.push(bv));
                }
            } else {
                proof {
                    assert((d.push(bv)).drop_last() =~= d);
                    assert(spec_filter_ne(d.push(bv), author@) == f);
                }
            }
        } else {
            proof {
                assert(spec_dedup(lv.take(i as int + 1)) == d);
            }
        }
        i += 1;
    }
    proof {
        lemma_take_all(lv);
    }
    out
}

impl PullRequestData {
    /// The texts the PR's author contributed: the PR body plus every
    /// comment, commit comment and review body whose author is the PR's
    /// author.
    pub open spec fn spec_author_commentary(&self) -> Seq<Seq<char>> {
        seq![self.main_message@] + spec_comment_bodies(self.comments@, Some(self.pr_author@))
            + spec_cc_bodies(self.commit_comments@, Some(self.pr_author@)) + spec_review_bodies(
            self.reviews@,
            Some(self.pr_author@),
        )
    }

    /// All commentary texts of the PR, whoever wrote them.
    pub open spec fn spec_all_commentary(&self) -> Seq<Seq<char>> {
        seq![self.main_message@] + spec_comment_bodies(self.comments@, None) + spec_cc_bodies(
            self.commit_comments@,
            None,
        ) + spec_review_bodies(self.reviews@, None)
    }

    /// The commentary texts whose author passes the filter, in the order:
    /// PR body, issue comments, commit comments, reviews.
    fn commentary(&self, author: Option<&str>) -> (r: Vec<String>)
        ensures
            r.deep_view() == seq![self.main_message@] + spec_comment_bodies(
                self.comments@,
                spec_opt_view(author),
            ) + spec_cc_bodies(self.commit_comments@, spec_opt_view(author)) + spec_review_bodies(
                self.reviews@,
                spec_opt_view(author),
            ),
    {
        let ghost av = spec_opt_view(author);
        let mut out: Vec<String> = Vec::new();
        out.push(self.main_message.clone());
        proof {
            assert(out.deep_view() =~= seq![self.main_message@]);
        }
        let mut i: usize = 0;
        let n = self.comments.len();
        while i < n
            invariant
                i <= n,
                n == self.comments@.len(),
                av == spec_opt_view(author),
                out.deep_view() == seq![self.main_message@] + spec_comment_bodies(
                    self.comments@.take(i as int),
                    av,
                ),
            decreases n - i,
        {
            let c = &self.comments[i];
            let pass = match author {
                Some(a) => str_eq(c.user.login.as_str(), a),
                None => true,
            };
            let ghost old_dv = out.deep_view();
            if pass {
                match &c.body {
                    Some(b) => {
                        let ghost bv = b@;
                        out.push(b.clone());
                        proof {
                            assert(out.deep_view() =~= old_dv.push(bv));
                        }
                    },
                    None => {},
                }
            }
            proof {
                lemma_take_succ(self.comments@, i as int);
                assert(spec_comment_bodies(self.comments@.take(i as int + 1), av)
                    == spec_comment_bodies(self.comments@.take(i as int), av)
                    + spec_comment_contrib(self.comments@[i as int], av));
                assert(out.deep_view() =~= seq![self.main_message@] + spec_comment_bodies(
                    self.comments@.take(i as int + 1),
                    av,
                ));
            }
            i += 1;
        }
        proof {
            lemma_take_all(self.comments@);
        }
        let ghost part1 = seq![self.main_message@] + spec_comment_bodies(self.comments@, av);
        let mut i: usize = 0;
        let n = self.commit_comments.len();
        while i < n
            invariant
                i <= n,
                n == self.commit_comments@.len(),
                av == spec_opt_view(author),
                part1 == seq![self.main_message@] + spec_comment_bodies(self.comments@, av),
                out.deep_view() == part1 + spec_cc_bodies(self.commit_comments@.take(i as int), av),
            decreases n - i,
        {
            let c = &self.commit_comments[i];
            let pass = match author {
                Some(a) => str_eq(c.user.login.as_str(), a),
                None => true,
            };
            let ghost old_dv = out.deep_view();
            if pass {
                let ghost bv = c.body@;
                out.push(c.body.clone());
                proof {
                    assert(out.deep_view() =~= old_dv.push(bv));
                }
            }
            proof {
                lemma_take_succ(self.commit_comments@, i as int);
                assert(spec_cc_bodies(self.commit_comments@.take(i as int + 1), av)
                    == spec_cc_bodies(self.commit_comments@.take(i as int), av) + spec_cc_contrib(
                    self.commit_comments@[i as int],
                    av,
                ));
                assert(out.deep_view() =~= part1 + spec_cc_bodies(
                    self.commit_comments@.take(i as int + 1),
                    av,
                ));
            }
            i += 1;
        }
        proof {
            lemma_take_all(self.commit_comments@);
        }
        let ghost part2 = part1 + spec_cc_bodies(self.commit_comments@, av);
        let mut i: usize = 0;
        let n = self.reviews.len();
        while i < n
            invariant
                i <= n,
                n == self.reviews@.len(),
                av == spec_opt_view(author),
                part2 == seq![self.main_message@] + spec_comment_bodies(self.comments@, av)
                    + spec_cc_bodies(self.commit_comments@, av),
                out.deep_view() == part2 + spec_review_bodies(self.reviews@.take(i as int), av),
            decreases n - i,
        {
            let c = &self.reviews[i];
            let pass = match author {
                Some(a) => str_eq(c.user.login.as_str(), a),
                None => true,
            };
            let ghost old_dv = out.deep_view();
            if pass {
                match &c.body {
                    Some(b) => {
                        let ghost bv = b@;
                        out.push(b.clone());
                        proof {
                            assert(out.deep_view() =~= old_dv.push(bv));
                        }
                    },
                    None => {},
                }
            }
            proof {
                lemma_take_succ(self.reviews@, i as int);
                assert(spec_review_bodies(self.reviews@.take(i as int + 1), av)
                    == spec_review_bodies(self.reviews@.take(i as int), av) + spec_review_contrib(
                    self.reviews@[i as int],
                    av,
                ));
                assert(out.deep_view() =~= part2 + spec_review_bodies(
                    self.reviews@.take(i as int + 1),
                    av,
                ));
            }
            i += 1;
        }
        proof {
            lemma_take_all(self.reviews@);
            assert(out.deep_view() =~= seq![self.main_message@] + spec_comment_bodies(
                self.comments@,
                av,
            ) + spec_cc_bodies(self.commit_comments@, av) + spec_review_bodies(self.reviews@, av));
        }
        out
    }

    /// All commentary texts posted by the PR's author, the PR body included.
    /// A comment may enrich the PR or answer an inquiry; either way it is
    /// part of the discussion and counts.
    pub fn get_author_commentary(&self) -> (r: Vec<String>)
        ensures
            r.deep_view() == self.spec_author_commentary(),
    {
        self.commentary(Some(self.pr_author.as_str()))
    }

    /// All commentary texts, irrespective of their authors.
    pub fn get_all_commentary(&self) -> (r: Vec<String>)
        ensures
            r.deep_view() == self.spec_all_commentary(),
    {
        self.commentary(None)
    }

    /// The total character count of the author's commentary.
    pub open spec fn spec_author_chars(&self) -> int {
        spec_total_len(self.spec_author_commentary())
    }

    /// The total character count of all commentary.
    pub open spec fn spec_all_chars(&self) -> int {
        spec_total_len(self.spec_all_commentary())
    }

    /// The amount of characters over all commentary posted by the PR's
    /// author.
    pub fn get_amount_of_author_commentary(&self) -> (r: usize)
        requires
            spec_total_len(self.spec_author_commentary()) <= usize::MAX,
        ensures
            r == self.spec_author_chars(),
    {
        let v = self.get_author_commentary();
        total_chars(&v)
    }

    /// The amount of characters over all commentary, irrespective of
    /// authors.
    pub fn get_amount_of_commentary(&self) -> (r: usize)
        requires
            spec_total_len(self.spec_all_commentary()) <= usize::MAX,
        ensures
            r == self.spec_all_chars(),
    {
        let v = self.get_all_commentary();
        total_chars(&v)
    }

    /// The author's commentary never counts more characters than the whole
    /// commentary.
    pub proof fn lemma_author_chars_le_all(&self)
        ensures
            0 <= self.spec_author_chars() <= self.spec_all_chars(),
    {
        let a = Some(self.pr_author@);
        lemma_comment_bodies_le(self.comments@, a);
        lemma_cc_bodies_le(self.commit_comments@, a);
        lemma_review_bodies_le(self.reviews@, a);
        lemma_total_len_nonneg(self.spec_author_commentary());
        expand_total_len(
            self.main_message@,
            spec_comment_bodies(self.comments@, a),
            spec_cc_bodies(self.commit_comments@, a),
            spec_review_bodies(self.reviews@, a),
        );
        expand_total_len(
            self.main_message@,
            spec_comment_bodies(self.comments@, None),
            spec_cc_bodies(self.commit_comments@, None),
            spec_review_bodies(self.reviews@, None),
        );
        lemma_total_len_nonneg(spec_comment_bodies(self.comments@, None));
        lemma_total_len_nonneg(spec_cc_bodies(self.commit_comments@, None));
        lemma_total_len_nonneg(spec_review_bodies(self.reviews@, None));
    }
}

/// The character total of the four-part commentary listing, spelled out.
proof fn expand_total_len(m: Seq<char>, a: Seq<Seq<char>>, b: Seq<Seq<char>>, c: Seq<Seq<char>>)
    ensures
        spec_total_len(seq![m] + a + b + c) == m.len() + spec_total_len(a) + spec_total_len(b)
            + spec_total_len(c),
{
    lemma_total_len_concat(seq![m] + a + b, c);
    lemma_total_len_concat(seq![m] + a, b);
    lemma_total_len_concat(seq![m], a);
    lemma_total_len_single(m);
}

/// The total character count of a listing of texts.
fn total_chars(v: &Vec<String>) -> (r: usize)
    requires
        spec_total_len(v.deep_view()) <= usize::MAX,
    ensures
        r == spec_total_len(v.deep_view()),
{
    let n = v.len();
    let mut acc: usize = 0;
    let mut i: usize = 0;
    while i < n
        invariant
            i <= n,
            n == v@.len(),
            spec_total_len(v.deep_view()) <= usize::MAX,
            acc == spec_total_len(v.deep_view().take(i as int)),
        decreases n - i,
    {
        let len_i = v[i].as_str().unicode_len();
        proof {
            lemma_take_succ(v.deep_view(), i as int);
            assert(spec_total_len(v.deep_view().take(i as int + 1)) == spec_total_len(
                v.deep_view().take(i as int),
            ) + v.deep_view()[i as int].len());
            lemma_total_len_take_le(v.deep_view(), i as int + 1);
            lemma_total_len_take_le(v.deep_view(), i as int);
            assert(v.deep_view()[i as int] == v@[i as int]@);
        }
        acc = acc + len_i;
        i += 1;
    }
    proof {
        lemma_take_all(v.deep_view());
    }
    acc
}

impl PullRequestData {
    /// The distinct non-author logins among comment, review and commit
    /// comment authors, in first-appearance order.
    pub open spec fn spec_participants(&self) -> Seq<Seq<char>> {
        spec_filter_ne(spec_dedup(spec_all_logins(self)), self.pr_author@)
    }

    /// The distinct non-author logins among review authors, in
    /// first-appearance order.
    pub open spec fn spec_reviewers(&self) -> Seq<Seq<char>> {
        spec_filter_ne(
            spec_dedup(self.reviews@.map_values(|r: Review| r.user.login@)),
            self.pr_author@,
        )
    }

    /// The logins of every comment, review and commit comment author, in
    /// that order, one per item.
    fn collect_logins(&self) -> (r: Vec<String>)
        ensures
            r.deep_view() == spec_all_logins(self),
    {
        let mut out: Vec<String> = Vec::new();
        let ghost cmap = self.comments@.map_values(|c: Comment| c.user.login@);
        let ghost rmap = self.reviews@.map_values(|r: Review| r.user.login@);
        let ghost ccmap = self.commit_comments@.map_values(|c: CommitComment| c.user.login@);
        let mut i: usize = 0;
        let n = self.comments.len();
        proof {
            assert(out.deep_view() =~= cmap.take(0));
        }
        while i < n
            invariant
                i <= n,
                n == self.comments@.len(),
                cmap == self.comments@.map_values(|c: Comment| c.user.login@),
                out.deep_view() == cmap.take(i as int),
            decreases n - i,
        {
            let ghost old_dv = out.deep_view();
            out.push(self.comments[i].user.login.clone());
            proof {
                assert(out.deep_view() =~= old_dv.push(self.comments@[i as int].user.login@));
                assert(out.deep_view() =~= cmap.take(i as int + 1));
            }
            i += 1;
        }
        proof {
            assert(cmap.take(n as int) =~= cmap);
        }
        let mut i: usize = 0;
        let n = self.reviews.len();
        while i < n
            invariant
                i <= n,
                n == self.reviews@.len(),
                cmap == self.comments@.map_values(|c: Comment| c.user.login@),
                rmap == self.reviews@.map_values(|r: Review| r.user.login@),
                out.deep_view() == cmap + rmap.take(i as int),
            decreases n - i,
        {
            let ghost old_dv = out.deep_view();
            out.push(self.reviews[i].user.login.clone());
            proof {
                assert(out.deep_view() =~= old_dv.push(self.reviews@[i as int].user.login@));
                assert(out.deep_view() =~= cmap + rmap.take(i as int + 1));
            }
            i += 1;
        }
        proof {
            assert(rmap.take(n as int) =~= rmap);
        }
        let mut i: usize = 0;
        let n = self.commit_comments.len();
        while i < n
            invariant
                i <= n,
                n == self.commit_comments@.len(),
                cmap == self.comments@.map_values(|c: Comment| c.user.login@),
                rmap == self.reviews@.map_values(|r: Review| r.user.login@),
                ccmap == self.commit_comments@.map_values(|c: CommitComment| c.user.login@),
                out.deep_view() == cmap + rmap + ccmap.take(i as int),
            decreases n - i,
        {
            let ghost old_dv = out.deep_view();
            out.push(self.commit_comments[i].user.login.clone());
            proof {
                assert(out.deep_view() =~= old_dv.push(
                    self.commit_comments@[i as int].user.login@,
                ));
                assert(out.deep_view() =~= cmap + rmap + ccmap.take(i as int + 1));
            }
            i += 1;
        }
        proof {
            assert(ccmap.take(n as int) =~= ccmap);
        }
        out
    }

    /// All non-authoring participants of the PR: everyone who commented,
    /// reviewed or commented on a commit, except the PR's author; each login
    /// once, in first-appearance order.
    pub fn get_non_authoring_participants(&self) -> (r: Vec<String>)
        ensures
            r.deep_view() == self.spec_participants(),
    {
        let logins = self.collect_logins();
        distinct_non_author(&logins, self.pr_author.as_str())
    }

    /// All non-authoring review authors of the PR: the subset of
    /// participants who took a stand through a review.
    pub fn get_non_authoring_reviewers(&self) -> (r: Vec<String>)
        ensures
            r.deep_view() == self.spec_reviewers(),
    {
        let ghost rmap = self.reviews@.map_values(|r: Review| r.user.login@);
        let mut logins: Vec<String> = Vec::new();
        let mut i: usize = 0;
        let n = self.reviews.len();
        proof {
            assert(logins.deep_view() =~= rmap.take(0));
        }
        while i < n
            invariant
                i <= n,
                n == self.reviews@.len(),
                rmap == self.reviews@.map_values(|r: Review| r.user.login@),
                logins.deep_view() == rmap.take(i as int),
            decreases n - i,
        {
            let ghost old_dv = logins.deep_view();
            logins.push(self.reviews[i].user.login.clone());
            proof {
                assert(logins.deep_view() =~= old_dv.push(self.reviews@[i as int].user.login@));
                assert(logins.deep_view() =~= rmap.take(i as int + 1));
            }
            i += 1;
        }
        proof {
            assert(rmap.take(n as int) =~= rmap);
        }
        distinct_non_author(&logins, self.pr_author.as_str())
    }

    /// The attachments found in the author's commentary, in order.
    pub open spec fn spec_attachments_all(&self) -> Seq<Seq<char>> {
        spec_attach_concat(self.spec_author_commentary())
    }

    /// All markdown attachments posted by the PR's author.
    pub fn get_attachments_markdown(&self) -> (r: Vec<String>)
        ensures
            r.deep_view() == self.spec_attachments_all(),
    {
        let v = self.get_author_commentary();
        let ghost dv = v.deep_view();
        let mut out: Vec<String> = Vec::new();
        let mut i: usize = 0;
        let n = v.len();
        proof {
            assert(out.deep_view() =~= spec_attach_concat(dv.take(0)));
        }
        while i < n
            invariant
                i <= n,
                n == v@.len(),
                dv == v.deep_view(),
                dv.len() == v@.len(),
                out.deep_view() == spec_attach_concat(dv.take(i as int)),
            decreases n - i,
        {
            let ghost old_dv = out.deep_view();
            let mut found = find_attachments(v[i].as_str());
            let ghost fv = found.deep_view();
            proof {
                assert(dv[i as int] == v@[i as int]@);
            }
            out.append(&mut found);
            proof {
                assert(out.deep_view() =~= old_dv + fv);
                lemma_take_succ(dv, i as int);
                assert(spec_attach_concat(dv.take(i as int + 1)) == spec_attach_concat(
                    dv.take(i as int),
                ) + spec_attachments(dv[i as int]));
            }
            i += 1;
        }
        proof {
            lemma_take_all(dv);
        }
        out
    }

    /// Whether this PR is a merge PR, used to update branches between
    /// environments: its title starts with "merge", in any case.  Naive by
    /// design; it depends on naming conventions.
    pub fn is_merge_pr(&self) -> (r: bool)
        ensures
            r == spec_starts_with_token(self.pr_title@, "merge"@),
    {
        let cs = chars_of(self.pr_title.as_str());
        token_at(&cs, "merge", 0)
    }

    /// When the PR's first listed commit was authored.
    pub fn get_first_commit_date(&self) -> (r: i64)
        requires
            self.commits@.len() > 0,
        ensures
            r == self.commits@[0].commit.author.date,
    {
        self.commits[0].commit.author.date
    }

    /// Whole days between the PR's creation and its close.
    pub open spec fn spec_lead_time(&self) -> int {
        (self.closed_at - self.created_at) / 86400
    }

    /// Whole days between the PR's first commit and its merge.
    pub open spec fn spec_time_to_merge(&self) -> int {
        (self.merged_at - self.commits@[0].commit.author.date) / 86400
    }

    /// The PR's lead time in whole days.
    pub(crate) fn lead_time(&self) -> (r: u64)
        requires
            spec_ts_in_range(self.created_at as int),
            spec_ts_in_range(self.closed_at as int),
            self.created_at <= self.closed_at,
        ensures
            r == self.spec_lead_time(),
    {
        let secs = self.closed_at - self.created_at;
        (secs as u64) / 86400
    }

    /// The PR's time to merge in whole days.
    pub(crate) fn time_to_merge(&self) -> (r: u64)
        requires
            self.commits@.len() > 0,
            spec_ts_in_range(self.merged_at as int),
            spec_ts_in_range(self.commits@[0].commit.author.date as int),
            self.commits@[0].commit.author.date <= self.merged_at,
        ensures
            r == self.spec_time_to_merge(),
    {
        let first = self.get_first_commit_date();
        let secs = self.merged_at - first;
        (secs as u64) / 86400
    }

    /// The author-commentary-to-changes ratio, truncated to two decimals:
    /// author commentary characters over total changed lines.  A zero-change
    /// PR has no meaningful ratio and yields the explicit undefined
    /// sentinel.
    pub open spec fn spec_commentary_ratio(&self) -> Option<Ratio> {
        if self.spec_changes_total() == 0 {
            None
        } else {
            Some(
                Ratio {
                    num: (100 * self.spec_author_chars() / self.spec_changes_total()) as u128,
                    den: 100,
                },
            )
        }
    }

    /// The test-to-code ratio, truncated to two decimals: net test lines
    /// over net non-test lines, forced to zero (not left undefined) when the
    /// net non-test lines are zero.
    pub open spec fn spec_test_ratio(&self) -> Ratio {
        if self.spec_net_non_test() == 0 {
            Ratio { num: 0, den: 100 }
        } else {
            Ratio { num: (100 * self.spec_net_test() / self.spec_net_non_test()) as u128, den: 100 }
        }
    }

    /// Well-formedness of a bundle: at least one commit, timestamps inside
    /// the supported range and ordered (created before closed, first commit
    /// before merge), and diff and commentary totals that fit a machine
    /// word.
    pub open spec fn bundle_wf(&self) -> bool {
        &&& self.commits@.len() > 0
        &&& spec_ts_in_range(self.created_at as int)
        &&& spec_ts_in_range(self.merged_at as int)
        &&& spec_ts_in_range(self.closed_at as int)
        &&& spec_ts_in_range(self.commits@[0].commit.author.date as int)
        &&& self.created_at <= self.closed_at
        &&& self.commits@[0].commit.author.date <= self.merged_at
        &&& self.spec_changes_total() <= usize::MAX
        &&& spec_total_len(self.spec_all_commentary()) <= usize::MAX
    }

    /// Whether this bundle satisfies the well-formedness condition that
    /// scoring requires.
    pub fn is_well_formed(&self) -> (r: bool)
        ensures
            r == self.bundle_wf(),
    {
        if self.commits.len() == 0 {
            return false;
        }
        let first = self.commits[0].commit.author.date;
        if !(-TS_BOUND <= self.created_at && self.created_at <= TS_BOUND) {
            return false;
        }
        if !(-TS_BOUND <= self.merged_at && self.merged_at <= TS_BOUND) {
            return false;
        }
        if !(-TS_BOUND <= self.closed_at && self.closed_at <= TS_BOUND) {
            return false;
        }
        if !(-TS_BOUND <= first && first <= TS_BOUND) {
            return false;
        }
        if !(self.created_at <= self.closed_at) {
            return false;
        }
        if !(first <= self.merged_at) {
            return false;
        }
        if !self.changes_within_limit() {
            return false;
        }
        self.commentary_within_limit()
    }

    /// Whether the diff's total changed lines fit a machine word.
    fn changes_within_limit(&self) -> (r: bool)
        ensures
            r == (self.spec_changes_total() <= usize::MAX),
    {
        let files = &self.patch_set.files;
        let n = files.len();
        let mut total: u128 = 0;
        let mut i: usize = 0;
        while i < n
            invariant
                i <= n,
                n == files@.len(),
                files@ == self.patch_set.files@,
                total == spec_changes(files@.take(i as int)),
                total <= usize::MAX as u128,
            decreases n - i,
        {
            let f = &files[i];
            let mut run: u128 = total;
            let mut k: usize = 0;
            let m = f.hunks.len();
            while k < m
                invariant
                    k <= m,
                    m == f.hunks@.len(),
                    f == files@[i as int],
                    i < n == files@.len(),
                    files@ == self.patch_set.files@,
                    total == spec_changes(files@.take(i as int)),
                    total <= usize::MAX as u128,
                    run == total + spec_sum_changes(f.hunks@.take(k as int)),
                    run <= usize::MAX as u128,
                decreases m - k,
            {
                let h = f.hunks[k];
                proof {
                    lemma_take_succ(f.hunks@, k as int);
                    assert(spec_sum_changes(f.hunks@.take(k as int + 1)) == spec_sum_changes(
                        f.hunks@.take(k as int),
                    ) + (f.hunks@[k as int].added + f.hunks@[k as int].removed));
                }
                let step: u128 = (h.added as u128) + (h.removed as u128);
                let next: u128 = run + step;
                if next > usize::MAX as u128 {
                    proof {
                        lemma_sum_changes_take_le(f.hunks@, k as int + 1);
                        lemma_take_succ(files@, i as int);
                        assert(spec_changes(files@.take(i as int + 1)) == spec_changes(
                            files@.take(i as int),
                        ) + spec_sum_changes(f.hunks@));
                        lemma_changes_take_le(files@, i as int + 1);
                    }
                    return false;
                }
                run = next;
                k += 1;
            }
            proof {
                lemma_take_all(f.hunks@);
                lemma_take_succ(files@, i as int);
                assert(spec_changes(files@.take(i as int + 1)) == spec_changes(
                    files@.take(i as int),
                ) + spec_sum_changes(f.hunks@));
            }
            total = run;
            i += 1;
        }
        proof {
            lemma_take_all(files@);
        }
        true
    }

    /// Whether the total commentary character count fits a machine word.
    fn commentary_within_limit(&self) -> (r: bool)
        ensures
            r == (spec_total_len(self.spec_all_commentary()) <= usize::MAX),
    {
        let v = self.get_all_commentary();
        let ghost dv = v.deep_view();
        let n = v.len();
        let mut acc: u128 = 0;
        let mut i: usize = 0;
        while i < n
            invariant
                i <= n,
                n == v@.len(),
                dv == v.deep_view(),
                dv.len() == v@.len(),
                dv == self.spec_all_commentary(),
                acc == spec_total_len(dv.take(i as int)),
                acc <= usize::MAX as u128,
            decreases n - i,
        {
            let len_i = v[i].as_str().unicode_len();
            proof {
                lemma_take_succ(dv, i as int);
                assert(spec_total_len(dv.take(i as int + 1)) == spec_total_len(dv.take(i as int))
                    + dv[i as int].len());
                assert(dv[i as int] == v@[i as int]@);
            }
            let next: u128 = acc + (len_i as u128);
            if next > usize::MAX as u128 {
                proof {
                    lemma_total_len_take_le(dv, i as int + 1);
                }
                return false;
            }
            acc = next;
            i += 1;
        }
        proof {
            lemma_take_all(dv);
        }
        true
    }
}

impl Scorable for PullRequestData {
    /// Scoring is defined for well-formed bundles.
    open spec fn score_wf(&self) -> bool {
        self.bundle_wf()
    }

    /// A per-PR score carries the PR's number.
    open spec fn spec_pr_number(&self) -> Option<u64> {
        Some(self.pr_number)
    }

    /// The per-PR metric values, in kind order; the flow ratio has no
    /// meaning for a single PR and is deliberately absent rather than
    /// defaulted to zero.
    open spec fn spec_scores(&self) -> Seq<ScoreType> {
        seq![
            ScoreType::AmountOfParticipants(self.spec_participants().len() as u64),
            ScoreType::AmountOfReviewers(self.spec_reviewers().len() as u64),
            ScoreType::Attachments(self.spec_attachments_all().len() as u64),
            ScoreType::AuthorCommentaryToChangesRatio(self.spec_commentary_ratio()),
            ScoreType::PullRequestsDiscussionSize(self.spec_all_chars() as usize),
            ScoreType::PullRequestLeadTime(self.spec_lead_time() as u64),
            ScoreType::PullRequestSize(self.spec_changes_total() as usize),
            ScoreType::TestToCodeRatio {
                loc: self.spec_net_non_test() as usize,
                test_loc: self.spec_net_test() as usize,
                ratio: self.spec_test_ratio(),
            },
            ScoreType::TimeToMerge(self.spec_time_to_merge() as u64),
        ]
    }

    /// Derives the PR's score: every metric kind except the flow ratio.
    fn get_score(&self) -> (r: Score)
        ensures
            r.pr_number == self.spec_pr_number(),
            r.score@ == self.spec_scores(),
    {
        proof {
            self.lemma_author_chars_le_all();
            lemma_net_le_changes(self.patch_set.files@, true);
            lemma_net_le_changes(self.patch_set.files@, false);
        }
        let participants = self.get_non_authoring_participants();
        let reviewers = self.get_non_authoring_reviewers();
        let attachments = self.get_attachments_markdown();
        let author_chars = self.get_amount_of_author_commentary();
        let all_chars = self.get_amount_of_commentary();
        let changes = self.get_amount_of_changes();
        let net_test = self.get_amount_of_net_added_test_lines();
        let net_non_test = self.get_amount_of_net_added_non_test_lines();
        let lead = self.lead_time();
        let ttm = self.time_to_merge();
        let commentary_ratio: Option<Ratio> = if changes == 0 {
            None
        } else {
            Some(Ratio { num: 100u128 * (author_chars as u128) / (changes as u128), den: 100 })
        };
        let test_ratio: Ratio = if net_non_test == 0 {
            Ratio { num: 0, den: 100 }
        } else {
            Ratio { num: 100u128 * (net_test as u128) / (net_non_test as u128), den: 100 }
        };
        let scorables: Vec<ScoreType> = vec![
            ScoreType::AmountOfParticipants(participants.len() as u64),
            ScoreType::AmountOfReviewers(reviewers.len() as u64),
            ScoreType::Attachments(attachments.len() as u64),
            ScoreType::AuthorCommentaryToChangesRatio(commentary_ratio),
            ScoreType::PullRequestsDiscussionSize(all_chars),
            ScoreType::PullRequestLeadTime(lead),
            ScoreType::PullRequestSize(changes),
            ScoreType::TestToCodeRatio { loc: net_non_test, test_loc: net_test, ratio: test_ratio },
            ScoreType::TimeToMerge(ttm),
        ];
        proof {
            assert(participants.deep_view().len() == self.spec_participants().len());
            assert(reviewers.deep_view().len() == self.spec_reviewers().len());
            assert(attachments.deep_view().len() == self.spec_attachments_all().len());
            assert(scorables@ =~= self.spec_scores());
        }
        Score::new(Some(self.pr_number), scorables)
    }
}

/// Law: the test-to-code ratio is exactly zero whenever the net non-test
/// lines are zero, regardless of the test lines.  (The converse direction
/// does not hold: a PR with positive net non-test lines and no net test
/// lines also has a zero ratio.)
pub proof fn lemma_test_ratio_forced_zero(pr: &PullRequestData)
    requires
        pr.spec_net_non_test() == 0,
    ensures
        pr.spec_test_ratio() == (Ratio { num: 0, den: 100 }),
{
}

} // verus!
