//! Repository resolution and pull-request retrieval orchestration: the
//! decision logic.
//!
//! The I/O layer performs the actual API calls; every decision about what
//! those calls mean — which repository a two-path lookup resolves to, when a
//! PR is finalized enough to fetch, how the five concurrent sub-fetches of
//! one PR combine into a bundle or a single aggregate failure, and how a
//! sample's outcomes are arranged back into listing order — lives here as a
//! pure, verified function.

use vstd::prelude::*;
use vstd::string::StringExecFns;

use crate::comment::Comment;
use crate::commit::CommitRoot;
use crate::commit_comment::CommitComment;
use crate::diff::PatchSet;
use crate::diff::spec_parse_diff;
use crate::error::AnalyzeError;
use crate::pull_request_data::PullRequestData;
use crate::pull_request_data::PullRequestDataResult;
use crate::review::Review;
use crate::text::spec_eq_ignore_ascii_case;
use crate::text::str_eq;
use crate::text::str_eq_ignore_ascii_case;

verus! {

/// The canonical identity of a resolved repository.
#[derive(Debug, Clone)]
pub struct RepositoryHandle {
    pub owner: String,
    pub name: String,
}

/// The header fields of a pull request as listed by the remote API, reduced
/// to plain values; timestamps are seconds since the Unix epoch.
#[derive(Debug, Clone)]
pub struct PrHeader {
    pub number: u64,
    pub author: String,
    pub title: String,
    pub body: Option<String>,
    pub created_at: i64,
    pub merged_at: Option<i64>,
    pub closed_at: Option<i64>,
    pub review_comments_url: String,
    pub commits_url: String,
}

// ---------------------------------------------------------------------------
// Repository resolution
// ---------------------------------------------------------------------------
/// The index of the first name in `names` equal to `target` up to ASCII
/// case, or -1.
pub open spec fn spec_first_ci_match(names: Seq<Seq<char>>, target: Seq<char>, i: int) -> int
    decreases names.len() - i,
{
    if i < 0 || i >= names.len() {
        -1
    } else if spec_eq_ignore_ascii_case(names[i], target) {
        i
    } else {
        spec_first_ci_match(names, target, i + 1)
    }
}

/// The index of the first name in `names` exactly equal to `target`, or -1.
pub open spec fn spec_first_exact_match(names: Seq<Seq<char>>, target: Seq<char>, i: int) -> int
    decreases names.len() - i,
{
    if i < 0 || i >= names.len() {
        -1
    } else if names[i] == target {
        i
    } else {
        spec_first_exact_match(names, target, i + 1)
    }
}

/// What the organization-listing step of resolution decides.
pub enum ResolveStep {
    /// The repository was found in the organization's listing.
    Resolved(RepositoryHandle),
    /// The owner is no organization, or the listing lacks the repository:
    /// fall back to a user-scoped search.
    SearchUser,
}

/// Resolution, first path: scan an organization's repository listing for a
/// case-insensitive match on the target name.  `listing` is `None` when the
/// owner could not be resolved as an organization at all.  Whenever this
/// path yields nothing — no listing, or no match in it — resolution falls
/// back to the user-scoped search, because the hosting API namespaces
/// organizations and individual users differently.
pub fn resolve_with_org_listing(owner: &str, name: &str, listing: Option<&Vec<String>>) -> (r:
    ResolveStep)
    ensures
        listing is None ==> r is SearchUser,
        listing matches Some(names) ==> ({
            let m = spec_first_ci_match(names.deep_view(), name@, 0);
            if m >= 0 {
                r matches ResolveStep::Resolved(h) && h.owner@ == owner@ && h.name@
                    == names.deep_view()[m]
            } else {
                r is SearchUser
            }
        }),
{
    let names = match listing {
        Some(names) => names,
        None => { return ResolveStep::SearchUser },
    };
    let n = names.len();
    let mut i: usize = 0;
    while i < n
        invariant
            listing == Some(names),
            i <= n,
            n == names@.len(),
            names.deep_view().len() == n,
            spec_first_ci_match(names.deep_view(), name@, 0) == spec_first_ci_match(
                names.deep_view(),
                name@,
                i as int,
            ),
        decreases n - i,
    {
        proof {
            assert(names.deep_view()[i as int] == names@[i as int]@);
        }
        if str_eq_ignore_ascii_case(names[i].as_str(), name) {
            let picked = names[i].clone();
            proof {
                assert(spec_eq_ignore_ascii_case(names.deep_view()[i as int], name@));
                assert(spec_first_ci_match(names.deep_view(), name@, i as int) == i as int);
                assert(spec_first_ci_match(names.deep_view(), name@, 0) == i as int);
                assert(picked@ == names.deep_view()[i as int]);
            }
            return ResolveStep::Resolved(RepositoryHandle { owner: owner.to_owned(), name: picked });
        }
        i += 1;
    }
    ResolveStep::SearchUser
}

/// Resolution, second path: scan the names returned by a user-scoped search
/// for an exact (case-sensitive) match.  When neither path matched, the
/// repository does not exist under this owner.
pub fn resolve_with_user_search(owner: &str, name: &str, names: &Vec<String>) -> (r: Result<
    RepositoryHandle,
    AnalyzeError,
>)
    ensures
        ({
            let m = spec_first_exact_match(names.deep_view(), name@, 0);
            if m >= 0 {
                r matches Ok(h) && h.owner@ == owner@ && h.name@ == name@
            } else {
                r matches Err(e) && e matches AnalyzeError::RepositoryNotFoundError(msg) && msg@
                    == "Could not find repository ["@ + name@ + "] under owner ["@ + owner@
                    + "] (is it misspelled?)"@
            }
        }),
{
    let n = names.len();
    let mut i: usize = 0;
    while i < n
        invariant
            i <= n,
            n == names@.len(),
            names.deep_view().len() == n,
            spec_first_exact_match(names.deep_view(), name@, 0) == spec_first_exact_match(
                names.deep_view(),
                name@,
                i as int,
            ),
        decreases n - i,
    {
        proof {
            assert(names.deep_view()[i as int] == names@[i as int]@);
        }
        if str_eq(names[i].as_str(), name) {
            proof {
                assert(names.deep_view()[i as int] == name@);
                assert(spec_first_exact_match(names.deep_view(), name@, i as int) == i as int);
            }
            return Ok(RepositoryHandle { owner: owner.to_owned(), name: name.to_owned() });
        }
        i += 1;
    }
    let mut msg = String::from_str("Could not find repository [");
    msg.append(name);
    msg.append("] under owner [");
    msg.append(owner);
    msg.append("] (is it misspelled?)");
    Err(AnalyzeError::RepositoryNotFoundError(msg))
}

// ---------------------------------------------------------------------------
// Per-PR validation
// ---------------------------------------------------------------------------
/// The PR body a bundle will carry: the header's body, or empty text when
/// the header has none.
pub open spec fn spec_pr_message(pr: &PrHeader) -> Seq<char> {
    match pr.body {
        Some(b) => b@,
        None => Seq::empty(),
    }
}

/// The literal PR body: the first message of the discussion, or empty text
/// when the PR has none.
pub fn get_pr_message(pr: &PrHeader) -> (r: String)
    ensures
        r@ == spec_pr_message(pr),
{
    match &pr.body {
        Some(b) => b.clone(),
        None => String::new(),
    }
}

/// The timestamp at which the PR was merged.  A PR without one is not yet
/// finalized and cannot be analyzed in full.
pub fn get_merged_date(pr: &PrHeader) -> (r: Result<i64, AnalyzeError>)
    ensures
        match pr.merged_at {
            Some(d) => r == Ok::<i64, AnalyzeError>(d),
            None => r matches Err(e) && e matches AnalyzeError::PullRequestIncompleteDataError {
                reason,
                pr_number,
            } && pr_number == pr.number && reason@
                == "No merged date. Only properly merged PRs can be analyzed in full."@,
        },
{
    match pr.merged_at {
        Some(d) => Ok(d),
        None => Err(
            AnalyzeError::PullRequestIncompleteDataError {
                reason: String::from_str(
                    "No merged date. Only properly merged PRs can be analyzed in full.",
                ),
                pr_number: pr.number,
            },
        ),
    }
}

/// The timestamp at which the PR was closed.  A PR without one is not yet
/// finalized and cannot be analyzed in full.
pub fn get_closed_date(pr: &PrHeader) -> (r: Result<i64, AnalyzeError>)
    ensures
        match pr.closed_at {
            Some(d) => r == Ok::<i64, AnalyzeError>(d),
            None => r matches Err(e) && e matches AnalyzeError::PullRequestIncompleteDataError {
                reason,
                pr_number,
            } && pr_number == pr.number && reason@
                == "No closed date. Only properly closed PRs can be analyzed in full."@,
        },
{
    match pr.closed_at {
        Some(d) => Ok(d),
        None => Err(
            AnalyzeError::PullRequestIncompleteDataError {
                reason: String::from_str(
                    "No closed date. Only properly closed PRs can be analyzed in full.",
                ),
                pr_number: pr.number,
            },
        ),
    }
}

/// Validates that a PR carries both its merge and its close timestamp, the
/// merge timestamp checked first.  This runs before any sub-resource is
/// fetched: a PR lacking either timestamp fails here at once, and none of
/// the five sub-fetches is attempted for it.
pub fn prepare_bundle_fetch(pr: &PrHeader) -> (r: Result<(i64, i64), AnalyzeError>)
    ensures
        match (pr.merged_at, pr.closed_at) {
            (Some(m), Some(c)) => r == Ok::<(i64, i64), AnalyzeError>((m, c)),
            _ => r matches Err(e) && e matches AnalyzeError::PullRequestIncompleteDataError {
                reason,
                pr_number,
            } && pr_number == pr.number,
        },
        r is Err <==> (pr.merged_at is None || pr.closed_at is None),
{
    let merged = match get_merged_date(pr) {
        Ok(d) => d,
        Err(e) => { return Err(e) },
    };
    let closed = match get_closed_date(pr) {
        Ok(d) => d,
        Err(e) => { return Err(e) },
    };
    Ok((merged, closed))
}

/// Accepts a PR's commit list only if it is non-empty: every PR carries at
/// least one commit, so an empty list is a data-integrity failure, never an
/// empty success.
pub fn ensure_commits(commits: Vec<CommitRoot>) -> (r: Result<Vec<CommitRoot>, AnalyzeError>)
    ensures
        commits@.len() == 0 <==> (r matches Err(e) && e is NoCommitsFoundError),
        commits@.len() > 0 ==> r == Ok::<Vec<CommitRoot>, AnalyzeError>(commits),
{
    if commits.len() == 0 {
        Err(AnalyzeError::NoCommitsFoundError)
    } else {
        Ok(commits)
    }
}

/// Parses a PR's unified-diff text, wrapping a malformed text into the
/// diff-parse failure that carries the repository and PR identity.
pub fn parse_pr_diff(repo_name: &str, pr_number: u64, diff: &str) -> (r: Result<
    PatchSet,
    AnalyzeError,
>)
    requires
        diff@.len() < usize::MAX,
    ensures
        match r {
            Ok(ps) => spec_parse_diff(diff@) == Some(ps@),
            Err(e) => spec_parse_diff(diff@) is None && (e matches AnalyzeError::DiffParseError {
                repo_name: rn,
                pr_number: pn,
                nested,
            } && rn@ == repo_name@ && pn == pr_number),
        },
{
    match PatchSet::parse(diff) {
        Some(ps) => Ok(ps),
        None => Err(
            AnalyzeError::DiffParseError {
                repo_name: repo_name.to_owned(),
                pr_number,
                nested: String::from_str("malformed unified diff"),
            },
        ),
    }
}

// ---------------------------------------------------------------------------
// Bundle assembly
// ---------------------------------------------------------------------------
/// The first failure among the five sub-fetch outcomes, in the fixed order
/// issue comments, commit comments, reviews, diff, commits.
pub open spec fn spec_first_failure(
    comments: Result<Vec<Comment>, AnalyzeError>,
    commit_comments: Result<Vec<CommitComment>, AnalyzeError>,
    reviews: Result<Vec<Review>, AnalyzeError>,
    diff: Result<PatchSet, AnalyzeError>,
    commits: Result<Vec<CommitRoot>, AnalyzeError>,
) -> Option<AnalyzeError> {
    if comments is Err {
        Some(comments->Err_0)
    } else if commit_comments is Err {
        Some(commit_comments->Err_0)
    } else if reviews is Err {
        Some(reviews->Err_0)
    } else if diff is Err {
        Some(diff->Err_0)
    } else if commits is Err {
        Some(commits->Err_0)
    } else {
        None
    }
}

/// Combines the five sub-fetch outcomes of one PR into a complete bundle,
/// or into a single aggregate failure nesting the first sub-failure.  All
/// five must have succeeded for a bundle to exist; no partial bundle is
/// ever produced, but one failed PR never concerns any other PR of a
/// sample.
pub fn assemble_bundle(
    repo_name: &str,
    pr: &PrHeader,
    merged_at: i64,
    closed_at: i64,
    comments: Result<Vec<Comment>, AnalyzeError>,
    commit_comments: Result<Vec<CommitComment>, AnalyzeError>,
    reviews: Result<Vec<Review>, AnalyzeError>,
    diff: Result<PatchSet, AnalyzeError>,
    commits: Result<Vec<CommitRoot>, AnalyzeError>,
) -> (r: PullRequestDataResult)
    ensures
        r is Ok <==> spec_first_failure(comments, commit_comments, reviews, diff, commits)
            is None,
        r matches Ok(b) ==> {
            &&& b.repo_name@ == repo_name@
            &&& b.pr_number == pr.number
            &&& b.pr_author@ == pr.author@
            &&& b.pr_title@ == pr.title@
            &&& b.main_message@ == spec_pr_message(pr)
            &&& comments matches Ok(c) && b.comments == c
            &&& commit_comments matches Ok(c) && b.commit_comments == c
            &&& reviews matches Ok(c) && b.reviews == c
            &&& diff matches Ok(c) && b.patch_set == c
            &&& commits matches Ok(c) && b.commits == c
            &&& b.created_at == pr.created_at
            &&& b.merged_at == merged_at
            &&& b.closed_at == closed_at
        },
        r matches Err(e) ==> e matches AnalyzeError::PullRequestDataRetrievalError {
            repo_name: rn,
            pr_number: pn,
            nested,
        } && rn@ == repo_name@ && pn == pr.number && Some(*nested) == spec_first_failure(
            comments,
            commit_comments,
            reviews,
            diff,
            commits,
        ),
{
    let main_message = get_pr_message(pr);
    let first_failure: Option<AnalyzeError> = match (comments, commit_comments, reviews, diff,
        commits) {
        (Ok(c), Ok(cc), Ok(rv), Ok(df), Ok(cm)) => {
            let bundle = PullRequestData::new(
                repo_name,
                pr.number,
                pr.author.as_str(),
                pr.title.as_str(),
                main_message.as_str(),
                c,
                cc,
                cm,
                rv,
                df,
                pr.created_at,
                merged_at,
                closed_at,
            );
            return Ok(bundle);
        },
        (Err(e), _, _, _, _) => Some(e),
        (_, Err(e), _, _, _) => Some(e),
        (_, _, Err(e), _, _) => Some(e),
        (_, _, _, Err(e), _) => Some(e),
        (_, _, _, _, Err(e)) => Some(e),
    };
    match first_failure {
        Some(e) => Err(
            AnalyzeError::PullRequestDataRetrievalError {
                repo_name: repo_name.to_owned(),
                pr_number: pr.number,
                nested: Box::new(e),
            },
        ),
        None => {
            // unreachable: the all-success case returned above
            proof {
                assert(false);
            }
            Err(AnalyzeError::NoCommitsFoundError)
        },
    }
}

// ---------------------------------------------------------------------------
// Sample ordering
// ---------------------------------------------------------------------------
/// The outcome paired with the first occurrence of `x` in `results`.
pub open spec fn spec_lookup(
    results: Seq<(u64, PullRequestDataResult)>,
    x: u64,
) -> Option<PullRequestDataResult>
    decreases results.len(),
{
    if results.len() == 0 {
        None
    } else if results[0].0 == x {
        Some(results[0].1)
    } else {
        spec_lookup(results.drop_first(), x)
    }
}

/// A lookup succeeds exactly when some entry carries the key.
pub proof fn lemma_lookup_exists(results: Seq<(u64, PullRequestDataResult)>, x: u64)
    ensures
        (spec_lookup(results, x) is Some) == exists|j: int|
            0 <= j < results.len() && (#[trigger] results[j]).0 == x,
    decreases results.len(),
{
    if results.len() > 0 {
        lemma_lookup_exists(results.drop_first(), x);
        if results[0].0 == x {
        } else {
            if exists|j: int| 0 <= j < results.len() && (#[trigger] results[j]).0 == x {
                let j = choose|j: int| 0 <= j < results.len() && (#[trigger] results[j]).0 == x;
                assert(results.drop_first()[j - 1].0 == x);
            }
            if exists|j: int|
                0 <= j < results.drop_first().len() && (#[trigger] results.drop_first()[j]).0
                    == x {
                let j = choose|j: int|
                    0 <= j < results.drop_first().len() && (#[trigger] results.drop_first()[j]).0
                        == x;
                assert(results[j + 1].0 == x);
            }
        }
    }
}

/// A first-match index determines the lookup's value.
pub proof fn lemma_lookup_first(results: Seq<(u64, PullRequestDataResult)>, x: u64, j: int)
    requires
        0 <= j < results.len(),
        results[j].0 == x,
        forall|k: int| 0 <= k < j ==> (#[trigger] results[k]).0 != x,
    ensures
        spec_lookup(results, x) == Some(results[j].1),
    decreases j,
{
    if j > 0 {
        lemma_lookup_first(results.drop_first(), x, j - 1);
    }
}

/// Removing an entry with a different key leaves a lookup unchanged.
pub proof fn lemma_lookup_remove(results: Seq<(u64, PullRequestDataResult)>, j: int, y: u64)
    requires
        0 <= j < results.len(),
        results[j].0 != y,
    ensures
        spec_lookup(results.remove(j), y) == spec_lookup(results, y),
    decreases j,
{
    if j == 0 {
        assert(results.remove(0) =~= results.drop_first());
    } else {
        lemma_lookup_remove(results.drop_first(), j - 1, y);
        assert(results.remove(j).drop_first() =~= results.drop_first().remove(j - 1));
        assert(results.remove(j)[0] == results[0]);
    }
}

/// Arranges a sample's per-PR outcomes back into the original listing
/// order: the repository-level output preserves the order PRs were listed
/// in, whatever order their concurrent retrievals completed in.  The
/// result has exactly one outcome per listed PR number.
pub fn order_outcomes(listed: &Vec<u64>, results: Vec<(u64, PullRequestDataResult)>) -> (r: Vec<
    PullRequestDataResult,
>)
    requires
        forall|i: int, j: int|
            0 <= i < j < listed@.len() ==> #[trigger] listed@[i] != #[trigger] listed@[j],
        forall|i: int|
            0 <= i < listed@.len() ==> spec_lookup(results@, #[trigger] listed@[i]) is Some,
    ensures
        r@.len() == listed@.len(),
        forall|i: int|
            0 <= i < listed@.len() ==> Some(#[trigger] r@[i]) == spec_lookup(
                results@,
                listed@[i],
            ),
{
    let ghost results0 = results@;
    let mut cur = results;
    let mut out: Vec<PullRequestDataResult> = Vec::new();
    let n = listed.len();
    let mut i: usize = 0;
    while i < n
        invariant
            i <= n,
            n == listed@.len(),
            out@.len() == i,
            forall|m: int|
                0 <= m < i ==> Some(#[trigger] out@[m]) == spec_lookup(results0, listed@[m]),
            forall|m: int|
                i <= m < n ==> spec_lookup(cur@, #[trigger] listed@[m]) == spec_lookup(
                    results0,
                    listed@[m],
                ),
            forall|m: int|
                0 <= m < n ==> spec_lookup(results0, #[trigger] listed@[m]) is Some,
            forall|p: int, q: int|
                0 <= p < q < listed@.len() ==> #[trigger] listed@[p] != #[trigger] listed@[q],
        decreases n - i,
    {
        let x = listed[i];
        proof {
            lemma_lookup_exists(cur@, x);
        }
        let mut j: usize = 0;
        let m = cur.len();
        while j < m && cur[j].0 != x
            invariant
                j <= m,
                m == cur@.len(),
                forall|k: int| 0 <= k < j ==> (#[trigger] cur@[k]).0 != x,
                exists|k: int| 0 <= k < cur@.len() && (#[trigger] cur@[k]).0 == x,
            decreases m - j,
        {
            j += 1;
        }
        proof {
            assert(j < m) by {
                if j >= m {
                    let k = choose|k: int| 0 <= k < cur@.len() && (#[trigger] cur@[k]).0 == x;
                }
            }
            lemma_lookup_first(cur@, x, j as int);
            assert forall|mm: int| i + 1 <= mm < n implies spec_lookup(
                cur@.remove(j as int),
                #[trigger] listed@[mm],
            ) == spec_lookup(results0, listed@[mm]) by {
                assert(listed@[mm] != x);
                lemma_lookup_remove(cur@, j as int, listed@[mm]);
            }
        }
        let entry = cur.remove(j);
        out.push(entry.1);
        i += 1;
    }
    out
}

} // verus!
