//! Tests of the per-PR scorer and the repository aggregator.

use prolice::comment::Comment;
use prolice::commit::Author;
use prolice::commit::Commit;
use prolice::commit::CommitRoot;
use prolice::commit::Committer;
use prolice::commit::Tree;
use prolice::commit::Verification;
use prolice::commit_comment::User;
use prolice::diff::Hunk;
use prolice::diff::PatchSet;
use prolice::diff::PatchedFile;
use prolice::pull_request_data::PullRequestData;
use prolice::repository_data::RepositoryData;
use prolice::review::Review;
use prolice::review::ReviewState;
use prolice::scorable::Scorable;
use prolice::score::Ratio;
use prolice::score::Score;
use prolice::score::ScoreType;

const DAY: i64 = 86400;

fn user(login: &str) -> User {
    User {
        login: login.to_string(),
        id: 0,
        node_id: String::new(),
        avatar_url: String::new(),
        gravatar_id: String::new(),
        url: String::new(),
        html_url: String::new(),
        followers_url: String::new(),
        following_url: String::new(),
        gists_url: String::new(),
        starred_url: String::new(),
        subscriptions_url: String::new(),
        organizations_url: String::new(),
        repos_url: String::new(),
        events_url: String::new(),
        received_events_url: String::new(),
        type_field: String::new(),
        site_admin: false,
    }
}

fn comment(login: &str, body: &str) -> Comment {
    Comment {
        id: 0,
        node_id: String::new(),
        url: String::new(),
        html_url: String::new(),
        user: user(login),
        body: Some(body.to_string()),
        created_at: 0,
        updated_at: None,
    }
}

fn review(login: &str, state: ReviewState, body: Option<&str>) -> Review {
    Review {
        id: 0,
        node_id: String::new(),
        html_url: String::new(),
        user: user(login),
        body: body.map(|b| b.to_string()),
        commit_id: None,
        state: Some(state),
        pull_request_url: None,
        submitted_at: None,
    }
}

fn commit_root(date: i64) -> CommitRoot {
    CommitRoot {
        sha: String::new(),
        node_id: String::new(),
        commit: Commit {
            author: Author { name: String::new(), email: String::new(), date },
            committer: Committer { name: String::new(), email: String::new(), date },
            message: String::new(),
            tree: Tree { sha: String::new(), url: String::new() },
            url: String::new(),
            comment_count: 0,
            verification: Verification {
                verified: false,
                reason: String::new(),
                signature: None,
                payload: None,
            },
        },
        url: String::new(),
        html_url: String::new(),
        comments_url: String::new(),
        author: None,
        committer: None,
        parents: vec![],
    }
}

fn patched_file(source: &str, target: &str, added: usize, removed: usize) -> PatchedFile {
    PatchedFile {
        source_file: source.to_string(),
        target_file: target.to_string(),
        hunks: vec![Hunk {
            source_start: 1,
            source_length: 0,
            target_start: 1,
            target_length: 0,
            added,
            removed,
        }],
    }
}

#[allow(clippy::too_many_arguments)]
fn bundle(
    number: u64,
    author: &str,
    body: &str,
    comments: Vec<Comment>,
    reviews: Vec<Review>,
    files: Vec<PatchedFile>,
    created_at: i64,
    merged_at: i64,
    closed_at: i64,
) -> PullRequestData {
    PullRequestData::new(
        "repo",
        number,
        author,
        "Add things",
        body,
        comments,
        vec![],
        vec![commit_root(created_at)],
        reviews,
        PatchSet { files },
        created_at,
        merged_at,
        closed_at,
    )
}

fn scenario_bundle() -> PullRequestData {
    bundle(
        42,
        "alice",
        "implements the thing",
        vec![comment("alice", "explained here"), comment("bob", "looks good")],
        vec![review("carol", ReviewState::Approved, None)],
        vec![
            patched_file("a/tests/foo.rs", "b/tests/foo.rs", 10, 2),
            patched_file("a/src/lib.rs", "b/src/lib.rs", 20, 5),
        ],
        10 * DAY,
        13 * DAY,
        13 * DAY + 7,
    )
}

#[test]
fn end_to_end_scenario() {
    let pr = scenario_bundle();
    assert!(pr.is_well_formed());
    assert_eq!(pr.get_amount_of_net_added_test_lines(), 8);
    assert_eq!(pr.get_amount_of_net_added_non_test_lines(), 15);
    let participants = pr.get_non_authoring_participants();
    assert_eq!(participants.len(), 2);
    assert_eq!(participants[0], "bob");
    assert_eq!(participants[1], "carol");
    let reviewers = pr.get_non_authoring_reviewers();
    assert_eq!(reviewers.len(), 1);
    assert_eq!(reviewers[0], "carol");

    let score: Score = pr.get_score();
    assert_eq!(score.pr_number, Some(42));
    assert_eq!(score.score.len(), 9);
    assert_eq!(score.score[0], ScoreType::AmountOfParticipants(2));
    assert_eq!(score.score[1], ScoreType::AmountOfReviewers(1));
    assert_eq!(score.score[2], ScoreType::Attachments(0));
    assert_eq!(
        score.score[7],
        ScoreType::TestToCodeRatio { loc: 15, test_loc: 8, ratio: Ratio { num: 53, den: 100 } }
    );
}

#[test]
fn test_to_code_ratio_forced_to_zero_without_net_code() {
    // only test files changed: net non-test lines are zero, and the ratio is
    // a hard zero instead of an undefined division
    let pr = bundle(
        1,
        "alice",
        "",
        vec![],
        vec![],
        vec![patched_file("a/tests/t.rs", "b/tests/t.rs", 9, 1)],
        0,
        DAY,
        DAY,
    );
    let score = pr.get_score();
    assert_eq!(
        score.score[7],
        ScoreType::TestToCodeRatio { loc: 0, test_loc: 8, ratio: Ratio { num: 0, den: 100 } }
    );
}

#[test]
fn test_to_code_ratio_also_zero_without_test_lines() {
    // the converse of the forced-zero rule does not hold: positive net
    // non-test lines with no test lines give a zero ratio as well
    let pr = bundle(
        2,
        "alice",
        "",
        vec![],
        vec![],
        vec![patched_file("a/src/m.rs", "b/src/m.rs", 15, 0)],
        0,
        DAY,
        DAY,
    );
    let score = pr.get_score();
    assert_eq!(
        score.score[7],
        ScoreType::TestToCodeRatio { loc: 15, test_loc: 0, ratio: Ratio { num: 0, den: 100 } }
    );
}

#[test]
fn commentary_ratio_undefined_for_zero_change_pr() {
    let pr = bundle(3, "alice", "words", vec![], vec![], vec![], 0, DAY, DAY);
    let score = pr.get_score();
    assert_eq!(score.score[3], ScoreType::AuthorCommentaryToChangesRatio(None));
    assert_eq!(score.score[6], ScoreType::PullRequestSize(0));
}

#[test]
fn commentary_counts_author_texts_only() {
    let pr = scenario_bundle();
    // author commentary: body (20) + alice's comment (14)
    assert_eq!(pr.get_amount_of_author_commentary(), 34);
    // all commentary adds bob's comment (10)
    assert_eq!(pr.get_amount_of_commentary(), 44);
    // ratio: floor(100 * 34 / 37) = 91 hundredths
    let score = pr.get_score();
    assert_eq!(
        score.score[3],
        ScoreType::AuthorCommentaryToChangesRatio(Some(Ratio { num: 91, den: 100 }))
    );
    assert_eq!(score.score[4], ScoreType::PullRequestsDiscussionSize(44));
}

#[test]
fn attachments_found_in_author_commentary_only() {
    let pr = bundle(
        4,
        "alice",
        "shot: ![s](http://a)",
        vec![comment("alice", "and [doc](http://b)"), comment("bob", "[ignored](http://c)")],
        vec![],
        vec![],
        0,
        DAY,
        DAY,
    );
    let found = pr.get_attachments_markdown();
    assert_eq!(found.len(), 2);
    let score = pr.get_score();
    assert_eq!(score.score[2], ScoreType::Attachments(2));
}

#[test]
fn lead_time_and_time_to_merge_in_whole_days() {
    let pr = bundle(5, "alice", "", vec![], vec![], vec![], 10 * DAY, 14 * DAY + 3, 13 * DAY + 7);
    let score = pr.get_score();
    // created day 10, closed day 13 and a bit: 3 whole days
    assert_eq!(score.score[5], ScoreType::PullRequestLeadTime(3));
    // first commit at creation, merged 4 days and 3 seconds later
    assert_eq!(score.score[8], ScoreType::TimeToMerge(4));
}

#[test]
fn merge_pr_detection_is_case_insensitive() {
    let mut pr = scenario_bundle();
    assert!(!pr.is_merge_pr());
    pr.pr_title = "Merge develop into QA".to_string();
    assert!(pr.is_merge_pr());
    pr.pr_title = "merges are fun".to_string();
    assert!(pr.is_merge_pr());
}

#[test]
fn repository_score_averages_with_ceiling() {
    // two PRs: one with two participants (bob, carol), one with none
    let pr_a = scenario_bundle();
    let pr_b = bundle(
        7,
        "alice",
        "",
        vec![],
        vec![],
        vec![patched_file("a/src/x.rs", "b/src/x.rs", 4, 0)],
        20 * DAY,
        21 * DAY,
        21 * DAY,
    );
    let repo: RepositoryData = vec![Ok(pr_a), Ok(pr_b)];
    let score = repo.get_score();
    assert_eq!(score.pr_number, None);
    assert_eq!(score.score.len(), 10);
    // mean of 2 and 0 participants, rounded up
    assert_eq!(score.score[0], ScoreType::AmountOfParticipants(1));
    // sizes 37 and 4: ceil(41 / 2) = 21
    assert_eq!(score.score[7], ScoreType::PullRequestSize(21));
}

#[test]
fn repository_score_skips_failed_retrievals() {
    let pr = scenario_bundle();
    let repo: RepositoryData =
        vec![Err(prolice::error::AnalyzeError::NoCommitsFoundError), Ok(pr)];
    let score = repo.get_score();
    // only the one successful bundle contributes
    assert_eq!(score.score[0], ScoreType::AmountOfParticipants(2));
}

#[test]
fn flow_ratio_excludes_unmatched_days() {
    // day X sees three creations and two closures; day Y sees one creation
    // and no closure; the two remaining closures land on day W
    let x = 100i64;
    let y = 150i64;
    let w = 200i64;
    let pr1 = bundle(1, "a", "", vec![], vec![], vec![], x * DAY, x * DAY + 5, x * DAY + 5);
    let pr2 = bundle(2, "a", "", vec![], vec![], vec![], x * DAY + 9, x * DAY + 60, x * DAY + 60);
    let pr3 = bundle(3, "a", "", vec![], vec![], vec![], x * DAY + 2, w * DAY + 1, w * DAY + 1);
    let pr4 = bundle(4, "a", "", vec![], vec![], vec![], y * DAY, w * DAY + 9, w * DAY + 9);
    let repo: RepositoryData = vec![Ok(pr1), Ok(pr2), Ok(pr3), Ok(pr4)];
    let score = repo.get_score();
    match score.score[5] {
        ScoreType::PullRequestFlowRatio(Some(r)) => {
            // exactly 3 / 2 = 1.5: day Y contributes nothing
            assert_eq!(r.num as f64 / r.den as f64, 1.5);
        },
        ref other => panic!("expected a defined flow ratio, got {:?}", other),
    }
}

#[test]
fn flow_ratio_undefined_without_matching_days() {
    // created on day 100, closed on day 200: no day has both
    let pr = bundle(1, "a", "", vec![], vec![], vec![], 100 * DAY, 200 * DAY, 200 * DAY);
    let repo: RepositoryData = vec![Ok(pr)];
    let score = repo.get_score();
    assert_eq!(score.score[5], ScoreType::PullRequestFlowRatio(None));
}

#[test]
fn participants_deduplicated_in_first_appearance_order() {
    let pr = bundle(
        9,
        "alice",
        "",
        vec![comment("bob", "x"), comment("carol", "y"), comment("bob", "z")],
        vec![review("bob", ReviewState::Commented, None)],
        vec![],
        0,
        DAY,
        DAY,
    );
    let participants = pr.get_non_authoring_participants();
    assert_eq!(participants, vec!["bob".to_string(), "carol".to_string()]);
}
