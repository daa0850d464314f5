//! Tests of repository resolution and of the retrieval orchestration
//! decisions: finalization gating, bundle assembly and sample ordering.

use prolice::analyzer::PrHeader;
use prolice::analyzer::RepositoryHandle;
use prolice::analyzer::ResolveStep;
use prolice::analyzer::assemble_bundle;
use prolice::analyzer::ensure_commits;
use prolice::analyzer::order_outcomes;
use prolice::analyzer::prepare_bundle_fetch;
use prolice::analyzer::resolve_with_org_listing;
use prolice::analyzer::resolve_with_user_search;
use prolice::commit::Author;
use prolice::commit::Commit;
use prolice::commit::CommitRoot;
use prolice::commit::Committer;
use prolice::commit::Tree;
use prolice::commit::Verification;
use prolice::diff::PatchSet;
use prolice::error::AnalyzeError;
use prolice::metadata::authors;
use prolice::metadata::description;
use prolice::metadata::full_version;
use prolice::metadata::get_logo;
use prolice::metadata::package_name;
use prolice::pool::GitHubConnectionPoolManager;
use prolice::pull_request_data::PullRequestDataResult;
use prolice::score::ScoreType;

fn header(number: u64, merged_at: Option<i64>, closed_at: Option<i64>) -> PrHeader {
    PrHeader {
        number,
        author: "alice".to_string(),
        title: "Add things".to_string(),
        body: Some("body".to_string()),
        created_at: 0,
        merged_at,
        closed_at,
        review_comments_url: "https://api.example/review_comments".to_string(),
        commits_url: "https://api.example/commits".to_string(),
    }
}

fn one_commit() -> Vec<CommitRoot> {
    vec![CommitRoot {
        sha: String::new(),
        node_id: String::new(),
        commit: Commit {
            author: Author { name: String::new(), email: String::new(), date: 0 },
            committer: Committer { name: String::new(), email: String::new(), date: 0 },
            message: String::new(),
            tree: Tree { sha: String::new(), url: String::new() },
            url: String::new(),
            comment_count: 0,
            verification: Verification {
                verified: false,
                reason: String::new(),
                signature: None,
                payload: None,
            },
        },
        url: String::new(),
        html_url: String::new(),
        comments_url: String::new(),
        author: None,
        committer: None,
        parents: vec![],
    }]
}

#[test]
fn org_listing_matches_case_insensitively() {
    let listing = vec!["Other".to_string(), "MyRepo".to_string()];
    match resolve_with_org_listing("acme", "myrepo", Some(&listing)) {
        ResolveStep::Resolved(h) => {
            assert_eq!(h.owner, "acme");
            // the listing's own spelling is kept
            assert_eq!(h.name, "MyRepo");
        },
        ResolveStep::SearchUser => panic!("expected a match in the listing"),
    }
}

#[test]
fn missing_org_listing_falls_back_to_user_search() {
    assert!(matches!(resolve_with_org_listing("acme", "myrepo", None), ResolveStep::SearchUser));
    let listing = vec!["other".to_string()];
    assert!(matches!(
        resolve_with_org_listing("acme", "myrepo", Some(&listing)),
        ResolveStep::SearchUser
    ));
}

#[test]
fn user_search_matches_exactly_or_fails() {
    let names = vec!["myrepo".to_string()];
    let found: Result<RepositoryHandle, AnalyzeError> =
        resolve_with_user_search("dev", "myrepo", &names);
    assert!(matches!(found, Ok(h) if h.owner == "dev" && h.name == "myrepo"));

    // the fallback is case-sensitive
    let miss = resolve_with_user_search("dev", "MyRepo", &names);
    assert!(matches!(
        miss,
        Err(AnalyzeError::RepositoryNotFoundError(msg))
            if msg == "Could not find repository [MyRepo] under owner [dev] (is it misspelled?)"
    ));
}

#[test]
fn unfinalized_pr_is_rejected_before_any_fetch() {
    let no_merge = header(5, None, Some(10));
    assert!(matches!(
        prepare_bundle_fetch(&no_merge),
        Err(AnalyzeError::PullRequestIncompleteDataError { pr_number: 5, .. })
    ));
    let no_close = header(6, Some(10), None);
    assert!(matches!(
        prepare_bundle_fetch(&no_close),
        Err(AnalyzeError::PullRequestIncompleteDataError { pr_number: 6, .. })
    ));
    let finalized = header(7, Some(10), Some(11));
    assert!(matches!(prepare_bundle_fetch(&finalized), Ok((10, 11))));
}

#[test]
fn empty_commit_list_is_a_failure_not_an_empty_success() {
    assert!(matches!(ensure_commits(vec![]), Err(AnalyzeError::NoCommitsFoundError)));
    assert!(matches!(ensure_commits(one_commit()), Ok(c) if c.len() == 1));
}

#[test]
fn assemble_combines_five_successes_into_a_bundle() {
    let pr = header(9, Some(10), Some(11));
    let r = assemble_bundle(
        "repo",
        &pr,
        10,
        11,
        Ok(vec![]),
        Ok(vec![]),
        Ok(vec![]),
        Ok(PatchSet { files: vec![] }),
        Ok(one_commit()),
    );
    let bundle = r.expect("all five sub-fetches succeeded");
    assert_eq!(bundle.pr_number, 9);
    assert_eq!(bundle.repo_name, "repo");
    assert_eq!(bundle.main_message, "body");
    assert_eq!(bundle.merged_at, 10);
    assert_eq!(bundle.closed_at, 11);
}

#[test]
fn assemble_nests_the_first_failure() {
    let pr = header(9, Some(10), Some(11));
    let r = assemble_bundle(
        "repo",
        &pr,
        10,
        11,
        Ok(vec![]),
        Err(AnalyzeError::GitHubAPIError {
            msg: "commit comments".to_string(),
            nested: "io".to_string(),
        }),
        Err(AnalyzeError::GitHubAPIError { msg: "reviews".to_string(), nested: "io".to_string() }),
        Ok(PatchSet { files: vec![] }),
        Ok(one_commit()),
    );
    match r {
        Err(AnalyzeError::PullRequestDataRetrievalError { repo_name, pr_number, nested }) => {
            assert_eq!(repo_name, "repo");
            assert_eq!(pr_number, 9);
            assert!(
                matches!(*nested, AnalyzeError::GitHubAPIError { ref msg, .. } if msg == "commit comments")
            );
        },
        other => panic!("expected the aggregate failure, got {:?}", other),
    }
}

#[test]
fn sample_outcomes_keep_listing_order() {
    let mk = |n: u64| -> PullRequestDataResult {
        Err(AnalyzeError::PullRequestNotFound {
            repo_name: "repo".to_string(),
            pr_number: n,
            nested: String::new(),
        })
    };
    let listed = vec![5u64, 3u64, 9u64];
    // completion order differs from listing order
    let results = vec![(9u64, mk(9)), (5u64, mk(5)), (3u64, mk(3))];
    let ordered = order_outcomes(&listed, results);
    assert_eq!(ordered.len(), 3);
    let nums: Vec<u64> = ordered
        .iter()
        .map(|r| match r {
            Err(AnalyzeError::PullRequestNotFound { pr_number, .. }) => *pr_number,
            other => panic!("unexpected outcome {:?}", other),
        })
        .collect();
    assert_eq!(nums, vec![5, 3, 9]);
}

#[test]
fn pool_manager_stores_the_token() {
    let manager = GitHubConnectionPoolManager::new("MY_AWESOME_PERSONAL_ACCESS_TOKEN");
    assert_eq!(manager.token(), "MY_AWESOME_PERSONAL_ACCESS_TOKEN");
}

#[test]
fn metadata_is_exposed() {
    assert_eq!(package_name(), "prolice");
    assert_eq!(full_version(), "0.1.0");
    assert!(!authors().is_empty());
    assert!(!description().is_empty());
    assert!(get_logo().contains("ooo"));
}

#[test]
fn metric_kinds_enumerate_once_each() {
    let kinds = ScoreType::get_iter();
    assert_eq!(kinds.len(), 10);
    assert_eq!(kinds[0].name(), "AmountOfParticipants");
    assert_eq!(kinds[5].name(), "PullRequestFlowRatio");
    assert_eq!(kinds[9].name(), "TimeToMerge");
}

#[test]
fn legends_cover_every_kind() {
    let legends = ScoreType::get_legends();
    for kind in ScoreType::get_iter() {
        assert!(legends.contains(kind.name()));
        assert!(!kind.get_legend().is_empty());
    }
}
