//! Tests of the diff analyzer, the attachment matcher and the text helpers.

use prolice::analyzer::parse_pr_diff;
use prolice::diff::Hunk;
use prolice::diff::PatchSet;
use prolice::error::AnalyzeError;
use prolice::markdown::find_attachments;
use prolice::pull_request_data::is_test_file;
use prolice::review::ReviewState;

#[test]
fn parses_two_file_diff() {
    let mut text = String::new();
    text.push_str("--- a/tests/foo.rs\n+++ b/tests/foo.rs\n@@ -1,4 +1,12 @@\n");
    text.push_str(" ctx\n+a1\n+a2\n+a3\n+a4\n+a5\n+a6\n+a7\n+a8\n+a9\n+a10\n-d1\n-d2\n ctx\n");
    text.push_str("--- a/src/lib.rs\n+++ b/src/lib.rs\n@@ -1,7 +1,22 @@\n");
    text.push_str(" ctx\n+b1\n+b2\n+b3\n+b4\n+b5\n+b6\n+b7\n+b8\n+b9\n+b10\n");
    text.push_str("+b11\n+b12\n+b13\n+b14\n+b15\n+b16\n+b17\n+b18\n+b19\n+b20\n");
    text.push_str("-e1\n-e2\n-e3\n-e4\n-e5\n ctx\n");
    let text = text.as_str();
    let ps = PatchSet::parse(text).expect("well-formed diff");
    assert_eq!(ps.files.len(), 2);
    assert_eq!(ps.files[0].target_file, "b/tests/foo.rs");
    assert_eq!(ps.files[0].hunks.len(), 1);
    assert_eq!(ps.files[0].hunks[0].added, 10);
    assert_eq!(ps.files[0].hunks[0].removed, 2);
    assert_eq!(ps.files[1].hunks[0].added, 20);
    assert_eq!(ps.files[1].hunks[0].removed, 5);
    assert!(ps.files[0].is_modified_file());
}

#[test]
fn classifies_added_and_removed_files() {
    let text = "--- /dev/null\n+++ b/new.rs\n@@ -0,0 +1,1 @@\n+x\n--- a/old.rs\n+++ /dev/null\n@@ -1,1 +0,0 @@\n-y\n";
    let ps = PatchSet::parse(text).expect("well-formed diff");
    assert_eq!(ps.files.len(), 2);
    assert!(ps.files[0].is_added_file());
    assert!(!ps.files[0].is_modified_file());
    assert!(ps.files[1].is_removed_file());
}

#[test]
fn empty_diff_yields_empty_patch_set() {
    let ps = PatchSet::parse("").expect("empty text is an empty diff");
    assert_eq!(ps.files.len(), 0);
}

#[test]
fn junk_lines_between_files_are_skipped() {
    let text = "diff --git a/x b/x\nindex 123..456\n--- a/x\n+++ b/x\n@@ -1 +1,2 @@\n c\n+d\nsome trailer\n";
    let ps = PatchSet::parse(text).expect("well-formed diff");
    assert_eq!(ps.files.len(), 1);
    assert_eq!(ps.files[0].hunks[0].added, 1);
    assert_eq!(ps.files[0].hunks[0].removed, 0);
}

#[test]
fn header_name_stops_at_tab() {
    let text = "--- a/x\t2024-01-01\n+++ b/x\t2024-01-02\n";
    let ps = PatchSet::parse(text).expect("well-formed diff");
    assert_eq!(ps.files[0].source_file, "a/x");
    assert_eq!(ps.files[0].target_file, "b/x");
}

#[test]
fn truncated_hunk_is_rejected() {
    let text = "--- a/x\n+++ b/x\n@@ -1,2 +1,2 @@\n c\n";
    assert!(PatchSet::parse(text).is_none());
}

#[test]
fn malformed_header_is_rejected() {
    let text = "--- a/x\n+++ b/x\n@@ -q +1 @@\n";
    assert!(PatchSet::parse(text).is_none());
}

#[test]
fn orphan_hunk_is_rejected() {
    assert!(PatchSet::parse("@@ -1 +1 @@\n x\n").is_none());
}

#[test]
fn dangling_source_header_is_rejected() {
    assert!(PatchSet::parse("--- a/x\n").is_none());
}

#[test]
fn parse_pr_diff_wraps_malformed_text() {
    let r = parse_pr_diff("repo", 7, "--- a/x\n+++ b/x\n@@ -1,2 +1,2 @@\n c\n");
    assert!(
        matches!(r, Err(AnalyzeError::DiffParseError { repo_name, pr_number, .. })
            if repo_name == "repo" && pr_number == 7)
    );
}

#[test]
fn net_added_lines_floor_at_zero() {
    let mostly_deleting = Hunk {
        source_start: 1,
        source_length: 7,
        target_start: 1,
        target_length: 4,
        added: 2,
        removed: 5,
    };
    assert_eq!(mostly_deleting.net_added(), 0);
    let adding = Hunk { added: 5, removed: 2, ..mostly_deleting };
    assert_eq!(adding.net_added(), 3);
}

#[test]
fn finds_markdown_attachments() {
    let found = find_attachments("see ![shot](http://img)\nand [docs](http://d).");
    assert_eq!(found.len(), 2);
    assert_eq!(found[0], "![shot](http://img)");
    assert_eq!(found[1], "[docs](http://d)");
}

#[test]
fn attachments_on_one_line_merge_greedily() {
    // the bracket part is greedy within a line: two links on the same line
    // form one match reaching the last bracket-parenthesis pair
    let found = find_attachments("see ![shot](http://img) and [docs](http://d).");
    assert_eq!(found.len(), 1);
    assert_eq!(found[0], "![shot](http://img) and [docs](http://d)");
}

#[test]
fn attachment_bracket_part_is_greedy() {
    let found = find_attachments("[a](b](c)");
    assert_eq!(found.len(), 1);
    assert_eq!(found[0], "[a](b](c)");
}

#[test]
fn attachment_paren_part_is_lazy() {
    let found = find_attachments("[a](x)](y");
    assert_eq!(found.len(), 1);
    assert_eq!(found[0], "[a](x)");
}

#[test]
fn attachment_never_crosses_lines() {
    assert_eq!(find_attachments("[a]\n(b)").len(), 0);
}

#[test]
fn test_file_heuristic_is_naive() {
    assert!(is_test_file("tests/foo.rs"));
    assert!(is_test_file("src/TESTING.md"));
    assert!(is_test_file("src/contest.rs"));
    assert!(!is_test_file("src/main.rs"));
}

#[test]
fn review_states_parse_in_both_spellings() {
    assert_eq!(ReviewState::parse("APPROVED"), Some(ReviewState::Approved));
    assert_eq!(ReviewState::parse("approved"), Some(ReviewState::Approved));
    assert_eq!(ReviewState::parse("DISMISSED"), Some(ReviewState::Dismissed));
    assert_eq!(ReviewState::parse("dismissed"), Some(ReviewState::Dismissed));
    assert_eq!(ReviewState::parse("changes_requested"), Some(ReviewState::ChangesRequested));
    assert_eq!(ReviewState::parse("CHANGES_REQUESTED"), Some(ReviewState::ChangesRequested));
    assert_eq!(ReviewState::parse("PENDING"), Some(ReviewState::Pending));
    assert_eq!(ReviewState::parse("commented"), Some(ReviewState::Commented));
    assert_eq!(ReviewState::parse("FOO"), None);
    assert_eq!(ReviewState::parse("Approved"), None);
}
