//! Tests of the configuration reader and the command-output parsers.

use gwt::config::{get_files_from_config, parse_tracked_items};
use gwt::gitout::{
    branch_has_changes, create_worktree_attaches, delete_branch_outcome, get_default_branch,
    get_worktrees, head_branch_from_remote_show, pull_warns, DeleteBranchOutcome,
};
use gwt::init::{config_text, ignore_candidates, is_yes, select_items};
use gwt::text::{has_substring, trim};

fn cv(s: &str) -> Vec<char> {
    s.chars().collect()
}

fn cvs(items: &[&str]) -> Vec<Vec<char>> {
    items.iter().map(|s| cv(s)).collect()
}

#[test]
fn missing_config_yields_empty_list() {
    let items = get_files_from_config(None);
    assert_eq!(items, Vec::<Vec<char>>::new());
}

#[test]
fn present_config_is_parsed() {
    let content = cv(".env\nconfig/local.toml\n");
    let items = get_files_from_config(Some(&content));
    assert_eq!(items, cvs(&[".env", "config/local.toml"]));
}

#[test]
fn blank_lines_are_filtered_in_order() {
    let content = cv(".env\n\n   \nconfig/local\n\nnotes.txt\n");
    let items = parse_tracked_items(&content);
    assert_eq!(items, cvs(&[".env", "config/local", "notes.txt"]));
}

#[test]
fn lines_are_trimmed() {
    let content = cv("  .env  \n\t.envrc\n");
    let items = parse_tracked_items(&content);
    assert_eq!(items, cvs(&[".env", ".envrc"]));
}

#[test]
fn config_without_trailing_newline_keeps_last_item() {
    let content = cv(".env\n.envrc");
    let items = parse_tracked_items(&content);
    assert_eq!(items, cvs(&[".env", ".envrc"]));
}

#[test]
fn empty_config_yields_no_items() {
    let items = parse_tracked_items(&cv(""));
    assert_eq!(items, Vec::<Vec<char>>::new());
    let only_blank = parse_tracked_items(&cv("\n\n  \n"));
    assert_eq!(only_blank, Vec::<Vec<char>>::new());
}

#[test]
fn crlf_lines_are_handled() {
    let content = cv(".env\r\nconfig\r\n");
    let items = parse_tracked_items(&content);
    assert_eq!(items, cvs(&[".env", "config"]));
}

#[test]
fn worktree_listing_is_parsed() {
    let listing = cv(
        "worktree /repo/main\nHEAD 0123abcd\nbranch refs/heads/main\n\nworktree /repo/feature_x\nHEAD 4567cdef\nbranch refs/heads/feature/x\n\n",
    );
    let trees = get_worktrees(&listing);
    assert_eq!(trees, cvs(&["/repo/main", "/repo/feature_x"]));
}

#[test]
fn worktree_listing_keeps_discovery_order() {
    let listing = cv("worktree /b\n\nworktree /a\n");
    let trees = get_worktrees(&listing);
    assert_eq!(trees, cvs(&["/b", "/a"]));
}

#[test]
fn empty_listing_has_no_worktrees() {
    assert_eq!(get_worktrees(&cv("")), Vec::<Vec<char>>::new());
}

#[test]
fn head_branch_is_read_from_remote_description() {
    let out = cv("* remote origin\n  Fetch URL: git@example.com:owner/repo.git\n  HEAD branch: main\n  Remote branches:\n");
    let head = head_branch_from_remote_show(&out);
    assert_eq!(head, Some(cv("main")));
}

#[test]
fn head_branch_absent_in_description() {
    let out = cv("* remote origin\n  Fetch URL: git@example.com:owner/repo.git\n");
    assert_eq!(head_branch_from_remote_show(&out), None);
}

#[test]
fn default_branch_prefers_remote_head() {
    let r = get_default_branch(Some(cv("develop")), true, true);
    assert_eq!(r, Some(cv("develop")));
}

#[test]
fn default_branch_falls_back_to_main_then_master() {
    assert_eq!(get_default_branch(None, true, true), Some(cv("main")));
    assert_eq!(get_default_branch(None, true, false), Some(cv("main")));
    assert_eq!(get_default_branch(None, false, true), Some(cv("master")));
}

#[test]
fn default_branch_unresolvable_is_none() {
    assert_eq!(get_default_branch(None, false, false), None);
}

#[test]
fn remote_only_branch_attaches() {
    let local = cv("main\nother\n");
    let remote = cv("main\nfeature-x\nother\n");
    assert!(create_worktree_attaches(&local, &remote, &cv("feature-x")));
}

#[test]
fn local_branch_attaches() {
    let local = cv("main\nfeature-x\n");
    let remote = cv("main\n");
    assert!(create_worktree_attaches(&local, &remote, &cv("feature-x")));
}

#[test]
fn unknown_branch_does_not_attach() {
    let local = cv("main\n");
    let remote = cv("main\n");
    assert!(!create_worktree_attaches(&local, &remote, &cv("feature-x")));
}

#[test]
fn branch_matching_only_part_of_a_ref_does_not_attach() {
    // 'x' occurs inside 'fix' and 'main' inside 'mainline', but neither is a
    // listed ref: the branch is created anew, not attached.
    let local = cv("fix\nmainline\n");
    let remote = cv("");
    assert!(!create_worktree_attaches(&local, &remote, &cv("x")));
    assert!(!create_worktree_attaches(&local, &remote, &cv("main")));
    assert!(create_worktree_attaches(&local, &remote, &cv("fix")));
}

#[test]
fn unmerged_branch_deletion_is_distinct() {
    let stderr = cv("error: The branch 'feature-x' is not fully merged.\n");
    assert_eq!(
        delete_branch_outcome(false, &stderr),
        DeleteBranchOutcome::NotFullyMerged
    );
}

#[test]
fn other_deletion_failure_is_generic() {
    let stderr = cv("error: branch 'feature-x' not found.\n");
    assert_eq!(
        delete_branch_outcome(false, &stderr),
        DeleteBranchOutcome::DeleteFailed
    );
}

#[test]
fn successful_deletion_is_deleted() {
    assert_eq!(
        delete_branch_outcome(true, &cv("")),
        DeleteBranchOutcome::Deleted
    );
}

#[test]
fn pull_without_upstream_is_quiet() {
    let stderr = cv("There is no tracking information for the current branch.\n");
    assert!(!pull_warns(false, &stderr));
}

#[test]
fn other_pull_failure_warns() {
    let stderr = cv("fatal: unable to access remote\n");
    assert!(pull_warns(false, &stderr));
}

#[test]
fn successful_pull_never_warns() {
    assert!(!pull_warns(true, &cv("")));
}

#[test]
fn short_status_reports_changes() {
    assert!(!branch_has_changes(&cv("")));
    assert!(branch_has_changes(&cv(" M src/lib.rs\n")));
}

#[test]
fn substring_search_matches_contains() {
    assert!(has_substring(&cv("is not fully merged today"), &cv("fully")));
    assert!(!has_substring(&cv("clean"), &cv("fully")));
    assert!(has_substring(&cv("abc"), &cv("")));
}

#[test]
fn trim_strips_both_ends() {
    assert_eq!(trim(&cv("  a b \t")), cv("a b"));
    assert_eq!(trim(&cv("   ")), cv(""));
    assert_eq!(trim(&cv("x")), cv("x"));
}

#[test]
fn ignore_candidates_skip_comments_and_blanks() {
    let content = cv("# build outputs\n\ntarget/\n  .env\n#cache\nnode_modules\n");
    let cands = ignore_candidates(&content);
    assert_eq!(cands, cvs(&["target/", ".env", "node_modules"]));
}

#[test]
fn yes_answers_are_y_in_either_case() {
    assert!(is_yes(&cv("y")));
    assert!(is_yes(&cv("Y")));
    assert!(is_yes(&cv("  y\n")));
    assert!(!is_yes(&cv("yes")));
    assert!(!is_yes(&cv("")));
    assert!(!is_yes(&cv("n")));
}

#[test]
fn selection_keeps_accepted_candidates_in_order() {
    let cands = cvs(&["target/", ".env", "node_modules"]);
    let answers = cvs(&["y", "n", "Y"]);
    let chosen = select_items(&cands, &answers);
    assert_eq!(chosen, cvs(&["target/", "node_modules"]));
}

#[test]
fn config_text_joins_with_trailing_newline() {
    let items = cvs(&[".env", "node_modules"]);
    assert_eq!(config_text(&items), cv(".env\nnode_modules\n"));
    assert_eq!(config_text(&cvs(&[".env"])), cv(".env\n"));
}

#[test]
fn config_text_round_trips_through_the_reader() {
    let items = cvs(&[".env", "config/local", "notes.txt"]);
    let written = config_text(&items);
    let read_back = parse_tracked_items(&written);
    assert_eq!(read_back, items);
}
