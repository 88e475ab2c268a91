//! Tests of the synchronization engine and the workflow step machines.

use gwt::clone_setup::{
    bare_dir_name, clone_next, clone_start, clone_tree_target, git_pointer_contents,
    git_pointer_name, repo_local_name, CloneStage,
};
use gwt::file_ops::{
    copy_item_plan, link_item_plan, strip_trailing_slashes, CopyItemPlan, DestCleanup,
    LinkItemPlan,
};
use gwt::gitout::DeleteBranchOutcome;
use gwt::lifecycle::{
    add_next, add_start, remove_next, remove_start, worktree_dirname, worktree_rel_path,
    AddOptions, AddStage, RemoveStage,
};
use gwt::sync::{
    copy_next, plan_sync, write_next, write_start, CopyStage, SyncWrite, WriteAttempt,
};

fn cv(s: &str) -> Vec<char> {
    s.chars().collect()
}

#[test]
fn newest_worktree_is_sole_source() {
    // One item present in worktrees A, B, C with times 1 < 2 < 3: C is the
    // source, A and B the only destinations.
    let table = vec![vec![Some(1u64), Some(2u64), Some(3u64)]];
    let plan = plan_sync(&table, false);
    assert_eq!(
        plan,
        vec![
            SyncWrite { item: 0, source: 2, dest: 0, copy: false },
            SyncWrite { item: 0, source: 2, dest: 1, copy: false },
        ]
    );
}

#[test]
fn ties_go_to_the_earliest_worktree() {
    let table = vec![vec![Some(5u64), Some(5u64)]];
    let plan = plan_sync(&table, false);
    assert_eq!(plan, vec![SyncWrite { item: 0, source: 0, dest: 1, copy: false }]);
}

#[test]
fn absent_item_plans_nothing() {
    let table = vec![vec![None, None, None]];
    let plan = plan_sync(&table, false);
    assert_eq!(plan, Vec::<SyncWrite>::new());
}

#[test]
fn items_are_planned_independently_in_order() {
    let table = vec![
        vec![Some(9u64), Some(1u64)],
        vec![None, None],
        vec![Some(1u64), Some(4u64)],
    ];
    let plan = plan_sync(&table, true);
    assert_eq!(
        plan,
        vec![
            SyncWrite { item: 0, source: 0, dest: 1, copy: true },
            SyncWrite { item: 2, source: 1, dest: 0, copy: true },
        ]
    );
}

#[test]
fn missing_worktree_copy_is_still_written() {
    // The item exists only in the first worktree; the second gets a write.
    let table = vec![vec![Some(7u64), None]];
    let plan = plan_sync(&table, false);
    assert_eq!(plan, vec![SyncWrite { item: 0, source: 0, dest: 1, copy: false }]);
}

#[test]
fn link_failure_falls_back_to_copy() {
    assert_eq!(write_start(false), WriteAttempt::TryLink);
    assert_eq!(write_next(WriteAttempt::TryLink, false), WriteAttempt::DoCopy);
    assert_eq!(write_next(WriteAttempt::DoCopy, true), WriteAttempt::Done);
}

#[test]
fn copy_mode_skips_the_link_attempt() {
    assert_eq!(write_start(true), WriteAttempt::DoCopy);
    assert_eq!(write_next(WriteAttempt::TryLink, true), WriteAttempt::Done);
}

#[test]
fn failed_copy_fails_the_write() {
    assert_eq!(write_next(WriteAttempt::DoCopy, false), WriteAttempt::Failed);
}

#[test]
fn copy_tool_chain_falls_back_in_order() {
    assert_eq!(copy_next(CopyStage::CowClone, false), CopyStage::CowReflink);
    assert_eq!(copy_next(CopyStage::CowReflink, false), CopyStage::Plain);
    assert_eq!(copy_next(CopyStage::Plain, true), CopyStage::Copied);
}

#[test]
fn copy_tool_chain_exhausted_is_an_error() {
    let mut s = CopyStage::CowClone;
    s = copy_next(s, false);
    s = copy_next(s, false);
    s = copy_next(s, false);
    assert_eq!(s, CopyStage::CopyFailed);
}

#[test]
fn slashed_branch_maps_to_underscore_directory() {
    assert_eq!(worktree_dirname(&cv("feature/x")), cv("feature_x"));
    assert_eq!(worktree_dirname(&cv("a/b/c")), cv("a_b_c"));
    assert_eq!(worktree_dirname(&cv("plain")), cv("plain"));
}

#[test]
fn worktree_is_created_beside_the_root() {
    assert_eq!(worktree_rel_path(&cv("feature_x")), cv("../feature_x"));
}

#[test]
fn add_happy_path_with_pull_link_and_env() {
    let opts = AddOptions { copy: false, pull: true };
    let mut s = add_start();
    assert_eq!(s, AddStage::ResolveRoot);
    s = add_next(s, true, opts, false);
    assert_eq!(s, AddStage::Pull);
    s = add_next(s, true, opts, false);
    assert_eq!(s, AddStage::CreateTree);
    s = add_next(s, true, opts, false);
    assert_eq!(s, AddStage::ResolvePath);
    s = add_next(s, true, opts, false);
    assert_eq!(s, AddStage::PopulateLink);
    s = add_next(s, true, opts, true);
    assert_eq!(s, AddStage::ApproveEnv);
    s = add_next(s, true, opts, true);
    assert_eq!(s, AddStage::EmitPath);
    s = add_next(s, true, opts, true);
    assert_eq!(s, AddStage::Completed);
}

#[test]
fn add_copy_mode_without_pull_or_env() {
    let opts = AddOptions { copy: true, pull: false };
    let mut s = add_start();
    s = add_next(s, true, opts, false);
    assert_eq!(s, AddStage::CreateTree);
    s = add_next(s, true, opts, false);
    s = add_next(s, true, opts, false);
    assert_eq!(s, AddStage::PopulateCopy);
    s = add_next(s, true, opts, false);
    assert_eq!(s, AddStage::EmitPath);
}

#[test]
fn add_fails_when_worktree_creation_fails() {
    let opts = AddOptions { copy: false, pull: false };
    let mut s = add_start();
    s = add_next(s, true, opts, false);
    assert_eq!(s, AddStage::CreateTree);
    s = add_next(s, false, opts, false);
    assert_eq!(s, AddStage::Failed);
    s = add_next(s, true, opts, false);
    assert_eq!(s, AddStage::Failed);
}

#[test]
fn remove_attempts_removal_before_deletion() {
    let mut s = remove_start();
    assert_eq!(s, RemoveStage::RemoveTree);
    s = remove_next(s, true, DeleteBranchOutcome::Deleted);
    assert_eq!(s, RemoveStage::DeleteBranch);
    s = remove_next(s, true, DeleteBranchOutcome::Deleted);
    assert_eq!(s, RemoveStage::Completed);
}

#[test]
fn unmerged_branch_surfaces_distinctly_after_removal() {
    let mut s = remove_start();
    s = remove_next(s, true, DeleteBranchOutcome::DeleteFailed);
    assert_eq!(s, RemoveStage::DeleteBranch);
    s = remove_next(s, true, DeleteBranchOutcome::NotFullyMerged);
    assert_eq!(s, RemoveStage::NotFullyMerged);
}

#[test]
fn failed_worktree_removal_fails_the_flow() {
    // A removal that exits non-zero (or cannot run) is surfaced as a failure
    // and branch deletion does not follow it.
    let s = remove_next(remove_start(), false, DeleteBranchOutcome::Deleted);
    assert_eq!(s, RemoveStage::RemoveFailed);
}

#[test]
fn generic_deletion_failure_fails_the_removal() {
    let mut s = remove_start();
    s = remove_next(s, true, DeleteBranchOutcome::Deleted);
    s = remove_next(s, true, DeleteBranchOutcome::DeleteFailed);
    assert_eq!(s, RemoveStage::RemoveFailed);
}

#[test]
fn clone_derives_directory_from_last_segment() {
    assert_eq!(repo_local_name(&cv("owner/repo")), cv("repo"));
    assert_eq!(repo_local_name(&cv("repo")), cv("repo"));
    assert_eq!(repo_local_name(&cv("https://example.com/owner/repo")), cv("repo"));
}

#[test]
fn clone_layout_constants() {
    assert_eq!(bare_dir_name(), cv(".bare"));
    assert_eq!(git_pointer_name(), cv(".git"));
    assert_eq!(git_pointer_contents(), cv("gitdir: ./.bare"));
    assert_eq!(clone_tree_target(&cv("main")), cv("main"));
}

#[test]
fn clone_chain_runs_in_order() {
    let mut s = clone_start();
    assert_eq!(s, CloneStage::MakeDir);
    s = clone_next(s, true);
    assert_eq!(s, CloneStage::CloneBare);
    s = clone_next(s, true);
    assert_eq!(s, CloneStage::WritePointer);
    s = clone_next(s, true);
    assert_eq!(s, CloneStage::FindDefaultBranch);
    s = clone_next(s, true);
    assert_eq!(s, CloneStage::AddTree);
    s = clone_next(s, true);
    assert_eq!(s, CloneStage::Completed);
}

#[test]
fn clone_aborts_on_first_failure() {
    let mut s = clone_start();
    s = clone_next(s, true);
    s = clone_next(s, false);
    assert_eq!(s, CloneStage::Failed);
    s = clone_next(s, true);
    assert_eq!(s, CloneStage::Failed);
}

#[test]
fn trailing_slashes_are_stripped_from_items() {
    assert_eq!(strip_trailing_slashes(&cv("target/")), cv("target"));
    assert_eq!(strip_trailing_slashes(&cv("dir///")), cv("dir"));
    assert_eq!(strip_trailing_slashes(&cv("a/b")), cv("a/b"));
}

#[test]
fn linking_skips_missing_and_broken_sources() {
    assert_eq!(link_item_plan(false, false, false, false), LinkItemPlan::SkipMissing);
    assert_eq!(link_item_plan(true, true, false, false), LinkItemPlan::SkipBroken);
}

#[test]
fn linking_clears_the_destination_first() {
    assert_eq!(
        link_item_plan(true, false, false, false),
        LinkItemPlan::MakeLink { cleanup: DestCleanup::NothingThere }
    );
    assert_eq!(
        link_item_plan(true, false, true, true),
        LinkItemPlan::MakeLink { cleanup: DestCleanup::RemoveDir }
    );
    assert_eq!(
        link_item_plan(true, false, true, false),
        LinkItemPlan::MakeLink { cleanup: DestCleanup::RemoveFile }
    );
}

#[test]
fn copying_skips_missing_sources() {
    assert_eq!(copy_item_plan(false), CopyItemPlan::SkipMissing);
    assert_eq!(copy_item_plan(true), CopyItemPlan::MakeCopy);
}
