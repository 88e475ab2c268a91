//! The add and remove workflows, as step machines.
//!
//! Each workflow is a chain of external commands with decisions between
//! them.  A stage names the step the caller performs next; the transition
//! function takes the step's outcome and yields the following stage.  The
//! caller loops: perform the stage's action, report how it went, move on.

use vstd::prelude::*;

use crate::gitout::DeleteBranchOutcome;
use crate::text::{chars_of, concat_chars, replace_char, replace_char_spec};

verus! {

/// The directory name a worktree is created under: the branch name with
/// every `'/'` replaced by `'_'`, path separators being invalid in a single
/// path segment.  The branch itself keeps its original name.
pub open spec fn worktree_dirname_spec(branch: Seq<char>) -> Seq<char> {
    replace_char_spec(branch, '/', '_')
}

pub fn worktree_dirname(branch: &Vec<char>) -> (r: Vec<char>)
    ensures
        r@ == worktree_dirname_spec(branch@),
{
    replace_char(branch, '/', '_')
}

/// Where the new worktree is created, relative to the repository root: a
/// sibling directory of the root named after the branch.
pub open spec fn worktree_rel_path_spec(dirname: Seq<char>) -> Seq<char> {
    "../"@ + dirname
}

pub fn worktree_rel_path(dirname: &Vec<char>) -> (r: Vec<char>)
    ensures
        r@ == worktree_rel_path_spec(dirname@),
{
    let prefix = chars_of("../");
    concat_chars(&prefix, dirname)
}

/// The options of the add workflow.
#[derive(Clone, Copy, PartialEq, Eq, Structural, Debug)]
pub struct AddOptions {
    pub copy: bool,
    pub pull: bool,
}

/// The stages of the add workflow, each naming the step the caller performs
/// next: resolve the repository root and enter it; pull (when requested);
/// create the worktree; resolve the new worktree's canonical path; populate
/// it from the repository root by copy or by link; approve the environment
/// file (when its marker is present); emit the worktree path.
#[derive(Clone, Copy, PartialEq, Eq, Structural, Debug)]
pub enum AddStage {
    ResolveRoot,
    Pull,
    CreateTree,
    ResolvePath,
    PopulateCopy,
    PopulateLink,
    ApproveEnv,
    EmitPath,
    Completed,
    Failed,
}

/// The first stage of the add workflow.
pub open spec fn add_start_spec() -> AddStage {
    AddStage::ResolveRoot
}

pub fn add_start() -> (r: AddStage)
    ensures
        r == add_start_spec(),
{
    AddStage::ResolveRoot
}

/// The stage after one step of the add workflow.  `ok` reports whether the
/// step's command ran and succeeded — except for the pull, where `ok` means
/// only that the command could be run at all: a pull that ran and failed is
/// reported as a warning and never aborts the workflow.  `env_marker`
/// reports whether the populated worktree holds the environment-approval
/// marker file, and is read once population has succeeded.
pub open spec fn add_next_spec(s: AddStage, ok: bool, opts: AddOptions, env_marker: bool) -> AddStage {
    match s {
        AddStage::ResolveRoot => if !ok {
            AddStage::Failed
        } else if opts.pull {
            AddStage::Pull
        } else {
            AddStage::CreateTree
        },
        AddStage::Pull => if ok {
            AddStage::CreateTree
        } else {
            AddStage::Failed
        },
        AddStage::CreateTree => if ok {
            AddStage::ResolvePath
        } else {
            AddStage::Failed
        },
        AddStage::ResolvePath => if !ok {
            AddStage::Failed
        } else if opts.copy {
            AddStage::PopulateCopy
        } else {
            AddStage::PopulateLink
        },
        AddStage::PopulateCopy => if !ok {
            AddStage::Failed
        } else if env_marker {
            AddStage::ApproveEnv
        } else {
            AddStage::EmitPath
        },
        AddStage::PopulateLink => if !ok {
            AddStage::Failed
        } else if env_marker {
            AddStage::ApproveEnv
        } else {
            AddStage::EmitPath
        },
        AddStage::ApproveEnv => if ok {
            AddStage::EmitPath
        } else {
            AddStage::Failed
        },
        AddStage::EmitPath => AddStage::Completed,
        AddStage::Completed => AddStage::Completed,
        AddStage::Failed => AddStage::Failed,
    }
}

pub fn add_next(s: AddStage, ok: bool, opts: AddOptions, env_marker: bool) -> (r: AddStage)
    ensures
        r == add_next_spec(s, ok, opts, env_marker),
{
    match s {
        AddStage::ResolveRoot => if !ok {
            AddStage::Failed
        } else if opts.pull {
            AddStage::Pull
        } else {
            AddStage::CreateTree
        },
        AddStage::Pull => if ok {
            AddStage::CreateTree
        } else {
            AddStage::Failed
        },
        AddStage::CreateTree => if ok {
            AddStage::ResolvePath
        } else {
            AddStage::Failed
        },
        AddStage::ResolvePath => if !ok {
            AddStage::Failed
        } else if opts.copy {
            AddStage::PopulateCopy
        } else {
            AddStage::PopulateLink
        },
        AddStage::PopulateCopy => if !ok {
            AddStage::Failed
        } else if env_marker {
            AddStage::ApproveEnv
        } else {
            AddStage::EmitPath
        },
        AddStage::PopulateLink => if !ok {
            AddStage::Failed
        } else if env_marker {
            AddStage::ApproveEnv
        } else {
            AddStage::EmitPath
        },
        AddStage::ApproveEnv => if ok {
            AddStage::EmitPath
        } else {
            AddStage::Failed
        },
        AddStage::EmitPath => AddStage::Completed,
        AddStage::Completed => AddStage::Completed,
        AddStage::Failed => AddStage::Failed,
    }
}

/// Population runs only once the worktree path resolved, and in the
/// requested mode: a copy population follows the copy option, a link
/// population its absence; and a failure anywhere leaves the workflow in the
/// failed stage for good.
pub proof fn lemma_add_populates_in_mode(s: AddStage, ok: bool, opts: AddOptions, env_marker: bool)
    ensures
        add_next_spec(s, ok, opts, env_marker) == AddStage::PopulateCopy ==> s
            == AddStage::ResolvePath && ok && opts.copy,
        add_next_spec(s, ok, opts, env_marker) == AddStage::PopulateLink ==> s
            == AddStage::ResolvePath && ok && !opts.copy,
        add_next_spec(AddStage::Failed, ok, opts, env_marker) == AddStage::Failed,
{
}

/// The stages of the remove workflow: remove the worktree under the derived
/// directory name, then delete the local branch.
#[derive(Clone, Copy, PartialEq, Eq, Structural, Debug)]
pub enum RemoveStage {
    RemoveTree,
    DeleteBranch,
    Completed,
    NotFullyMerged,
    RemoveFailed,
}

/// The first stage of the remove workflow.
pub open spec fn remove_start_spec() -> RemoveStage {
    RemoveStage::RemoveTree
}

pub fn remove_start() -> (r: RemoveStage)
    ensures
        r == remove_start_spec(),
{
    RemoveStage::RemoveTree
}

/// The stage after one step of the remove workflow.  At the
/// worktree-removal stage `ok` reports that the removal command ran and
/// exited zero: a removal that could not be run, or exited non-zero, fails
/// the workflow with its message, and branch deletion follows only a
/// successful removal.  At the branch-deletion stage `ok` reports that the
/// deletion command could be run at all, and `del` is its classified
/// outcome; the not-fully-merged outcome is surfaced as its own distinct
/// failure, without undoing the worktree removal.
pub open spec fn remove_next_spec(s: RemoveStage, ok: bool, del: DeleteBranchOutcome) -> RemoveStage {
    match s {
        RemoveStage::RemoveTree => if ok {
            RemoveStage::DeleteBranch
        } else {
            RemoveStage::RemoveFailed
        },
        RemoveStage::DeleteBranch => if !ok {
            RemoveStage::RemoveFailed
        } else {
            match del {
                DeleteBranchOutcome::Deleted => RemoveStage::Completed,
                DeleteBranchOutcome::NotFullyMerged => RemoveStage::NotFullyMerged,
                DeleteBranchOutcome::DeleteFailed => RemoveStage::RemoveFailed,
            }
        },
        RemoveStage::Completed => RemoveStage::Completed,
        RemoveStage::NotFullyMerged => RemoveStage::NotFullyMerged,
        RemoveStage::RemoveFailed => RemoveStage::RemoveFailed,
    }
}

pub fn remove_next(s: RemoveStage, ok: bool, del: DeleteBranchOutcome) -> (r: RemoveStage)
    ensures
        r == remove_next_spec(s, ok, del),
{
    match s {
        RemoveStage::RemoveTree => if ok {
            RemoveStage::DeleteBranch
        } else {
            RemoveStage::RemoveFailed
        },
        RemoveStage::DeleteBranch => if !ok {
            RemoveStage::RemoveFailed
        } else {
            match del {
                DeleteBranchOutcome::Deleted => RemoveStage::Completed,
                DeleteBranchOutcome::NotFullyMerged => RemoveStage::NotFullyMerged,
                DeleteBranchOutcome::DeleteFailed => RemoveStage::RemoveFailed,
            }
        },
        RemoveStage::Completed => RemoveStage::Completed,
        RemoveStage::NotFullyMerged => RemoveStage::NotFullyMerged,
        RemoveStage::RemoveFailed => RemoveStage::RemoveFailed,
    }
}

/// The distinct not-fully-merged report arises only at the branch-deletion
/// stage, from exactly that classified outcome; and the branch-deletion
/// stage is entered only from the worktree-removal stage once its command
/// ran and exited zero.  So whenever the remove workflow reports an
/// unmerged branch, the worktree removal had already been attempted and had
/// succeeded.
pub proof fn lemma_not_merged_follows_removal(
    s: RemoveStage,
    ok: bool,
    del: DeleteBranchOutcome,
)
    ensures
        remove_next_spec(s, ok, del) == RemoveStage::NotFullyMerged ==> (s
            == RemoveStage::DeleteBranch && ok && del == DeleteBranchOutcome::NotFullyMerged)
            || s == RemoveStage::NotFullyMerged,
        remove_next_spec(s, ok, del) == RemoveStage::DeleteBranch ==> s
            == RemoveStage::RemoveTree && ok,
{
}

} // verus!
