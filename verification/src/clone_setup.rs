//! The bootstrap of a fresh repository: a bare clone beside a worktree for
//! the default branch.
//!
//! The layout is fixed: a local directory named after the repository holds a
//! hidden bare store, a pointer file redirecting the working tree to it, and
//! one worktree subdirectory named after the default branch.

use vstd::prelude::*;

use crate::text::{chars_of, subrange_vec};

verus! {

/// Last index of `c` strictly below `i`, or `-1` where there is none.
pub open spec fn rfind_below(s: Seq<char>, c: char, i: int) -> int
    decreases i,
{
    if i <= 0 {
        -1
    } else if s[i - 1] == c {
        i - 1
    } else {
        rfind_below(s, c, i - 1)
    }
}

/// The local directory a repository reference is cloned into: the
/// reference's last `'/'`-separated segment, or the whole reference where it
/// has no separator.
pub open spec fn repo_local_name_spec(repo: Seq<char>) -> Seq<char> {
    repo.subrange(rfind_below(repo, '/', repo.len() as int) + 1, repo.len() as int)
}

pub fn repo_local_name(repo: &Vec<char>) -> (r: Vec<char>)
    ensures
        r@ == repo_local_name_spec(repo@),
{
    let n: usize = repo.len();
    let mut i: usize = n;
    while i > 0 && repo[i - 1] != '/'
        invariant
            0 <= i <= n,
            n == repo@.len(),
            rfind_below(repo@, '/', n as int) == rfind_below(repo@, '/', i as int),
        decreases i,
    {
        i = i - 1;
    }
    proof {
        assert(rfind_below(repo@, '/', n as int) + 1 == i);
    }
    subrange_vec(repo, i, n)
}

/// The name of the hidden directory holding the bare store.
pub fn bare_dir_name() -> (r: Vec<char>)
    ensures
        r@ == ".bare"@,
{
    chars_of(".bare")
}

/// The name of the pointer file written at the clone's top level.
pub fn git_pointer_name() -> (r: Vec<char>)
    ensures
        r@ == ".git"@,
{
    chars_of(".git")
}

/// The pointer file's exact contents, redirecting the working tree to the
/// bare store.
pub fn git_pointer_contents() -> (r: Vec<char>)
    ensures
        r@ == "gitdir: ./.bare"@,
{
    chars_of("gitdir: ./.bare")
}

/// The initial worktree is created at a path equal to the default branch's
/// own name: the worktree subdirectory matches the detected default branch.
pub fn clone_tree_target(default_branch: &Vec<char>) -> (r: Vec<char>)
    ensures
        r@ == default_branch@,
{
    let n: usize = default_branch.len();
    let r = subrange_vec(default_branch, 0, n);
    proof {
        assert(default_branch@.subrange(0, n as int) =~= default_branch@);
    }
    r
}

/// The stages of the clone workflow, each naming the step the caller
/// performs next: create the local directory and enter it; run the hosting
/// CLI's bare clone into the hidden store; write the pointer file; resolve
/// the default branch; create the default branch's worktree.  Any failure
/// aborts the remaining steps, leaving what was created in place for
/// inspection.
#[derive(Clone, Copy, PartialEq, Eq, Structural, Debug)]
pub enum CloneStage {
    MakeDir,
    CloneBare,
    WritePointer,
    FindDefaultBranch,
    AddTree,
    Completed,
    Failed,
}

/// The first stage of the clone workflow.
pub open spec fn clone_start_spec() -> CloneStage {
    CloneStage::MakeDir
}

pub fn clone_start() -> (r: CloneStage)
    ensures
        r == clone_start_spec(),
{
    CloneStage::MakeDir
}

/// The stage after one step of the clone workflow: the chain advances in
/// order on success and fails for good on the first failure.
pub open spec fn clone_next_spec(s: CloneStage, ok: bool) -> CloneStage {
    match s {
        CloneStage::MakeDir => if ok {
            CloneStage::CloneBare
        } else {
            CloneStage::Failed
        },
        CloneStage::CloneBare => if ok {
            CloneStage::WritePointer
        } else {
            CloneStage::Failed
        },
        CloneStage::WritePointer => if ok {
            CloneStage::FindDefaultBranch
        } else {
            CloneStage::Failed
        },
        CloneStage::FindDefaultBranch => if ok {
            CloneStage::AddTree
        } else {
            CloneStage::Failed
        },
        CloneStage::AddTree => if ok {
            CloneStage::Completed
        } else {
            CloneStage::Failed
        },
        CloneStage::Completed => CloneStage::Completed,
        CloneStage::Failed => CloneStage::Failed,
    }
}

pub fn clone_next(s: CloneStage, ok: bool) -> (r: CloneStage)
    ensures
        r == clone_next_spec(s, ok),
{
    match s {
        CloneStage::MakeDir => if ok {
            CloneStage::CloneBare
        } else {
            CloneStage::Failed
        },
        CloneStage::CloneBare => if ok {
            CloneStage::WritePointer
        } else {
            CloneStage::Failed
        },
        CloneStage::WritePointer => if ok {
            CloneStage::FindDefaultBranch
        } else {
            CloneStage::Failed
        },
        CloneStage::FindDefaultBranch => if ok {
            CloneStage::AddTree
        } else {
            CloneStage::Failed
        },
        CloneStage::AddTree => if ok {
            CloneStage::Completed
        } else {
            CloneStage::Failed
        },
        CloneStage::Completed => CloneStage::Completed,
        CloneStage::Failed => CloneStage::Failed,
    }
}

/// The worktree step runs only after the pointer file was written and the
/// default branch resolved, and completion implies every step succeeded in
/// order.
pub proof fn lemma_clone_order(s: CloneStage, ok: bool)
    ensures
        clone_next_spec(s, ok) == CloneStage::AddTree ==> s == CloneStage::FindDefaultBranch && ok,
        clone_next_spec(s, ok) == CloneStage::FindDefaultBranch ==> s == CloneStage::WritePointer
            && ok,
        clone_next_spec(s, ok) == CloneStage::Completed ==> (s == CloneStage::AddTree && ok) || s
            == CloneStage::Completed,
{
}

} // verus!
