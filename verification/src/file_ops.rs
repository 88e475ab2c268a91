//! Populating a fresh worktree with the tracked items.
//!
//! At creation time every tracked item is propagated one way, from the
//! repository root into the new worktree: linked by default, copied when
//! copying was requested.  The caller probes the filesystem and carries the
//! planned step out; the decisions live here.

use vstd::prelude::*;

use crate::sync::{write_next_spec, write_start_spec, WriteAttempt};
use crate::text::subrange_vec;

verus! {

/// The sequence with trailing `'/'` characters removed: a tracked item is
/// used as a lookup key with trailing path separators stripped.
pub open spec fn strip_trailing_slashes_spec(s: Seq<char>) -> Seq<char>
    decreases s.len(),
{
    if s.len() > 0 && s[s.len() - 1] == '/' {
        strip_trailing_slashes_spec(s.drop_last())
    } else {
        s
    }
}

proof fn lemma_strip_slashes_range(s: Seq<char>, b: int)
    requires
        0 <= b <= s.len(),
        forall|k: int| b <= k < s.len() ==> s[k] == '/',
        b > 0 ==> s[b - 1] != '/',
    ensures
        strip_trailing_slashes_spec(s) == s.subrange(0, b),
    decreases s.len(),
{
    if b == s.len() {
        if s.len() > 0 && s[s.len() - 1] == '/' {
            assert(s[b - 1] != '/');
        }
        assert(s.subrange(0, s.len() as int) =~= s);
    } else {
        assert(s[s.len() - 1] == '/');
        lemma_strip_slashes_range(s.drop_last(), b);
        assert(s.drop_last().subrange(0, b) =~= s.subrange(0, b));
    }
}

/// A tracked item with trailing path separators stripped.
pub fn strip_trailing_slashes(s: &Vec<char>) -> (r: Vec<char>)
    ensures
        r@ == strip_trailing_slashes_spec(s@),
{
    let n: usize = s.len();
    let mut b: usize = n;
    while b > 0 && s[b - 1] == '/'
        invariant
            0 <= b <= n,
            n == s@.len(),
            forall|k: int| b <= k < n ==> s@[k] == '/',
        decreases b,
    {
        b = b - 1;
    }
    let r = subrange_vec(s, 0, b);
    proof {
        lemma_strip_slashes_range(s@, b as int);
    }
    r
}

/// What stands at the destination before the link is made.
#[derive(Clone, Copy, PartialEq, Eq, Structural, Debug)]
pub enum DestCleanup {
    NothingThere,
    RemoveDir,
    RemoveFile,
}

/// The step planned for one tracked item when linking into a new worktree.
/// A planned link is carried out as a link-mode write (`sync::write_start`
/// with copying off): the symbolic link is attempted first, and a link that
/// cannot be created falls back to a copy of the same item rather than
/// aborting the remaining items.
#[derive(Clone, Copy, PartialEq, Eq, Structural, Debug)]
pub enum LinkItemPlan {
    SkipMissing,
    SkipBroken,
    MakeLink { cleanup: DestCleanup },
}

/// The linking decision for one tracked item: an item absent under the
/// repository root is skipped with a notice, a source that is a broken
/// symbolic link is skipped with a warning, and otherwise the destination is
/// cleared (a directory recursively, any other entry as a file) before the
/// link is made.
pub open spec fn link_item_plan_spec(
    src_exists: bool,
    src_broken: bool,
    dest_exists: bool,
    dest_is_dir: bool,
) -> LinkItemPlan {
    if !src_exists {
        LinkItemPlan::SkipMissing
    } else if src_broken {
        LinkItemPlan::SkipBroken
    } else {
        LinkItemPlan::MakeLink {
            cleanup: if !dest_exists {
                DestCleanup::NothingThere
            } else if dest_is_dir {
                DestCleanup::RemoveDir
            } else {
                DestCleanup::RemoveFile
            },
        }
    }
}

/// Decide how one tracked item is linked into a new worktree, from the
/// caller's probes of the source and the destination.
pub fn link_item_plan(
    src_exists: bool,
    src_broken: bool,
    dest_exists: bool,
    dest_is_dir: bool,
) -> (r: LinkItemPlan)
    ensures
        r == link_item_plan_spec(src_exists, src_broken, dest_exists, dest_is_dir),
{
    if !src_exists {
        LinkItemPlan::SkipMissing
    } else if src_broken {
        LinkItemPlan::SkipBroken
    } else {
        LinkItemPlan::MakeLink {
            cleanup: if !dest_exists {
                DestCleanup::NothingThere
            } else if dest_is_dir {
                DestCleanup::RemoveDir
            } else {
                DestCleanup::RemoveFile
            },
        }
    }
}

/// The step planned for one tracked item when copying into a new worktree.
#[derive(Clone, Copy, PartialEq, Eq, Structural, Debug)]
pub enum CopyItemPlan {
    SkipMissing,
    MakeCopy,
}

/// The copying decision for one tracked item: an absent item is skipped with
/// a warning; an existing one is copied after its destination's parent
/// directory is ensured.
pub open spec fn copy_item_plan_spec(src_exists: bool) -> CopyItemPlan {
    if src_exists {
        CopyItemPlan::MakeCopy
    } else {
        CopyItemPlan::SkipMissing
    }
}

pub fn copy_item_plan(src_exists: bool) -> (r: CopyItemPlan)
    ensures
        r == copy_item_plan_spec(src_exists),
{
    if src_exists {
        CopyItemPlan::MakeCopy
    } else {
        CopyItemPlan::SkipMissing
    }
}

/// A creation-time link failure is a deliberate non-abort case: the planned
/// link is driven by the same write machine as a synchronization write in
/// link mode, so a symbolic link that cannot be created falls back to a copy
/// of the same item, a made link or a made copy completes the item, and only
/// a failed copy is an error.
pub proof fn lemma_creation_link_falls_back()
    ensures
        write_start_spec(false) == WriteAttempt::TryLink,
        write_next_spec(WriteAttempt::TryLink, false) == WriteAttempt::DoCopy,
        write_next_spec(WriteAttempt::TryLink, true) == WriteAttempt::Done,
        write_next_spec(WriteAttempt::DoCopy, true) == WriteAttempt::Done,
        write_next_spec(WriteAttempt::DoCopy, false) == WriteAttempt::Failed,
{
}

} // verus!
