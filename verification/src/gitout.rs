//! Reading the version-control commands' output and classifying their
//! failures.
//!
//! The caller runs the commands and hands their captured output over as
//! character vectors; everything here is the parsing and the decisions the
//! tool takes on that text.

use vstd::prelude::*;

use crate::text::{
    chars_eq, chars_of, contains_seq, find_from, find_from_spec, has_prefix, has_prefix_spec,
    has_substring, lemma_find_from, lemma_trim_is_infix, split_lines, split_lines_spec,
    subrange_vec, trim, trim_spec, trim_start_idx,
};

verus! {

/// The marker of a path line in the machine-readable worktree listing.
pub open spec fn worktree_marker() -> Seq<char> {
    "worktree "@
}

/// The paths among the listing's lines: what follows the marker on each line
/// that carries it, in listing order.
pub open spec fn worktree_paths_in(lines: Seq<Seq<char>>) -> Seq<Seq<char>>
    decreases lines.len(),
{
    if lines.len() == 0 {
        Seq::empty()
    } else {
        let rest = worktree_paths_in(lines.drop_last());
        let l = lines.last();
        if has_prefix_spec(l, worktree_marker()) {
            rest.push(l.subrange(worktree_marker().len() as int, l.len() as int))
        } else {
            rest
        }
    }
}

/// The worktree paths named by a machine-readable worktree listing.
pub open spec fn worktree_paths_spec(listing: Seq<char>) -> Seq<Seq<char>> {
    worktree_paths_in(split_lines_spec(listing))
}

/// Parse the machine-readable worktree listing into its worktree paths, in
/// discovery order.
pub fn get_worktrees(listing: &Vec<char>) -> (r: Vec<Vec<char>>)
    ensures
        r.deep_view() == worktree_paths_spec(listing@),
{
    let marker = chars_of("worktree ");
    let lines = split_lines(listing);
    let nl: usize = lines.len();
    let mut out: Vec<Vec<char>> = Vec::new();
    let mut i: usize = 0;
    proof {
        assert(lines.deep_view().subrange(0, 0) =~= Seq::<Seq<char>>::empty());
        assert(out.deep_view() =~= worktree_paths_in(lines.deep_view().subrange(0, 0)));
    }
    while i < nl
        invariant
            0 <= i <= nl,
            nl == lines@.len(),
            marker@ == worktree_marker(),
            lines.deep_view() == split_lines_spec(listing@),
            out.deep_view() == worktree_paths_in(lines.deep_view().subrange(0, i as int)),
        decreases nl - i,
    {
        let line = &lines[i];
        let ghost dv = lines.deep_view();
        let ghost prev = out.deep_view();
        proof {
            assert((lines@[i as int]).deep_view() =~= (lines@[i as int])@);
            assert(dv[i as int] == (lines@[i as int]).deep_view());
            assert(dv.subrange(0, i + 1 as int).drop_last() =~= dv.subrange(0, i as int));
            assert(dv.subrange(0, i + 1 as int).last() == dv[i as int]);
        }
        if has_prefix(line, &marker) {
            let tail = subrange_vec(line, marker.len(), line.len());
            let ghost tv = tail@;
            out.push(tail);
            proof {
                assert(out.deep_view() =~~= prev.push(tv));
            }
        }
        i = i + 1;
    }
    proof {
        assert(lines.deep_view().subrange(0, nl as int) =~= lines.deep_view());
    }
    out
}

/// The marker of the default-branch line in the remote's description.
pub open spec fn head_marker() -> Seq<char> {
    "HEAD branch:"@
}

/// The branch a single description line names: for a line whose trimmed text
/// begins with the marker, the trimmed text between the line's first colon
/// and its second colon (or end).
pub open spec fn head_branch_in_line(l: Seq<char>) -> Option<Seq<char>> {
    if has_prefix_spec(trim_spec(l), head_marker()) {
        let c1 = find_from_spec(l, ':', 0);
        let c2 = find_from_spec(l, ':', c1 + 1);
        Option::Some(trim_spec(l.subrange(c1 + 1, c2)))
    } else {
        Option::None
    }
}

fn head_branch_line(l: &Vec<char>) -> (r: Option<Vec<char>>)
    ensures
        r.deep_view() == head_branch_in_line(l@),
{
    let marker = chars_of("HEAD branch:");
    let t = trim(l);
    if !has_prefix(&t, &marker) {
        return Option::None;
    }
    proof {
        reveal_strlit("HEAD branch:");
        lemma_trim_is_infix(l@);
        let a = trim_start_idx(l@);
        let t0 = trim_spec(l@);
        assert(t0.subrange(0, head_marker().len() as int)[11] == t0[11]);
        assert(t0[11] == ':');
        assert(l@.subrange(a, a + t0.len())[11] == l@[a + 11]);
        assert(l@[a + 11] == ':');
        lemma_find_from(l@, ':', 0);
        if find_from_spec(l@, ':', 0) == l@.len() {
            assert(l@[a + 11] != ':');
            assert(false);
        }
        assert(find_from_spec(l@, ':', 0) < l@.len());
    }
    let ln: usize = l.len();
    let c1 = find_from(l, ':', 0);
    proof {
        assert(c1 < ln);
        lemma_find_from(l@, ':', c1 + 1);
    }
    let c2 = find_from(l, ':', c1 + 1);
    let between = subrange_vec(l, c1 + 1, c2);
    let picked = trim(&between);
    let ghost pv = picked@;
    let r = Option::Some(picked);
    proof {
        assert(r->0.deep_view() =~= pv);
    }
    r
}

/// The default branch the remote's description names: the branch of the first
/// line carrying the marker, if any.
pub open spec fn first_head_branch(lines: Seq<Seq<char>>) -> Option<Seq<char>>
    decreases lines.len(),
{
    if lines.len() == 0 {
        Option::None
    } else if head_branch_in_line(lines.first()) is Some {
        head_branch_in_line(lines.first())
    } else {
        first_head_branch(lines.drop_first())
    }
}

pub open spec fn head_branch_spec(out: Seq<char>) -> Option<Seq<char>> {
    first_head_branch(split_lines_spec(out))
}

proof fn lemma_first_head_skip(lines: Seq<Seq<char>>, i: int)
    requires
        0 <= i <= lines.len(),
        forall|j: int| 0 <= j < i ==> head_branch_in_line(#[trigger] lines[j]) is None,
    ensures
        first_head_branch(lines) == first_head_branch(lines.subrange(i, lines.len() as int)),
    decreases i,
{
    if i > 0 {
        lemma_first_head_skip(lines, i - 1);
        let t = lines.subrange(i - 1, lines.len() as int);
        assert(t.len() > 0);
        assert(t.first() == lines[i - 1]);
        assert(head_branch_in_line(t.first()) is None);
        assert(first_head_branch(t) == first_head_branch(t.drop_first()));
        assert(t.drop_first() =~= lines.subrange(i, lines.len() as int));
    } else {
        assert(lines.subrange(0, lines.len() as int) =~= lines);
    }
}

/// Parse the remote's description for the branch its HEAD names, as the
/// first marker line reports it.
pub fn head_branch_from_remote_show(out: &Vec<char>) -> (r: Option<Vec<char>>)
    ensures
        r.deep_view() == head_branch_spec(out@),
{
    let lines = split_lines(out);
    let nl: usize = lines.len();
    let mut i: usize = 0;
    while i < nl
        invariant
            0 <= i <= nl,
            nl == lines@.len(),
            lines.deep_view() == split_lines_spec(out@),
            forall|j: int|
                0 <= j < i ==> head_branch_in_line(
                    #[trigger] lines.deep_view()[j],
                ) is None,
        decreases nl - i,
    {
        let ghost dv = lines.deep_view();
        proof {
            assert((lines@[i as int]).deep_view() =~= (lines@[i as int])@);
            assert(dv[i as int] == (lines@[i as int]).deep_view());
        }
        let found = head_branch_line(&lines[i]);
        match found {
            Option::Some(v) => {
                proof {
                    lemma_first_head_skip(dv, i as int);
                    let rest = dv.subrange(i as int, nl as int);
                    assert(rest.first() == dv[i as int]);
                }
                return Option::Some(v);
            },
            Option::None => {},
        }
        i = i + 1;
    }
    proof {
        lemma_first_head_skip(lines.deep_view(), nl as int);
        assert(lines.deep_view().subrange(nl as int, nl as int) =~= Seq::<Seq<char>>::empty());
    }
    Option::None
}

/// The default branch decision: the branch the remote's HEAD names where the
/// description gives one; otherwise the first of the common fallbacks, `main`
/// then `master`, that exists among the remote's refs; otherwise nothing.
pub open spec fn default_branch_spec(
    head: Option<Seq<char>>,
    main_exists: bool,
    master_exists: bool,
) -> Option<Seq<char>> {
    match head {
        Option::Some(h) => Option::Some(h),
        Option::None => if main_exists {
            Option::Some("main"@)
        } else if master_exists {
            Option::Some("master"@)
        } else {
            Option::None
        },
    }
}

/// Resolve the default branch from the remote description's HEAD line and the
/// probes of the two common fallback refs.  `None` means the branch cannot be
/// determined, which the caller reports as an error.
pub fn get_default_branch(head: Option<Vec<char>>, main_exists: bool, master_exists: bool) -> (r:
    Option<Vec<char>>)
    ensures
        r.deep_view() == default_branch_spec(head.deep_view(), main_exists, master_exists),
{
    match head {
        Option::Some(h) => Option::Some(h),
        Option::None => {
            if main_exists {
                Option::Some(chars_of("main"))
            } else if master_exists {
                Option::Some(chars_of("master"))
            } else {
                Option::None
            }
        },
    }
}

/// A refs listing (one ref name per line) names `branch`: the branch is a
/// member of the listed ref set, that is, equal to one whole line.
pub open spec fn ref_listed_spec(listing: Seq<char>, branch: Seq<char>) -> bool {
    split_lines_spec(listing).contains(branch)
}

/// Whether one of the listing's lines is exactly `branch`.
pub fn listing_names_branch(listing: &Vec<char>, branch: &Vec<char>) -> (r: bool)
    ensures
        r == ref_listed_spec(listing@, branch@),
{
    let lines = split_lines(listing);
    let nl: usize = lines.len();
    let ghost dv = lines.deep_view();
    let mut i: usize = 0;
    while i < nl
        invariant
            0 <= i <= nl,
            nl == lines@.len(),
            dv == lines.deep_view(),
            dv == split_lines_spec(listing@),
            forall|j: int| 0 <= j < i ==> dv[j] != branch@,
        decreases nl - i,
    {
        proof {
            assert((lines@[i as int]).deep_view() =~= (lines@[i as int])@);
            assert(dv[i as int] == (lines@[i as int]).deep_view());
        }
        if chars_eq(&lines[i], branch) {
            proof {
                assert(dv[i as int] == branch@);
                assert(dv.contains(branch@));
            }
            return true;
        }
        i = i + 1;
    }
    proof {
        if dv.contains(branch@) {
            let w = choose|w: int| 0 <= w < dv.len() && dv[w] == branch@;
            assert(dv[w] != branch@);
        }
    }
    false
}

/// A new worktree attaches to an existing branch exactly when the branch is
/// in the local ref set or in the remote ref set — equal to one line of the
/// respective listing, never a mere substring of it; otherwise the branch is
/// created anew at the worktree.
pub open spec fn attaches_spec(
    local_refs: Seq<char>,
    remote_refs: Seq<char>,
    branch: Seq<char>,
) -> bool {
    ref_listed_spec(local_refs, branch) || ref_listed_spec(remote_refs, branch)
}

/// Decide whether creating a worktree for `branch` attaches to an existing
/// branch, from the local and remote refs listings.
pub fn create_worktree_attaches(
    local_refs: &Vec<char>,
    remote_refs: &Vec<char>,
    branch: &Vec<char>,
) -> (r: bool)
    ensures
        r == attaches_spec(local_refs@, remote_refs@, branch@),
{
    if listing_names_branch(local_refs, branch) {
        true
    } else {
        listing_names_branch(remote_refs, branch)
    }
}

/// The distinct wording by which branch deletion reports an unmerged branch.
pub open spec fn not_merged_marker() -> Seq<char> {
    "is not fully merged"@
}

/// How a branch deletion ended.
#[derive(Clone, Copy, PartialEq, Eq, Structural, Debug)]
pub enum DeleteBranchOutcome {
    Deleted,
    NotFullyMerged,
    DeleteFailed,
}

/// The deletion outcome: success deletes; a failure whose error text carries
/// the unmerged wording is the distinct not-fully-merged outcome; any other
/// failure is a generic one.
pub open spec fn delete_branch_outcome_spec(
    success: bool,
    stderr: Seq<char>,
) -> DeleteBranchOutcome {
    if success {
        DeleteBranchOutcome::Deleted
    } else if contains_seq(stderr, not_merged_marker()) {
        DeleteBranchOutcome::NotFullyMerged
    } else {
        DeleteBranchOutcome::DeleteFailed
    }
}

/// Classify a branch deletion from its exit status and captured error text.
pub fn delete_branch_outcome(success: bool, stderr: &Vec<char>) -> (r: DeleteBranchOutcome)
    ensures
        r == delete_branch_outcome_spec(success, stderr@),
{
    if success {
        DeleteBranchOutcome::Deleted
    } else {
        let marker = chars_of("is not fully merged");
        if has_substring(stderr, &marker) {
            DeleteBranchOutcome::NotFullyMerged
        } else {
            DeleteBranchOutcome::DeleteFailed
        }
    }
}

/// The wording by which a pull on a branch without an upstream fails.
pub open spec fn no_upstream_marker() -> Seq<char> {
    "There is no tracking information for the current branch."@
}

/// A failed pull is reported with a warning unless its error text is the
/// no-upstream notice; either way the pull never aborts the calling workflow.
pub open spec fn pull_warns_spec(success: bool, stderr: Seq<char>) -> bool {
    !success && !contains_seq(stderr, no_upstream_marker())
}

/// Decide whether a pull's result deserves a warning.
pub fn pull_warns(success: bool, stderr: &Vec<char>) -> (r: bool)
    ensures
        r == pull_warns_spec(success, stderr@),
{
    if success {
        false
    } else {
        let marker = chars_of("There is no tracking information for the current branch.");
        !has_substring(stderr, &marker)
    }
}

/// The working tree has uncommitted changes exactly when the short status
/// output is non-empty.
pub fn branch_has_changes(status_output: &Vec<char>) -> (r: bool)
    ensures
        r == (status_output@.len() != 0),
{
    status_output.len() != 0
}

} // verus!
