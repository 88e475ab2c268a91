//! The tracked-item configuration: one path per non-blank line of a plain
//! text file at the repository root.
//!
//! The caller reads the file (if it exists) and hands the text over; a missing
//! file is handed over as `None` and yields the empty item list rather than an
//! error.

use vstd::prelude::*;

use crate::text::{split_lines, split_lines_spec, trim, trim_spec};

verus! {

/// The trimmed, non-blank lines, in order.
pub open spec fn trimmed_nonblank(lines: Seq<Seq<char>>) -> Seq<Seq<char>>
    decreases lines.len(),
{
    if lines.len() == 0 {
        Seq::empty()
    } else {
        let rest = trimmed_nonblank(lines.drop_last());
        let t = trim_spec(lines.last());
        if t.len() == 0 {
            rest
        } else {
            rest.push(t)
        }
    }
}

/// The tracked items of a configuration text: its lines, each trimmed, with
/// blank lines discarded, in file order.
pub open spec fn tracked_items_spec(content: Seq<char>) -> Seq<Seq<char>> {
    trimmed_nonblank(split_lines_spec(content))
}

/// Parse a configuration text into its tracked items.
pub fn parse_tracked_items(content: &Vec<char>) -> (r: Vec<Vec<char>>)
    ensures
        r.deep_view() == tracked_items_spec(content@),
{
    let lines = split_lines(content);
    let nl: usize = lines.len();
    let mut out: Vec<Vec<char>> = Vec::new();
    let mut i: usize = 0;
    proof {
        assert(lines.deep_view().subrange(0, 0) =~= Seq::<Seq<char>>::empty());
        assert(out.deep_view() =~= trimmed_nonblank(lines.deep_view().subrange(0, 0)));
    }
    while i < nl
        invariant
            0 <= i <= nl,
            nl == lines@.len(),
            lines.deep_view() == split_lines_spec(content@),
            out.deep_view() == trimmed_nonblank(lines.deep_view().subrange(0, i as int)),
        decreases nl - i,
    {
        let t = trim(&lines[i]);
        let ghost prev = out.deep_view();
        let ghost tv = t@;
        let ghost dv = lines.deep_view();
        proof {
            assert((lines@[i as int]).deep_view() =~= (lines@[i as int])@);
            assert(dv[i as int] == (lines@[i as int]).deep_view());
            assert(dv.subrange(0, i + 1 as int).drop_last() =~= dv.subrange(0, i as int));
            assert(dv.subrange(0, i + 1 as int).last() == dv[i as int]);
            assert(tv == trim_spec(dv[i as int]));
        }
        if t.len() > 0 {
            out.push(t);
            proof {
                assert(out.deep_view() =~~= prev.push(tv));
            }
        }
        i = i + 1;
    }
    proof {
        assert(lines.deep_view().subrange(0, nl as int) =~= lines.deep_view());
    }
    out
}

/// The tracked items of the repository, given the configuration file's text,
/// or `None` where the file does not exist.  A missing file yields the empty
/// item list; it is never an error.
pub fn get_files_from_config(content: Option<&Vec<char>>) -> (r: Vec<Vec<char>>)
    ensures
        content is None ==> r.deep_view() == Seq::<Seq<char>>::empty(),
        content matches Some(c) ==> r.deep_view() == tracked_items_spec(c@),
{
    match content {
        None => {
            let r: Vec<Vec<char>> = Vec::new();
            proof {
                assert(r.deep_view() =~= Seq::<Seq<char>>::empty());
            }
            r
        },
        Some(c) => parse_tracked_items(c),
    }
}

/// Filtering the lines removes exactly the blank ones: inserting a blank line
/// anywhere leaves the tracked items unchanged.
pub proof fn lemma_blank_line_removed(lines: Seq<Seq<char>>, i: int, blank: Seq<char>)
    requires
        0 <= i <= lines.len(),
        trim_spec(blank).len() == 0,
    ensures
        trimmed_nonblank(lines.insert(i, blank)) == trimmed_nonblank(lines),
    decreases lines.len(),
{
    let grown = lines.insert(i, blank);
    if i == lines.len() {
        assert(grown.drop_last() =~= lines);
        assert(grown.last() == blank);
    } else {
        assert(grown.last() == lines.last());
        assert(grown.drop_last() =~= lines.drop_last().insert(i, blank));
        lemma_blank_line_removed(lines.drop_last(), i, blank);
    }
}

/// Filtering the lines keeps every non-blank line, trimmed, in its original
/// order.
pub proof fn lemma_no_blanks_kept(lines: Seq<Seq<char>>)
    requires
        forall|k: int| 0 <= k < lines.len() ==> trim_spec(#[trigger] lines[k]).len() != 0,
    ensures
        trimmed_nonblank(lines) == lines.map_values(|l: Seq<char>| trim_spec(l)),
    decreases lines.len(),
{
    let f = |l: Seq<char>| trim_spec(l);
    if lines.len() == 0 {
        assert(trimmed_nonblank(lines) =~= lines.map_values(f));
    } else {
        lemma_no_blanks_kept(lines.drop_last());
        assert(trim_spec(lines.last()).len() != 0);
        assert(lines.map_values(f) =~= lines.drop_last().map_values(f).push(
            trim_spec(lines.last()),
        ));
    }
}

} // verus!
