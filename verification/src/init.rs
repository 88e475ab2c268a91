//! Deriving the initial tracked-item configuration from the ignore file.
//!
//! The ignore file's usable lines are offered one by one; the caller prompts
//! for each and reports the answers; the accepted lines, in encounter order,
//! become the configuration file's text.

use vstd::prelude::*;

use crate::config::{tracked_items_spec, trimmed_nonblank};
use crate::text::{
    append_chars, clone_chars, is_space_char, lemma_trim_fixed_point_edges, lines_acc, split_lines,
    split_lines_spec, strip_cr, trim, trim_spec,
};

verus! {

/// The lines offered for inclusion: each line trimmed, skipping blank lines
/// and lines starting with `'#'`, in file order.
pub open spec fn candidates_in(lines: Seq<Seq<char>>) -> Seq<Seq<char>>
    decreases lines.len(),
{
    if lines.len() == 0 {
        Seq::empty()
    } else {
        let rest = candidates_in(lines.drop_last());
        let t = trim_spec(lines.last());
        if t.len() == 0 || t[0] == '#' {
            rest
        } else {
            rest.push(t)
        }
    }
}

/// The candidate items of an ignore file's text.
pub open spec fn candidates_spec(content: Seq<char>) -> Seq<Seq<char>> {
    candidates_in(split_lines_spec(content))
}

/// The ignore file's candidate lines, in order.
pub fn ignore_candidates(content: &Vec<char>) -> (r: Vec<Vec<char>>)
    ensures
        r.deep_view() == candidates_spec(content@),
{
    let lines = split_lines(content);
    let nl: usize = lines.len();
    let mut out: Vec<Vec<char>> = Vec::new();
    let mut i: usize = 0;
    proof {
        assert(lines.deep_view().subrange(0, 0) =~= Seq::<Seq<char>>::empty());
        assert(out.deep_view() =~= candidates_in(lines.deep_view().subrange(0, 0)));
    }
    while i < nl
        invariant
            0 <= i <= nl,
            nl == lines@.len(),
            lines.deep_view() == split_lines_spec(content@),
            out.deep_view() == candidates_in(lines.deep_view().subrange(0, i as int)),
        decreases nl - i,
    {
        let t = trim(&lines[i]);
        let ghost prev = out.deep_view();
        let ghost tv = t@;
        let ghost dv = lines.deep_view();
        proof {
            assert((lines@[i as int]).deep_view() =~= (lines@[i as int])@);
            assert(dv[i as int] == (lines@[i as int]).deep_view());
            assert(dv.subrange(0, i + 1 as int).drop_last() =~= dv.subrange(0, i as int));
            assert(dv.subrange(0, i + 1 as int).last() == dv[i as int]);
            assert(tv == trim_spec(dv[i as int]));
        }
        if t.len() > 0 && t[0] != '#' {
            out.push(t);
            proof {
                assert(out.deep_view() =~~= prev.push(tv));
            }
        }
        i = i + 1;
    }
    proof {
        assert(lines.deep_view().subrange(0, nl as int) =~= lines.deep_view());
    }
    out
}

/// The candidates of the ignore file, or nothing where the file is absent:
/// unlike the tracked-item configuration, a missing ignore file is an error
/// to the initializer, which the caller reports.
pub fn init_candidates(content: Option<&Vec<char>>) -> (r: Option<Vec<Vec<char>>>)
    ensures
        r is Some <==> content is Some,
        content matches Some(c) ==> r->0.deep_view() == candidates_spec(c@),
{
    match content {
        Option::None => Option::None,
        Option::Some(c) => Option::Some(ignore_candidates(c)),
    }
}

/// An accepting answer to a prompt: the trimmed answer is a single `y`, in
/// either case.
pub open spec fn is_yes_spec(ans: Seq<char>) -> bool {
    trim_spec(ans).len() == 1 && (trim_spec(ans)[0] == 'y' || trim_spec(ans)[0] == 'Y')
}

pub fn is_yes(ans: &Vec<char>) -> (r: bool)
    ensures
        r == is_yes_spec(ans@),
{
    let t = trim(ans);
    t.len() == 1 && (t[0] == 'y' || t[0] == 'Y')
}

/// The candidates among the first `k` whose answers accept them, in order.
pub open spec fn selected_upto(cands: Seq<Seq<char>>, answers: Seq<Seq<char>>, k: int) -> Seq<
    Seq<char>,
>
    decreases k,
{
    if k <= 0 {
        Seq::empty()
    } else {
        let rest = selected_upto(cands, answers, k - 1);
        if is_yes_spec(answers[k - 1]) {
            rest.push(cands[k - 1])
        } else {
            rest
        }
    }
}

/// The candidates whose prompt answers accept them, in encounter order.
pub open spec fn selected_spec(cands: Seq<Seq<char>>, answers: Seq<Seq<char>>) -> Seq<Seq<char>> {
    selected_upto(cands, answers, cands.len() as int)
}

/// Keep the candidates whose answers, taken in the same order, are
/// accepting.
pub fn select_items(cands: &Vec<Vec<char>>, answers: &Vec<Vec<char>>) -> (r: Vec<Vec<char>>)
    requires
        cands@.len() == answers@.len(),
    ensures
        r.deep_view() == selected_spec(cands.deep_view(), answers.deep_view()),
{
    let n: usize = cands.len();
    let ghost dc = cands.deep_view();
    let ghost da = answers.deep_view();
    let mut out: Vec<Vec<char>> = Vec::new();
    let mut i: usize = 0;
    proof {
        assert(out.deep_view() =~= selected_upto(dc, da, 0));
    }
    while i < n
        invariant
            0 <= i <= n,
            n == cands@.len() == answers@.len(),
            dc == cands.deep_view(),
            da == answers.deep_view(),
            out.deep_view() == selected_upto(dc, da, i as int),
        decreases n - i,
    {
        let ghost prev = out.deep_view();
        proof {
            assert((answers@[i as int]).deep_view() =~= (answers@[i as int])@);
            assert(da[i as int] == (answers@[i as int]).deep_view());
            assert((cands@[i as int]).deep_view() =~= (cands@[i as int])@);
            assert(dc[i as int] == (cands@[i as int]).deep_view());
        }
        if is_yes(&answers[i]) {
            let item = clone_chars(&cands[i]);
            let ghost iv = item@;
            out.push(item);
            proof {
                assert(out.deep_view() =~~= prev.push(iv));
            }
        }
        i = i + 1;
    }
    out
}

/// The configuration text written for the selected items: the items joined
/// by line feeds, with one final line feed.
pub open spec fn config_text_spec(items: Seq<Seq<char>>) -> Seq<char>
    decreases items.len(),
{
    if items.len() == 0 {
        seq!['\n']
    } else if items.len() == 1 {
        items[0] + seq!['\n']
    } else {
        config_text_spec(items.drop_last()) + items.last() + seq!['\n']
    }
}

/// Render the selected items as the configuration file's text.
pub fn config_text(items: &Vec<Vec<char>>) -> (r: Vec<char>)
    ensures
        r@ == config_text_spec(items.deep_view()),
{
    let n: usize = items.len();
    let ghost dv = items.deep_view();
    if n == 0 {
        let mut r: Vec<char> = Vec::new();
        r.push('\n');
        proof {
            assert(r@ =~= seq!['\n']);
        }
        return r;
    }
    let mut out: Vec<char> = Vec::new();
    let mut i: usize = 0;
    while i < n
        invariant
            0 <= i <= n,
            0 < n == items@.len(),
            dv == items.deep_view(),
            i == 0 ==> out@ == Seq::<char>::empty(),
            i > 0 ==> out@ == config_text_spec(dv.subrange(0, i as int)),
        decreases n - i,
    {
        let ghost prev = out@;
        append_chars(&mut out, &items[i]);
        out.push('\n');
        proof {
            assert((items@[i as int]).deep_view() =~= (items@[i as int])@);
            assert(dv[i as int] == (items@[i as int]).deep_view());
            assert(out@ =~= prev + dv[i as int] + seq!['\n']);
            if i == 0 {
                assert(dv.subrange(0, 1).len() == 1);
                assert(dv.subrange(0, 1)[0] == dv[0]);
                assert(out@ =~= dv.subrange(0, 1)[0] + seq!['\n']);
            } else {
                assert(dv.subrange(0, i + 1 as int).drop_last() =~= dv.subrange(0, i as int));
                assert(dv.subrange(0, i + 1 as int).last() == dv[i as int]);
                assert(dv.subrange(0, i + 1 as int).len() >= 2);
            }
        }
        i = i + 1;
    }
    proof {
        assert(dv.subrange(0, n as int) =~= dv);
    }
    out
}

proof fn lemma_acc_shift(prefix: Seq<char>, rest: Seq<char>, j: int, cur: Seq<char>)
    requires
        0 <= j <= rest.len(),
    ensures
        lines_acc(prefix + rest, prefix.len() + j, cur) == lines_acc(rest, j, cur),
    decreases rest.len() - j,
{
    let full = prefix + rest;
    if j < rest.len() {
        assert(full[prefix.len() + j] == rest[j]);
        if rest[j] == '\n' {
            lemma_acc_shift(prefix, rest, j + 1, Seq::empty());
        } else {
            lemma_acc_shift(prefix, rest, j + 1, cur.push(rest[j]));
        }
    }
}

proof fn lemma_acc_item(item: Seq<char>, rest: Seq<char>, j: int)
    requires
        0 <= j <= item.len(),
        forall|k: int| 0 <= k < item.len() ==> item[k] != '\n',
        item.len() > 0 ==> item[item.len() - 1] != '\r',
    ensures
        lines_acc(item + seq!['\n'] + rest, j, item.subrange(0, j)) == seq![item] + lines_acc(
            rest,
            0,
            Seq::empty(),
        ),
    decreases item.len() - j,
{
    let full = item + seq!['\n'] + rest;
    if j == item.len() {
        assert(full[j] == '\n');
        assert(item.subrange(0, j) =~= item);
        assert(strip_cr(item) == item);
        assert((item + seq!['\n']).len() == j + 1);
        lemma_acc_shift(item + seq!['\n'], rest, 0, Seq::empty());
        assert(lines_acc(full, j + 1, Seq::empty()) == lines_acc(rest, 0, Seq::empty()));
    } else {
        assert(full[j] == item[j]);
        assert(item[j] != '\n');
        assert(item.subrange(0, j).push(item[j]) =~= item.subrange(0, j + 1));
        lemma_acc_item(item, rest, j + 1);
    }
}

proof fn lemma_trimmed_nonblank_concat(a: Seq<Seq<char>>, b: Seq<Seq<char>>)
    ensures
        trimmed_nonblank(a + b) == trimmed_nonblank(a) + trimmed_nonblank(b),
    decreases b.len(),
{
    if b.len() == 0 {
        assert(a + b =~= a);
        assert(trimmed_nonblank(a) + trimmed_nonblank(b) =~= trimmed_nonblank(a));
    } else {
        assert((a + b).drop_last() =~= a + b.drop_last());
        assert((a + b).last() == b.last());
        lemma_trimmed_nonblank_concat(a, b.drop_last());
        if trim_spec(b.last()).len() != 0 {
            assert((trimmed_nonblank(a) + trimmed_nonblank(b.drop_last())).push(
                trim_spec(b.last()),
            ) =~= trimmed_nonblank(a) + trimmed_nonblank(b.drop_last()).push(trim_spec(b.last())));
        }
    }
}

proof fn lemma_config_text_front(items: Seq<Seq<char>>)
    requires
        items.len() >= 1,
    ensures
        items.len() == 1 ==> config_text_spec(items) == items.first() + seq!['\n'],
        items.len() >= 2 ==> config_text_spec(items) == items.first() + seq!['\n']
            + config_text_spec(items.drop_first()),
    decreases items.len(),
{
    if items.len() == 2 {
        assert(items.drop_last().len() == 1);
        assert(items.drop_last()[0] == items.first());
        assert(items.drop_first().len() == 1);
        assert(items.drop_first()[0] == items[1]);
        assert(items.last() == items[1]);
        assert(config_text_spec(items.drop_last()) == items.first() + seq!['\n']);
        assert(config_text_spec(items.drop_first()) == items[1] + seq!['\n']);
        assert(config_text_spec(items) == (items.first() + seq!['\n']) + items.last()
            + seq!['\n']);
        assert((items.first() + seq!['\n']) + items[1] + seq!['\n'] =~= items.first() + seq!['\n']
            + (items[1] + seq!['\n']));
    } else if items.len() >= 3 {
        lemma_config_text_front(items.drop_last());
        assert(items.drop_last().first() == items.first());
        assert(items.drop_last().drop_first() =~= items.drop_first().drop_last());
        assert(items.drop_first().last() == items.last());
        assert(items.drop_first().len() >= 2);
        let mid = config_text_spec(items.drop_first().drop_last());
        assert(config_text_spec(items) == config_text_spec(items.drop_last()) + items.last()
            + seq!['\n']);
        assert(config_text_spec(items.drop_last()) == items.first() + seq!['\n']
            + config_text_spec(items.drop_last().drop_first()));
        assert(config_text_spec(items.drop_last().drop_first()) == mid);
        assert(config_text_spec(items.drop_first()) == mid + items.last() + seq!['\n']);
        assert((items.first() + seq!['\n'] + mid) + items.last() + seq!['\n'] =~= items.first()
            + seq!['\n'] + (mid + items.last() + seq!['\n']));
    }
}

/// Writing the selected items as the configuration text and reading it back
/// yields exactly the same items: for items as the selection produces them —
/// trimmed, non-blank and free of line feeds — the configuration reader is a
/// left inverse of the configuration writer.
pub proof fn lemma_config_round_trip(items: Seq<Seq<char>>)
    requires
        forall|x: int| 0 <= x < items.len() ==> trim_spec(#[trigger] items[x]) == items[x],
        forall|x: int| 0 <= x < items.len() ==> (#[trigger] items[x]).len() > 0,
        forall|x: int, k: int|
            0 <= x < items.len() && 0 <= k < items[x].len() ==> #[trigger] items[x][k] != '\n',
    ensures
        tracked_items_spec(config_text_spec(items)) == items,
    decreases items.len(),
{
    if items.len() == 0 {
        let text = config_text_spec(items);
        assert(text == seq!['\n']);
        assert(text[0] == '\n');
        assert(lines_acc(text, 1, Seq::<char>::empty()) =~= Seq::<Seq<char>>::empty());
        assert(strip_cr(Seq::<char>::empty()) =~= Seq::<char>::empty());
        assert(lines_acc(text, 0, Seq::<char>::empty()) =~= seq![Seq::<char>::empty()]
            + lines_acc(text, 1, Seq::<char>::empty()));
        assert(split_lines_spec(text) =~= seq![Seq::<char>::empty()]);
        assert(trim_spec(Seq::<char>::empty()).len() == 0);
        assert(seq![Seq::<char>::empty()].drop_last() =~= Seq::<Seq<char>>::empty());
        assert(trimmed_nonblank(Seq::<Seq<char>>::empty()) =~= Seq::<Seq<char>>::empty());
        assert(trimmed_nonblank(seq![Seq::<char>::empty()]) =~= Seq::<Seq<char>>::empty());
        assert(tracked_items_spec(text) =~= items);
    } else {
        let first = items.first();
        assert(trim_spec(first) == first && first.len() > 0);
        lemma_trim_fixed_point_edges(first);
        assert(is_space_char('\r'));
        assert(first[first.len() - 1] != '\r');
        assert(forall|k: int| 0 <= k < first.len() ==> first[k] != '\n');
        lemma_config_text_front(items);
        let tail: Seq<char> = if items.len() == 1 {
            Seq::empty()
        } else {
            config_text_spec(items.drop_first())
        };
        let text = config_text_spec(items);
        assert(text =~= first + seq!['\n'] + tail);
        assert(first.subrange(0, 0) =~= Seq::<char>::empty());
        lemma_acc_item(first, tail, 0);
        assert(split_lines_spec(text) == seq![first] + split_lines_spec(tail));
        lemma_trimmed_nonblank_concat(seq![first], split_lines_spec(tail));
        assert(seq![first].drop_last() =~= Seq::<Seq<char>>::empty());
        assert(seq![first].last() == first);
        assert(trimmed_nonblank(Seq::<Seq<char>>::empty()) =~= Seq::<Seq<char>>::empty());
        assert(trim_spec(first).len() != 0);
        assert(trimmed_nonblank(seq![first]) =~= Seq::<Seq<char>>::empty().push(first));
        assert(trimmed_nonblank(seq![first]) =~= seq![first]);
        if items.len() == 1 {
            assert(split_lines_spec(Seq::<char>::empty()) =~= Seq::<Seq<char>>::empty());
            assert(tracked_items_spec(text) =~= seq![first]);
            assert(seq![first] =~= items);
        } else {
            let rest = items.drop_first();
            assert forall|x: int| 0 <= x < rest.len() implies trim_spec(#[trigger] rest[x])
                == rest[x] && rest[x].len() > 0 by {
                assert(rest[x] == items[x + 1]);
            }
            assert forall|x: int, k: int|
                0 <= x < rest.len() && 0 <= k < rest[x].len() implies #[trigger] rest[x][k]
                != '\n' by {
                assert(rest[x] == items[x + 1]);
            }
            lemma_config_round_trip(rest);
            assert(tracked_items_spec(text) =~= seq![first] + rest);
            assert(seq![first] + rest =~= items);
        }
    }
}

} // verus!
