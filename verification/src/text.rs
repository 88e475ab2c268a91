//! Character-sequence primitives shared by the parsing and planning modules.
//!
//! Strings are handled as `Vec<char>` with `Seq<char>` views, so that each
//! operation (trimming, searching, splitting) carries an exact contract.

use vstd::prelude::*;
use vstd::string::StrSliceExecFns;

verus! {

/// ASCII whitespace, the characters stripped from the ends of a line.
pub open spec fn is_space_char(c: char) -> bool {
    c == ' ' || c == '\t' || c == '\r' || c == '\n' || c == '\u{b}' || c == '\u{c}'
}

pub fn is_space(c: char) -> (r: bool)
    ensures
        r == is_space_char(c),
{
    c == ' ' || c == '\t' || c == '\r' || c == '\n' || c == '\u{b}' || c == '\u{c}'
}

/// The sequence with leading whitespace removed.
pub open spec fn trim_start_spec(s: Seq<char>) -> Seq<char>
    decreases s.len(),
{
    if s.len() > 0 && is_space_char(s[0]) {
        trim_start_spec(s.drop_first())
    } else {
        s
    }
}

/// The sequence with trailing whitespace removed.
pub open spec fn trim_end_spec(s: Seq<char>) -> Seq<char>
    decreases s.len(),
{
    if s.len() > 0 && is_space_char(s[s.len() - 1]) {
        trim_end_spec(s.drop_last())
    } else {
        s
    }
}

/// The sequence with whitespace removed from both ends.
pub open spec fn trim_spec(s: Seq<char>) -> Seq<char> {
    trim_end_spec(trim_start_spec(s))
}

proof fn lemma_trim_start_range(s: Seq<char>, a: int)
    requires
        0 <= a <= s.len(),
        forall|k: int| 0 <= k < a ==> is_space_char(s[k]),
        a < s.len() ==> !is_space_char(s[a]),
    ensures
        trim_start_spec(s) == s.subrange(a, s.len() as int),
    decreases a,
{
    if a == 0 {
        assert(s.subrange(0, s.len() as int) =~= s);
    } else {
        assert(is_space_char(s[0]));
        lemma_trim_start_range(s.drop_first(), a - 1);
        assert(s.drop_first().subrange(a - 1, s.drop_first().len() as int) =~= s.subrange(
            a,
            s.len() as int,
        ));
    }
}

proof fn lemma_trim_end_range(s: Seq<char>, b: int)
    requires
        0 <= b <= s.len(),
        forall|k: int| b <= k < s.len() ==> is_space_char(s[k]),
        b > 0 ==> !is_space_char(s[b - 1]),
    ensures
        trim_end_spec(s) == s.subrange(0, b),
    decreases s.len(),
{
    if b == s.len() {
        if s.len() > 0 && is_space_char(s[s.len() - 1]) {
            assert(!is_space_char(s[b - 1]));
        }
        assert(s.subrange(0, s.len() as int) =~= s);
    } else {
        assert(is_space_char(s[s.len() - 1]));
        lemma_trim_end_range(s.drop_last(), b);
        assert(s.drop_last().subrange(0, b) =~= s.subrange(0, b));
    }
}

/// Number of leading whitespace characters.
pub open spec fn trim_start_idx(s: Seq<char>) -> int
    decreases s.len(),
{
    if s.len() > 0 && is_space_char(s[0]) {
        1 + trim_start_idx(s.drop_first())
    } else {
        0
    }
}

/// Length left once trailing whitespace is dropped.
pub open spec fn trim_end_len(s: Seq<char>) -> int
    decreases s.len(),
{
    if s.len() > 0 && is_space_char(s[s.len() - 1]) {
        trim_end_len(s.drop_last())
    } else {
        s.len() as int
    }
}

proof fn lemma_trim_start_is_suffix(s: Seq<char>)
    ensures
        0 <= trim_start_idx(s) <= s.len(),
        trim_start_spec(s) == s.subrange(trim_start_idx(s), s.len() as int),
    decreases s.len(),
{
    if s.len() > 0 && is_space_char(s[0]) {
        lemma_trim_start_is_suffix(s.drop_first());
        let a0 = trim_start_idx(s.drop_first());
        assert(s.drop_first().subrange(a0, s.drop_first().len() as int) =~= s.subrange(
            a0 + 1,
            s.len() as int,
        ));
    } else {
        assert(s.subrange(0, s.len() as int) =~= s);
    }
}

proof fn lemma_trim_end_is_prefix(s: Seq<char>)
    ensures
        0 <= trim_end_len(s) <= s.len(),
        trim_end_spec(s) == s.subrange(0, trim_end_len(s)),
    decreases s.len(),
{
    if s.len() > 0 && is_space_char(s[s.len() - 1]) {
        lemma_trim_end_is_prefix(s.drop_last());
        let b0 = trim_end_len(s.drop_last());
        assert(s.drop_last().subrange(0, b0) =~= s.subrange(0, b0));
    } else {
        assert(s.subrange(0, s.len() as int) =~= s);
    }
}

/// A sequence that trimming leaves unchanged has no whitespace at either
/// end.
pub proof fn lemma_trim_fixed_point_edges(s: Seq<char>)
    requires
        trim_spec(s) == s,
        s.len() > 0,
    ensures
        !is_space_char(s[0]),
        !is_space_char(s[s.len() - 1]),
{
    lemma_trim_start_is_suffix(s);
    let a = trim_start_idx(s);
    let t = s.subrange(a, s.len() as int);
    lemma_trim_end_is_prefix(t);
    let b = trim_end_len(t);
    assert(trim_spec(s).len() == b);
    assert(b <= s.len() - a);
    assert(a == 0);
    if is_space_char(s[0]) {
        lemma_trim_start_is_suffix(s.drop_first());
        assert(trim_start_idx(s) == 1 + trim_start_idx(s.drop_first()));
        assert(false);
    }
    assert(t =~= s);
    assert(trim_end_len(s) == s.len());
    if is_space_char(s[s.len() - 1]) {
        lemma_trim_end_is_prefix(s.drop_last());
        assert(trim_end_len(s) == trim_end_len(s.drop_last()));
        assert(false);
    }
}

/// The trimmed sequence is a contiguous part of the original, beginning at
/// the first non-whitespace character.
pub proof fn lemma_trim_is_infix(s: Seq<char>)
    ensures
        0 <= trim_start_idx(s),
        trim_start_idx(s) + trim_spec(s).len() <= s.len(),
        trim_spec(s) == s.subrange(trim_start_idx(s), trim_start_idx(s) + trim_spec(s).len()),
{
    lemma_trim_start_is_suffix(s);
    let a = trim_start_idx(s);
    let t = s.subrange(a, s.len() as int);
    lemma_trim_end_is_prefix(t);
    assert(t.subrange(0, trim_end_len(t)) =~= s.subrange(a, a + trim_end_len(t)));
}

/// Copy of `s[from..to]`.
pub fn subrange_vec(s: &Vec<char>, from: usize, to: usize) -> (r: Vec<char>)
    requires
        from <= to <= s@.len(),
    ensures
        r@ == s@.subrange(from as int, to as int),
{
    let mut r: Vec<char> = Vec::new();
    let mut i: usize = from;
    while i < to
        invariant
            from <= i <= to <= s@.len(),
            r@ == s@.subrange(from as int, i as int),
        decreases to - i,
    {
        r.push(s[i]);
        proof {
            assert(s@.subrange(from as int, i as int).push(s@[i as int]) =~= s@.subrange(
                from as int,
                i + 1 as int,
            ));
        }
        i = i + 1;
    }
    r
}

/// The characters of a string slice, in order.
pub fn chars_of(s: &str) -> (r: Vec<char>)
    ensures
        r@ == s@,
{
    let n: usize = s.unicode_len();
    let mut r: Vec<char> = Vec::new();
    let mut i: usize = 0;
    while i < n
        invariant
            0 <= i <= n,
            n == s@.len(),
            r@ == s@.subrange(0, i as int),
        decreases n - i,
    {
        let c = s.get_char(i);
        r.push(c);
        proof {
            assert(s@.subrange(0, i as int).push(s@[i as int]) =~= s@.subrange(0, i + 1 as int));
        }
        i = i + 1;
    }
    proof {
        assert(s@.subrange(0, n as int) =~= s@);
    }
    r
}

/// Whitespace trimmed from both ends, as `str::trim` does for ASCII input.
pub fn trim(s: &Vec<char>) -> (r: Vec<char>)
    ensures
        r@ == trim_spec(s@),
{
    let n: usize = s.len();
    let mut a: usize = 0;
    while a < n && is_space(s[a])
        invariant
            0 <= a <= n,
            n == s@.len(),
            forall|k: int| 0 <= k < a ==> is_space_char(s@[k]),
        decreases n - a,
    {
        a = a + 1;
    }
    let mut b: usize = n;
    while b > a && is_space(s[b - 1])
        invariant
            a <= b <= n,
            n == s@.len(),
            forall|k: int| b <= k < n ==> is_space_char(s@[k]),
        decreases b,
    {
        b = b - 1;
    }
    let r = subrange_vec(s, a, b);
    proof {
        lemma_trim_start_range(s@, a as int);
        let t = s@.subrange(a as int, n as int);
        lemma_trim_end_range(t, b - a as int);
        assert(t.subrange(0, b - a as int) =~= s@.subrange(a as int, b as int));
    }
    r
}

/// Index of the first occurrence of `c` at or after `i`, or the length.
pub open spec fn find_from_spec(s: Seq<char>, c: char, i: int) -> int
    decreases s.len() - i,
{
    if i >= s.len() {
        s.len() as int
    } else if s[i] == c {
        i
    } else {
        find_from_spec(s, c, i + 1)
    }
}

pub proof fn lemma_find_from(s: Seq<char>, c: char, i: int)
    requires
        0 <= i <= s.len(),
    ensures
        i <= find_from_spec(s, c, i) <= s.len(),
        find_from_spec(s, c, i) < s.len() ==> s[find_from_spec(s, c, i)] == c,
        forall|k: int| i <= k < find_from_spec(s, c, i) ==> s[k] != c,
    decreases s.len() - i,
{
    if i < s.len() && s[i] != c {
        lemma_find_from(s, c, i + 1);
    }
}

pub fn find_from(s: &Vec<char>, c: char, from: usize) -> (r: usize)
    requires
        from <= s@.len(),
    ensures
        r == find_from_spec(s@, c, from as int),
{
    let n: usize = s.len();
    let mut i: usize = from;
    while i < n && s[i] != c
        invariant
            from <= i <= n,
            n == s@.len(),
            find_from_spec(s@, c, from as int) == find_from_spec(s@, c, i as int),
        decreases n - i,
    {
        i = i + 1;
    }
    i
}

/// Whether two character vectors hold the same text.
pub fn chars_eq(a: &Vec<char>, b: &Vec<char>) -> (r: bool)
    ensures
        r == (a@ == b@),
{
    let n: usize = a.len();
    if b.len() != n {
        return false;
    }
    let mut i: usize = 0;
    while i < n
        invariant
            0 <= i <= n,
            n == a@.len() == b@.len(),
            forall|k: int| 0 <= k < i ==> a@[k] == b@[k],
        decreases n - i,
    {
        if a[i] != b[i] {
            return false;
        }
        i = i + 1;
    }
    proof {
        assert(a@ =~= b@);
    }
    true
}

/// `n` occurs in `h` starting at index `i`.
pub open spec fn matches_at(h: Seq<char>, n: Seq<char>, i: int) -> bool {
    0 <= i && i + n.len() <= h.len() && h.subrange(i, i + n.len()) == n
}

/// `n` occurs somewhere in `h`, as `str::contains` reports.
pub open spec fn contains_seq(h: Seq<char>, n: Seq<char>) -> bool {
    exists|i: int| matches_at(h, n, i)
}

/// `h` begins with `n`, as `str::starts_with` reports.
pub open spec fn has_prefix_spec(h: Seq<char>, n: Seq<char>) -> bool {
    matches_at(h, n, 0)
}

fn match_at(h: &Vec<char>, n: &Vec<char>, i: usize) -> (r: bool)
    requires
        i + n@.len() <= h@.len(),
    ensures
        r == matches_at(h@, n@, i as int),
{
    let hln: usize = h.len();
    let m: usize = n.len();
    let mut k: usize = 0;
    while k < m
        invariant
            i + m <= hln,
            hln == h@.len(),
            m == n@.len(),
            0 <= k <= m,
            forall|j: int| 0 <= j < k ==> h@[i + j] == n@[j],
        decreases m - k,
    {
        if h[i + k] != n[k] {
            proof {
                if h@.subrange(i as int, i + m as int) == n@ {
                    assert(h@.subrange(i as int, i + m as int)[k as int] == h@[i + k as int]);
                }
            }
            return false;
        }
        k = k + 1;
    }
    proof {
        assert(h@.subrange(i as int, i + m as int) =~= n@);
    }
    true
}

pub fn has_substring(h: &Vec<char>, n: &Vec<char>) -> (r: bool)
    ensures
        r == contains_seq(h@, n@),
{
    let hl: usize = h.len();
    let nl: usize = n.len();
    if nl == 0 {
        proof {
            assert(h@.subrange(0, 0) =~= n@);
            assert(matches_at(h@, n@, 0));
        }
        return true;
    }
    if nl > hl {
        proof {
            if contains_seq(h@, n@) {
                let w = choose|w: int| matches_at(h@, n@, w);
                assert(false);
            }
        }
        return false;
    }
    let mut i: usize = 0;
    while i <= hl - nl
        invariant
            1 <= nl <= hl,
            hl == h@.len(),
            nl == n@.len(),
            0 <= i <= hl - nl + 1,
            forall|j: int| 0 <= j < i ==> !matches_at(h@, n@, j),
        decreases hl - nl + 1 - i,
    {
        if match_at(h, n, i) {
            proof {
                assert(contains_seq(h@, n@));
            }
            return true;
        }
        i = i + 1;
    }
    proof {
        if contains_seq(h@, n@) {
            let w = choose|w: int| matches_at(h@, n@, w);
            assert(!matches_at(h@, n@, w));
        }
    }
    false
}

pub fn has_prefix(h: &Vec<char>, n: &Vec<char>) -> (r: bool)
    ensures
        r == has_prefix_spec(h@, n@),
{
    if n.len() > h.len() {
        return false;
    }
    match_at(h, n, 0)
}

/// Every occurrence of `from` replaced by `to`.
pub open spec fn replace_char_spec(s: Seq<char>, from: char, to: char) -> Seq<char> {
    s.map_values(|c: char| if c == from { to } else { c })
}

pub fn replace_char(s: &Vec<char>, from: char, to: char) -> (r: Vec<char>)
    ensures
        r@ == replace_char_spec(s@, from, to),
{
    let n: usize = s.len();
    let mut r: Vec<char> = Vec::new();
    let mut i: usize = 0;
    while i < n
        invariant
            0 <= i <= n,
            n == s@.len(),
            r@ == replace_char_spec(s@.subrange(0, i as int), from, to),
        decreases n - i,
    {
        let c = s[i];
        if c == from {
            r.push(to);
        } else {
            r.push(c);
        }
        proof {
            assert(replace_char_spec(s@.subrange(0, i + 1 as int), from, to) =~= replace_char_spec(
                s@.subrange(0, i as int),
                from,
                to,
            ).push(if s@[i as int] == from { to } else { s@[i as int] }));
        }
        i = i + 1;
    }
    proof {
        assert(s@.subrange(0, n as int) =~= s@);
    }
    r
}

/// One trailing carriage return removed, as line splitting does before
/// a line feed.
pub open spec fn strip_cr(l: Seq<char>) -> Seq<char> {
    if l.len() > 0 && l[l.len() - 1] == '\r' {
        l.drop_last()
    } else {
        l
    }
}

/// The lines of `s` from position `i` on, with `cur` the partial line read so
/// far.  Lines end at `'\n'` (a preceding `'\r'` is dropped); a final line
/// ending is optional, as with `str::lines`.
pub open spec fn lines_acc(s: Seq<char>, i: int, cur: Seq<char>) -> Seq<Seq<char>>
    decreases s.len() - i,
{
    if i >= s.len() {
        if cur.len() == 0 {
            Seq::empty()
        } else {
            seq![cur]
        }
    } else if s[i] == '\n' {
        seq![strip_cr(cur)] + lines_acc(s, i + 1, Seq::empty())
    } else {
        lines_acc(s, i + 1, cur.push(s[i]))
    }
}

/// The lines of `s`, as `str::lines` yields them.
pub open spec fn split_lines_spec(s: Seq<char>) -> Seq<Seq<char>> {
    lines_acc(s, 0, Seq::empty())
}

fn strip_cr_vec(l: &Vec<char>) -> (r: Vec<char>)
    ensures
        r@ == strip_cr(l@),
{
    let ll: usize = l.len();
    if ll > 0 && l[ll - 1] == '\r' {
        let r = subrange_vec(l, 0, ll - 1);
        proof {
            assert(l@.subrange(0, ll - 1 as int) =~= l@.drop_last());
        }
        r
    } else {
        let r = subrange_vec(l, 0, ll);
        proof {
            assert(l@.subrange(0, ll as int) =~= l@);
        }
        r
    }
}

pub fn split_lines(s: &Vec<char>) -> (r: Vec<Vec<char>>)
    ensures
        r.deep_view() == split_lines_spec(s@),
{
    let n: usize = s.len();
    let mut out: Vec<Vec<char>> = Vec::new();
    let mut cur: Vec<char> = Vec::new();
    let mut i: usize = 0;
    proof {
        assert(out.deep_view() + lines_acc(s@, 0, cur@) =~= lines_acc(s@, 0, Seq::empty()));
    }
    while i < n
        invariant
            0 <= i <= n,
            n == s@.len(),
            split_lines_spec(s@) == out.deep_view() + lines_acc(s@, i as int, cur@),
        decreases n - i,
    {
        let c = s[i];
        if c == '\n' {
            let line = strip_cr_vec(&cur);
            let ghost prev = out.deep_view();
            let ghost lv = line@;
            let ghost rest = lines_acc(s@, i + 1, Seq::empty());
            out.push(line);
            cur = Vec::new();
            proof {
                assert(out.deep_view() =~~= prev.push(lv));
                assert(prev.push(lv) + rest =~= prev + (seq![lv] + rest));
            }
        } else {
            cur.push(c);
        }
        i = i + 1;
    }
    if cur.len() > 0 {
        let ghost prev = out.deep_view();
        let ghost cv = cur@;
        let ghost tail = lines_acc(s@, n as int, cv);
        out.push(cur);
        proof {
            assert(tail =~= seq![cv]);
            assert(out.deep_view() =~~= prev + tail);
        }
    } else {
        proof {
            assert(out.deep_view() + lines_acc(s@, n as int, cur@) =~= out.deep_view());
        }
    }
    out
}

/// A copy of the whole vector.
pub fn clone_chars(s: &Vec<char>) -> (r: Vec<char>)
    ensures
        r@ == s@,
{
    let n: usize = s.len();
    let r = subrange_vec(s, 0, n);
    proof {
        assert(s@.subrange(0, n as int) =~= s@);
    }
    r
}

/// Append all of `src` to `dst`.
pub fn append_chars(dst: &mut Vec<char>, src: &Vec<char>)
    ensures
        final(dst)@ == old(dst)@ + src@,
{
    let n: usize = src.len();
    let mut j: usize = 0;
    proof {
        assert(dst@ + src@.subrange(0, 0) =~= dst@);
    }
    while j < n
        invariant
            0 <= j <= n,
            n == src@.len(),
            dst@ == old(dst)@ + src@.subrange(0, j as int),
        decreases n - j,
    {
        dst.push(src[j]);
        proof {
            assert((old(dst)@ + src@.subrange(0, j as int)).push(src@[j as int]) =~= old(dst)@
                + src@.subrange(0, j + 1 as int));
        }
        j = j + 1;
    }
    proof {
        assert(old(dst)@ + src@.subrange(0, n as int) =~= old(dst)@ + src@);
    }
}

/// Concatenation of two character vectors.
pub fn concat_chars(a: &Vec<char>, b: &Vec<char>) -> (r: Vec<char>)
    ensures
        r@ == a@ + b@,
{
    let mut r: Vec<char> = Vec::new();
    let al: usize = a.len();
    let mut i: usize = 0;
    while i < al
        invariant
            0 <= i <= al,
            al == a@.len(),
            r@ == a@.subrange(0, i as int),
        decreases al - i,
    {
        r.push(a[i]);
        proof {
            assert(a@.subrange(0, i as int).push(a@[i as int]) =~= a@.subrange(0, i + 1 as int));
        }
        i = i + 1;
    }
    proof {
        assert(a@.subrange(0, al as int) =~= a@);
    }
    let bl: usize = b.len();
    let mut j: usize = 0;
    while j < bl
        invariant
            0 <= j <= bl,
            bl == b@.len(),
            r@ == a@ + b@.subrange(0, j as int),
        decreases bl - j,
    {
        r.push(b[j]);
        proof {
            assert((a@ + b@.subrange(0, j as int)).push(b@[j as int]) =~= a@ + b@.subrange(
                0,
                j + 1 as int,
            ));
        }
        j = j + 1;
    }
    proof {
        assert(a@ + b@.subrange(0, bl as int) =~= a@ + b@);
    }
    r
}

} // verus!
