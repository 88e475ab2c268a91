//! The file-synchronization engine.
//!
//! For each tracked item the caller probes every worktree and reports whether
//! the item exists there and with which modification time.  From that table
//! the engine selects the authoritative copy — the one with the strictly
//! greatest modification time, the earliest worktree winning ties — and plans
//! one replication into every other worktree.  The caller carries the plan
//! out, attempting a symbolic link first (unless copying was requested) and
//! falling back to a copy when the link cannot be created.

use vstd::prelude::*;

verus! {

/// One planned replication: materialize tracked item `item` from the worktree
/// at index `source` into the worktree at index `dest`, by copy when `copy`
/// is set and by symbolic link otherwise.
#[derive(Clone, Copy, PartialEq, Eq, Structural, Debug)]
pub struct SyncWrite {
    pub item: usize,
    pub source: usize,
    pub dest: usize,
    pub copy: bool,
}

/// The authoritative index after scanning entries `i..`, starting from the
/// best candidate `best` found among the earlier entries.  A later entry
/// replaces the candidate only with a strictly greater time, so the earliest
/// worktree wins ties.
pub open spec fn newest_from(times: Seq<Option<u64>>, i: int, best: Option<int>) -> Option<int>
    decreases times.len() - i,
{
    if i < 0 || i >= times.len() {
        best
    } else {
        let next = if times[i] is Some {
            match best {
                Option::None => Option::Some(i),
                Option::Some(b) => if times[i]->0 > times[b]->0 {
                    Option::Some(i)
                } else {
                    best
                },
            }
        } else {
            best
        };
        newest_from(times, i + 1, next)
    }
}

/// Index of the worktree holding the authoritative copy of an item, given
/// each worktree's modification time for it (`None` where the item is
/// absent); `None` when no worktree has the item.
pub open spec fn newest_index(times: Seq<Option<u64>>) -> Option<int> {
    newest_from(times, 0, Option::None)
}

proof fn lemma_newest_from_props(times: Seq<Option<u64>>, i: int, best: Option<int>)
    requires
        0 <= i <= times.len(),
        best is None ==> forall|j: int| 0 <= j < i ==> times[j] is None,
        best matches Some(b) ==> {
            &&& 0 <= b < i
            &&& times[b] is Some
            &&& forall|j: int| 0 <= j < i && times[j] is Some ==> times[j]->0 <= times[b]->0
            &&& forall|j: int| 0 <= j < b && times[j] is Some ==> times[j]->0 < times[b]->0
        },
    ensures
        newest_from(times, i, best) is None ==> forall|j: int|
            0 <= j < times.len() ==> times[j] is None,
        newest_from(times, i, best) matches Some(s) ==> {
            &&& 0 <= s < times.len()
            &&& times[s] is Some
            &&& forall|j: int|
                0 <= j < times.len() && times[j] is Some ==> times[j]->0 <= times[s]->0
            &&& forall|j: int| 0 <= j < s && times[j] is Some ==> times[j]->0 < times[s]->0
        },
    decreases times.len() - i,
{
    if i < times.len() {
        let next = if times[i] is Some {
            match best {
                Option::None => Option::Some(i),
                Option::Some(b) => if times[i]->0 > times[b]->0 {
                    Option::Some(i)
                } else {
                    best
                },
            }
        } else {
            best
        };
        lemma_newest_from_props(times, i + 1, next);
    }
}

/// What `newest_index` selects: nothing exactly when the item exists in no
/// worktree; otherwise a worktree holding the item whose time no other
/// worktree beats, and which every earlier worktree with the item falls
/// strictly below — the earliest worktree with the newest copy.
pub proof fn lemma_newest_index_is_latest(times: Seq<Option<u64>>)
    ensures
        newest_index(times) is None <==> forall|j: int|
            0 <= j < times.len() ==> times[j] is None,
        newest_index(times) matches Some(s) ==> {
            &&& 0 <= s < times.len()
            &&& times[s] is Some
            &&& forall|j: int|
                0 <= j < times.len() && times[j] is Some ==> times[j]->0 <= times[s]->0
            &&& forall|j: int| 0 <= j < s && times[j] is Some ==> times[j]->0 < times[s]->0
        },
{
    lemma_newest_from_props(times, 0, Option::None);
}

/// The worktree with the authoritative copy, computed as the scan over the
/// probed modification times.
pub fn newest_source(times: &Vec<Option<u64>>) -> (r: Option<usize>)
    ensures
        r is None <==> newest_index(times@) is None,
        r matches Some(s) ==> newest_index(times@) == Option::Some(s as int),
        r matches Some(s) ==> s < times@.len(),
{
    let n: usize = times.len();
    let mut best: Option<usize> = Option::None;
    let mut i: usize = 0;
    while i < n
        invariant
            0 <= i <= n,
            n == times@.len(),
            best matches Some(b) ==> b < n && times@[b as int] is Some,
            newest_index(times@) == newest_from(
                times@,
                i as int,
                match best {
                    Option::None => Option::<int>::None,
                    Option::Some(b) => Option::Some(b as int),
                },
            ),
        decreases n - i,
    {
        match times[i] {
            Option::Some(t) => {
                match best {
                    Option::None => {
                        best = Option::Some(i);
                    },
                    Option::Some(b) => {
                        let bt = times[b].unwrap();
                        if t > bt {
                            best = Option::Some(i);
                        }
                    },
                }
            },
            Option::None => {},
        }
        i = i + 1;
    }
    best
}

/// The replications of one item from worktree `src`, covering destinations
/// `j..n` in worktree order and skipping the source itself.
pub open spec fn writes_for_item(item: usize, src: usize, n: int, j: int, copy: bool) -> Seq<
    SyncWrite,
>
    decreases n - j,
{
    if j < 0 || j >= n {
        Seq::empty()
    } else if j == src {
        writes_for_item(item, src, n, j + 1, copy)
    } else {
        seq![SyncWrite { item, source: src, dest: j as usize, copy }] + writes_for_item(
            item,
            src,
            n,
            j + 1,
            copy,
        )
    }
}

/// The replications planned for one item: none where no worktree has it,
/// otherwise one write into every worktree but the authoritative source.
pub open spec fn item_plan_spec(item: usize, times: Seq<Option<u64>>, copy: bool) -> Seq<
    SyncWrite,
> {
    match newest_index(times) {
        Option::None => Seq::empty(),
        Option::Some(s) => writes_for_item(item, s as usize, times.len() as int, 0, copy),
    }
}

/// The plan for the first `k` items, concatenated in item order.
pub open spec fn plan_spec_upto(table: Seq<Seq<Option<u64>>>, copy: bool, k: int) -> Seq<SyncWrite>
    decreases k,
{
    if k <= 0 {
        Seq::empty()
    } else {
        plan_spec_upto(table, copy, k - 1) + item_plan_spec(
            (k - 1) as usize,
            table[k - 1],
            copy,
        )
    }
}

/// The full synchronization plan: for each tracked item in order, the writes
/// from its authoritative worktree into every other worktree.
pub open spec fn plan_spec(table: Seq<Seq<Option<u64>>>, copy: bool) -> Seq<SyncWrite> {
    plan_spec_upto(table, copy, table.len() as int)
}

/// Compute the synchronization plan.  Row `k` of `table` holds, for tracked
/// item `k`, each worktree's modification time of the item, `None` where the
/// worktree does not have it.
pub fn plan_sync(table: &Vec<Vec<Option<u64>>>, copy: bool) -> (r: Vec<SyncWrite>)
    ensures
        r@ == plan_spec(table.deep_view(), copy),
{
    let m: usize = table.len();
    let ghost dv = table.deep_view();
    let mut out: Vec<SyncWrite> = Vec::new();
    let mut k: usize = 0;
    proof {
        assert(dv.len() == m);
        assert(out@ =~= plan_spec_upto(dv, copy, 0));
    }
    while k < m
        invariant
            0 <= k <= m,
            m == table@.len(),
            dv == table.deep_view(),
            out@ == plan_spec_upto(dv, copy, k as int),
        decreases m - k,
    {
        let row = &table[k];
        proof {
            assert(row@ =~= dv[k as int]);
        }
        match newest_source(row) {
            Option::None => {
                proof {
                    assert(plan_spec_upto(dv, copy, k + 1 as int) =~= out@);
                }
            },
            Option::Some(src) => {
                let n: usize = row.len();
                let mut j: usize = 0;
                while j < n
                    invariant
                        0 <= j <= n,
                        n == dv[k as int].len(),
                        k < m == table@.len(),
                        dv == table.deep_view(),
                        newest_index(dv[k as int]) == Option::Some(src as int),
                        plan_spec_upto(dv, copy, k + 1 as int) == out@ + writes_for_item(
                            k,
                            src,
                            n as int,
                            j as int,
                            copy,
                        ),
                    decreases n - j,
                {
                    if j != src {
                        let w = SyncWrite { item: k, source: src, dest: j, copy };
                        let ghost prev = out@;
                        let ghost rest = writes_for_item(k, src, n as int, j + 1 as int, copy);
                        out.push(w);
                        proof {
                            assert(prev.push(w) + rest =~= prev + (seq![w] + rest));
                        }
                    }
                    j = j + 1;
                }
                proof {
                    assert(writes_for_item(k, src, n as int, n as int, copy) =~= Seq::<
                        SyncWrite,
                    >::empty());
                    assert(out@ + Seq::<SyncWrite>::empty() =~= out@);
                }
            },
        }
        k = k + 1;
    }
    out
}

proof fn lemma_writes_for_item_entries(item: usize, src: usize, n: int, j: int, copy: bool)
    requires
        n <= usize::MAX,
    ensures
        forall|x: int|
            0 <= x < writes_for_item(item, src, n, j, copy).len() ==> {
                let w = #[trigger] writes_for_item(item, src, n, j, copy)[x];
                &&& w.item == item
                &&& w.source == src
                &&& w.dest != src
                &&& j <= w.dest < n
                &&& w.copy == copy
            },
    decreases n - j,
{
    if 0 <= j < n {
        lemma_writes_for_item_entries(item, src, n, j + 1, copy);
        let whole = writes_for_item(item, src, n, j, copy);
        let rest = writes_for_item(item, src, n, j + 1, copy);
        if j != src {
            let w0 = SyncWrite { item, source: src, dest: j as usize, copy };
            assert(whole == seq![w0] + rest);
            assert forall|x: int| 0 <= x < whole.len() implies {
                let w = #[trigger] whole[x];
                &&& w.item == item
                &&& w.source == src
                &&& w.dest != src
                &&& j <= w.dest < n
                &&& w.copy == copy
            } by {
                if x == 0 {
                    assert(whole[x] == w0);
                } else {
                    assert(whole[x] == rest[x - 1]);
                }
            }
        }
    }
}

/// Every planned write leaves the authoritative source untouched and carries
/// the requested mode: its destination differs from its source, its source is
/// exactly the worktree `newest_index` selects for its item, and its mode is
/// the requested one.
pub proof fn lemma_plan_respects_sources(table: Seq<Seq<Option<u64>>>, copy: bool, k: int)
    requires
        0 <= k <= table.len(),
        table.len() <= usize::MAX,
        forall|y: int| 0 <= y < table.len() ==> (#[trigger] table[y]).len() <= usize::MAX,
    ensures
        forall|x: int|
            0 <= x < plan_spec_upto(table, copy, k).len() ==> {
                let w = #[trigger] plan_spec_upto(table, copy, k)[x];
                &&& w.item < k
                &&& newest_index(table[w.item as int]) == Option::Some(w.source as int)
                &&& w.dest != w.source
                &&& w.dest < table[w.item as int].len()
                &&& w.copy == copy
            },
    decreases k,
{
    if k > 0 {
        lemma_plan_respects_sources(table, copy, k - 1);
        let prefix = plan_spec_upto(table, copy, k - 1);
        let row = table[k - 1];
        let iplan = item_plan_spec((k - 1) as usize, row, copy);
        let whole = plan_spec_upto(table, copy, k);
        assert(whole == prefix + iplan);
        match newest_index(row) {
            Option::None => {
                assert(iplan == Seq::<SyncWrite>::empty());
                assert(whole =~= prefix);
            },
            Option::Some(s) => {
                lemma_newest_index_is_latest(row);
                lemma_writes_for_item_entries(
                    (k - 1) as usize,
                    s as usize,
                    row.len() as int,
                    0,
                    copy,
                );
            },
        }
        assert forall|x: int| 0 <= x < whole.len() implies {
            let w = #[trigger] whole[x];
            &&& w.item < k
            &&& newest_index(table[w.item as int]) == Option::Some(w.source as int)
            &&& w.dest != w.source
            &&& w.dest < table[w.item as int].len()
            &&& w.copy == copy
        } by {
            if x < prefix.len() {
                assert(whole[x] == prefix[x]);
            } else {
                assert(whole[x] == iplan[x - prefix.len()]);
            }
        }
    }
}

/// An item that exists in no worktree contributes no write to the plan, and
/// raises no error: its row plans nothing at all.
pub proof fn lemma_absent_item_untouched(item: usize, times: Seq<Option<u64>>, copy: bool)
    requires
        forall|j: int| 0 <= j < times.len() ==> times[j] is None,
    ensures
        item_plan_spec(item, times, copy) == Seq::<SyncWrite>::empty(),
{
    lemma_newest_index_is_latest(times);
}

/// In the full plan no write at all concerns an item that exists in no
/// worktree: such an item causes no filesystem write anywhere.
pub proof fn lemma_absent_item_has_no_writes(
    table: Seq<Seq<Option<u64>>>,
    copy: bool,
    i: int,
)
    requires
        0 <= i < table.len(),
        table.len() <= usize::MAX,
        forall|y: int| 0 <= y < table.len() ==> (#[trigger] table[y]).len() <= usize::MAX,
        forall|j: int| 0 <= j < table[i].len() ==> table[i][j] is None,
    ensures
        forall|x: int|
            0 <= x < plan_spec(table, copy).len() ==> (#[trigger] plan_spec(table, copy)[x]).item
                as int != i,
{
    lemma_plan_respects_sources(table, copy, table.len() as int);
    lemma_newest_index_is_latest(table[i]);
    assert forall|x: int|
        0 <= x < plan_spec(table, copy).len() implies (#[trigger] plan_spec(table, copy)[x]).item
        as int != i by {
        let w = plan_spec(table, copy)[x];
        if w.item as int == i {
            assert(newest_index(table[i]) == Option::Some(w.source as int));
            assert(newest_index(table[i]) is None);
        }
    }
}

/// The stages of carrying one planned write out.  In link mode the caller
/// attempts a symbolic link first; a failed link falls back to a copy, and
/// only a failed copy abandons the synchronization with an error.
#[derive(Clone, Copy, PartialEq, Eq, Structural, Debug)]
pub enum WriteAttempt {
    TryLink,
    DoCopy,
    Done,
    Failed,
}

/// The first attempt for a write: a copy when copying was requested, else a
/// symbolic link.
pub open spec fn write_start_spec(copy: bool) -> WriteAttempt {
    if copy {
        WriteAttempt::DoCopy
    } else {
        WriteAttempt::TryLink
    }
}

pub fn write_start(copy: bool) -> (r: WriteAttempt)
    ensures
        r == write_start_spec(copy),
{
    if copy {
        WriteAttempt::DoCopy
    } else {
        WriteAttempt::TryLink
    }
}

/// The next attempt after the current one succeeded (`ok`) or failed: a
/// failed link falls back to a copy; a failed copy fails the write.
pub open spec fn write_next_spec(s: WriteAttempt, ok: bool) -> WriteAttempt {
    match s {
        WriteAttempt::TryLink => if ok {
            WriteAttempt::Done
        } else {
            WriteAttempt::DoCopy
        },
        WriteAttempt::DoCopy => if ok {
            WriteAttempt::Done
        } else {
            WriteAttempt::Failed
        },
        WriteAttempt::Done => WriteAttempt::Done,
        WriteAttempt::Failed => WriteAttempt::Failed,
    }
}

pub fn write_next(s: WriteAttempt, ok: bool) -> (r: WriteAttempt)
    ensures
        r == write_next_spec(s, ok),
{
    match s {
        WriteAttempt::TryLink => if ok {
            WriteAttempt::Done
        } else {
            WriteAttempt::DoCopy
        },
        WriteAttempt::DoCopy => if ok {
            WriteAttempt::Done
        } else {
            WriteAttempt::Failed
        },
        WriteAttempt::Done => WriteAttempt::Done,
        WriteAttempt::Failed => WriteAttempt::Failed,
    }
}

/// A link-mode write whose symbolic link cannot be created falls back to a
/// copy of the same source; it never gives the write up without the copy.
pub proof fn lemma_link_failure_falls_back()
    ensures
        write_next_spec(write_start_spec(false), false) == WriteAttempt::DoCopy,
        write_next_spec(WriteAttempt::DoCopy, true) == WriteAttempt::Done,
{
}

/// The copy procedure's own fallback chain, as the copy-on-write aware copy
/// runs it: a copy-on-write clone first, then a reflink-aware recursive copy,
/// then a plain recursive copy; only after all three fail is the copy an
/// error.
#[derive(Clone, Copy, PartialEq, Eq, Structural, Debug)]
pub enum CopyStage {
    CowClone,
    CowReflink,
    Plain,
    Copied,
    CopyFailed,
}

/// The stage after one copy attempt: success completes, failure moves to the
/// next tool in the chain, and the plain recursive copy is the last resort.
pub open spec fn copy_next_spec(s: CopyStage, ok: bool) -> CopyStage {
    match s {
        CopyStage::CowClone => if ok {
            CopyStage::Copied
        } else {
            CopyStage::CowReflink
        },
        CopyStage::CowReflink => if ok {
            CopyStage::Copied
        } else {
            CopyStage::Plain
        },
        CopyStage::Plain => if ok {
            CopyStage::Copied
        } else {
            CopyStage::CopyFailed
        },
        CopyStage::Copied => CopyStage::Copied,
        CopyStage::CopyFailed => CopyStage::CopyFailed,
    }
}

pub fn copy_next(s: CopyStage, ok: bool) -> (r: CopyStage)
    ensures
        r == copy_next_spec(s, ok),
{
    match s {
        CopyStage::CowClone => if ok {
            CopyStage::Copied
        } else {
            CopyStage::CowReflink
        },
        CopyStage::CowReflink => if ok {
            CopyStage::Copied
        } else {
            CopyStage::Plain
        },
        CopyStage::Plain => if ok {
            CopyStage::Copied
        } else {
            CopyStage::CopyFailed
        },
        CopyStage::Copied => CopyStage::Copied,
        CopyStage::CopyFailed => CopyStage::CopyFailed,
    }
}

} // verus!
