//! The mathematical model of the record store and of each pane's filtered
//! view, with the facts that let the views be maintained incrementally.

use vstd::prelude::*;
use crate::filter::filter_matches;
use crate::record::LogLine;

verus! {

/// View mode for multi-source display.
#[derive(Clone, Copy, Debug, PartialEq, Eq, Structural)]
pub enum SourceViewMode {
    /// Show all visible sources merged in arrival order
    AllMerged,
    /// Show only a single source
    SingleSource(usize),
}

/// What decides whether a pane shows a record.
pub struct Selector {
    pub visible: Seq<bool>,
    pub mode: SourceViewMode,
    /// Pattern and regex mode of the active filter, if any
    pub filter: Option<(Seq<char>, bool)>,
}

/// A source is visible unless the mask hides it; sources beyond the mask are visible.
pub open spec fn source_visible(visible: Seq<bool>, id: usize) -> bool {
    id >= visible.len() || visible[id as int]
}

/// Membership of a record in a pane's filtered view.
pub open spec fn selects(sel: Selector, l: LogLine) -> bool {
    &&& source_visible(sel.visible, l.source_id)
    &&& match sel.mode {
        SourceViewMode::AllMerged => true,
        SourceViewMode::SingleSource(id) => id == l.source_id,
    }
    &&& match sel.filter {
        Option::None => true,
        Option::Some(f) => filter_matches(f.0, f.1, l.raw@),
    }
}

/// The indices below `n` of the records that `sel` selects, in increasing order.
pub open spec fn matching_prefix(sel: Selector, lines: Seq<LogLine>, n: nat) -> Seq<usize>
    decreases n,
{
    if n == 0 {
        seq![]
    } else {
        let rest = matching_prefix(sel, lines, (n - 1) as nat);
        if selects(sel, lines[n - 1]) {
            rest.push((n - 1) as usize)
        } else {
            rest
        }
    }
}

/// The filtered view computed from scratch: every index whose record is selected.
pub open spec fn filtered_view(sel: Selector, lines: Seq<LogLine>) -> Seq<usize> {
    matching_prefix(sel, lines, lines.len())
}

/// Index list after the head record is evicted: entries for index 0 are
/// dropped and every other entry is decremented.
pub open spec fn evict_adjust(s: Seq<usize>) -> Seq<usize>
    decreases s.len(),
{
    if s.len() == 0 {
        seq![]
    } else {
        let rest = evict_adjust(s.drop_last());
        if s.last() == 0 {
            rest
        } else {
            rest.push((s.last() - 1) as usize)
        }
    }
}

/// Strictly increasing.
pub open spec fn increasing(s: Seq<usize>) -> bool {
    forall|i: int, j: int| 0 <= i < j < s.len() ==> s[i] < s[j]
}

/// Strictly increasing, each entry below `bound`.
pub open spec fn sorted_below(s: Seq<usize>, bound: int) -> bool {
    &&& increasing(s)
    &&& forall|i: int| 0 <= i < s.len() ==> s[i] < bound
}

pub proof fn lemma_evict_adjust_push(s: Seq<usize>, x: usize)
    ensures
        evict_adjust(s.push(x)) == if x == 0 {
            evict_adjust(s)
        } else {
            evict_adjust(s).push((x - 1) as usize)
        },
{
    assert(s.push(x).drop_last() =~= s);
}

pub proof fn lemma_prefix_push(sel: Selector, lines: Seq<LogLine>, l: LogLine, n: nat)
    requires
        n <= lines.len(),
    ensures
        matching_prefix(sel, lines.push(l), n) == matching_prefix(sel, lines, n),
    decreases n,
{
    if n > 0 {
        lemma_prefix_push(sel, lines, l, (n - 1) as nat);
        assert(lines.push(l)[n - 1] == lines[n - 1]);
    }
}

/// Appending a record appends its index to the view exactly when it is selected.
pub proof fn lemma_view_push(sel: Selector, lines: Seq<LogLine>, l: LogLine)
    ensures
        filtered_view(sel, lines.push(l)) == if selects(sel, l) {
            filtered_view(sel, lines).push(lines.len() as usize)
        } else {
            filtered_view(sel, lines)
        },
{
    lemma_prefix_push(sel, lines, l, lines.len());
    assert(lines.push(l)[lines.len() as int] == l);
}

proof fn lemma_prefix_evict(sel: Selector, lines: Seq<LogLine>, n: nat)
    requires
        1 <= n <= lines.len(),
        lines.len() <= usize::MAX,
    ensures
        evict_adjust(matching_prefix(sel, lines, n)) == matching_prefix(sel, lines.drop_first(), (n - 1) as nat),
    decreases n,
{
    let tail = lines.drop_first();
    if n == 1 {
        let e: Seq<usize> = seq![];
        assert(matching_prefix(sel, lines, 0) == e);
        assert(matching_prefix(sel, tail, 0) == e);
        lemma_evict_adjust_push(e, 0);
        assert(evict_adjust(e) == e);
    } else {
        lemma_prefix_evict(sel, lines, (n - 1) as nat);
        assert(tail[n - 2] == lines[n - 1]);
        let prev = matching_prefix(sel, lines, (n - 1) as nat);
        if selects(sel, lines[n - 1]) {
            lemma_evict_adjust_push(prev, (n - 1) as usize);
        }
    }
}

/// Eviction of the head record: adjusting the view incrementally gives the
/// view recomputed from scratch on the remaining records.
pub proof fn lemma_view_evict(sel: Selector, lines: Seq<LogLine>)
    requires
        0 < lines.len() <= usize::MAX,
    ensures
        evict_adjust(filtered_view(sel, lines)) == filtered_view(sel, lines.drop_first()),
{
    lemma_prefix_evict(sel, lines, lines.len());
}

/// Two selections that agree on every record give the same view.
pub proof fn lemma_view_same_selection(a: Selector, b: Selector, lines: Seq<LogLine>, n: nat)
    requires
        forall|l: LogLine| selects(a, l) == selects(b, l),
    ensures
        matching_prefix(a, lines, n) == matching_prefix(b, lines, n),
    decreases n,
{
    if n > 0 {
        lemma_view_same_selection(a, b, lines, (n - 1) as nat);
    }
}

/// A view computed from scratch is strictly increasing and indexes the records.
pub proof fn lemma_prefix_sorted(sel: Selector, lines: Seq<LogLine>, n: nat)
    requires
        n <= usize::MAX,
    ensures
        sorted_below(matching_prefix(sel, lines, n), n as int),
        matching_prefix(sel, lines, n).len() <= n,
    decreases n,
{
    if n > 0 {
        lemma_prefix_sorted(sel, lines, (n - 1) as nat);
        let prev = matching_prefix(sel, lines, (n - 1) as nat);
        if selects(sel, lines[n - 1]) {
            let cur = prev.push((n - 1) as usize);
            assert forall|i: int, j: int| 0 <= i < j < cur.len() implies cur[i] < cur[j] by {
                if j == cur.len() - 1 {
                    assert(cur[i] == prev[i]);
                }
            }
        }
    }
}

/// Eviction keeps an index list sorted and shifts its bound down by one.
pub proof fn lemma_evict_adjust_sorted(s: Seq<usize>, bound: int)
    requires
        sorted_below(s, bound),
    ensures
        sorted_below(evict_adjust(s), bound - 1),
        evict_adjust(s).len() <= s.len(),
        s.len() > 0 ==> forall|i: int| 0 <= i < evict_adjust(s).len() ==> evict_adjust(s)[i] < s.last(),
    decreases s.len(),
{
    if s.len() > 0 {
        let p = s.drop_last();
        assert(sorted_below(p, bound));
        lemma_evict_adjust_sorted(p, bound);
        lemma_evict_adjust_push(p, s.last());
        if p.len() > 0 {
            assert(p.last() < s.last());
        }
    }
}

/// Scroll clamped into a list of `n` entries.
pub open spec fn clamp_scroll(scroll: int, n: int) -> int {
    if n > 0 {
        if scroll < n - 1 {
            scroll
        } else {
            n - 1
        }
    } else {
        0
    }
}

/// Scroll that shows the last of `n` entries on the bottom row of a viewport of `height` rows.
pub open spec fn bottom_scroll(n: int, height: int) -> int {
    if n > height {
        n - height
    } else {
        0
    }
}

/// The part of a pane that record ingestion reads and changes.
pub struct PaneModel {
    pub filtered: Seq<usize>,
    pub bookmarks: Seq<usize>,
    pub scroll: int,
    pub stick: bool,
    pub viewport: int,
    pub selector: Selector,
}

/// The record store and the ingestion-relevant part of every pane.
pub struct StoreModel {
    pub lines: Seq<LogLine>,
    pub capacity: nat,
    pub panes: Seq<PaneModel>,
}

/// `scroll < filtered.len()` when the list is non-empty, else `scroll == 0`.
pub open spec fn scroll_valid(m: PaneModel) -> bool {
    if m.filtered.len() > 0 {
        0 <= m.scroll < m.filtered.len()
    } else {
        m.scroll == 0
    }
}

pub open spec fn store_scroll_valid(s: StoreModel) -> bool {
    forall|k: int| 0 <= k < s.panes.len() ==> scroll_valid(#[trigger] s.panes[k])
}

/// A pane after the head record is evicted.
pub open spec fn evict_pane(m: PaneModel) -> PaneModel {
    let f = evict_adjust(m.filtered);
    PaneModel {
        filtered: f,
        bookmarks: evict_adjust(m.bookmarks),
        scroll: clamp_scroll(m.scroll, f.len() as int),
        ..m
    }
}

/// A pane after record `l` was appended at index `idx`.
pub open spec fn append_pane(m: PaneModel, idx: usize, l: LogLine) -> PaneModel {
    PaneModel {
        filtered: if selects(m.selector, l) {
            m.filtered.push(idx)
        } else {
            m.filtered
        },
        ..m
    }
}

/// A pane's scroll once new records are in: the bottom when it sticks to the
/// bottom and has entries, clamped in every case.
pub open spec fn settle_pane(m: PaneModel) -> PaneModel {
    let s = if m.stick && m.filtered.len() > 0 {
        bottom_scroll(m.filtered.len() as int, m.viewport)
    } else {
        m.scroll
    };
    PaneModel { scroll: clamp_scroll(s, m.filtered.len() as int), ..m }
}

/// Whether ingesting one more record evicts the head record.
pub open spec fn evicts(s: StoreModel) -> bool {
    s.capacity > 0 && s.lines.len() >= s.capacity
}

/// The store after one record is taken in, before scroll positions settle.
/// A store of capacity 0 keeps nothing.
pub open spec fn ingest(s: StoreModel, l: LogLine) -> StoreModel {
    if s.capacity == 0 {
        s
    } else {
        let lines1 = if evicts(s) {
            s.lines.drop_first()
        } else {
            s.lines
        };
        let panes1 = if evicts(s) {
            s.panes.map_values(|m: PaneModel| evict_pane(m))
        } else {
            s.panes
        };
        StoreModel {
            lines: lines1.push(l),
            panes: panes1.map_values(|m: PaneModel| append_pane(m, lines1.len() as usize, l)),
            ..s
        }
    }
}

/// Scroll positions settled in every pane.
pub open spec fn settle(s: StoreModel) -> StoreModel {
    StoreModel { panes: s.panes.map_values(|m: PaneModel| settle_pane(m)), ..s }
}

/// The store after one `push`.
pub open spec fn push_one(s: StoreModel, l: LogLine) -> StoreModel {
    settle(ingest(s, l))
}

/// The store after one `push` per record of `batch`, in order.
pub open spec fn push_each(s: StoreModel, batch: Seq<LogLine>) -> StoreModel
    decreases batch.len(),
{
    if batch.len() == 0 {
        s
    } else {
        push_one(push_each(s, batch.drop_last()), batch.last())
    }
}

/// The records of `batch` taken in, in order, with no scroll settling.
pub open spec fn ingest_each(s: StoreModel, batch: Seq<LogLine>) -> StoreModel
    decreases batch.len(),
{
    if batch.len() == 0 {
        s
    } else {
        ingest(ingest_each(s, batch.drop_last()), batch.last())
    }
}

/// The store after a batched push: all records taken in, scroll settled once.
pub open spec fn push_batch(s: StoreModel, batch: Seq<LogLine>) -> StoreModel {
    if batch.len() == 0 {
        s
    } else {
        settle(ingest_each(s, batch))
    }
}

/// The records a store holds after `batch` is pushed into `lines`: the last
/// `capacity` of them.
pub open spec fn retained(lines: Seq<LogLine>, capacity: nat) -> Seq<LogLine> {
    if lines.len() > capacity {
        lines.subrange(lines.len() - capacity, lines.len() as int)
    } else {
        lines
    }
}

/// One pane through `ingest`: evicted when `evicted`, then `l` appended at `idx`.
pub open spec fn pane_step(m: PaneModel, evicted: bool, idx: usize, l: LogLine) -> PaneModel {
    append_pane(
        if evicted {
            evict_pane(m)
        } else {
            m
        },
        idx,
        l,
    )
}

proof fn lemma_ingest_panes(s: StoreModel, l: LogLine)
    requires
        s.capacity > 0,
    ensures
        ingest(s, l).panes.len() == s.panes.len(),
        forall|k: int|
            0 <= k < s.panes.len() ==> #[trigger] ingest(s, l).panes[k] == pane_step(
                s.panes[k],
                evicts(s),
                (if evicts(s) {
                    s.lines.len() - 1
                } else {
                    s.lines.len() as int
                }) as usize,
                l,
            ),
{
}

proof fn lemma_pane_settle_commutes(m: PaneModel, evicted: bool, idx: usize, l: LogLine)
    requires
        scroll_valid(m),
    ensures
        settle_pane(pane_step(settle_pane(m), evicted, idx, l)) == settle_pane(pane_step(m, evicted, idx, l)),
        scroll_valid(pane_step(m, evicted, idx, l)),
        scroll_valid(settle_pane(m)),
{
}

proof fn lemma_settle_idempotent(m: PaneModel)
    requires
        scroll_valid(m),
    ensures
        settle_pane(settle_pane(m)) == settle_pane(m),
{
}

/// Settling scroll before one more record is taken in makes no difference once
/// scroll settles again.
proof fn lemma_ingest_settle(t: StoreModel, l: LogLine)
    requires
        store_scroll_valid(t),
    ensures
        settle(ingest(settle(t), l)) == settle(ingest(t, l)),
        store_scroll_valid(ingest(t, l)),
{
    let st = settle(t);
    if t.capacity == 0 {
        assert forall|k: int| 0 <= k < t.panes.len() implies settle(st).panes[k] == settle(t).panes[k] by {
            lemma_settle_idempotent(t.panes[k]);
        }
        assert(settle(st).panes =~= settle(t).panes);
    } else {
        lemma_ingest_panes(t, l);
        lemma_ingest_panes(st, l);
        let idx = (if evicts(t) {
            t.lines.len() - 1
        } else {
            t.lines.len() as int
        }) as usize;
        assert forall|k: int| 0 <= k < t.panes.len() implies settle(ingest(st, l)).panes[k] == settle(
            ingest(t, l),
        ).panes[k] && scroll_valid(#[trigger] ingest(t, l).panes[k]) by {
            assert(st.panes[k] == settle_pane(t.panes[k]));
            lemma_pane_settle_commutes(t.panes[k], evicts(t), idx, l);
        }
        assert(settle(ingest(st, l)).panes =~= settle(ingest(t, l)).panes);
    }
}

proof fn lemma_push_each_settles(s: StoreModel, batch: Seq<LogLine>)
    requires
        store_scroll_valid(s),
    ensures
        store_scroll_valid(ingest_each(s, batch)),
        batch.len() > 0 ==> push_each(s, batch) == settle(ingest_each(s, batch)),
    decreases batch.len(),
{
    if batch.len() > 0 {
        let prefix = batch.drop_last();
        lemma_push_each_settles(s, prefix);
        lemma_ingest_settle(ingest_each(s, prefix), batch.last());
        if prefix.len() == 0 {
            assert(push_each(s, prefix) == s);
            assert(ingest_each(s, prefix) == s);
        }
    }
}

/// Batch equivalence: pushing a batch at once leaves the store, every pane's
/// filtered indices, bookmarks and scroll position exactly as pushing its
/// records one at a time does.
pub proof fn lemma_batch_equivalence(s: StoreModel, batch: Seq<LogLine>)
    requires
        store_scroll_valid(s),
    ensures
        push_batch(s, batch) == push_each(s, batch),
{
    lemma_push_each_settles(s, batch);
}

proof fn lemma_retained_push(lines: Seq<LogLine>, cap: nat, l: LogLine)
    requires
        cap > 0,
    ensures
        retained(retained(lines, cap).push(l), cap) == retained(lines.push(l), cap),
{
    let r = retained(lines, cap);
    assert(retained(r.push(l), cap) =~= retained(lines.push(l), cap));
}

/// The records held after `batch` is pushed are the last `capacity` of all
/// records pushed so far.
pub proof fn lemma_push_each_lines(s: StoreModel, batch: Seq<LogLine>)
    requires
        s.lines.len() <= s.capacity,
        s.capacity > 0,
    ensures
        push_each(s, batch).lines == retained(s.lines + batch, s.capacity),
        push_each(s, batch).capacity == s.capacity,
    decreases batch.len(),
{
    if batch.len() == 0 {
        assert(s.lines + batch =~= s.lines);
    } else {
        let prefix = batch.drop_last();
        lemma_push_each_lines(s, prefix);
        let t = push_each(s, prefix);
        let all = s.lines + prefix;
        assert(t.lines.len() <= s.capacity);
        if evicts(t) {
            assert(t.lines.drop_first().push(batch.last()) =~= retained(t.lines.push(batch.last()), s.capacity));
        } else {
            assert(t.lines.push(batch.last()) =~= retained(t.lines.push(batch.last()), s.capacity));
        }
        lemma_retained_push(all, s.capacity, batch.last());
        assert(all.push(batch.last()) =~= s.lines + batch);
    }
}

/// Capacity invariant: from an empty store, after any sequence of pushes the
/// store holds `min(capacity, total pushed)` records, never more than its capacity.
pub proof fn lemma_capacity_invariant(s: StoreModel, batch: Seq<LogLine>)
    requires
        s.lines.len() == 0,
        s.capacity > 0,
    ensures
        push_each(s, batch).lines.len() <= s.capacity,
        push_each(s, batch).lines.len() == if batch.len() < s.capacity {
            batch.len()
        } else {
            s.capacity
        },
{
    lemma_push_each_lines(s, batch);
    assert(s.lines + batch =~= batch);
}

/// A pane agrees with the records `lines`: its view is the one computed from
/// scratch, its bookmarks are increasing valid indices, its scroll lies in the view.
pub open spec fn pane_consistent(m: PaneModel, lines: Seq<LogLine>) -> bool {
    &&& m.filtered == filtered_view(m.selector, lines)
    &&& sorted_below(m.bookmarks, lines.len() as int)
    &&& scroll_valid(m)
}

/// The store holds at most `capacity` records and every pane agrees with them.
pub open spec fn store_consistent(s: StoreModel) -> bool {
    &&& s.lines.len() <= s.capacity
    &&& s.capacity <= usize::MAX
    &&& forall|k: int| 0 <= k < s.panes.len() ==> pane_consistent(#[trigger] s.panes[k], s.lines)
}

proof fn lemma_pane_ingest(m: PaneModel, lines: Seq<LogLine>, evicted: bool, l: LogLine)
    requires
        pane_consistent(m, lines),
        lines.len() <= usize::MAX,
        evicted ==> lines.len() > 0,
    ensures
        ({
            let lines1 = if evicted {
                lines.drop_first()
            } else {
                lines
            };
            let m2 = pane_step(m, evicted, lines1.len() as usize, l);
            &&& pane_consistent(m2, lines1.push(l))
            &&& m2.selector == m.selector
        }),
{
    let lines1 = if evicted {
        lines.drop_first()
    } else {
        lines
    };
    if evicted {
        lemma_view_evict(m.selector, lines);
        lemma_evict_adjust_sorted(m.bookmarks, lines.len() as int);
    }
    let m1 = if evicted {
        evict_pane(m)
    } else {
        m
    };
    lemma_view_push(m.selector, lines1, l);
    assert(pane_consistent(m1, lines1));
}

proof fn lemma_pane_settle(m: PaneModel, lines: Seq<LogLine>)
    requires
        pane_consistent(m, lines),
    ensures
        pane_consistent(settle_pane(m), lines),
        settle_pane(m).selector == m.selector,
{
}

/// Taking in one record keeps the store consistent, and leaves every pane's
/// selection alone.
pub proof fn lemma_ingest_consistent(s: StoreModel, l: LogLine)
    requires
        store_consistent(s),
    ensures
        store_consistent(ingest(s, l)),
        ingest(s, l).panes.len() == s.panes.len(),
        ingest(s, l).capacity == s.capacity,
        forall|k: int| 0 <= k < s.panes.len() ==> #[trigger] ingest(s, l).panes[k].selector == s.panes[k].selector,
{
    let t = ingest(s, l);
    if s.capacity > 0 {
        lemma_ingest_panes(s, l);
        assert forall|k: int| 0 <= k < s.panes.len() implies pane_consistent(#[trigger] t.panes[k], t.lines)
            && t.panes[k].selector == s.panes[k].selector by {
            lemma_pane_ingest(s.panes[k], s.lines, evicts(s), l);
        }
    }
}

/// Settling scroll keeps the store consistent, and leaves every pane's selection alone.
pub proof fn lemma_settle_consistent(t: StoreModel)
    requires
        store_consistent(t),
    ensures
        store_consistent(settle(t)),
        settle(t).panes.len() == t.panes.len(),
        forall|k: int| 0 <= k < t.panes.len() ==> #[trigger] settle(t).panes[k].selector == t.panes[k].selector,
{
    assert forall|k: int| 0 <= k < t.panes.len() implies pane_consistent(#[trigger] settle(t).panes[k], t.lines)
        && settle(t).panes[k].selector == t.panes[k].selector by {
        lemma_pane_settle(t.panes[k], t.lines);
    }
}

/// One push keeps the store consistent, and leaves every pane's selection alone.
pub proof fn lemma_push_one_consistent(s: StoreModel, l: LogLine)
    requires
        store_consistent(s),
    ensures
        store_consistent(push_one(s, l)),
        push_one(s, l).panes.len() == s.panes.len(),
        push_one(s, l).capacity == s.capacity,
        forall|k: int| 0 <= k < s.panes.len() ==> #[trigger] push_one(s, l).panes[k].selector == s.panes[k].selector,
{
    lemma_ingest_consistent(s, l);
    lemma_settle_consistent(ingest(s, l));
    assert forall|k: int| 0 <= k < s.panes.len() implies #[trigger] push_one(s, l).panes[k].selector
        == s.panes[k].selector by {
        assert(ingest(s, l).panes[k].selector == s.panes[k].selector);
    }
}

/// Eviction and filter consistency: through any sequence of pushes, each with
/// the evictions it causes, every pane's incrementally maintained filtered
/// indices equal the view recomputed from scratch on the records then held,
/// for the filter each pane applies.
pub proof fn lemma_views_match_recompute(s: StoreModel, batch: Seq<LogLine>)
    requires
        store_consistent(s),
    ensures
        store_consistent(push_each(s, batch)),
        push_each(s, batch).panes.len() == s.panes.len(),
        push_each(s, batch).capacity == s.capacity,
        forall|k: int|
            0 <= k < s.panes.len() ==> (#[trigger] push_each(s, batch).panes[k]).selector == s.panes[k].selector,
        forall|k: int|
            0 <= k < s.panes.len() ==> (#[trigger] push_each(s, batch).panes[k]).filtered == filtered_view(
                s.panes[k].selector,
                push_each(s, batch).lines,
            ),
    decreases batch.len(),
{
    if batch.len() > 0 {
        let prefix = batch.drop_last();
        lemma_views_match_recompute(s, prefix);
        let t = push_each(s, prefix);
        lemma_push_one_consistent(t, batch.last());
        assert forall|k: int| 0 <= k < s.panes.len() implies (#[trigger] push_each(s, batch).panes[k]).selector
            == s.panes[k].selector && push_each(s, batch).panes[k].filtered == filtered_view(
            s.panes[k].selector,
            push_each(s, batch).lines,
        ) by {
            assert(push_each(s, batch).panes[k] == push_one(t, batch.last()).panes[k]);
            assert(t.panes[k].selector == s.panes[k].selector);
            assert(pane_consistent(push_one(t, batch.last()).panes[k], push_one(t, batch.last()).lines));
        }
    }
}

} // verus!
