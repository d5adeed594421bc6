//! One pane's view over the record store: its filtered indices, scroll
//! position, bookmarks and filter input, and their upkeep as records arrive.

use vstd::prelude::*;
use vstd::string::StringExecFns;
use std::collections::VecDeque;
use crate::filter::ActiveFilter;
use crate::record::LogLine;
use crate::view::{
    append_pane, clamp_scroll, evict_adjust, evict_pane, filtered_view, increasing, lemma_evict_adjust_push, matching_prefix, scroll_valid,
    selects, settle_pane, sorted_below, PaneModel, Selector, SourceViewMode,
};

verus! {

/// The fields of a pane that ingestion leaves alone.
pub struct PaneRest {
    pub horizontal_scroll: usize,
    pub filter_text: Seq<char>,
    pub filter_is_regex: bool,
    pub filter_last_change: Option<u64>,
    pub filter_needs_recompute: bool,
    pub filter_history_idx: Option<usize>,
}

/// State for a single log view pane.
pub struct PaneState {
    /// Current scroll position (index into filtered_indices)
    pub scroll: usize,
    /// If true, auto-scroll to bottom on new lines
    pub stick_to_bottom: bool,
    /// Horizontal scroll offset (in characters), used when lines are not wrapped
    pub horizontal_scroll: usize,
    /// Last known viewport height (for auto-scroll calculations)
    pub viewport_height: usize,
    /// Indices into the record store that match the current filter
    pub filtered_indices: Vec<usize>,
    /// Currently active filter
    pub active_filter: Option<ActiveFilter>,
    /// Text of the filter input
    pub filter_text: String,
    /// Whether filter is regex mode
    pub filter_is_regex: bool,
    /// Time of the last filter input change, in milliseconds (for debounce)
    pub filter_last_change: Option<u64>,
    /// Whether the filter must be recomputed once the debounce time has passed
    pub filter_needs_recompute: bool,
    /// Current position in filter history when browsing (None = not browsing)
    pub filter_history_idx: Option<usize>,
    /// Which sources are currently visible (by index)
    pub visible_sources: Vec<bool>,
    /// View mode: show all sources merged or single source only
    pub view_mode: SourceViewMode,
    /// Bookmarked line indices (into the record store), increasing
    pub bookmarks: Vec<usize>,
}

/// The view after the head record is evicted.
fn shift_out(v: &Vec<usize>) -> (r: Vec<usize>)
    ensures
        r@ == evict_adjust(v@),
{
    let mut out: Vec<usize> = Vec::new();
    let mut i: usize = 0;
    while i < v.len()
        invariant
            i <= v@.len(),
            out@ == evict_adjust(v@.subrange(0, i as int)),
        decreases v@.len() - i,
    {
        proof {
            assert(v@.subrange(0, i + 1) =~= v@.subrange(0, i as int).push(v@[i as int]));
            lemma_evict_adjust_push(v@.subrange(0, i as int), v@[i as int]);
        }
        if v[i] != 0 {
            out.push(v[i] - 1);
        }
        i += 1;
    }
    assert(v@.subrange(0, v@.len() as int) =~= v@);
    out
}

/// `scroll` clamped into a list of `n` entries.
pub fn clamp_to(scroll: usize, n: usize) -> (r: usize)
    ensures
        r as int == clamp_scroll(scroll as int, n as int),
{
    if n > 0 {
        if scroll < n - 1 {
            scroll
        } else {
            n - 1
        }
    } else {
        0
    }
}

impl PaneState {
    pub open spec fn selector(&self) -> Selector {
        Selector {
            visible: self.visible_sources@,
            mode: self.view_mode,
            filter: match self.active_filter {
                Some(f) => Some((f.spec_pattern(), f.spec_is_regex())),
                None => None,
            },
        }
    }

    pub open spec fn model(&self) -> PaneModel {
        PaneModel {
            filtered: self.filtered_indices@,
            bookmarks: self.bookmarks@,
            scroll: self.scroll as int,
            stick: self.stick_to_bottom,
            viewport: self.viewport_height as int,
            selector: self.selector(),
        }
    }

    pub open spec fn rest(&self) -> PaneRest {
        PaneRest {
            horizontal_scroll: self.horizontal_scroll,
            filter_text: self.filter_text@,
            filter_is_regex: self.filter_is_regex,
            filter_last_change: self.filter_last_change,
            filter_needs_recompute: self.filter_needs_recompute,
            filter_history_idx: self.filter_history_idx,
        }
    }

    /// The pane is consistent with the records `lines`: its view is the one
    /// computed from scratch, its bookmarks are increasing valid indices, and
    /// its scroll lies within the view.
    pub open spec fn wf(&self, lines: Seq<LogLine>) -> bool {
        &&& self.filtered_indices@ == filtered_view(self.selector(), lines)
        &&& sorted_below(self.bookmarks@, lines.len() as int)
        &&& scroll_valid(self.model())
    }

    /// Create a new pane with default state.
    pub fn new(num_sources: usize) -> (r: Self)
        ensures
            r.scroll == 0,
            r.stick_to_bottom,
            r.horizontal_scroll == 0,
            r.viewport_height == 20,
            r.filtered_indices@.len() == 0,
            r.active_filter.is_none(),
            r.filter_text@.len() == 0,
            !r.filter_is_regex,
            r.filter_last_change.is_none(),
            !r.filter_needs_recompute,
            r.filter_history_idx.is_none(),
            r.visible_sources@ == Seq::new(num_sources as nat, |i: int| true),
            r.view_mode == SourceViewMode::AllMerged,
            r.bookmarks@.len() == 0,
    {
        let visible_sources = vec![true; num_sources];
        assert(visible_sources@ =~= Seq::new(num_sources as nat, |i: int| true));
        PaneState {
            scroll: 0,
            stick_to_bottom: true,
            horizontal_scroll: 0,
            viewport_height: 20,
            filtered_indices: Vec::new(),
            active_filter: None,
            filter_text: String::new(),
            filter_is_regex: false,
            filter_last_change: None,
            filter_needs_recompute: false,
            filter_history_idx: None,
            visible_sources,
            view_mode: SourceViewMode::AllMerged,
            bookmarks: Vec::new(),
        }
    }

    /// Clone pane state for creating a split: the same view, filter,
    /// visibility and bookmarks, with no pending filter edit.
    pub fn clone_for_split(&self) -> (r: Self)
        ensures
            r.model() == self.model(),
            r.horizontal_scroll == self.horizontal_scroll,
            r.filter_text@ == self.filter_text@,
            r.filter_is_regex == self.filter_is_regex,
            r.filter_last_change.is_none(),
            !r.filter_needs_recompute,
            r.filter_history_idx.is_none(),
    {
        let active_filter = match &self.active_filter {
            Some(f) => Some(f.duplicate()),
            None => None,
        };
        let r = PaneState {
            scroll: self.scroll,
            stick_to_bottom: self.stick_to_bottom,
            horizontal_scroll: self.horizontal_scroll,
            viewport_height: self.viewport_height,
            filtered_indices: copy_indices(&self.filtered_indices),
            active_filter,
            filter_text: self.filter_text.clone(),
            filter_is_regex: self.filter_is_regex,
            filter_last_change: None,
            filter_needs_recompute: false,
            filter_history_idx: None,
            visible_sources: copy_flags(&self.visible_sources),
            view_mode: self.view_mode,
            bookmarks: copy_indices(&self.bookmarks),
        };
        assert(r.selector() == self.selector());
        r
    }

    /// Get the filter input text.
    pub fn filter_input(&self) -> (r: String)
        ensures
            r@ == self.filter_text@,
    {
        self.filter_text.clone()
    }

    /// Set the filter input text.
    pub fn set_filter_text(&mut self, text: &str)
        ensures
            final(self).filter_text@ == text@,
            final(self).model() == old(self).model(),
            final(self).horizontal_scroll == old(self).horizontal_scroll,
            final(self).filter_is_regex == old(self).filter_is_regex,
            final(self).filter_last_change == old(self).filter_last_change,
            final(self).filter_needs_recompute == old(self).filter_needs_recompute,
            final(self).filter_history_idx == old(self).filter_history_idx,
    {
        self.filter_text = String::from_str(text);
    }

    /// Whether this pane shows `line`.
    pub fn selects_line(&self, line: &LogLine) -> (r: bool)
        ensures
            r == selects(self.selector(), *line),
    {
        let visible = if line.source_id < self.visible_sources.len() {
            self.visible_sources[line.source_id]
        } else {
            true
        };
        if !visible {
            return false;
        }
        match self.view_mode {
            SourceViewMode::AllMerged => {},
            SourceViewMode::SingleSource(id) => {
                if id != line.source_id {
                    return false;
                }
            },
        }
        match &self.active_filter {
            None => true,
            Some(filter) => filter.matches(line.raw.as_str()),
        }
    }

    /// Drop what refers to the evicted head record and shift the rest down.
    pub fn evict_head(&mut self)
        ensures
            final(self).model() == evict_pane(old(self).model()),
            final(self).rest() == old(self).rest(),
    {
        self.bookmarks = shift_out(&self.bookmarks);
        self.filtered_indices = shift_out(&self.filtered_indices);
        self.scroll = clamp_to(self.scroll, self.filtered_indices.len());
    }

    /// Take in the record `line` stored at index `idx`.
    pub fn append_line(&mut self, idx: usize, line: &LogLine)
        ensures
            final(self).model() == append_pane(old(self).model(), idx, *line),
            final(self).rest() == old(self).rest(),
    {
        if self.selects_line(line) {
            self.filtered_indices.push(idx);
        }
    }

    /// Settle scroll after new records: to the bottom when sticking to it,
    /// clamped into the view in every case.
    pub fn settle_scroll(&mut self)
        ensures
            final(self).model() == settle_pane(old(self).model()),
            final(self).rest() == old(self).rest(),
    {
        let n = self.filtered_indices.len();
        if self.stick_to_bottom && n > 0 {
            self.scroll = if n > self.viewport_height {
                n - self.viewport_height
            } else {
                0
            };
        }
        self.scroll = clamp_to(self.scroll, n);
    }
}

/// The first position of `x` in `v`.
pub fn find_position(v: &Vec<usize>, x: usize) -> (r: Option<usize>)
    ensures
        match r {
            Some(p) => p < v@.len() && v@[p as int] == x && forall|q: int| 0 <= q < p ==> v@[q] != x,
            None => forall|q: int| 0 <= q < v@.len() ==> v@[q] != x,
        },
{
    let mut i: usize = 0;
    while i < v.len()
        invariant
            i <= v@.len(),
            forall|q: int| 0 <= q < i ==> v@[q] != x,
        decreases v@.len() - i,
    {
        if v[i] == x {
            return Some(i);
        }
        i += 1;
    }
    None
}

/// A copy of an index list.
pub fn copy_indices(v: &Vec<usize>) -> (r: Vec<usize>)
    ensures
        r@ == v@,
{
    let mut out: Vec<usize> = Vec::new();
    let mut i: usize = 0;
    while i < v.len()
        invariant
            i <= v@.len(),
            out@ == v@.subrange(0, i as int),
        decreases v@.len() - i,
    {
        out.push(v[i]);
        i += 1;
        assert(out@ =~= v@.subrange(0, i as int));
    }
    assert(v@.subrange(0, v@.len() as int) =~= v@);
    out
}

/// A copy of a flag list.
pub fn copy_flags(v: &Vec<bool>) -> (r: Vec<bool>)
    ensures
        r@ == v@,
{
    let mut out: Vec<bool> = Vec::new();
    let mut i: usize = 0;
    while i < v.len()
        invariant
            i <= v@.len(),
            out@ == v@.subrange(0, i as int),
        decreases v@.len() - i,
    {
        out.push(v[i]);
        i += 1;
        assert(out@ =~= v@.subrange(0, i as int));
    }
    assert(v@.subrange(0, v@.len() as int) =~= v@);
    out
}

impl PaneState {
    /// Scroll up by one line; stop following the bottom.
    pub fn scroll_up(&mut self)
        ensures
            final(self).scroll == if old(self).scroll > 0 {
                (old(self).scroll - 1) as usize
            } else {
                0
            },
            final(self).stick_to_bottom == (old(self).stick_to_bottom && old(self).scroll == 0),
            final(self).filtered_indices == old(self).filtered_indices,
            final(self).bookmarks == old(self).bookmarks,
            final(self).selector() == old(self).selector(),
            final(self).viewport_height == old(self).viewport_height,
            final(self).rest() == old(self).rest(),
    {
        if self.scroll > 0 {
            self.scroll -= 1;
            self.stick_to_bottom = false;
        }
    }

    /// Scroll down by one line, not past the last entry.
    pub fn scroll_down(&mut self)
        ensures
            final(self).scroll == if old(self).scroll + 1 < old(self).filtered_indices@.len() {
                (old(self).scroll + 1) as usize
            } else {
                old(self).scroll
            },
            final(self).stick_to_bottom == old(self).stick_to_bottom,
            final(self).filtered_indices == old(self).filtered_indices,
            final(self).bookmarks == old(self).bookmarks,
            final(self).selector() == old(self).selector(),
            final(self).viewport_height == old(self).viewport_height,
            final(self).rest() == old(self).rest(),
    {
        if self.filtered_indices.len() > 0 && self.scroll < self.filtered_indices.len() - 1 {
            self.scroll += 1;
        }
    }

    /// Scroll up by a page; stop following the bottom.
    pub fn scroll_page_up(&mut self, page_size: usize)
        ensures
            final(self).scroll == if old(self).scroll > page_size {
                (old(self).scroll - page_size) as usize
            } else {
                0
            },
            !final(self).stick_to_bottom,
            final(self).filtered_indices == old(self).filtered_indices,
            final(self).bookmarks == old(self).bookmarks,
            final(self).selector() == old(self).selector(),
            final(self).viewport_height == old(self).viewport_height,
            final(self).rest() == old(self).rest(),
    {
        self.scroll = if self.scroll > page_size {
            self.scroll - page_size
        } else {
            0
        };
        self.stick_to_bottom = false;
    }

    /// Scroll down by a page, not past the last entry.
    pub fn scroll_page_down(&mut self, page_size: usize)
        ensures
            final(self).scroll == if old(self).filtered_indices@.len() > 0 {
                if old(self).scroll + page_size < old(self).filtered_indices@.len() - 1 {
                    (old(self).scroll + page_size) as usize
                } else {
                    (old(self).filtered_indices@.len() - 1) as usize
                }
            } else {
                old(self).scroll
            },
            final(self).stick_to_bottom == old(self).stick_to_bottom,
            final(self).filtered_indices == old(self).filtered_indices,
            final(self).bookmarks == old(self).bookmarks,
            final(self).selector() == old(self).selector(),
            final(self).viewport_height == old(self).viewport_height,
            final(self).rest() == old(self).rest(),
    {
        let n = self.filtered_indices.len();
        if n > 0 {
            let last = n - 1;
            self.scroll = if self.scroll < last && page_size < last - self.scroll {
                self.scroll + page_size
            } else {
                last
            };
        }
    }

    /// Go to the top; stop following the bottom.
    pub fn go_to_top(&mut self)
        ensures
            final(self).scroll == 0,
            !final(self).stick_to_bottom,
            final(self).filtered_indices == old(self).filtered_indices,
            final(self).bookmarks == old(self).bookmarks,
            final(self).selector() == old(self).selector(),
            final(self).viewport_height == old(self).viewport_height,
            final(self).rest() == old(self).rest(),
    {
        self.scroll = 0;
        self.stick_to_bottom = false;
    }

    /// Go to the last entry and follow the bottom.
    pub fn go_to_bottom(&mut self)
        ensures
            final(self).scroll == if old(self).filtered_indices@.len() > 0 {
                (old(self).filtered_indices@.len() - 1) as usize
            } else {
                old(self).scroll
            },
            final(self).stick_to_bottom,
            final(self).filtered_indices == old(self).filtered_indices,
            final(self).bookmarks == old(self).bookmarks,
            final(self).selector() == old(self).selector(),
            final(self).viewport_height == old(self).viewport_height,
            final(self).rest() == old(self).rest(),
    {
        if self.filtered_indices.len() > 0 {
            self.scroll = self.filtered_indices.len() - 1;
        }
        self.stick_to_bottom = true;
    }

    /// Rebuild the filtered view from scratch over `lines`, clamping scroll into it.
    pub fn recompute(&mut self, lines: &VecDeque<LogLine>)
        ensures
            final(self).filtered_indices@ == filtered_view(old(self).selector(), lines@),
            final(self).scroll as int == clamp_scroll(old(self).scroll as int, final(self).filtered_indices@.len() as int),
            final(self).stick_to_bottom == old(self).stick_to_bottom,
            final(self).bookmarks == old(self).bookmarks,
            final(self).selector() == old(self).selector(),
            final(self).viewport_height == old(self).viewport_height,
            final(self).rest() == old(self).rest(),
    {
        let mut out: Vec<usize> = Vec::new();
        let mut i: usize = 0;
        while i < lines.len()
            invariant
                i <= lines@.len(),
                out@ == matching_prefix(self.selector(), lines@, i as nat),
            decreases lines@.len() - i,
        {
            if self.selects_line(&lines[i]) {
                out.push(i);
            }
            i += 1;
        }
        self.filtered_indices = out;
        self.scroll = clamp_to(self.scroll, self.filtered_indices.len());
    }

    /// Record the viewport height; when it changed and the pane follows the
    /// bottom, scroll so the last line sits on the bottom row.
    pub fn set_viewport_height(&mut self, height: usize)
        ensures
            final(self).viewport_height == height,
            final(self).scroll == if old(self).viewport_height != height && old(self).stick_to_bottom
                && old(self).filtered_indices@.len() > 0 {
                clamp_scroll(
                    crate::view::bottom_scroll(old(self).filtered_indices@.len() as int, height as int),
                    old(self).filtered_indices@.len() as int,
                ) as usize
            } else {
                old(self).scroll
            },
            scroll_valid(old(self).model()) ==> scroll_valid(final(self).model()),
            final(self).filtered_indices == old(self).filtered_indices,
            final(self).bookmarks == old(self).bookmarks,
            final(self).stick_to_bottom == old(self).stick_to_bottom,
            final(self).selector() == old(self).selector(),
            final(self).rest() == old(self).rest(),
    {
        let changed = self.viewport_height != height;
        self.viewport_height = height;
        let n = self.filtered_indices.len();
        if changed && self.stick_to_bottom && n > 0 {
            self.scroll = clamp_to(if n > height { n - height } else { 0 }, n);
        }
    }

    /// Add the record index `x` to the bookmarks, or remove it if present.
    pub fn toggle_bookmark_at(&mut self, x: usize) -> (removed: bool)
        requires
            increasing(old(self).bookmarks@),
        ensures
            removed == old(self).bookmarks@.contains(x),
            forall|y: usize|
                final(self).bookmarks@.contains(y) <==> (if y == x {
                    !removed
                } else {
                    old(self).bookmarks@.contains(y)
                }),
            increasing(final(self).bookmarks@),
            forall|i: int| 0 <= i < final(self).bookmarks@.len() ==> (#[trigger] final(self).bookmarks@[i] == x
                || old(self).bookmarks@.contains(final(self).bookmarks@[i])),
            final(self).filtered_indices == old(self).filtered_indices,
            final(self).scroll == old(self).scroll,
            final(self).stick_to_bottom == old(self).stick_to_bottom,
            final(self).selector() == old(self).selector(),
            final(self).viewport_height == old(self).viewport_height,
            final(self).rest() == old(self).rest(),
    {
        let ghost b = self.bookmarks@;
        let n = self.bookmarks.len();
        let mut i: usize = 0;
        while i < n && self.bookmarks[i] < x
            invariant
                n == self.bookmarks@.len(),
                self.bookmarks@ == b,
                i <= n,
                forall|j: int| 0 <= j < i ==> self.bookmarks@[j] < x,
            decreases n - i,
        {
            i += 1;
        }
        if i < n && self.bookmarks[i] == x {
            self.bookmarks.remove(i);
            proof {
                assert(b.contains(x));
                assert forall|y: usize| self.bookmarks@.contains(y) <==> (y != x && b.contains(y)) by {
                    if self.bookmarks@.contains(y) {
                        let j = choose|j: int| 0 <= j < self.bookmarks@.len() && self.bookmarks@[j] == y;
                        if j < i {
                            assert(self.bookmarks@[j] == b[j]);
                        } else {
                            assert(self.bookmarks@[j] == b[j + 1]);
                        }
                    }
                    if y != x && b.contains(y) {
                        let j = choose|j: int| 0 <= j < b.len() && b[j] == y;
                        if j < i {
                            assert(self.bookmarks@[j] == y);
                        } else {
                            assert(j != i);
                            assert(self.bookmarks@[j - 1] == y);
                        }
                    }
                }
                assert forall|p: int, q: int| 0 <= p < q < self.bookmarks@.len() implies self.bookmarks@[p]
                    < self.bookmarks@[q] by {
                    let pp = if p < i { p } else { p + 1 };
                    let qq = if q < i { q } else { q + 1 };
                    assert(self.bookmarks@[p] == b[pp]);
                    assert(self.bookmarks@[q] == b[qq]);
                }
                assert forall|p: int| 0 <= p < self.bookmarks@.len() implies (#[trigger] self.bookmarks@[p] == x
                    || b.contains(self.bookmarks@[p])) by {
                    let pp = if p < i { p } else { p + 1 };
                    assert(self.bookmarks@[p] == b[pp]);
                }
            }
            true
        } else {
            self.bookmarks.insert(i, x);
            proof {
                assert(!b.contains(x)) by {
                    if b.contains(x) {
                        let j = choose|j: int| 0 <= j < b.len() && b[j] == x;
                        if j < i {
                        } else if j > i {
                            assert(b[i as int] < b[j]);
                        }
                    }
                }
                assert forall|y: usize| self.bookmarks@.contains(y) <==> (y == x || b.contains(y)) by {
                    if self.bookmarks@.contains(y) {
                        let j = choose|j: int| 0 <= j < self.bookmarks@.len() && self.bookmarks@[j] == y;
                        if j < i {
                            assert(b[j] == y);
                        } else if j > i {
                            assert(b[j - 1] == y);
                        }
                    }
                    if b.contains(y) {
                        let j = choose|j: int| 0 <= j < b.len() && b[j] == y;
                        if j < i {
                            assert(self.bookmarks@[j] == y);
                        } else {
                            assert(self.bookmarks@[j + 1] == y);
                        }
                    }
                    if y == x {
                        assert(self.bookmarks@[i as int] == x);
                    }
                }
                assert forall|p: int, q: int| 0 <= p < q < self.bookmarks@.len() implies self.bookmarks@[p]
                    < self.bookmarks@[q] by {
                    if q < i {
                        assert(self.bookmarks@[p] == b[p] && self.bookmarks@[q] == b[q]);
                    } else if q == i {
                        assert(self.bookmarks@[p] == b[p]);
                    } else if p < i {
                        assert(self.bookmarks@[p] == b[p] && self.bookmarks@[q] == b[q - 1]);
                        assert(b[q - 1] >= b[i as int]);
                    } else if p == i {
                        assert(self.bookmarks@[q] == b[q - 1]);
                        assert(b[q - 1] >= b[i as int]);
                    } else {
                        assert(self.bookmarks@[p] == b[p - 1] && self.bookmarks@[q] == b[q - 1]);
                    }
                }
                assert forall|p: int| 0 <= p < self.bookmarks@.len() implies (#[trigger] self.bookmarks@[p] == x
                    || b.contains(self.bookmarks@[p])) by {
                    if p < i {
                        assert(self.bookmarks@[p] == b[p]);
                    } else if p > i {
                        assert(self.bookmarks@[p] == b[p - 1]);
                    }
                }
            }
            false
        }
    }
}

} // verus!
