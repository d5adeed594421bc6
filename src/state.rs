//! The application state: the bounded record store shared by one or two
//! panes, ingestion with eviction, and the operations on the active pane.

use vstd::prelude::*;
use vstd::string::StringExecFns;
use std::collections::VecDeque;
use crate::config::Config;
use crate::filter::{ActiveFilter, MatchRange, SavedFilter};
use crate::pane::{find_position, PaneRest, PaneState};
use crate::picker::{PickerState, SettingsState};
use crate::record::LogLine;
use crate::sources::{source_name, LogSourceType};
use crate::text::{decimal, decimal_string, lower_of};
use crate::themes::{canonical_theme_name, next_theme_name, theme_after, theme_for};
use crate::view::{
    append_pane, clamp_scroll, evict_pane, evicts, filtered_view, increasing, ingest, ingest_each,
    lemma_ingest_consistent, lemma_push_one_consistent, lemma_settle_consistent,
    lemma_view_same_selection, pane_consistent, push_batch, push_one, selects, settle, settle_pane,
    sorted_below, store_consistent, PaneModel, SourceViewMode, StoreModel,
};

verus! {

/// Input mode for the application.
#[derive(Clone, Copy, Debug, PartialEq, Eq, Structural)]
pub enum InputMode {
    /// Normal navigation mode
    Normal,
    /// Editing the filter text
    FilterEditing,
    /// Selecting a source
    SourceSelect,
    /// Waiting for split command (after Ctrl+W)
    SplitCommand,
}

/// Split direction for dual-pane view.
#[derive(Clone, Copy, Debug, PartialEq, Eq, Structural)]
pub enum SplitDirection {
    /// Single pane (no split)
    Unsplit,
    /// Vertical split (side-by-side)
    Vertical,
    /// Horizontal split (stacked)
    Horizontal,
}

/// Which panel has focus.
#[derive(Clone, Copy, Debug, PartialEq, Eq, Structural)]
pub enum FocusedPanel {
    LogView,
    Sources,
    Filters,
}

/// Maximum number of filters to keep in history.
pub const MAX_FILTER_HISTORY: usize = 50;

pub open spec fn pane_models(ps: Seq<PaneState>) -> Seq<PaneModel> {
    ps.map_values(|p: PaneState| p.model())
}

pub open spec fn pane_rests(ps: Seq<PaneState>) -> Seq<PaneRest> {
    ps.map_values(|p: PaneState| p.rest())
}

fn evict_all(panes: &mut Vec<PaneState>)
    ensures
        pane_models(final(panes)@) == pane_models(old(panes)@).map_values(|m: PaneModel| evict_pane(m)),
        pane_rests(final(panes)@) == pane_rests(old(panes)@),
{
    let ghost start = panes@;
    let mut k: usize = 0;
    while k < panes.len()
        invariant
            panes@.len() == start.len(),
            k <= start.len(),
            forall|j: int| 0 <= j < k ==> (#[trigger] panes@[j]).model() == evict_pane(start[j].model()),
            forall|j: int| 0 <= j < start.len() ==> (#[trigger] panes@[j]).rest() == start[j].rest(),
            forall|j: int| k <= j < start.len() ==> #[trigger] panes@[j] == start[j],
        decreases start.len() - k,
    {
        panes[k].evict_head();
        k += 1;
    }
    assert(pane_models(panes@) =~= pane_models(start).map_values(|m: PaneModel| evict_pane(m)));
    assert(pane_rests(panes@) =~= pane_rests(start));
}

fn append_all(panes: &mut Vec<PaneState>, idx: usize, line: &LogLine)
    ensures
        pane_models(final(panes)@) == pane_models(old(panes)@).map_values(
            |m: PaneModel| append_pane(m, idx, *line),
        ),
        pane_rests(final(panes)@) == pane_rests(old(panes)@),
{
    let ghost start = panes@;
    let mut k: usize = 0;
    while k < panes.len()
        invariant
            panes@.len() == start.len(),
            k <= start.len(),
            forall|j: int| 0 <= j < k ==> (#[trigger] panes@[j]).model() == append_pane(start[j].model(), idx, *line),
            forall|j: int| 0 <= j < start.len() ==> (#[trigger] panes@[j]).rest() == start[j].rest(),
            forall|j: int| k <= j < start.len() ==> #[trigger] panes@[j] == start[j],
        decreases start.len() - k,
    {
        panes[k].append_line(idx, line);
        k += 1;
    }
    assert(pane_models(panes@) =~= pane_models(start).map_values(|m: PaneModel| append_pane(m, idx, *line)));
    assert(pane_rests(panes@) =~= pane_rests(start));
}

fn settle_all(panes: &mut Vec<PaneState>)
    ensures
        pane_models(final(panes)@) == pane_models(old(panes)@).map_values(|m: PaneModel| settle_pane(m)),
        pane_rests(final(panes)@) == pane_rests(old(panes)@),
{
    let ghost start = panes@;
    let mut k: usize = 0;
    while k < panes.len()
        invariant
            panes@.len() == start.len(),
            k <= start.len(),
            forall|j: int| 0 <= j < k ==> (#[trigger] panes@[j]).model() == settle_pane(start[j].model()),
            forall|j: int| 0 <= j < start.len() ==> (#[trigger] panes@[j]).rest() == start[j].rest(),
            forall|j: int| k <= j < start.len() ==> #[trigger] panes@[j] == start[j],
        decreases start.len() - k,
    {
        panes[k].settle_scroll();
        k += 1;
    }
    assert(pane_models(panes@) =~= pane_models(start).map_values(|m: PaneModel| settle_pane(m)));
    assert(pane_rests(panes@) =~= pane_rests(start));
}

/// Main application state.
pub struct AppState {
    /// Ring buffer of log lines
    pub lines: VecDeque<LogLine>,
    /// Maximum lines to keep in the buffer
    pub max_lines: usize,
    /// Available log sources
    pub sources: Vec<LogSourceType>,
    /// Panes (1 or 2)
    pub panes: Vec<PaneState>,
    /// Currently active pane index (0 or 1)
    pub active_pane: usize,
    /// Split direction
    pub split_direction: SplitDirection,
    /// Current input mode
    pub mode: InputMode,
    /// Which panel currently has focus
    pub focused_panel: FocusedPanel,
    /// Index of current/selected source (for Sources panel navigation)
    pub current_source_idx: usize,
    /// Saved filters
    pub saved_filters: Vec<SavedFilter>,
    /// Selected saved filter index (for navigation)
    pub selected_filter_idx: usize,
    /// Whether side panel is visible
    pub show_side_panel: bool,
    /// Whether the app should quit
    pub should_quit: bool,
    /// Status message to display
    pub status_message: Option<String>,
    /// Whether to show help overlay
    pub show_help: bool,
    /// Picker state for adding sources at runtime
    pub picker: PickerState,
    /// Settings overlay state
    pub settings: SettingsState,
    /// Whether to apply log level coloring (for lines without ANSI)
    pub level_colors_enabled: bool,
    /// Whether to wrap long lines
    pub line_wrap: bool,
    /// Whether to show relative timestamps
    pub show_relative_time: bool,
    /// Whether to pretty-print JSON logs
    pub json_pretty: bool,
    /// Whether to show line numbers in log view
    pub show_line_numbers: bool,
    /// Name of the active color theme
    pub theme_name: String,
    /// Export directory for logs
    pub export_dir: String,
    /// Lines received in the last second (for throughput display)
    pub lines_per_second: usize,
    /// Counter for lines in current second
    pub lines_this_second: usize,
    /// When the current second started, in milliseconds
    pub throughput_second_start: u64,
    /// Filter history (recent filters, most recent first)
    pub filter_history: Vec<String>,
    /// Quiet time after a filter edit before the filter is reapplied, in milliseconds
    pub filter_debounce_ms: u64,
}

impl AppState {
    /// The record store and the ingestion-relevant part of every pane.
    pub open spec fn model(&self) -> StoreModel {
        StoreModel {
            lines: self.lines@,
            capacity: self.max_lines as nat,
            panes: pane_models(self.panes@),
        }
    }

    /// The invariant of the state.
    pub open spec fn wf(&self) -> bool {
        &&& 1 <= self.panes@.len() <= 2
        &&& self.active_pane < self.panes@.len()
        &&& store_consistent(self.model())
        &&& self.filter_history@.len() <= MAX_FILTER_HISTORY
    }

    /// As `wf`, except that the active pane's view and scroll may be stale.
    pub open spec fn wf_but_active_view(&self) -> bool {
        &&& 1 <= self.panes@.len() <= 2
        &&& self.active_pane < self.panes@.len()
        &&& self.lines@.len() <= self.max_lines
        &&& self.filter_history@.len() <= MAX_FILTER_HISTORY
        &&& forall|k: int|
            0 <= k < self.panes@.len() && k != self.active_pane ==> (#[trigger] self.panes@[k]).wf(self.lines@)
        &&& sorted_below(self.active().bookmarks@, self.lines@.len() as int)
    }

    /// The fields outside the record store and panes are those of `o`.
    pub open spec fn same_settings(&self, o: &AppState) -> bool {
        &&& self.max_lines == o.max_lines
        &&& self.sources@ == o.sources@
        &&& self.active_pane == o.active_pane
        &&& self.split_direction == o.split_direction
        &&& self.mode == o.mode
        &&& self.focused_panel == o.focused_panel
        &&& self.current_source_idx == o.current_source_idx
        &&& self.saved_filters@ == o.saved_filters@
        &&& self.selected_filter_idx == o.selected_filter_idx
        &&& self.show_side_panel == o.show_side_panel
        &&& self.should_quit == o.should_quit
        &&& self.show_help == o.show_help
        &&& self.level_colors_enabled == o.level_colors_enabled
        &&& self.line_wrap == o.line_wrap
        &&& self.show_relative_time == o.show_relative_time
        &&& self.json_pretty == o.json_pretty
        &&& self.show_line_numbers == o.show_line_numbers
        &&& self.theme_name@ == o.theme_name@
        &&& self.export_dir@ == o.export_dir@
        &&& self.filter_history@ == o.filter_history@
        &&& self.filter_debounce_ms == o.filter_debounce_ms
    }

    pub fn new(config: &Config, sources: Vec<LogSourceType>) -> (r: Self)
        ensures
            r.wf(),
            r.lines@.len() == 0,
            r.max_lines == config.max_lines,
            r.sources@ == sources@,
            r.panes@.len() == 1,
            r.panes@[0].visible_sources@ == Seq::new(sources@.len(), |i: int| true),
            r.panes@[0].stick_to_bottom,
            r.panes@[0].active_filter.is_none(),
            r.active_pane == 0,
            r.split_direction == SplitDirection::Unsplit,
            r.mode == InputMode::Normal,
            r.focused_panel == FocusedPanel::LogView,
            r.show_side_panel == config.show_side_panel,
            r.level_colors_enabled == config.level_colors,
            r.line_wrap == config.line_wrap,
            r.theme_name@ == theme_for(lower_of(config.theme@)),
            r.export_dir@ == config.export_dir@,
            r.filter_history@.len() == 0,
            r.filter_debounce_ms == config.filter_debounce_ms,
            r.status_message.is_none(),
    {
        let initial_pane = PaneState::new(sources.len());
        let mut panes: Vec<PaneState> = Vec::new();
        panes.push(initial_pane);
        let r = AppState {
            lines: VecDeque::new(),
            max_lines: config.max_lines,
            sources,
            panes,
            active_pane: 0,
            split_direction: SplitDirection::Unsplit,
            mode: InputMode::Normal,
            focused_panel: FocusedPanel::LogView,
            current_source_idx: 0,
            saved_filters: Vec::new(),
            selected_filter_idx: 0,
            show_side_panel: config.show_side_panel,
            should_quit: false,
            status_message: None,
            show_help: false,
            picker: PickerState::default(),
            settings: SettingsState::default(),
            level_colors_enabled: config.level_colors,
            line_wrap: config.line_wrap,
            show_relative_time: false,
            json_pretty: false,
            show_line_numbers: false,
            theme_name: String::from_str(canonical_theme_name(config.theme.as_str())),
            export_dir: config.export_dir.clone(),
            lines_per_second: 0,
            lines_this_second: 0,
            throughput_second_start: 0,
            filter_history: Vec::new(),
            filter_debounce_ms: config.filter_debounce_ms,
        };
        proof {
            let p = r.panes@[0];
            assert(r.lines@.len() == 0);
            assert(filtered_view(p.selector(), r.lines@) == Seq::<usize>::empty());
            assert(p.filtered_indices@ =~= Seq::<usize>::empty());
            assert(p.wf(r.lines@));
            assert(r.model().panes[0] == p.model());
        }
        r
    }

    /// Push a new log line into the buffer. When the buffer is full the
    /// oldest line is evicted first and every pane's indices shift down; the
    /// line then joins each pane whose filter it passes, and scroll settles.
    pub fn push_line(&mut self, line: LogLine)
        requires
            old(self).wf(),
        ensures
            final(self).wf(),
            final(self).model() == push_one(old(self).model(), line),
            pane_rests(final(self).panes@) == pane_rests(old(self).panes@),
            final(self).same_settings(old(self)),
    {
        let ghost s0 = self.model();
        self.ingest_line(line);
        settle_all(&mut self.panes);
        proof {
            assert(self.model().panes =~= settle(ingest(s0, line)).panes);
            lemma_push_one_consistent(s0, line);
            assert(pane_rests(self.panes@).len() == pane_rests(old(self).panes@).len());
        }
    }

    fn ingest_line(&mut self, line: LogLine)
        requires
            old(self).wf(),
        ensures
            final(self).wf(),
            final(self).model() == ingest(old(self).model(), line),
            pane_rests(final(self).panes@) == pane_rests(old(self).panes@),
            final(self).same_settings(old(self)),
            final(self).panes@.len() == old(self).panes@.len(),
            forall|k: int| 0 <= k < final(self).panes@.len() ==> (#[trigger] final(self).panes@[k]).filter_history_idx
                == old(self).panes@[k].filter_history_idx,
    {
        let ghost s0 = self.model();
        proof {
            lemma_ingest_consistent(s0, line);
        }
        if self.max_lines == 0 {
            return;
        }
        let evicting = self.lines.len() >= self.max_lines;
        if evicting {
            self.lines.pop_front();
            evict_all(&mut self.panes);
        }
        let ghost mid = self.panes@;
        let idx = self.lines.len();
        append_all(&mut self.panes, idx, &line);
        self.lines.push_back(line);
        proof {
            assert(evicts(s0) == evicting);
            assert(self.model().panes =~= ingest(s0, line).panes);
            assert(self.model().lines =~= ingest(s0, line).lines);
            assert forall|k: int| 0 <= k < self.panes@.len() implies (#[trigger] self.panes@[k]).filter_history_idx
                == old(self).panes@[k].filter_history_idx by {
                assert(pane_rests(self.panes@)[k] == pane_rests(old(self).panes@)[k]);
            }
        }
    }
}

impl AppState {
    /// Push multiple log lines at once: the same final store, views,
    /// bookmarks and scroll as pushing them one at a time, with scroll
    /// settled only once, at the end.
    pub fn push_lines(&mut self, lines: Vec<LogLine>)
        requires
            old(self).wf(),
        ensures
            final(self).wf(),
            final(self).model() == push_batch(old(self).model(), lines@),
            pane_rests(final(self).panes@) == pane_rests(old(self).panes@),
            final(self).same_settings(old(self)),
    {
        let ghost s0 = self.model();
        let ghost batch = lines@;
        if lines.len() == 0 {
            return;
        }
        let mut rest = lines;
        let mut reversed: Vec<LogLine> = Vec::new();
        while rest.len() > 0
            invariant
                rest@.len() + reversed@.len() == batch.len(),
                forall|i: int| 0 <= i < rest@.len() ==> rest@[i] == batch[i],
                forall|i: int| 0 <= i < reversed@.len() ==> reversed@[i] == batch[batch.len() - 1 - i],
            decreases rest@.len(),
        {
            let l = rest.pop().unwrap();
            reversed.push(l);
        }
        let ghost n = batch.len();
        while reversed.len() > 0
            invariant
                reversed@.len() <= n,
                n == batch.len(),
                forall|i: int| 0 <= i < reversed@.len() ==> reversed@[i] == batch[n - 1 - i],
                self.wf(),
                self.model() == ingest_each(s0, batch.subrange(0, n - reversed@.len())),
                pane_rests(self.panes@) == pane_rests(old(self).panes@),
                self.same_settings(old(self)),
            decreases reversed@.len(),
        {
            let ghost done = batch.subrange(0, n - reversed@.len());
            let l = reversed.pop().unwrap();
            self.ingest_line(l);
            proof {
                let next = batch.subrange(0, n - reversed@.len());
                assert(next.drop_last() =~= done);
                assert(next.last() == l);
            }
        }
        proof {
            assert(batch.subrange(0, n as int) =~= batch);
        }
        let ghost before_settle = self.model();
        settle_all(&mut self.panes);
        proof {
            assert(self.model().panes =~= settle(before_settle).panes);
            lemma_settle_consistent(before_settle);
            assert(pane_rests(self.panes@).len() == pane_rests(old(self).panes@).len());
        }
    }
}

/// A counter such as `Match 3/10`, marked when navigation wrapped around.
pub open spec fn counter_text(prefix: Seq<char>, k: nat, n: nat, wrapped: bool) -> Seq<char> {
    prefix + decimal(k) + "/"@ + decimal(n) + if wrapped {
        " (wrapped)"@
    } else {
        Seq::empty()
    }
}

fn counter_message(prefix: &str, k: usize, n: usize, wrapped: bool) -> (r: String)
    ensures
        r@ == counter_text(prefix@, k as nat, n as nat, wrapped),
{
    let mut out = String::from_str(prefix);
    let ks = decimal_string(k as u64);
    let ns = decimal_string(n as u64);
    out.append(ks.as_str());
    out.append("/");
    out.append(ns.as_str());
    if wrapped {
        out.append(" (wrapped)");
    } else {
        assert(out@ =~= out@ + Seq::<char>::empty());
    }
    out
}

/// In a well-formed state every pane agrees with the records.
proof fn lemma_panes_wf(s: AppState)
    requires
        s.wf(),
    ensures
        forall|k: int| 0 <= k < s.panes@.len() ==> (#[trigger] s.panes@[k]).wf(s.lines@),
{
    assert forall|k: int| 0 <= k < s.panes@.len() implies (#[trigger] s.panes@[k]).wf(s.lines@) by {
        assert(pane_consistent(s.model().panes[k], s.lines@));
    }
}

/// Replacing only the active pane by one that agrees with the records keeps the state well formed.
proof fn lemma_active_pane_update(o: AppState, n: AppState)
    requires
        o.wf(),
        n.lines@ == o.lines@,
        n.max_lines == o.max_lines,
        n.filter_history@.len() <= MAX_FILTER_HISTORY,
        n.panes@.len() == o.panes@.len(),
        n.active_pane == o.active_pane,
        forall|k: int| 0 <= k < n.panes@.len() && k != n.active_pane ==> n.panes@[k] == o.panes@[k],
        n.panes@[n.active_pane as int].wf(n.lines@),
    ensures
        n.wf(),
{
    assert forall|k: int| 0 <= k < n.panes@.len() implies pane_consistent(#[trigger] n.model().panes[k], n.model().lines) by {
        if k != n.active_pane {
            assert(o.model().panes[k] == n.model().panes[k]);
        }
    }
}

impl AppState {
    /// The active pane.
    pub open spec fn active(&self) -> PaneState {
        self.panes@[self.active_pane as int]
    }

    /// Only the active pane may differ from `o`, and the records are the same.
    pub open spec fn others_unchanged(&self, o: &AppState) -> bool {
        &&& self.lines@ == o.lines@
        &&& self.panes@.len() == o.panes@.len()
        &&& self.active_pane == o.active_pane
        &&& forall|k: int| 0 <= k < self.panes@.len() && k != self.active_pane ==> self.panes@[k] == o.panes@[k]
    }

    /// Recompute the active pane's filtered view from scratch, clamping its scroll.
    pub fn recompute_filter(&mut self)
        requires
            old(self).wf(),
        ensures
            final(self).wf(),
            final(self).others_unchanged(old(self)),
            final(self).same_settings(old(self)),
            final(self).status_message == old(self).status_message,
            final(self).active().filtered_indices@ == filtered_view(old(self).active().selector(), old(self).lines@),
            final(self).active().scroll as int == clamp_scroll(
                old(self).active().scroll as int,
                final(self).active().filtered_indices@.len() as int,
            ),
            final(self).active().selector() == old(self).active().selector(),
            final(self).active().bookmarks == old(self).active().bookmarks,
            final(self).active().stick_to_bottom == old(self).active().stick_to_bottom,
            final(self).active().viewport_height == old(self).active().viewport_height,
            final(self).active().rest() == old(self).active().rest(),
    {
        proof {
            lemma_panes_wf(*self);
        }
        let a = self.active_pane;
        self.panes[a].recompute(&self.lines);
        proof {
            lemma_active_pane_update(*old(self), *self);
        }
    }

    /// Scroll up by one line.
    pub fn scroll_up(&mut self)
        requires
            old(self).wf(),
        ensures
            final(self).wf(),
            final(self).others_unchanged(old(self)),
            final(self).same_settings(old(self)),
            final(self).active().scroll == if old(self).active().scroll > 0 {
                (old(self).active().scroll - 1) as usize
            } else {
                0
            },
            final(self).active().stick_to_bottom == (old(self).active().stick_to_bottom
                && old(self).active().scroll == 0),
            final(self).active().filtered_indices == old(self).active().filtered_indices,
    {
        proof {
            lemma_panes_wf(*self);
        }
        let a = self.active_pane;
        self.panes[a].scroll_up();
        proof {
            lemma_active_pane_update(*old(self), *self);
        }
    }

    /// Scroll down by one line.
    pub fn scroll_down(&mut self)
        requires
            old(self).wf(),
        ensures
            final(self).wf(),
            final(self).others_unchanged(old(self)),
            final(self).same_settings(old(self)),
            final(self).active().scroll == if old(self).active().scroll + 1
                < old(self).active().filtered_indices@.len() {
                (old(self).active().scroll + 1) as usize
            } else {
                old(self).active().scroll
            },
            final(self).active().stick_to_bottom == old(self).active().stick_to_bottom,
            final(self).active().filtered_indices == old(self).active().filtered_indices,
    {
        proof {
            lemma_panes_wf(*self);
        }
        let a = self.active_pane;
        self.panes[a].scroll_down();
        proof {
            lemma_active_pane_update(*old(self), *self);
        }
    }

    /// Scroll up by a page.
    pub fn scroll_page_up(&mut self, page_size: usize)
        requires
            old(self).wf(),
        ensures
            final(self).wf(),
            final(self).others_unchanged(old(self)),
            final(self).same_settings(old(self)),
            final(self).active().scroll == if old(self).active().scroll > page_size {
                (old(self).active().scroll - page_size) as usize
            } else {
                0
            },
            !final(self).active().stick_to_bottom,
            final(self).active().filtered_indices == old(self).active().filtered_indices,
    {
        proof {
            lemma_panes_wf(*self);
        }
        let a = self.active_pane;
        self.panes[a].scroll_page_up(page_size);
        proof {
            lemma_active_pane_update(*old(self), *self);
        }
    }

    /// Scroll down by a page.
    pub fn scroll_page_down(&mut self, page_size: usize)
        requires
            old(self).wf(),
        ensures
            final(self).wf(),
            final(self).others_unchanged(old(self)),
            final(self).same_settings(old(self)),
            final(self).active().scroll == if old(self).active().filtered_indices@.len() > 0 {
                if old(self).active().scroll + page_size < old(self).active().filtered_indices@.len() - 1 {
                    (old(self).active().scroll + page_size) as usize
                } else {
                    (old(self).active().filtered_indices@.len() - 1) as usize
                }
            } else {
                old(self).active().scroll
            },
            final(self).active().stick_to_bottom == old(self).active().stick_to_bottom,
            final(self).active().filtered_indices == old(self).active().filtered_indices,
    {
        proof {
            lemma_panes_wf(*self);
        }
        let a = self.active_pane;
        self.panes[a].scroll_page_down(page_size);
        proof {
            lemma_active_pane_update(*old(self), *self);
        }
    }

    /// Go to the top of the log.
    pub fn go_to_top(&mut self)
        requires
            old(self).wf(),
        ensures
            final(self).wf(),
            final(self).others_unchanged(old(self)),
            final(self).same_settings(old(self)),
            final(self).active().scroll == 0,
            !final(self).active().stick_to_bottom,
            final(self).active().filtered_indices == old(self).active().filtered_indices,
    {
        proof {
            lemma_panes_wf(*self);
        }
        let a = self.active_pane;
        self.panes[a].go_to_top();
        proof {
            lemma_active_pane_update(*old(self), *self);
        }
    }

    /// Go to the bottom of the log and follow new lines.
    pub fn go_to_bottom(&mut self)
        requires
            old(self).wf(),
        ensures
            final(self).wf(),
            final(self).others_unchanged(old(self)),
            final(self).same_settings(old(self)),
            final(self).active().scroll == if old(self).active().filtered_indices@.len() > 0 {
                (old(self).active().filtered_indices@.len() - 1) as usize
            } else {
                0
            },
            final(self).active().stick_to_bottom,
            final(self).active().filtered_indices == old(self).active().filtered_indices,
    {
        proof {
            lemma_panes_wf(*self);
        }
        let a = self.active_pane;
        self.panes[a].go_to_bottom();
        proof {
            lemma_active_pane_update(*old(self), *self);
        }
    }

    /// Go to the next matching line, wrapping to the first after the last.
    pub fn next_match(&mut self)
        requires
            old(self).wf(),
        ensures
            final(self).wf(),
            final(self).others_unchanged(old(self)),
            final(self).same_settings(old(self)),
            final(self).active().filtered_indices == old(self).active().filtered_indices,
            ({
                let n = old(self).active().filtered_indices@.len();
                let s = old(self).active().scroll;
                if n == 0 {
                    final(self).active().scroll == s && final(self).status_message == old(self).status_message
                        && final(self).active().stick_to_bottom == old(self).active().stick_to_bottom
                } else {
                    let wrapped = s + 1 >= n;
                    let t: nat = if wrapped { 0 } else { (s + 1) as nat };
                    &&& final(self).active().scroll == t
                    &&& !final(self).active().stick_to_bottom
                    &&& (final(self).status_message matches Some(m) && m@ == counter_text(
                        "Match "@,
                        t + 1,
                        n,
                        wrapped,
                    ))
                }
            }),
    {
        proof {
            lemma_panes_wf(*self);
        }
        let a = self.active_pane;
        let n = self.panes[a].filtered_indices.len();
        if n == 0 {
            return;
        }
        let wrapped = self.panes[a].scroll >= n - 1;
        let target = if wrapped { 0 } else { self.panes[a].scroll + 1 };
        self.panes[a].scroll = target;
        self.panes[a].stick_to_bottom = false;
        self.status_message = Some(counter_message("Match ", target + 1, n, wrapped));
        proof {
            lemma_active_pane_update(*old(self), *self);
        }
    }

    /// Go to the previous matching line, wrapping to the last before the first.
    pub fn prev_match(&mut self)
        requires
            old(self).wf(),
        ensures
            final(self).wf(),
            final(self).others_unchanged(old(self)),
            final(self).same_settings(old(self)),
            final(self).active().filtered_indices == old(self).active().filtered_indices,
            ({
                let n = old(self).active().filtered_indices@.len();
                let s = old(self).active().scroll;
                if n == 0 {
                    final(self).active().scroll == s && final(self).status_message == old(self).status_message
                        && final(self).active().stick_to_bottom == old(self).active().stick_to_bottom
                } else {
                    let wrapped = s == 0;
                    let t: nat = if wrapped { (n - 1) as nat } else { (s - 1) as nat };
                    &&& final(self).active().scroll == t
                    &&& !final(self).active().stick_to_bottom
                    &&& (final(self).status_message matches Some(m) && m@ == counter_text(
                        "Match "@,
                        t + 1,
                        n,
                        wrapped,
                    ))
                }
            }),
    {
        proof {
            lemma_panes_wf(*self);
        }
        let a = self.active_pane;
        let n = self.panes[a].filtered_indices.len();
        if n == 0 {
            return;
        }
        let wrapped = self.panes[a].scroll == 0;
        let target = if wrapped { n - 1 } else { self.panes[a].scroll - 1 };
        self.panes[a].scroll = target;
        self.panes[a].stick_to_bottom = false;
        self.status_message = Some(counter_message("Match ", target + 1, n, wrapped));
        proof {
            lemma_active_pane_update(*old(self), *self);
        }
    }

    /// Get total and filtered line counts of the active pane.
    pub fn line_counts(&self) -> (r: (usize, usize))
        requires
            self.wf(),
        ensures
            r == (self.lines@.len() as usize, self.active().filtered_indices@.len() as usize),
    {
        (self.lines.len(), self.panes[self.active_pane].filtered_indices.len())
    }

    /// Get total and filtered line counts of a pane; a pane that does not
    /// exist shows nothing.
    pub fn line_counts_for_pane(&self, pane_idx: usize) -> (r: (usize, usize))
        ensures
            r == (self.lines@.len() as usize, if pane_idx < self.panes@.len() {
                self.panes@[pane_idx as int].filtered_indices@.len() as usize
            } else {
                0
            }),
    {
        if pane_idx >= self.panes.len() {
            return (self.lines.len(), 0);
        }
        (self.lines.len(), self.panes[pane_idx].filtered_indices.len())
    }

    /// The raw text of each line in a pane's filtered view, in order; nothing
    /// for a pane that does not exist.
    pub fn export_lines(&self, pane_idx: usize) -> (r: Vec<String>)
        requires
            self.wf(),
        ensures
            pane_idx < self.panes@.len() ==> r@.len() == self.panes@[pane_idx as int].filtered_indices@.len()
                && forall|i: int|
                0 <= i < r@.len() ==> #[trigger] r@[i]@ == self.lines@[self.panes@[pane_idx as int].filtered_indices@[i] as int].raw@,
            pane_idx >= self.panes@.len() ==> r@.len() == 0,
    {
        let mut out: Vec<String> = Vec::new();
        if pane_idx >= self.panes.len() {
            return out;
        }
        let pane = &self.panes[pane_idx];
        proof {
            assert(pane_consistent(self.model().panes[pane_idx as int], self.lines@));
            crate::view::lemma_prefix_sorted(pane.selector(), self.lines@, self.lines@.len());
        }
        let mut i: usize = 0;
        while i < pane.filtered_indices.len()
            invariant
                i <= pane.filtered_indices@.len(),
                sorted_below(pane.filtered_indices@, self.lines@.len() as int),
                out@.len() == i,
                forall|j: int| 0 <= j < i ==> #[trigger] out@[j]@ == self.lines@[pane.filtered_indices@[j] as int].raw@,
            decreases pane.filtered_indices@.len() - i,
        {
            let idx = pane.filtered_indices[i];
            out.push(self.lines[idx].raw.clone());
            i += 1;
        }
        out
    }

    /// The raw text of the line at the active pane's scroll position.
    pub fn get_current_line_text(&self) -> (r: Option<String>)
        requires
            self.wf(),
        ensures
            self.active().filtered_indices@.len() == 0 ==> r.is_none(),
            self.active().filtered_indices@.len() > 0 ==> (r matches Some(t) && t@ == self.lines@[
                self.active().filtered_indices@[self.active().scroll as int] as int
            ].raw@),
    {
        let pane = &self.panes[self.active_pane];
        if pane.filtered_indices.len() == 0 {
            return None;
        }
        proof {
            assert(pane_consistent(self.model().panes[self.active_pane as int], self.lines@));
            crate::view::lemma_prefix_sorted(pane.selector(), self.lines@, self.lines@.len());
        }
        let idx = pane.filtered_indices[pane.scroll];
        Some(self.lines[idx].raw.clone())
    }
}

/// The first position at or after `i` whose bookmark lies above `cur`, or `b.len()`.
pub open spec fn first_above(b: Seq<usize>, cur: usize, i: nat) -> nat
    decreases b.len() - i,
{
    if i >= b.len() {
        b.len()
    } else if b[i as int] > cur {
        i
    } else {
        first_above(b, cur, i + 1)
    }
}

/// The last position below `n` whose bookmark lies below `cur`, or -1.
pub open spec fn last_below(b: Seq<usize>, cur: usize, n: nat) -> int
    decreases n,
{
    if n == 0 || n > b.len() {
        -1
    } else if b[n - 1] < cur {
        n - 1
    } else {
        last_below(b, cur, (n - 1) as nat)
    }
}

/// The record index under a pane's scroll position, 0 when its view is empty.
pub open spec fn current_index(p: PaneState) -> usize {
    if p.scroll < p.filtered_indices@.len() {
        p.filtered_indices@[p.scroll as int]
    } else {
        0
    }
}

/// Where bookmark navigation lands: the position of the target bookmark and
/// whether the search wrapped around; `None` without bookmarks.
pub open spec fn bookmark_target(b: Seq<usize>, cur: usize, forward: bool) -> Option<(int, bool)> {
    if b.len() == 0 {
        None
    } else if forward {
        let i = first_above(b, cur, 0);
        if i < b.len() {
            Some((i as int, false))
        } else {
            Some((0, true))
        }
    } else {
        let i = last_below(b, cur, b.len());
        if i >= 0 {
            Some((i, false))
        } else {
            Some((b.len() - 1, true))
        }
    }
}

/// The outcome of bookmark navigation on the active pane: with no bookmarks
/// only a status; when the target bookmark is in the view, scroll moves to it
/// and the status counts it; when it is filtered out, nothing changes.
pub open spec fn bookmark_jump(o: AppState, n: AppState, forward: bool) -> bool {
    let p = o.active();
    let q = n.active();
    let b = p.bookmarks@;
    let f = p.filtered_indices@;
    match bookmark_target(b, current_index(p), forward) {
        None => {
            &&& n.status_message matches Some(m) && m@ == "No bookmarks"@
            &&& q == p
        },
        Some((i, wrapped)) => {
            let target = b[i];
            if exists|j: int| 0 <= j < f.len() && f[j] == target {
                &&& q.scroll < f.len()
                &&& f[q.scroll as int] == target
                &&& !q.stick_to_bottom
                &&& q.filtered_indices == p.filtered_indices
                &&& q.bookmarks == p.bookmarks
                &&& q.selector() == p.selector()
                &&& q.viewport_height == p.viewport_height
                &&& q.rest() == p.rest()
                &&& (n.status_message matches Some(m) && m@ == counter_text(
                    "Bookmark "@,
                    (i + 1) as nat,
                    b.len(),
                    wrapped,
                ))
            } else {
                &&& q == p
                &&& n.status_message == o.status_message
            }
        },
    }
}

proof fn lemma_none_above(b: Seq<usize>, cur: usize, i: nat)
    requires
        forall|j: int| 0 <= j < b.len() ==> b[j] <= cur,
    ensures
        first_above(b, cur, i) == b.len(),
    decreases b.len() - i,
{
    if i < b.len() {
        lemma_none_above(b, cur, i + 1);
    }
}

proof fn lemma_none_below(b: Seq<usize>, cur: usize, n: nat)
    requires
        forall|j: int| 0 <= j < b.len() ==> b[j] >= cur,
    ensures
        last_below(b, cur, n) == -1,
    decreases n,
{
    if n > 0 {
        lemma_none_below(b, cur, (n - 1) as nat);
    }
}

/// Bookmark wrap: from the last (highest) bookmark, the next bookmark is the
/// first one, reached by wrapping around; from the first (lowest), the
/// previous is the last one, reached by wrapping around.
pub proof fn lemma_bookmark_wrap(b: Seq<usize>)
    requires
        b.len() > 0,
        increasing(b),
    ensures
        bookmark_target(b, b.last(), true) == Some((0int, true)),
        bookmark_target(b, b[0], false) == Some(((b.len() - 1) as int, true)),
{
    assert forall|j: int| 0 <= j < b.len() implies #[trigger] b[j] <= b.last() by {
        if j < b.len() - 1 {
            assert(b[j] < b[b.len() - 1]);
        }
    }
    assert forall|j: int| 0 <= j < b.len() implies #[trigger] b[j] >= b[0] by {
        if j > 0 {
            assert(b[0] < b[j]);
        }
    }
    lemma_none_above(b, b.last(), 0);
    lemma_none_below(b, b[0], b.len());
}

/// Debounce gating: after a filter edit at `t0` with debounce time `d`, a
/// check at `t0 + d - 1` milliseconds does not apply the filter and a check at
/// `t0 + d + 1` does.
pub proof fn lemma_debounce_gating(p: PaneState, t0: u64, d: u64)
    requires
        p.filter_last_change == Some(t0),
        p.filter_needs_recompute,
        d >= 1,
        t0 + d + 1 <= u64::MAX,
    ensures
        !debounce_due(p, (t0 + d - 1) as u64, d),
        debounce_due(p, (t0 + d + 1) as u64, d),
{
}

fn find_first_above(b: &Vec<usize>, cur: usize) -> (r: usize)
    ensures
        r as nat == first_above(b@, cur, 0),
{
    let mut i: usize = 0;
    while i < b.len() && b[i] <= cur
        invariant
            i <= b@.len(),
            first_above(b@, cur, 0) == first_above(b@, cur, i as nat),
        decreases b@.len() - i,
    {
        i += 1;
    }
    i
}

fn find_last_below(b: &Vec<usize>, cur: usize) -> (r: Option<usize>)
    ensures
        match r {
            Some(i) => i < b@.len() && i as int == last_below(b@, cur, b@.len()),
            None => last_below(b@, cur, b@.len()) == -1,
        },
{
    let mut n: usize = b.len();
    while n > 0 && b[n - 1] >= cur
        invariant
            n <= b@.len(),
            last_below(b@, cur, b@.len()) == last_below(b@, cur, n as nat),
        decreases n,
    {
        n -= 1;
    }
    if n == 0 {
        None
    } else {
        Some(n - 1)
    }
}

fn bookmark_choice(b: &Vec<usize>, cur: usize, forward: bool) -> (r: (usize, bool))
    requires
        b@.len() > 0,
    ensures
        r.0 < b@.len(),
        bookmark_target(b@, cur, forward) == Some((r.0 as int, r.1)),
{
    let n = b.len();
    if forward {
        let i = find_first_above(b, cur);
        if i < n {
            (i, false)
        } else {
            (0, true)
        }
    } else {
        match find_last_below(b, cur) {
            Some(i) => (i, false),
            None => (n - 1, true),
        }
    }
}

impl AppState {
    #[verifier::rlimit(40)]
    fn jump_to_bookmark(&mut self, forward: bool)
        requires
            old(self).wf(),
        ensures
            final(self).wf(),
            final(self).others_unchanged(old(self)),
            final(self).same_settings(old(self)),
            bookmark_jump(*old(self), *final(self), forward),
    {
        proof {
            lemma_panes_wf(*self);
        }
        let a = self.active_pane;
        let n = self.panes[a].bookmarks.len();
        if n == 0 {
            self.status_message = Some(String::from_str("No bookmarks"));
            return;
        }
        let s = self.panes[a].scroll;
        let cur = if s < self.panes[a].filtered_indices.len() {
            self.panes[a].filtered_indices[s]
        } else {
            0
        };
        let (i, wrapped) = bookmark_choice(&self.panes[a].bookmarks, cur, forward);
        let target = self.panes[a].bookmarks[i];
        match find_position(&self.panes[a].filtered_indices, target) {
            Some(pos) => {
                self.panes[a].scroll = pos;
                self.panes[a].stick_to_bottom = false;
                self.status_message = Some(counter_message("Bookmark ", i + 1, n, wrapped));
                proof {
                    lemma_active_pane_update(*old(self), *self);
                }
            },
            None => {},
        }
    }

    /// Jump to the nearest bookmark after the current line, wrapping around
    /// to the first.
    pub fn next_bookmark(&mut self)
        requires
            old(self).wf(),
        ensures
            final(self).wf(),
            final(self).others_unchanged(old(self)),
            final(self).same_settings(old(self)),
            bookmark_jump(*old(self), *final(self), true),
    {
        self.jump_to_bookmark(true);
    }

    /// Jump to the nearest bookmark before the current line, wrapping around
    /// to the last.
    pub fn prev_bookmark(&mut self)
        requires
            old(self).wf(),
        ensures
            final(self).wf(),
            final(self).others_unchanged(old(self)),
            final(self).same_settings(old(self)),
            bookmark_jump(*old(self), *final(self), false),
    {
        self.jump_to_bookmark(false);
    }

    /// Toggle a bookmark on the record under the active pane's scroll position.
    pub fn toggle_bookmark(&mut self)
        requires
            old(self).wf(),
        ensures
            final(self).wf(),
            final(self).others_unchanged(old(self)),
            final(self).same_settings(old(self)),
            final(self).active().filtered_indices == old(self).active().filtered_indices,
            final(self).active().scroll == old(self).active().scroll,
            old(self).active().filtered_indices@.len() == 0 ==> final(self).active() == old(self).active()
                && final(self).status_message == old(self).status_message,
            old(self).active().filtered_indices@.len() > 0 ==> ({
                let x = current_index(old(self).active());
                let was = old(self).active().bookmarks@.contains(x);
                &&& forall|y: usize|
                    final(self).active().bookmarks@.contains(y) <==> (if y == x {
                        !was
                    } else {
                        old(self).active().bookmarks@.contains(y)
                    })
                &&& (final(self).status_message matches Some(m) && m@ == if was {
                    "Bookmark removed"@
                } else {
                    "Bookmark added"@
                })
            }),
    {
        proof {
            lemma_panes_wf(*self);
        }
        let a = self.active_pane;
        if self.panes[a].filtered_indices.len() == 0 {
            return;
        }
        proof {
            crate::view::lemma_prefix_sorted(self.panes@[a as int].selector(), self.lines@, self.lines@.len());
        }
        let x = self.panes[a].filtered_indices[self.panes[a].scroll];
        let removed = self.panes[a].toggle_bookmark_at(x);
        self.status_message = Some(if removed {
            String::from_str("Bookmark removed")
        } else {
            String::from_str("Bookmark added")
        });
        proof {
            let b = self.panes@[a as int].bookmarks@;
            assert forall|i: int| 0 <= i < b.len() implies b[i] < self.lines@.len() by {
                if b[i] != x {
                    assert(old(self).panes@[a as int].bookmarks@.contains(b[i]));
                }
            }
            lemma_active_pane_update(*old(self), *self);
        }
    }

    /// Check if a record index is bookmarked in the active pane.
    pub fn is_bookmarked(&self, line_idx: usize) -> (r: bool)
        requires
            self.wf(),
        ensures
            r == self.active().bookmarks@.contains(line_idx),
    {
        match find_position(&self.panes[self.active_pane].bookmarks, line_idx) {
            Some(p) => true,
            None => false,
        }
    }
}

/// The history entries as text.
pub open spec fn history_view(h: Seq<String>) -> Seq<Seq<char>> {
    h.map_values(|s: String| s@)
}

/// `h` without any entry equal to `p`.
pub open spec fn remove_all(h: Seq<Seq<char>>, p: Seq<char>) -> Seq<Seq<char>>
    decreases h.len(),
{
    if h.len() == 0 {
        seq![]
    } else {
        let rest = remove_all(h.drop_last(), p);
        if h.last() == p {
            rest
        } else {
            rest.push(h.last())
        }
    }
}

/// History after `p` is applied: `p` first, no other copy of it, at most
/// `MAX_FILTER_HISTORY` entries; an empty pattern leaves it alone.
pub open spec fn history_add(h: Seq<Seq<char>>, p: Seq<char>) -> Seq<Seq<char>> {
    if p.len() == 0 {
        h
    } else {
        let r = seq![p] + remove_all(h, p);
        if r.len() > MAX_FILTER_HISTORY {
            r.subrange(0, MAX_FILTER_HISTORY as int)
        } else {
            r
        }
    }
}

/// The filter that input text makes: none for empty text.
pub open spec fn filter_for(text: Seq<char>, is_regex: bool) -> Option<(Seq<char>, bool)> {
    if text.len() == 0 {
        None
    } else {
        Some((text, is_regex))
    }
}

/// The debounce time has passed since the last filter edit, and the edit is
/// not applied yet.
pub open spec fn debounce_due(p: PaneState, now_ms: u64, debounce_ms: u64) -> bool {
    &&& p.filter_needs_recompute
    &&& p.filter_last_change matches Some(t)
    &&& now_ms >= t
    &&& now_ms - t >= debounce_ms
}

fn make_filter(text: String, is_regex: bool) -> (r: Option<ActiveFilter>)
    ensures
        (match r {
            Some(f) => Some((f.spec_pattern(), f.spec_is_regex())),
            None => None,
        }) == filter_for(text@, is_regex),
{
    if text.as_str().is_empty() {
        None
    } else {
        Some(ActiveFilter::new(text, is_regex))
    }
}

impl AppState {
    /// Rebuild the active pane's view after its selection changed.
    fn refresh_active_view(&mut self)
        requires
            old(self).wf_but_active_view(),
        ensures
            final(self).wf(),
            final(self).others_unchanged(old(self)),
            final(self).same_settings(old(self)),
            final(self).status_message == old(self).status_message,
            final(self).mode == old(self).mode,
            final(self).active().filtered_indices@ == filtered_view(old(self).active().selector(), old(self).lines@),
            final(self).active().scroll as int == clamp_scroll(
                old(self).active().scroll as int,
                final(self).active().filtered_indices@.len() as int,
            ),
            final(self).active().selector() == old(self).active().selector(),
            final(self).active().bookmarks == old(self).active().bookmarks,
            final(self).active().stick_to_bottom == old(self).active().stick_to_bottom,
            final(self).active().viewport_height == old(self).active().viewport_height,
            final(self).active().rest() == old(self).active().rest(),
    {
        let a = self.active_pane;
        self.panes[a].recompute(&self.lines);
        proof {
            crate::view::lemma_prefix_sorted(self.active().selector(), self.lines@, self.lines@.len());
            assert forall|k: int| 0 <= k < self.panes@.len() implies pane_consistent(
                #[trigger] self.model().panes[k],
                self.model().lines,
            ) by {
                assert(self.model().panes[k] == self.panes@[k].model());
                if k != a {
                    assert(self.panes@[k] == old(self).panes@[k]);
                    assert(old(self).panes@[k].wf(old(self).lines@));
                }
            }
        }
    }

    /// Add a pattern to the filter history: first, without other copies, at
    /// most `MAX_FILTER_HISTORY` entries. Empty patterns are not kept.
    pub fn add_to_filter_history(&mut self, pattern: String)
        requires
            old(self).wf(),
        ensures
            final(self).wf(),
            history_view(final(self).filter_history@) == history_add(history_view(old(self).filter_history@), pattern@),
            pattern@.len() > 0 ==> final(self).active().filter_history_idx.is_none(),
            pattern@.len() > 0 ==> final(self).active().model() == old(self).active().model(),
            final(self).others_unchanged(old(self)),
            final(self).max_lines == old(self).max_lines,
            final(self).mode == old(self).mode,
            final(self).status_message == old(self).status_message,
    {
        if pattern.as_str().is_empty() {
            return;
        }
        let ghost h = history_view(self.filter_history@);
        let mut kept: Vec<String> = Vec::new();
        let mut i: usize = 0;
        while i < self.filter_history.len()
            invariant
                i <= self.filter_history@.len(),
                h == history_view(self.filter_history@),
                history_view(kept@) == remove_all(h.subrange(0, i as int), pattern@),
            decreases self.filter_history@.len() - i,
        {
            proof {
                assert(h.subrange(0, i + 1).drop_last() =~= h.subrange(0, i as int));
            }
            if self.filter_history[i] != pattern {
                let c = self.filter_history[i].clone();
                let ghost before = kept@;
                kept.push(c);
                proof {
                    assert(history_view(kept@) =~= history_view(before).push(c@));
                }
            }
            i += 1;
        }
        proof {
            assert(h.subrange(0, h.len() as int) =~= h);
        }
        let ghost removed = kept@;
        kept.insert(0, pattern);
        proof {
            assert(history_view(kept@) =~= seq![pattern@] + history_view(removed));
        }
        if kept.len() > MAX_FILTER_HISTORY {
            let ghost full = kept@;
            kept.truncate(MAX_FILTER_HISTORY);
            proof {
                assert(history_view(kept@) =~= history_view(full).subrange(0, MAX_FILTER_HISTORY as int));
            }
        }
        self.filter_history = kept;
        let a = self.active_pane;
        self.panes[a].filter_history_idx = None;
        proof {
            lemma_panes_wf(*old(self));
            lemma_active_pane_update(*old(self), *self);
        }
    }

    /// Browse to an older history entry, staging it into the filter input.
    /// Returns whether anything changed.
    pub fn filter_history_up(&mut self) -> (r: bool)
        requires
            old(self).wf(),
        ensures
            final(self).wf(),
            final(self).others_unchanged(old(self)),
            final(self).same_settings(old(self)),
            final(self).active().model() == old(self).active().model(),
            ({
                let h = old(self).filter_history@;
                let next: int = match old(self).active().filter_history_idx {
                    None => 0,
                    Some(i) => i + 1,
                };
                if h.len() > 0 && next < h.len() {
                    &&& r
                    &&& final(self).active().filter_history_idx == Some(next as usize)
                    &&& final(self).active().filter_text@ == h[next]@
                } else {
                    &&& !r
                    &&& final(self).active() == old(self).active()
                }
            }),
    {
        proof {
            lemma_panes_wf(*self);
        }
        let a = self.active_pane;
        let next = match self.panes[a].filter_history_idx {
            None => 0,
            Some(i) => {
                if i >= self.filter_history.len() {
                    return false;
                }
                i + 1
            },
        };
        if next >= self.filter_history.len() {
            return false;
        }
        self.panes[a].filter_history_idx = Some(next);
        self.panes[a].set_filter_text(self.filter_history[next].as_str());
        proof {
            lemma_active_pane_update(*old(self), *self);
        }
        true
    }

    /// Browse to a newer history entry, or back to an empty input from the
    /// newest. Returns whether anything changed.
    pub fn filter_history_down(&mut self) -> (r: bool)
        requires
            old(self).wf(),
        ensures
            final(self).wf(),
            final(self).others_unchanged(old(self)),
            final(self).same_settings(old(self)),
            final(self).active().model() == old(self).active().model(),
            ({
                let h = old(self).filter_history@;
                match old(self).active().filter_history_idx {
                    Some(i) => if i == 0 {
                        &&& r
                        &&& final(self).active().filter_history_idx.is_none()
                        &&& final(self).active().filter_text@.len() == 0
                    } else if i - 1 < h.len() {
                        &&& r
                        &&& final(self).active().filter_history_idx == Some((i - 1) as usize)
                        &&& final(self).active().filter_text@ == h[i - 1]@
                    } else {
                        &&& !r
                        &&& final(self).active() == old(self).active()
                    },
                    None => !r && final(self).active() == old(self).active(),
                }
            }),
    {
        proof {
            lemma_panes_wf(*self);
        }
        let a = self.active_pane;
        match self.panes[a].filter_history_idx {
            Some(i) => {
                if i == 0 {
                    self.panes[a].filter_history_idx = None;
                    self.panes[a].set_filter_text("");
                    proof {
                        reveal_strlit("");
                        lemma_active_pane_update(*old(self), *self);
                    }
                    true
                } else if i - 1 < self.filter_history.len() {
                    self.panes[a].filter_history_idx = Some(i - 1);
                    self.panes[a].set_filter_text(self.filter_history[i - 1].as_str());
                    proof {
                        lemma_active_pane_update(*old(self), *self);
                    }
                    true
                } else {
                    false
                }
            },
            None => false,
        }
    }

    /// Get the active pane's filter input text.
    pub fn filter_input(&self) -> (r: String)
        requires
            self.wf(),
        ensures
            r@ == self.active().filter_text@,
    {
        self.panes[self.active_pane].filter_input()
    }

    /// Set the active pane's filter input text.
    pub fn set_filter_text(&mut self, text: &str)
        requires
            old(self).wf(),
        ensures
            final(self).wf(),
            final(self).others_unchanged(old(self)),
            final(self).same_settings(old(self)),
            final(self).active().filter_text@ == text@,
            final(self).active().model() == old(self).active().model(),
    {
        proof {
            lemma_panes_wf(*self);
        }
        let a = self.active_pane;
        self.panes[a].set_filter_text(text);
        proof {
            lemma_active_pane_update(*old(self), *self);
        }
    }

    /// Apply the filter input as the active pane's filter at once: commit it
    /// to history, rebuild the view, and leave filter editing.
    pub fn apply_filter(&mut self)
        requires
            old(self).wf(),
        ensures
            final(self).wf(),
            final(self).lines@ == old(self).lines@,
            final(self).active_pane == old(self).active_pane,
            final(self).active().selector().filter == filter_for(
                old(self).active().filter_text@,
                old(self).active().filter_is_regex,
            ),
            final(self).active().filtered_indices@ == filtered_view(final(self).active().selector(), final(self).lines@),
            history_view(final(self).filter_history@) == history_add(
                history_view(old(self).filter_history@),
                old(self).active().filter_text@,
            ),
            final(self).mode == InputMode::Normal,
            final(self).active().filter_last_change.is_none(),
            !final(self).active().filter_needs_recompute,
            final(self).active().filter_history_idx.is_none(),
    {
        proof {
            lemma_panes_wf(*self);
        }
        let a = self.active_pane;
        let input = self.panes[a].filter_input();
        let is_regex = self.panes[a].filter_is_regex;
        if !input.as_str().is_empty() {
            self.add_to_filter_history(input.clone());
            proof {
                lemma_panes_wf(*self);
            }
        }
        let f = make_filter(input, is_regex);
        self.panes[a].active_filter = f;
        self.refresh_active_view();
        self.mode = InputMode::Normal;
        self.panes[a].filter_last_change = None;
        self.panes[a].filter_needs_recompute = false;
        self.panes[a].filter_history_idx = None;
        proof {
            lemma_panes_wf(*self);
        }
    }

    /// Leave filter editing, restoring the input to the active filter's pattern.
    pub fn cancel_filter(&mut self)
        requires
            old(self).wf(),
        ensures
            final(self).wf(),
            final(self).others_unchanged(old(self)),
            final(self).active().model() == old(self).active().model(),
            final(self).active().filter_text@ == match old(self).active().selector().filter {
                Some(f) => f.0,
                None => Seq::empty(),
            },
            final(self).mode == InputMode::Normal,
            final(self).active().filter_last_change.is_none(),
            !final(self).active().filter_needs_recompute,
            final(self).active().filter_history_idx.is_none(),
    {
        proof {
            lemma_panes_wf(*self);
        }
        let a = self.active_pane;
        let prev = match &self.panes[a].active_filter {
            Some(f) => f.pattern().clone(),
            None => String::new(),
        };
        self.panes[a].filter_text = prev;
        self.mode = InputMode::Normal;
        self.panes[a].filter_last_change = None;
        self.panes[a].filter_needs_recompute = false;
        self.panes[a].filter_history_idx = None;
        proof {
            lemma_active_pane_update(*old(self), *self);
        }
    }

    /// Mark that the filter input changed at `now_ms`; the filter is not
    /// reapplied until the debounce time has passed.
    pub fn filter_changed(&mut self, now_ms: u64)
        requires
            old(self).wf(),
        ensures
            final(self).wf(),
            final(self).others_unchanged(old(self)),
            final(self).same_settings(old(self)),
            final(self).active().model() == old(self).active().model(),
            final(self).active().filter_last_change == Some(now_ms),
            final(self).active().filter_needs_recompute,
    {
        proof {
            lemma_panes_wf(*self);
        }
        let a = self.active_pane;
        self.panes[a].filter_last_change = Some(now_ms);
        self.panes[a].filter_needs_recompute = true;
        proof {
            lemma_active_pane_update(*old(self), *self);
        }
    }

    /// At `now_ms`, apply the staged filter input if the debounce time has
    /// passed since the last edit; otherwise change nothing.
    pub fn check_filter_debounce(&mut self, now_ms: u64)
        requires
            old(self).wf(),
        ensures
            final(self).wf(),
            final(self).others_unchanged(old(self)),
            final(self).same_settings(old(self)),
            !debounce_due(old(self).active(), now_ms, old(self).filter_debounce_ms) ==> final(self).active()
                == old(self).active(),
            debounce_due(old(self).active(), now_ms, old(self).filter_debounce_ms) ==> ({
                &&& final(self).active().selector().filter == filter_for(
                    old(self).active().filter_text@,
                    old(self).active().filter_is_regex,
                )
                &&& final(self).active().filtered_indices@ == filtered_view(
                    final(self).active().selector(),
                    final(self).lines@,
                )
                &&& !final(self).active().filter_needs_recompute
            }),
    {
        proof {
            lemma_panes_wf(*self);
        }
        let a = self.active_pane;
        let due = match self.panes[a].filter_last_change {
            Some(t) => self.panes[a].filter_needs_recompute && now_ms >= t && now_ms - t >= self.filter_debounce_ms,
            None => false,
        };
        if !due {
            return;
        }
        let input = self.panes[a].filter_input();
        let is_regex = self.panes[a].filter_is_regex;
        self.panes[a].active_filter = make_filter(input, is_regex);
        self.refresh_active_view();
        self.panes[a].filter_needs_recompute = false;
        proof {
            lemma_panes_wf(*self);
            lemma_active_pane_update(*old(self), *self);
        }
    }

    /// Toggle regex mode for filtering; an active filter is remade in the new mode.
    pub fn toggle_regex_mode(&mut self)
        requires
            old(self).wf(),
        ensures
            final(self).wf(),
            final(self).others_unchanged(old(self)),
            final(self).active().filter_is_regex == !old(self).active().filter_is_regex,
            old(self).active().active_filter.is_some() ==> final(self).active().selector().filter == filter_for(
                old(self).active().filter_text@,
                !old(self).active().filter_is_regex,
            ),
            old(self).active().active_filter.is_none() ==> final(self).active().active_filter.is_none(),
            final(self).active().filtered_indices@ == filtered_view(final(self).active().selector(), final(self).lines@),
            final(self).status_message matches Some(m) && m@ == if final(self).active().filter_is_regex {
                "Filter mode: regex"@
            } else {
                "Filter mode: substring"@
            },
    {
        proof {
            lemma_panes_wf(*self);
        }
        let a = self.active_pane;
        let is_regex = !self.panes[a].filter_is_regex;
        self.panes[a].filter_is_regex = is_regex;
        if self.panes[a].active_filter.is_some() {
            let input = self.panes[a].filter_input();
            self.panes[a].active_filter = make_filter(input, is_regex);
            self.refresh_active_view();
        } else {
            proof {
                lemma_active_pane_update(*old(self), *self);
            }
        }
        self.status_message = Some(if is_regex {
            String::from_str("Filter mode: regex")
        } else {
            String::from_str("Filter mode: substring")
        });
    }

    /// Highlight ranges of the active filter in `line`; none without a filter.
    pub fn get_match_ranges(&self, line: &str) -> (r: Vec<MatchRange>)
        requires
            self.wf(),
        ensures
            r@ == match self.active().active_filter {
                Some(f) => f.ranges(line@),
                None => Seq::empty(),
            },
    {
        match &self.panes[self.active_pane].active_filter {
            Some(f) => f.find_matches(line),
            None => Vec::new(),
        }
    }
}

fn show_new_source(panes: &mut Vec<PaneState>)
    ensures
        final(panes)@.len() == old(panes)@.len(),
        forall|j: int|
            0 <= j < old(panes)@.len() ==> (#[trigger] final(panes)@[j]).visible_sources@ == old(
                panes,
            )@[j].visible_sources@.push(true) && final(panes)@[j].filtered_indices == old(panes)@[j].filtered_indices
                && final(panes)@[j].bookmarks == old(panes)@[j].bookmarks && final(panes)@[j].scroll == old(
                panes,
            )@[j].scroll && final(panes)@[j].view_mode == old(panes)@[j].view_mode && final(panes)@[j].active_filter
                == old(panes)@[j].active_filter && final(panes)@[j].stick_to_bottom == old(panes)@[j].stick_to_bottom
                && final(panes)@[j].viewport_height == old(panes)@[j].viewport_height,
{
    let ghost start = panes@;
    let mut k: usize = 0;
    while k < panes.len()
        invariant
            panes@.len() == start.len(),
            k <= start.len(),
            forall|j: int|
                0 <= j < k ==> (#[trigger] panes@[j]).visible_sources@ == start[j].visible_sources@.push(true)
                    && panes@[j].filtered_indices == start[j].filtered_indices && panes@[j].bookmarks
                    == start[j].bookmarks && panes@[j].scroll == start[j].scroll && panes@[j].view_mode
                    == start[j].view_mode && panes@[j].active_filter == start[j].active_filter
                    && panes@[j].stick_to_bottom == start[j].stick_to_bottom && panes@[j].viewport_height
                    == start[j].viewport_height,
            forall|j: int| k <= j < start.len() ==> #[trigger] panes@[j] == start[j],
        decreases start.len() - k,
    {
        panes[k].visible_sources.push(true);
        k += 1;
    }
}

/// `prefix` followed by `on` or `off`.
pub open spec fn on_off_text(prefix: Seq<char>, flag: bool) -> Seq<char> {
    prefix + if flag {
        "on"@
    } else {
        "off"@
    }
}

fn on_off(prefix: &str, flag: bool) -> (r: String)
    ensures
        r@ == on_off_text(prefix@, flag),
{
    let mut out = String::from_str(prefix);
    out.append(if flag { "on" } else { "off" });
    out
}

/// Every pane agrees with the records, whatever else changed.
proof fn lemma_panes_kept(o: AppState, n: AppState)
    requires
        o.wf(),
        n.lines@ == o.lines@,
        n.max_lines == o.max_lines,
        n.panes@ == o.panes@,
        n.active_pane == o.active_pane,
        n.filter_history@.len() <= MAX_FILTER_HISTORY,
    ensures
        n.wf(),
{
    assert(n.model() == o.model());
}

impl AppState {
    /// Whether there are two panes.
    pub fn is_split(&self) -> (r: bool)
        ensures
            r == (self.panes@.len() > 1),
    {
        self.panes.len() > 1
    }

    fn split(&mut self, direction: SplitDirection)
        requires
            old(self).wf(),
        ensures
            final(self).wf(),
            final(self).lines@ == old(self).lines@,
            old(self).panes@.len() > 1 ==> final(self).panes@ == old(self).panes@ && final(self).active_pane
                == old(self).active_pane && final(self).split_direction == old(self).split_direction
                && (final(self).status_message matches Some(m) && m@ == "Already split (close with Ctrl+W,q)"@),
            old(self).panes@.len() == 1 ==> ({
                &&& final(self).panes@.len() == 2
                &&& final(self).panes@[0] == old(self).panes@[0]
                &&& final(self).panes@[1].model() == old(self).panes@[0].model()
                &&& final(self).active_pane == 1
                &&& final(self).split_direction == direction
            }),
    {
        if self.is_split() {
            self.status_message = Some(String::from_str("Already split (close with Ctrl+W,q)"));
            proof {
                lemma_panes_kept(*old(self), *self);
            }
            return;
        }
        proof {
            lemma_panes_wf(*self);
        }
        let new_pane = self.panes[0].clone_for_split();
        self.panes.push(new_pane);
        self.split_direction = direction;
        self.active_pane = 1;
        proof {
            assert forall|k: int| 0 <= k < self.panes@.len() implies pane_consistent(
                #[trigger] self.model().panes[k],
                self.model().lines,
            ) by {
                assert(self.model().panes[k] == self.panes@[k].model());
                assert(old(self).panes@[0].wf(old(self).lines@));
            }
        }
    }

    /// Create a vertical split (side-by-side panes) showing the same view.
    pub fn split_vertical(&mut self)
        requires
            old(self).wf(),
        ensures
            final(self).wf(),
            old(self).panes@.len() == 1 ==> final(self).panes@.len() == 2 && final(self).active_pane == 1
                && final(self).split_direction == SplitDirection::Vertical
                && final(self).panes@[1].model() == old(self).panes@[0].model(),
            old(self).panes@.len() > 1 ==> final(self).panes@ == old(self).panes@,
            final(self).status_message matches Some(m) && m@ == if old(self).panes@.len() > 1 {
                "Already split (close with Ctrl+W,q)"@
            } else {
                "Vertical split created"@
            },
    {
        let was_split = self.is_split();
        self.split(SplitDirection::Vertical);
        if !was_split {
            self.status_message = Some(String::from_str("Vertical split created"));
        }
    }

    /// Create a horizontal split (stacked panes) showing the same view.
    pub fn split_horizontal(&mut self)
        requires
            old(self).wf(),
        ensures
            final(self).wf(),
            old(self).panes@.len() == 1 ==> final(self).panes@.len() == 2 && final(self).active_pane == 1
                && final(self).split_direction == SplitDirection::Horizontal
                && final(self).panes@[1].model() == old(self).panes@[0].model(),
            old(self).panes@.len() > 1 ==> final(self).panes@ == old(self).panes@,
            final(self).status_message matches Some(m) && m@ == if old(self).panes@.len() > 1 {
                "Already split (close with Ctrl+W,q)"@
            } else {
                "Horizontal split created"@
            },
    {
        let was_split = self.is_split();
        self.split(SplitDirection::Horizontal);
        if !was_split {
            self.status_message = Some(String::from_str("Horizontal split created"));
        }
    }

    /// Close the split, keeping the first pane.
    pub fn close_pane(&mut self)
        requires
            old(self).wf(),
        ensures
            final(self).wf(),
            final(self).lines@ == old(self).lines@,
            old(self).panes@.len() > 1 ==> final(self).panes@ == seq![old(self).panes@[0]]
                && final(self).active_pane == 0 && final(self).split_direction == SplitDirection::Unsplit,
            old(self).panes@.len() == 1 ==> final(self).panes@ == old(self).panes@,
            final(self).status_message matches Some(m) && m@ == if old(self).panes@.len() > 1 {
                "Split closed"@
            } else {
                "No split to close"@
            },
    {
        if !self.is_split() {
            self.status_message = Some(String::from_str("No split to close"));
            proof {
                lemma_panes_kept(*old(self), *self);
            }
            return;
        }
        self.panes.remove(1);
        self.active_pane = 0;
        self.split_direction = SplitDirection::Unsplit;
        self.status_message = Some(String::from_str("Split closed"));
        proof {
            assert(self.panes@ =~= seq![old(self).panes@[0]]);
            assert forall|k: int| 0 <= k < self.panes@.len() implies pane_consistent(
                #[trigger] self.model().panes[k],
                self.model().lines,
            ) by {
                assert(self.model().panes[k] == old(self).model().panes[k]);
            }
        }
    }

    fn focus_pane(&mut self, pane: usize)
        requires
            old(self).wf(),
            pane < old(self).panes@.len(),
            pane < 2,
        ensures
            final(self).wf(),
            final(self).panes@ == old(self).panes@,
            final(self).active_pane == pane,
            final(self).status_message matches Some(m) && m@ == if pane == 0 {
                "Pane 1"@
            } else {
                "Pane 2"@
            },
    {
        self.active_pane = pane;
        self.status_message = Some(if pane == 0 {
            String::from_str("Pane 1")
        } else {
            String::from_str("Pane 2")
        });
        proof {
            assert(self.model() == old(self).model());
        }
    }

    /// Cycle to the other pane when split.
    pub fn cycle_pane(&mut self)
        requires
            old(self).wf(),
        ensures
            final(self).wf(),
            final(self).panes@ == old(self).panes@,
            old(self).panes@.len() > 1 ==> final(self).active_pane == 1 - old(self).active_pane,
            old(self).panes@.len() == 1 ==> final(self).active_pane == old(self).active_pane
                && final(self).status_message == old(self).status_message,
    {
        if !self.is_split() {
            return;
        }
        let next = if self.active_pane == 0 { 1 } else { 0 };
        self.focus_pane(next);
    }

    /// Focus the left pane of a vertical split.
    pub fn focus_pane_left(&mut self)
        requires
            old(self).wf(),
        ensures
            final(self).wf(),
            final(self).panes@ == old(self).panes@,
            final(self).active_pane == if old(self).split_direction == SplitDirection::Vertical {
                0
            } else {
                old(self).active_pane
            },
    {
        if self.split_direction == SplitDirection::Vertical && self.active_pane == 1 {
            self.focus_pane(0);
        }
    }

    /// Focus the right pane of a vertical split.
    pub fn focus_pane_right(&mut self)
        requires
            old(self).wf(),
        ensures
            final(self).wf(),
            final(self).panes@ == old(self).panes@,
            final(self).active_pane == if old(self).split_direction == SplitDirection::Vertical
                && old(self).panes@.len() > 1 {
                1
            } else {
                old(self).active_pane
            },
    {
        if self.split_direction == SplitDirection::Vertical && self.active_pane == 0 && self.panes.len() > 1 {
            self.focus_pane(1);
        }
    }

    /// Focus the upper pane of a horizontal split.
    pub fn focus_pane_up(&mut self)
        requires
            old(self).wf(),
        ensures
            final(self).wf(),
            final(self).panes@ == old(self).panes@,
            final(self).active_pane == if old(self).split_direction == SplitDirection::Horizontal {
                0
            } else {
                old(self).active_pane
            },
    {
        if self.split_direction == SplitDirection::Horizontal && self.active_pane == 1 {
            self.focus_pane(0);
        }
    }

    /// Focus the lower pane of a horizontal split.
    pub fn focus_pane_down(&mut self)
        requires
            old(self).wf(),
        ensures
            final(self).wf(),
            final(self).panes@ == old(self).panes@,
            final(self).active_pane == if old(self).split_direction == SplitDirection::Horizontal
                && old(self).panes@.len() > 1 {
                1
            } else {
                old(self).active_pane
            },
    {
        if self.split_direction == SplitDirection::Horizontal && self.active_pane == 0 && self.panes.len() > 1 {
            self.focus_pane(1);
        }
    }

    /// Toggle JSON pretty-printing.
    pub fn toggle_json_pretty(&mut self)
        requires
            old(self).wf(),
        ensures
            final(self).wf(),
            final(self).panes@ == old(self).panes@,
            final(self).lines@ == old(self).lines@,
            final(self).json_pretty == !old(self).json_pretty,
            final(self).status_message matches Some(m) && m@ == on_off_text(
                "JSON pretty-print: "@,
                final(self).json_pretty,
            ),
    {
        self.json_pretty = !self.json_pretty;
        self.status_message = Some(on_off("JSON pretty-print: ", self.json_pretty));
        proof {
            lemma_panes_kept(*old(self), *self);
        }
    }

    /// Toggle relative timestamp display.
    pub fn toggle_relative_time(&mut self)
        requires
            old(self).wf(),
        ensures
            final(self).wf(),
            final(self).panes@ == old(self).panes@,
            final(self).lines@ == old(self).lines@,
            final(self).show_relative_time == !old(self).show_relative_time,
            final(self).status_message matches Some(m) && m@ == on_off_text(
                "Relative time: "@,
                final(self).show_relative_time,
            ),
    {
        self.show_relative_time = !self.show_relative_time;
        self.status_message = Some(on_off("Relative time: ", self.show_relative_time));
        proof {
            lemma_panes_kept(*old(self), *self);
        }
    }

    /// Toggle log level coloring.
    pub fn toggle_level_colors(&mut self)
        requires
            old(self).wf(),
        ensures
            final(self).wf(),
            final(self).panes@ == old(self).panes@,
            final(self).lines@ == old(self).lines@,
            final(self).level_colors_enabled == !old(self).level_colors_enabled,
            final(self).status_message matches Some(m) && m@ == on_off_text(
                "Level colors: "@,
                final(self).level_colors_enabled,
            ),
    {
        self.level_colors_enabled = !self.level_colors_enabled;
        self.status_message = Some(on_off("Level colors: ", self.level_colors_enabled));
        proof {
            lemma_panes_kept(*old(self), *self);
        }
    }

    /// Toggle line wrapping; wrapping resets the active pane's horizontal scroll.
    pub fn toggle_line_wrap(&mut self)
        requires
            old(self).wf(),
        ensures
            final(self).wf(),
            final(self).others_unchanged(old(self)),
            final(self).active().model() == old(self).active().model(),
            final(self).line_wrap == !old(self).line_wrap,
            final(self).active().horizontal_scroll == if final(self).line_wrap {
                0
            } else {
                old(self).active().horizontal_scroll
            },
            final(self).status_message matches Some(m) && m@ == on_off_text("Line wrap: "@, final(self).line_wrap),
    {
        proof {
            lemma_panes_wf(*self);
        }
        self.line_wrap = !self.line_wrap;
        if self.line_wrap {
            let a = self.active_pane;
            self.panes[a].horizontal_scroll = 0;
        }
        self.status_message = Some(on_off("Line wrap: ", self.line_wrap));
        proof {
            lemma_active_pane_update(*old(self), *self);
        }
    }

    /// Toggle line numbers display.
    pub fn toggle_line_numbers(&mut self)
        requires
            old(self).wf(),
        ensures
            final(self).wf(),
            final(self).panes@ == old(self).panes@,
            final(self).lines@ == old(self).lines@,
            final(self).show_line_numbers == !old(self).show_line_numbers,
            final(self).status_message matches Some(m) && m@ == on_off_text(
                "Line numbers: "@,
                final(self).show_line_numbers,
            ),
    {
        self.show_line_numbers = !self.show_line_numbers;
        self.status_message = Some(on_off("Line numbers: ", self.show_line_numbers));
        proof {
            lemma_panes_kept(*old(self), *self);
        }
    }

    /// Toggle side panel visibility; hiding it returns focus to the log view.
    pub fn toggle_side_panel(&mut self)
        requires
            old(self).wf(),
        ensures
            final(self).wf(),
            final(self).panes@ == old(self).panes@,
            final(self).lines@ == old(self).lines@,
            final(self).show_side_panel == !old(self).show_side_panel,
            final(self).focused_panel == if final(self).show_side_panel {
                old(self).focused_panel
            } else {
                FocusedPanel::LogView
            },
    {
        self.show_side_panel = !self.show_side_panel;
        if !self.show_side_panel {
            self.focused_panel = FocusedPanel::LogView;
        }
        proof {
            lemma_panes_kept(*old(self), *self);
        }
    }

    /// Cycle focus between the log view and the side panels.
    pub fn cycle_focus(&mut self)
        requires
            old(self).wf(),
        ensures
            final(self).wf(),
            final(self).panes@ == old(self).panes@,
            final(self).lines@ == old(self).lines@,
            final(self).focused_panel == if !old(self).show_side_panel {
                old(self).focused_panel
            } else {
                match old(self).focused_panel {
                    FocusedPanel::LogView => FocusedPanel::Sources,
                    FocusedPanel::Sources => FocusedPanel::Filters,
                    FocusedPanel::Filters => FocusedPanel::LogView,
                }
            },
    {
        if self.show_side_panel {
            self.focused_panel = match self.focused_panel {
                FocusedPanel::LogView => FocusedPanel::Sources,
                FocusedPanel::Sources => FocusedPanel::Filters,
                FocusedPanel::Filters => FocusedPanel::LogView,
            };
        }
        proof {
            lemma_panes_kept(*old(self), *self);
        }
    }

    /// Cycle to the next theme.
    pub fn cycle_theme(&mut self)
        requires
            old(self).wf(),
        ensures
            final(self).wf(),
            final(self).panes@ == old(self).panes@,
            final(self).lines@ == old(self).lines@,
            final(self).theme_name@ == theme_after(old(self).theme_name@),
            final(self).status_message matches Some(m) && m@ == "Theme: "@ + final(self).theme_name@,
    {
        let next = next_theme_name(&self.theme_name);
        self.theme_name = String::from_str(next);
        let mut msg = String::from_str("Theme: ");
        msg.append(next);
        self.status_message = Some(msg);
        proof {
            lemma_panes_kept(*old(self), *self);
        }
    }

    /// Toggle a setting of the settings overlay by index: 0 theme, 1 level
    /// colors, 2 line wrap, 3 side panel; other indices change nothing.
    pub fn toggle_setting(&mut self, index: usize)
        requires
            old(self).wf(),
        ensures
            final(self).wf(),
            final(self).lines@ == old(self).lines@,
            index == 0 ==> final(self).theme_name@ == theme_after(old(self).theme_name@),
            index == 1 ==> final(self).level_colors_enabled == !old(self).level_colors_enabled,
            index == 2 ==> final(self).line_wrap == !old(self).line_wrap,
            index == 3 ==> final(self).show_side_panel == !old(self).show_side_panel,
            index > 3 ==> final(self).panes@ == old(self).panes@ && final(self).status_message == old(self).status_message,
    {
        if index == 0 {
            self.cycle_theme();
        } else if index == 1 {
            self.toggle_level_colors();
        } else if index == 2 {
            self.toggle_line_wrap();
        } else if index == 3 {
            self.toggle_side_panel();
            self.status_message = Some(on_off("Side panel: ", self.show_side_panel));
        }
    }

    fn set_horizontal_scroll(&mut self, value: usize)
        requires
            old(self).wf(),
        ensures
            final(self).wf(),
            final(self).others_unchanged(old(self)),
            final(self).same_settings(old(self)),
            final(self).active().model() == old(self).active().model(),
            final(self).active().horizontal_scroll == value,
    {
        proof {
            lemma_panes_wf(*self);
        }
        let a = self.active_pane;
        self.panes[a].horizontal_scroll = value;
        proof {
            lemma_active_pane_update(*old(self), *self);
        }
    }

    /// Scroll left by `step` columns when lines are not wrapped.
    fn scroll_horizontally_left(&mut self, step: usize)
        requires
            old(self).wf(),
        ensures
            final(self).wf(),
            final(self).others_unchanged(old(self)),
            final(self).active().model() == old(self).active().model(),
            final(self).active().horizontal_scroll == if old(self).line_wrap {
                old(self).active().horizontal_scroll
            } else if old(self).active().horizontal_scroll > step {
                (old(self).active().horizontal_scroll - step) as usize
            } else {
                0
            },
    {
        if !self.line_wrap {
            let h = self.panes[self.active_pane].horizontal_scroll;
            self.set_horizontal_scroll(if h > step { h - step } else { 0 });
        }
    }

    /// Scroll right by `step` columns when lines are not wrapped.
    fn scroll_horizontally_right(&mut self, step: usize)
        requires
            old(self).wf(),
        ensures
            final(self).wf(),
            final(self).others_unchanged(old(self)),
            final(self).active().model() == old(self).active().model(),
            final(self).active().horizontal_scroll == if old(self).line_wrap {
                old(self).active().horizontal_scroll
            } else if old(self).active().horizontal_scroll + step <= usize::MAX {
                (old(self).active().horizontal_scroll + step) as usize
            } else {
                usize::MAX
            },
    {
        if !self.line_wrap {
            let h = self.panes[self.active_pane].horizontal_scroll;
            self.set_horizontal_scroll(h.saturating_add(step));
        }
    }

    /// Scroll left by 4 columns (when line wrap is off).
    pub fn scroll_left(&mut self)
        requires
            old(self).wf(),
        ensures
            final(self).wf(),
            final(self).others_unchanged(old(self)),
            final(self).active().model() == old(self).active().model(),
            final(self).active().horizontal_scroll == if old(self).line_wrap {
                old(self).active().horizontal_scroll
            } else if old(self).active().horizontal_scroll > 4 {
                (old(self).active().horizontal_scroll - 4) as usize
            } else {
                0
            },
    {
        self.scroll_horizontally_left(4);
    }

    /// Scroll right by 4 columns (when line wrap is off).
    pub fn scroll_right(&mut self)
        requires
            old(self).wf(),
        ensures
            final(self).wf(),
            final(self).others_unchanged(old(self)),
            final(self).active().model() == old(self).active().model(),
            final(self).active().horizontal_scroll == if old(self).line_wrap {
                old(self).active().horizontal_scroll
            } else if old(self).active().horizontal_scroll + 4 <= usize::MAX {
                (old(self).active().horizontal_scroll + 4) as usize
            } else {
                usize::MAX
            },
    {
        self.scroll_horizontally_right(4);
    }

    /// Scroll left by 20 columns (when line wrap is off).
    pub fn scroll_left_large(&mut self)
        requires
            old(self).wf(),
        ensures
            final(self).wf(),
            final(self).others_unchanged(old(self)),
            final(self).active().model() == old(self).active().model(),
            final(self).active().horizontal_scroll == if old(self).line_wrap {
                old(self).active().horizontal_scroll
            } else if old(self).active().horizontal_scroll > 20 {
                (old(self).active().horizontal_scroll - 20) as usize
            } else {
                0
            },
    {
        self.scroll_horizontally_left(20);
    }

    /// Scroll right by 20 columns (when line wrap is off).
    pub fn scroll_right_large(&mut self)
        requires
            old(self).wf(),
        ensures
            final(self).wf(),
            final(self).others_unchanged(old(self)),
            final(self).active().model() == old(self).active().model(),
            final(self).active().horizontal_scroll == if old(self).line_wrap {
                old(self).active().horizontal_scroll
            } else if old(self).active().horizontal_scroll + 20 <= usize::MAX {
                (old(self).active().horizontal_scroll + 20) as usize
            } else {
                usize::MAX
            },
    {
        self.scroll_horizontally_right(20);
    }

    /// Reset horizontal scroll to the beginning.
    pub fn scroll_home(&mut self)
        requires
            old(self).wf(),
        ensures
            final(self).wf(),
            final(self).others_unchanged(old(self)),
            final(self).same_settings(old(self)),
            final(self).active().model() == old(self).active().model(),
            final(self).active().horizontal_scroll == 0,
    {
        self.set_horizontal_scroll(0);
    }

    /// Get the current source.
    pub fn current_source(&self) -> (r: &LogSourceType)
        requires
            self.current_source_idx < self.sources@.len(),
        ensures
            *r == self.sources@[self.current_source_idx as int],
    {
        &self.sources[self.current_source_idx]
    }

    /// Add a new source at runtime; it is visible in every pane.
    pub fn add_source(&mut self, source: LogSourceType)
        requires
            old(self).wf(),
        ensures
            final(self).wf(),
            final(self).sources@ == old(self).sources@.push(source),
            final(self).lines@ == old(self).lines@,
            final(self).panes@.len() == old(self).panes@.len(),
            forall|k: int| 0 <= k < final(self).panes@.len() ==> (#[trigger] final(self).panes@[k]).visible_sources@
                == old(self).panes@[k].visible_sources@.push(true),
            forall|k: int| 0 <= k < final(self).panes@.len() ==> (#[trigger] final(self).panes@[k]).filtered_indices
                == old(self).panes@[k].filtered_indices,
    {
        proof {
            lemma_panes_wf(*self);
        }
        self.sources.push(source);
        let ghost start = self.panes@;
        show_new_source(&mut self.panes);
        proof {
            assert forall|k: int| 0 <= k < self.panes@.len() implies pane_consistent(
                #[trigger] self.model().panes[k],
                self.model().lines,
            ) by {
                let a = start[k].selector();
                let b = self.panes@[k].selector();
                assert forall|l: LogLine| selects(a, l) == selects(b, l) by {
                    if l.source_id < a.visible.len() {
                        assert(b.visible[l.source_id as int] == a.visible[l.source_id as int]);
                    }
                }
                lemma_view_same_selection(a, b, self.lines@, self.lines@.len());
                assert(start[k].wf(self.lines@));
                assert(self.model().panes[k] == self.panes@[k].model());
            }
        }
    }

    /// Show or hide the source `idx` in the active pane (when the mask covers
    /// it), and rebuild the view.
    pub fn toggle_source_visibility(&mut self, idx: usize)
        requires
            old(self).wf(),
        ensures
            final(self).wf(),
            final(self).others_unchanged(old(self)),
            final(self).active().visible_sources@ == if idx < old(self).active().visible_sources@.len() {
                old(self).active().visible_sources@.update(idx as int, !old(self).active().visible_sources@[idx as int])
            } else {
                old(self).active().visible_sources@
            },
            final(self).active().filtered_indices@ == filtered_view(final(self).active().selector(), final(self).lines@),
    {
        proof {
            lemma_panes_wf(*self);
        }
        let a = self.active_pane;
        if idx < self.panes[a].visible_sources.len() {
            let v = self.panes[a].visible_sources[idx];
            self.panes[a].visible_sources.set(idx, !v);
        }
        self.refresh_active_view();
    }

    /// Set the active pane's view mode and rebuild its view.
    pub fn set_view_mode(&mut self, mode: SourceViewMode)
        requires
            old(self).wf(),
        ensures
            final(self).wf(),
            final(self).others_unchanged(old(self)),
            final(self).active().view_mode == mode,
            final(self).active().visible_sources@ == old(self).active().visible_sources@,
            final(self).active().filtered_indices@ == filtered_view(final(self).active().selector(), final(self).lines@),
    {
        proof {
            lemma_panes_wf(*self);
        }
        let a = self.active_pane;
        self.panes[a].view_mode = mode;
        self.refresh_active_view();
    }

    /// Make every source visible in the active pane, merge all sources, and
    /// rebuild its view.
    pub fn show_all_sources(&mut self)
        requires
            old(self).wf(),
        ensures
            final(self).wf(),
            final(self).others_unchanged(old(self)),
            final(self).active().view_mode == SourceViewMode::AllMerged,
            final(self).active().visible_sources@ == Seq::new(
                old(self).active().visible_sources@.len(),
                |i: int| true,
            ),
            final(self).active().filtered_indices@ == filtered_view(final(self).active().selector(), final(self).lines@),
    {
        proof {
            lemma_panes_wf(*self);
        }
        let a = self.active_pane;
        let n = self.panes[a].visible_sources.len();
        self.panes[a].visible_sources = vec![true; n];
        self.panes[a].view_mode = SourceViewMode::AllMerged;
        proof {
            assert(self.active().visible_sources@ =~= Seq::new(n as nat, |i: int| true));
        }
        self.refresh_active_view();
    }

    /// Save the active filter under a name.
    pub fn save_current_filter(&mut self, name: String)
        requires
            old(self).wf(),
        ensures
            final(self).wf(),
            final(self).panes@ == old(self).panes@,
            old(self).active().active_filter.is_none() ==> final(self).saved_filters@ == old(self).saved_filters@,
            old(self).active().active_filter.is_some() ==> ({
                let f = old(self).active().selector().filter.unwrap();
                &&& final(self).saved_filters@.len() == old(self).saved_filters@.len() + 1
                &&& final(self).saved_filters@.drop_last() == old(self).saved_filters@
                &&& final(self).saved_filters@.last().name == name
                &&& final(self).saved_filters@.last().pattern@ == f.0
                &&& final(self).saved_filters@.last().is_regex == f.1
            }),
    {
        let a = self.active_pane;
        match &self.panes[a].active_filter {
            Some(filter) => {
                let saved = SavedFilter { name, pattern: filter.pattern().clone(), is_regex: filter.is_regex() };
                self.saved_filters.push(saved);
                self.status_message = Some(String::from_str("Filter saved"));
            },
            None => {},
        }
        proof {
            lemma_panes_kept(*old(self), *self);
        }
    }

    /// Apply a saved filter by index to the active pane.
    pub fn apply_saved_filter(&mut self, idx: usize)
        requires
            old(self).wf(),
        ensures
            final(self).wf(),
            final(self).lines@ == old(self).lines@,
            idx >= old(self).saved_filters@.len() ==> final(self).panes@ == old(self).panes@,
            idx < old(self).saved_filters@.len() ==> ({
                let saved = old(self).saved_filters@[idx as int];
                &&& final(self).active().filter_text@ == saved.pattern@
                &&& final(self).active().filter_is_regex == saved.is_regex
                &&& final(self).active().selector().filter == Some((saved.pattern@, saved.is_regex))
                &&& final(self).active().filtered_indices@ == filtered_view(
                    final(self).active().selector(),
                    final(self).lines@,
                )
            }),
    {
        if idx >= self.saved_filters.len() {
            return;
        }
        proof {
            lemma_panes_wf(*self);
        }
        let a = self.active_pane;
        let pattern = self.saved_filters[idx].pattern.clone();
        let is_regex = self.saved_filters[idx].is_regex;
        let mut msg = String::from_str("Applied filter: ");
        msg.append(self.saved_filters[idx].name.as_str());
        self.panes[a].filter_text = pattern.clone();
        self.panes[a].filter_is_regex = is_regex;
        self.panes[a].active_filter = Some(ActiveFilter::new(pattern, is_regex));
        self.refresh_active_view();
        self.status_message = Some(msg);
    }

    /// Count lines received per second: at `now_ms`, a second after the
    /// current one started, the count so far becomes the rate.
    pub fn track_throughput(&mut self, count: usize, now_ms: u64)
        requires
            old(self).wf(),
        ensures
            final(self).wf(),
            final(self).panes@ == old(self).panes@,
            ({
                let started = old(self).throughput_second_start;
                if now_ms >= started && now_ms - started >= 1000 {
                    &&& final(self).lines_per_second == old(self).lines_this_second
                    &&& final(self).lines_this_second == count
                    &&& final(self).throughput_second_start == now_ms
                } else {
                    &&& final(self).lines_per_second == old(self).lines_per_second
                    &&& final(self).lines_this_second == if old(self).lines_this_second + count <= usize::MAX {
                        (old(self).lines_this_second + count) as usize
                    } else {
                        usize::MAX
                    }
                    &&& final(self).throughput_second_start == started
                }
            }),
    {
        let started = self.throughput_second_start;
        if now_ms >= started && now_ms - started >= 1000 {
            self.lines_per_second = self.lines_this_second;
            self.lines_this_second = count;
            self.throughput_second_start = now_ms;
        } else {
            self.lines_this_second = self.lines_this_second.saturating_add(count);
        }
        proof {
            lemma_panes_kept(*old(self), *self);
        }
    }
}

impl AppState {
    /// Record the viewport height of a pane; a pane that follows the bottom
    /// scrolls so its last line sits on the bottom row when the height changed.
    fn set_viewport(&mut self, pane_idx: usize, height: usize)
        requires
            old(self).wf(),
            pane_idx < old(self).panes@.len(),
        ensures
            final(self).wf(),
            final(self).lines@ == old(self).lines@,
            final(self).panes@.len() == old(self).panes@.len(),
            forall|k: int| 0 <= k < final(self).panes@.len() && k != pane_idx ==> final(self).panes@[k] == old(self).panes@[k],
            ({
                let p = old(self).panes@[pane_idx as int];
                let q = final(self).panes@[pane_idx as int];
                &&& q.viewport_height == height
                &&& q.filtered_indices == p.filtered_indices
                &&& q.scroll == if p.viewport_height != height && p.stick_to_bottom
                    && p.filtered_indices@.len() > 0 {
                    clamp_scroll(
                        crate::view::bottom_scroll(p.filtered_indices@.len() as int, height as int),
                        p.filtered_indices@.len() as int,
                    ) as usize
                } else {
                    p.scroll
                }
            }),
    {
        proof {
            lemma_panes_wf(*self);
        }
        self.panes[pane_idx].set_viewport_height(height);
        proof {
            assert forall|k: int| 0 <= k < self.panes@.len() implies pane_consistent(
                #[trigger] self.model().panes[k],
                self.model().lines,
            ) by {
                assert(self.model().panes[k] == self.panes@[k].model());
                assert(old(self).panes@[k].wf(old(self).lines@));
                if k != pane_idx {
                    assert(self.panes@[k] == old(self).panes@[k]);
                }
            }
        }
    }

    /// The lines of a pane that fit in `height` rows from its scroll
    /// position, each with its row in the filtered view. Records the height
    /// as the pane's viewport first. Nothing for a pane that does not exist.
    pub fn visible_lines_for_pane(&mut self, pane_idx: usize, height: usize) -> (r: Vec<(usize, &LogLine)>)
        requires
            old(self).wf(),
        ensures
            final(self).wf(),
            final(self).lines@ == old(self).lines@,
            pane_idx >= old(self).panes@.len() ==> r@.len() == 0 && final(self).panes@ == old(self).panes@,
            pane_idx < old(self).panes@.len() ==> ({
                let q = final(self).panes@[pane_idx as int];
                let n = q.filtered_indices@.len();
                let start = q.scroll as int;
                let end = if start + height < n { start + height } else { n as int };
                &&& q.viewport_height == height
                &&& r@.len() == if n == 0 { 0 } else { end - start }
                &&& forall|i: int|
                    0 <= i < r@.len() ==> (#[trigger] r@[i]).0 == start + i && *r@[i].1
                        == final(self).lines@[q.filtered_indices@[start + i] as int]
            }),
    {
        let mut out: Vec<(usize, &LogLine)> = Vec::new();
        if pane_idx >= self.panes.len() {
            return out;
        }
        self.set_viewport(pane_idx, height);
        proof {
            lemma_panes_wf(*self);
            crate::view::lemma_prefix_sorted(self.panes@[pane_idx as int].selector(), self.lines@, self.lines@.len());
        }
        let pane = &self.panes[pane_idx];
        let n = pane.filtered_indices.len();
        if n == 0 {
            return out;
        }
        let start = pane.scroll;
        let end = if height < n - start { start + height } else { n };
        let mut i: usize = start;
        while i < end
            invariant
                start <= i <= end,
                end <= n,
                n == pane.filtered_indices@.len(),
                sorted_below(pane.filtered_indices@, self.lines@.len() as int),
                out@.len() == i - start,
                forall|j: int|
                    0 <= j < out@.len() ==> (#[trigger] out@[j]).0 == start + j && *out@[j].1
                        == self.lines@[pane.filtered_indices@[start + j] as int],
            decreases end - i,
        {
            let idx = pane.filtered_indices[i];
            out.push((i, &self.lines[idx]));
            i += 1;
        }
        out
    }

    /// The lines of the active pane that fit in `height` rows.
    pub fn visible_lines(&mut self, height: usize) -> (r: Vec<(usize, &LogLine)>)
        requires
            old(self).wf(),
        ensures
            final(self).wf(),
            final(self).lines@ == old(self).lines@,
            ({
                let q = final(self).panes@[old(self).active_pane as int];
                let n = q.filtered_indices@.len();
                let start = q.scroll as int;
                let end = if start + height < n { start + height } else { n as int };
                &&& q.viewport_height == height
                &&& r@.len() == if n == 0 { 0 } else { end - start }
                &&& forall|i: int|
                    0 <= i < r@.len() ==> (#[trigger] r@[i]).0 == start + i && *r@[i].1
                        == final(self).lines@[q.filtered_indices@[start + i] as int]
            }),
    {
        let a = self.active_pane;
        self.visible_lines_for_pane(a, height)
    }
}

/// The display name of source `id`, `unknown` when there is none.
pub open spec fn name_or_unknown(sources: Seq<LogSourceType>, id: usize) -> Seq<char> {
    if id < sources.len() {
        source_name(sources[id as int])
    } else {
        "unknown"@
    }
}

impl AppState {
    fn source_label(&self, source_id: usize) -> (r: String)
        ensures
            r@ == "["@ + name_or_unknown(self.sources@, source_id) + "]"@,
    {
        let mut out = String::from_str("[");
        if source_id < self.sources.len() {
            let name = self.sources[source_id].name();
            out.append(name.as_str());
        } else {
            out.append("unknown");
        }
        out.append("]");
        out
    }

    /// Report that source `source_id` failed with `msg`; the other sources
    /// and the records stay as they are.
    pub fn report_source_error(&mut self, source_id: usize, msg: &str)
        requires
            old(self).wf(),
        ensures
            final(self).wf(),
            final(self).panes@ == old(self).panes@,
            final(self).lines@ == old(self).lines@,
            final(self).status_message matches Some(m) && m@ == "["@ + name_or_unknown(old(self).sources@, source_id)
                + "]"@ + " Error: "@ + msg@,
    {
        let mut m = self.source_label(source_id);
        m.append(" Error: ");
        m.append(msg);
        self.status_message = Some(m);
        proof {
            lemma_panes_kept(*old(self), *self);
        }
    }

    /// Report that source `source_id` ended; its records stay visible.
    pub fn report_end_of_stream(&mut self, source_id: usize)
        requires
            old(self).wf(),
        ensures
            final(self).wf(),
            final(self).panes@ == old(self).panes@,
            final(self).lines@ == old(self).lines@,
            final(self).status_message matches Some(m) && m@ == "["@ + name_or_unknown(old(self).sources@, source_id)
                + "]"@ + " Stream ended"@,
    {
        let mut m = self.source_label(source_id);
        m.append(" Stream ended");
        self.status_message = Some(m);
        proof {
            lemma_panes_kept(*old(self), *self);
        }
    }
}

} // verus!
