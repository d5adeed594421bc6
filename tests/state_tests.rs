use bark::config::Config;
use bark::record::LogLine;
use bark::sources::LogSourceType;
use bark::state::{AppState, InputMode, SplitDirection};
use bark::view::SourceViewMode;

fn state_with_capacity(capacity: usize, sources: usize) -> AppState {
    let mut config = Config::default();
    config.max_lines = capacity;
    let mut list = Vec::new();
    for i in 0..sources {
        list.push(LogSourceType::Docker { container: format!("c{}", i) });
    }
    AppState::new(&config, list)
}

fn line(text: &str) -> LogLine {
    LogLine::with_timestamp(text.to_string(), None)
}

fn raws(state: &AppState) -> Vec<String> {
    state.lines.iter().map(|l| l.raw.clone()).collect()
}

fn set_filter(state: &mut AppState, pattern: &str, is_regex: bool) {
    state.set_filter_text(pattern);
    if state.panes[state.active_pane].filter_is_regex != is_regex {
        state.toggle_regex_mode();
    }
    state.apply_filter();
}

#[test]
fn test_capacity_scenario_evicts_oldest() {
    let mut state = state_with_capacity(3, 1);
    for (i, t) in ["A", "B", "C", "D", "E"].iter().enumerate() {
        state.push_line(line(t));
        assert!(state.lines.len() <= 3);
        assert_eq!(state.lines.len(), std::cmp::min(3, i + 1));
    }
    assert_eq!(raws(&state), vec!["C", "D", "E"]);
}

#[test]
fn test_bookmarks_shift_on_eviction() {
    let mut state = state_with_capacity(3, 1);
    for t in ["A", "B", "C"] {
        state.push_line(line(t));
    }
    // Bookmark A (index 0), B (index 1) and C (index 2).
    for pos in 0..3 {
        state.panes[0].scroll = pos;
        state.toggle_bookmark();
    }
    assert_eq!(state.panes[0].bookmarks, vec![0, 1, 2]);
    state.push_line(line("D"));
    state.push_line(line("E"));
    assert_eq!(raws(&state), vec!["C", "D", "E"]);
    assert_eq!(state.panes[0].bookmarks, vec![0]);
    assert_eq!(state.lines[state.panes[0].bookmarks[0]].raw, "C");
}

#[test]
fn test_literal_filter_scenario() {
    let mut state = state_with_capacity(100, 1);
    set_filter(&mut state, "error", false);
    for t in ["INFO ok", "ERROR bad", "warn: error rate"] {
        state.push_line(line(t));
    }
    assert_eq!(state.panes[0].filtered_indices, vec![1, 2]);
    assert_eq!(state.line_counts(), (3, 2));
}

#[test]
fn test_invalid_regex_filter_in_pane() {
    let mut state = state_with_capacity(100, 1);
    set_filter(&mut state, "[bad", true);
    state.push_line(line("has [bad regex"));
    state.push_line(line("clean line"));
    assert_eq!(state.panes[0].filtered_indices, vec![0]);
}

#[test]
fn test_eviction_matches_recompute() {
    let mut state = state_with_capacity(4, 1);
    set_filter(&mut state, "x", false);
    let texts = ["x1", "y", "x2", "x3", "y", "x4", "y", "y", "x5"];
    for t in texts {
        state.push_line(line(t));
        let incremental = state.panes[0].filtered_indices.clone();
        state.recompute_filter();
        assert_eq!(state.panes[0].filtered_indices, incremental);
    }
    assert_eq!(raws(&state), vec!["x4", "y", "y", "x5"]);
    assert_eq!(state.panes[0].filtered_indices, vec![0, 3]);
}

#[test]
fn test_batch_equivalence() {
    let texts = ["a1", "b", "a2", "b", "a3", "a4", "b", "a5"];
    let mut one = state_with_capacity(5, 1);
    let mut batch = state_with_capacity(5, 1);
    for s in [&mut one, &mut batch] {
        set_filter(s, "a", false);
        s.push_line(line("a0"));
        s.push_line(line("a00"));
        s.panes[0].scroll = 0;
        s.toggle_bookmark();
        s.panes[0].scroll = 1;
        s.toggle_bookmark();
        s.panes[0].viewport_height = 2;
    }
    for t in texts {
        one.push_line(line(t));
    }
    batch.push_lines(texts.iter().map(|t| line(t)).collect());
    assert_eq!(raws(&one), raws(&batch));
    assert_eq!(one.panes[0].filtered_indices, batch.panes[0].filtered_indices);
    assert_eq!(one.panes[0].bookmarks, batch.panes[0].bookmarks);
    assert_eq!(one.panes[0].scroll, batch.panes[0].scroll);
}

#[test]
fn test_batch_equivalence_without_following() {
    let texts = ["a1", "b", "b", "b", "a2", "a3"];
    let mut one = state_with_capacity(3, 1);
    let mut batch = state_with_capacity(3, 1);
    for s in [&mut one, &mut batch] {
        set_filter(s, "a", false);
        s.push_line(line("a0"));
        s.push_line(line("a00"));
        s.go_to_top();
        s.scroll_down();
        assert!(!s.panes[0].stick_to_bottom);
        assert_eq!(s.panes[0].scroll, 1);
    }
    for t in texts {
        one.push_line(line(t));
    }
    batch.push_lines(texts.iter().map(|t| line(t)).collect());
    assert_eq!(raws(&one), raws(&batch));
    assert_eq!(one.panes[0].filtered_indices, batch.panes[0].filtered_indices);
    assert_eq!(one.panes[0].scroll, batch.panes[0].scroll);
}

#[test]
fn test_stick_to_bottom_scroll() {
    let mut state = state_with_capacity(100, 1);
    state.panes[0].viewport_height = 3;
    for i in 0..10 {
        state.push_line(line(&format!("l{}", i)));
    }
    assert_eq!(state.panes[0].scroll, 7);
    let visible = state.visible_lines(3);
    let rows: Vec<usize> = visible.iter().map(|(r, _)| *r).collect();
    assert_eq!(rows, vec![7, 8, 9]);
    assert_eq!(visible[2].1.raw, "l9");
}

#[test]
fn test_debounce_gating() {
    let mut state = state_with_capacity(100, 1);
    for t in ["alpha", "beta"] {
        state.push_line(line(t));
    }
    state.set_filter_text("alp");
    state.filter_changed(1000);
    state.check_filter_debounce(1000 + 150 - 1);
    assert!(state.panes[0].active_filter.is_none());
    assert_eq!(state.panes[0].filtered_indices, vec![0, 1]);
    state.check_filter_debounce(1000 + 150 + 1);
    assert!(state.panes[0].active_filter.is_some());
    assert_eq!(state.panes[0].filtered_indices, vec![0]);
    assert!(!state.panes[0].filter_needs_recompute);
}

#[test]
fn test_bookmark_wrap() {
    let mut state = state_with_capacity(100, 1);
    for i in 0..6 {
        state.push_line(line(&format!("l{}", i)));
    }
    for pos in [1, 4] {
        state.panes[0].scroll = pos;
        state.toggle_bookmark();
    }
    state.panes[0].scroll = 4;
    state.next_bookmark();
    assert_eq!(state.panes[0].scroll, 1);
    assert_eq!(state.status_message.as_deref(), Some("Bookmark 1/2 (wrapped)"));
    state.prev_bookmark();
    assert_eq!(state.panes[0].scroll, 4);
    assert_eq!(state.status_message.as_deref(), Some("Bookmark 2/2 (wrapped)"));
    state.panes[0].scroll = 2;
    state.next_bookmark();
    assert_eq!(state.panes[0].scroll, 4);
    assert_eq!(state.status_message.as_deref(), Some("Bookmark 2/2"));
}

#[test]
fn test_bookmark_filtered_out_is_noop() {
    let mut state = state_with_capacity(100, 1);
    for t in ["keep a", "drop b", "keep c"] {
        state.push_line(line(t));
    }
    state.panes[0].scroll = 1;
    state.toggle_bookmark();
    set_filter(&mut state, "keep", false);
    assert_eq!(state.panes[0].filtered_indices, vec![0, 2]);
    state.panes[0].scroll = 0;
    let before = state.status_message.clone();
    state.next_bookmark();
    assert_eq!(state.panes[0].scroll, 0);
    assert_eq!(state.status_message, before);
}

#[test]
fn test_no_bookmarks_message() {
    let mut state = state_with_capacity(10, 1);
    state.next_bookmark();
    assert_eq!(state.status_message.as_deref(), Some("No bookmarks"));
}

#[test]
fn test_filter_history() {
    let mut state = state_with_capacity(10, 1);
    for p in ["one", "two", "one"] {
        state.set_filter_text(p);
        state.apply_filter();
    }
    assert_eq!(state.filter_history, vec!["one", "two"]);
    assert_eq!(state.mode, InputMode::Normal);
    assert!(state.filter_history_up());
    assert_eq!(state.filter_input(), "one");
    assert!(state.filter_history_up());
    assert_eq!(state.filter_input(), "two");
    assert!(!state.filter_history_up());
    assert!(state.filter_history_down());
    assert_eq!(state.filter_input(), "one");
    assert!(state.filter_history_down());
    assert_eq!(state.filter_input(), "");
    assert!(!state.filter_history_down());
}

#[test]
fn test_filter_history_is_capped() {
    let mut state = state_with_capacity(10, 1);
    for i in 0..60 {
        state.add_to_filter_history(format!("p{}", i));
    }
    assert_eq!(state.filter_history.len(), 50);
    assert_eq!(state.filter_history[0], "p59");
    state.add_to_filter_history(String::new());
    assert_eq!(state.filter_history.len(), 50);
}

#[test]
fn test_match_navigation_wraps() {
    let mut state = state_with_capacity(10, 1);
    for t in ["a", "b", "c"] {
        state.push_line(line(t));
    }
    state.go_to_top();
    state.prev_match();
    assert_eq!(state.panes[0].scroll, 2);
    assert_eq!(state.status_message.as_deref(), Some("Match 3/3 (wrapped)"));
    state.next_match();
    assert_eq!(state.panes[0].scroll, 0);
    assert_eq!(state.status_message.as_deref(), Some("Match 1/3 (wrapped)"));
    state.next_match();
    assert_eq!(state.status_message.as_deref(), Some("Match 2/3"));
}

#[test]
fn test_scrolling_bounds() {
    let mut state = state_with_capacity(10, 1);
    for t in ["a", "b", "c", "d"] {
        state.push_line(line(t));
    }
    state.go_to_top();
    state.scroll_page_down(100);
    assert_eq!(state.panes[0].scroll, 3);
    state.scroll_down();
    assert_eq!(state.panes[0].scroll, 3);
    state.scroll_page_up(2);
    assert_eq!(state.panes[0].scroll, 1);
    state.scroll_up();
    state.scroll_up();
    assert_eq!(state.panes[0].scroll, 0);
    state.go_to_bottom();
    assert!(state.panes[0].stick_to_bottom);
    assert_eq!(state.panes[0].scroll, 3);
    assert_eq!(state.get_current_line_text(), Some("d".to_string()));
}

#[test]
fn test_split_and_close() {
    let mut state = state_with_capacity(10, 1);
    state.push_line(line("x"));
    state.split_vertical();
    assert!(state.is_split());
    assert_eq!(state.active_pane, 1);
    assert_eq!(state.split_direction, SplitDirection::Vertical);
    assert_eq!(state.panes[1].filtered_indices, vec![0]);
    state.split_horizontal();
    assert_eq!(state.status_message.as_deref(), Some("Already split (close with Ctrl+W,q)"));
    state.focus_pane_left();
    assert_eq!(state.active_pane, 0);
    state.cycle_pane();
    assert_eq!(state.active_pane, 1);
    state.close_pane();
    assert!(!state.is_split());
    assert_eq!(state.active_pane, 0);
    state.close_pane();
    assert_eq!(state.status_message.as_deref(), Some("No split to close"));
}

#[test]
fn test_both_panes_follow_eviction() {
    let mut state = state_with_capacity(2, 1);
    state.push_line(line("a"));
    state.split_vertical();
    state.push_line(line("b"));
    state.push_line(line("c"));
    assert_eq!(state.panes[0].filtered_indices, vec![0, 1]);
    assert_eq!(state.panes[1].filtered_indices, vec![0, 1]);
}

#[test]
fn test_source_visibility_and_view_mode() {
    let mut state = state_with_capacity(10, 2);
    state.push_line(line("from 0").with_source_id(0));
    state.push_line(line("from 1").with_source_id(1));
    state.toggle_source_visibility(0);
    assert_eq!(state.panes[0].filtered_indices, vec![1]);
    state.show_all_sources();
    assert_eq!(state.panes[0].filtered_indices, vec![0, 1]);
    state.set_view_mode(SourceViewMode::SingleSource(0));
    assert_eq!(state.panes[0].filtered_indices, vec![0]);
    state.set_view_mode(SourceViewMode::AllMerged);
    state.add_source(LogSourceType::Docker { container: "new".to_string() });
    assert_eq!(state.panes[0].visible_sources, vec![true, true, true]);
    state.push_line(line("from 2").with_source_id(2));
    assert_eq!(state.panes[0].filtered_indices, vec![0, 1, 2]);
}

#[test]
fn test_export_and_counts() {
    let mut state = state_with_capacity(10, 1);
    for t in ["keep 1", "skip", "keep 2"] {
        state.push_line(line(t));
    }
    set_filter(&mut state, "keep", false);
    assert_eq!(state.export_lines(0), vec!["keep 1", "keep 2"]);
    assert_eq!(state.export_lines(5), Vec::<String>::new());
    assert_eq!(state.line_counts_for_pane(0), (3, 2));
    assert_eq!(state.line_counts_for_pane(5), (3, 0));
}

#[test]
fn test_toggles_and_theme() {
    let mut state = state_with_capacity(10, 1);
    state.toggle_json_pretty();
    assert_eq!(state.status_message.as_deref(), Some("JSON pretty-print: on"));
    state.toggle_line_wrap();
    assert!(state.line_wrap);
    state.scroll_right();
    assert_eq!(state.panes[0].horizontal_scroll, 0);
    state.toggle_line_wrap();
    state.scroll_right_large();
    state.scroll_left();
    assert_eq!(state.panes[0].horizontal_scroll, 16);
    state.scroll_home();
    assert_eq!(state.panes[0].horizontal_scroll, 0);
    assert_eq!(state.theme_name, "default");
    state.cycle_theme();
    assert_eq!(state.theme_name, "kawaii");
    assert_eq!(state.status_message.as_deref(), Some("Theme: kawaii"));
    state.toggle_setting(3);
    assert!(!state.show_side_panel);
}

#[test]
fn test_saved_filters() {
    let mut state = state_with_capacity(10, 1);
    for t in ["warn a", "info b"] {
        state.push_line(line(t));
    }
    set_filter(&mut state, "warn", false);
    state.save_current_filter("warnings".to_string());
    assert_eq!(state.saved_filters.len(), 1);
    state.cancel_filter();
    set_filter(&mut state, "info", false);
    assert_eq!(state.panes[0].filtered_indices, vec![1]);
    state.apply_saved_filter(0);
    assert_eq!(state.panes[0].filtered_indices, vec![0]);
    assert_eq!(state.status_message.as_deref(), Some("Applied filter: warnings"));
}

#[test]
fn test_highlight_ranges_follow_active_filter() {
    let mut state = state_with_capacity(10, 1);
    assert!(state.get_match_ranges("an error").is_empty());
    set_filter(&mut state, "error", false);
    let ranges = state.get_match_ranges("an ERROR and error");
    assert_eq!(ranges.len(), 2);
    assert_eq!((ranges[1].start, ranges[1].end), (13, 18));
}

#[test]
fn test_zero_capacity_keeps_nothing() {
    let mut state = state_with_capacity(0, 1);
    state.push_line(line("a"));
    assert_eq!(state.lines.len(), 0);
}

#[test]
fn test_throughput_tracking() {
    let mut state = state_with_capacity(10, 1);
    state.track_throughput(5, 500);
    assert_eq!(state.lines_this_second, 5);
    state.track_throughput(3, 1200);
    assert_eq!(state.lines_per_second, 5);
    assert_eq!(state.lines_this_second, 3);
}

#[test]
fn test_source_event_reports() {
    let mut state = state_with_capacity(10, 1);
    state.push_line(line("kept"));
    state.report_source_error(0, "boom");
    assert_eq!(state.status_message.as_deref(), Some("[docker:c0] Error: boom"));
    state.report_end_of_stream(7);
    assert_eq!(state.status_message.as_deref(), Some("[unknown] Stream ended"));
    assert_eq!(state.lines.len(), 1);
}
