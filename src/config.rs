//! Configuration values injected at construction.

use vstd::prelude::*;
use vstd::string::StringExecFns;
use crate::text::{lower_of, lowercase};

verus! {

/// Default channel buffer size for log sources.
pub const DEFAULT_CHANNEL_BUFFER: usize = 1000;

/// Default number of lines to tail from sources.
pub const DEFAULT_TAIL_LINES: &'static str = "1000";

/// Filter input debounce delay in milliseconds.
pub const FILTER_DEBOUNCE_MS: u64 = 150;

/// Mouse scroll lines per wheel event.
pub const MOUSE_SCROLL_LINES: usize = 3;

/// Configuration.
pub struct Config {
    /// Maximum number of log lines to keep in the ring buffer
    pub max_lines: usize,
    /// Whether to enable log level coloring by default
    pub level_colors: bool,
    /// Whether to enable line wrapping by default
    pub line_wrap: bool,
    /// Whether to show the side panel by default
    pub show_side_panel: bool,
    /// Default export directory
    pub export_dir: String,
    /// Theme name
    pub theme: String,
    /// Quiet time after a filter edit before the filter is reapplied, in milliseconds
    pub filter_debounce_ms: u64,
}

impl Default for Config {
    fn default() -> (r: Self)
        ensures
            r.max_lines == 10_000,
            r.level_colors,
            !r.line_wrap,
            r.show_side_panel,
            r.export_dir@ == "/tmp"@,
            r.theme@ == "default"@,
            r.filter_debounce_ms == FILTER_DEBOUNCE_MS,
    {
        Config {
            max_lines: 10_000,
            level_colors: true,
            line_wrap: false,
            show_side_panel: true,
            export_dir: String::from_str("/tmp"),
            theme: String::from_str("default"),
            filter_debounce_ms: FILTER_DEBOUNCE_MS,
        }
    }
}

impl Clone for Config {
    fn clone(&self) -> (r: Self)
        ensures
            r.max_lines == self.max_lines,
            r.level_colors == self.level_colors,
            r.line_wrap == self.line_wrap,
            r.show_side_panel == self.show_side_panel,
            r.export_dir@ == self.export_dir@,
            r.theme@ == self.theme@,
            r.filter_debounce_ms == self.filter_debounce_ms,
    {
        Config {
            max_lines: self.max_lines,
            level_colors: self.level_colors,
            line_wrap: self.line_wrap,
            show_side_panel: self.show_side_panel,
            export_dir: self.export_dir.clone(),
            theme: self.theme.clone(),
            filter_debounce_ms: self.filter_debounce_ms,
        }
    }
}

/// A boolean setting written as text: `1`, or `true` in any case.
pub open spec fn flag_text_value(val: Seq<char>) -> bool {
    val == "1"@ || lower_of(val) == "true"@
}

/// Read a boolean setting written as text.
pub fn flag_value(val: &str) -> (r: bool)
    ensures
        r == flag_text_value(val@),
{
    let one = String::from_str("1");
    let t = String::from_str("true");
    let v = String::from_str(val);
    let lower = lowercase(val);
    v == one || lower == t
}

} // verus!
