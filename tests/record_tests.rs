use bark::text::apply_horizontal_scroll;
use bark::record::{format_relative_time, parse_timestamp, LogLevel, LogLine};

fn now_seconds() -> i64 {
    std::time::SystemTime::now().duration_since(std::time::UNIX_EPOCH).unwrap().as_secs() as i64
}

#[test]
fn test_detect_error_level() {
    assert_eq!(LogLevel::detect("ERROR: something failed"), LogLevel::Error);
    assert_eq!(LogLevel::detect("error: lowercase"), LogLevel::Error);
    assert_eq!(LogLevel::detect("Error: mixed case"), LogLevel::Error);
}

#[test]
fn test_detect_error_bracket_patterns() {
    assert_eq!(LogLevel::detect("[E] some message"), LogLevel::Error);
    assert_eq!(LogLevel::detect("2024-01-01 [ERR] failed"), LogLevel::Error);
}

#[test]
fn test_detect_warn_level() {
    assert_eq!(LogLevel::detect("WARN: something happened"), LogLevel::Warn);
    assert_eq!(LogLevel::detect("WARNING: be careful"), LogLevel::Warn);
    assert_eq!(LogLevel::detect("[W] warning message"), LogLevel::Warn);
    assert_eq!(LogLevel::detect("[WRN] another warning"), LogLevel::Warn);
}

#[test]
fn test_detect_info_level() {
    assert_eq!(LogLevel::detect("INFO: informational"), LogLevel::Info);
    assert_eq!(LogLevel::detect("[I] info bracket"), LogLevel::Info);
    assert_eq!(LogLevel::detect("[INF] info message"), LogLevel::Info);
}

#[test]
fn test_detect_debug_level() {
    assert_eq!(LogLevel::detect("DEBUG: some message"), LogLevel::Debug);
    assert_eq!(LogLevel::detect("[D] debug bracket"), LogLevel::Debug);
    assert_eq!(LogLevel::detect("[DBG] debug msg"), LogLevel::Debug);
}

#[test]
fn test_detect_trace_level() {
    assert_eq!(LogLevel::detect("TRACE: some message"), LogLevel::Trace);
    assert_eq!(LogLevel::detect("[T] trace bracket"), LogLevel::Trace);
    assert_eq!(LogLevel::detect("[TRC] trace msg"), LogLevel::Trace);
}

#[test]
fn test_detect_none_level() {
    assert_eq!(LogLevel::detect("just a regular line"), LogLevel::Unknown);
    assert_eq!(LogLevel::detect("no level here"), LogLevel::Unknown);
    assert_eq!(LogLevel::detect(""), LogLevel::Unknown);
}

#[test]
fn test_detect_level_most_severe_wins() {
    assert_eq!(LogLevel::detect("info: retrying after error"), LogLevel::Error);
    assert_eq!(LogLevel::detect("debug then warn"), LogLevel::Warn);
}

#[test]
fn test_detect_json_object() {
    assert!(LogLine::detect_json(r#"{"key": "value"}"#));
    assert!(LogLine::detect_json(r#"  {"key": "value"}  "#));
}

#[test]
fn test_detect_json_array() {
    assert!(LogLine::detect_json(r#"[1, 2, 3]"#));
    assert!(LogLine::detect_json(r#"  ["a", "b"]  "#));
}

#[test]
fn test_detect_json_not_json() {
    assert!(!LogLine::detect_json("just plain text"));
    assert!(!LogLine::detect_json("{incomplete"));
    assert!(!LogLine::detect_json("[incomplete"));
    assert!(!LogLine::detect_json("starts with { but ends wrong"));
}

#[test]
fn test_detect_json_single_brace_and_empty() {
    assert!(!LogLine::detect_json("{"));
    assert!(!LogLine::detect_json(""));
    assert!(!LogLine::detect_json("   "));
}

#[test]
fn test_parse_timestamp_iso8601() {
    let result = parse_timestamp("2024-01-15T10:30:00 some log message");
    assert!(result.is_some());
}

#[test]
fn test_parse_timestamp_iso8601_with_millis() {
    let result = parse_timestamp("2024-01-15T10:30:00.123 some log message");
    assert!(result.is_some());
}

#[test]
fn test_parse_timestamp_with_space_separator() {
    let result = parse_timestamp("2024-01-15T10:30:00 INFO some log message");
    assert!(result.is_some());
}

#[test]
fn test_parse_timestamp_none() {
    let result = parse_timestamp("no timestamp here");
    assert!(result.is_none());
}

#[test]
fn test_format_relative_time_seconds() {
    let now = now_seconds();
    let result = format_relative_time(now - 30, now);
    assert!(result.contains("s ago"));
    assert_eq!(result, "30s ago");
}

#[test]
fn test_format_relative_time_minutes() {
    let now = now_seconds();
    let result = format_relative_time(now - 5 * 60, now);
    assert!(result.contains("m ago"));
    assert_eq!(result, "5m ago");
}

#[test]
fn test_format_relative_time_hours() {
    let now = now_seconds();
    let result = format_relative_time(now - 3 * 3600, now);
    assert!(result.contains("h ago"));
    assert_eq!(result, "3h ago");
}

#[test]
fn test_format_relative_time_days() {
    let now = now_seconds();
    let result = format_relative_time(now - 2 * 86400, now);
    assert!(result.contains("d ago"));
    assert_eq!(result, "2d ago");
}

#[test]
fn test_format_relative_time_weeks() {
    let now = now_seconds();
    let result = format_relative_time(now - 2 * 604800, now);
    assert!(result.contains("w ago"));
    assert_eq!(result, "2w ago");
}

#[test]
fn test_format_relative_time_future() {
    let now = now_seconds();
    let result = format_relative_time(now + 3600, now);
    assert_eq!(result, "future");
}

#[test]
fn test_format_relative_time_unit_edges() {
    assert_eq!(format_relative_time(0, 59), "59s ago");
    assert_eq!(format_relative_time(0, 60), "1m ago");
    assert_eq!(format_relative_time(0, 3599), "59m ago");
    assert_eq!(format_relative_time(0, 86400), "1d ago");
    assert_eq!(format_relative_time(0, 0), "0s ago");
}

#[test]
fn test_logline_detects_level() {
    let line = LogLine::new("ERROR: something failed".to_string());
    assert_eq!(line.level, LogLevel::Error);
}

#[test]
fn test_logline_detects_ansi() {
    let line = LogLine::new("\x1b[31mred text\x1b[0m".to_string());
    assert!(line.has_ansi);

    let line_no_ansi = LogLine::new("plain text".to_string());
    assert!(!line_no_ansi.has_ansi);
}

#[test]
fn test_logline_detects_json() {
    let line = LogLine::new(r#"{"level": "error", "msg": "failed"}"#.to_string());
    assert!(line.is_json);

    let line_not_json = LogLine::new("plain text".to_string());
    assert!(!line_not_json.is_json);
}

#[test]
fn test_logline_with_source_id_and_relative_time() {
    let line = LogLine::with_timestamp("x".to_string(), Some(100)).with_source_id(3);
    assert_eq!(line.source_id, 3);
    assert_eq!(line.relative_time_at(160), Some("1m ago".to_string()));
    let untimed = LogLine::with_timestamp("y".to_string(), None);
    assert_eq!(untimed.relative_time_at(160), None);
    assert!(untimed.relative_time().is_none());
}

#[test]
fn test_apply_horizontal_scroll() {
    assert_eq!(apply_horizontal_scroll("hello", 0), "hello");
    assert_eq!(apply_horizontal_scroll("héllo", 2), "llo");
    assert_eq!(apply_horizontal_scroll("hi", 5), "");
}
