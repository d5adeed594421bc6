//! Log records: a raw line with its level, ANSI and JSON flags, timestamp and
//! source, all derived once when the record is made.

use vstd::prelude::*;
use vstd::string::StringSliceAdditionalSpecFns;
use vstd::utf8::encode_utf8;
use vstd::string::{StrSliceExecFns, StringExecFns};
use chrono::TimeZone;
use crate::text::{decimal, decimal_string, str_contains, text_contains, upper_of, uppercase};

verus! {

/// Detected log level.
#[derive(Clone, Copy, Debug, PartialEq, Eq, Structural)]
pub enum LogLevel {
    Error,
    Warn,
    Info,
    Debug,
    Trace,
    Unknown,
}

/// One of three markers of a level occurs in the upper-cased text `u`.
pub open spec fn has_marker(u: Seq<char>, word: &str, short: &str, tail: &str) -> bool {
    text_contains(u, word@) || text_contains(u, short@) || text_contains(u, tail@)
}

/// The level named by the upper-cased text `u`, the most severe first.
pub open spec fn level_of(u: Seq<char>) -> LogLevel {
    if has_marker(u, "ERROR", "[E]", "ERR]") {
        LogLevel::Error
    } else if has_marker(u, "WARN", "[W]", "WRN]") {
        LogLevel::Warn
    } else if has_marker(u, "INFO", "[I]", "INF]") {
        LogLevel::Info
    } else if has_marker(u, "DEBUG", "[D]", "DBG]") {
        LogLevel::Debug
    } else if has_marker(u, "TRACE", "[T]", "TRC]") {
        LogLevel::Trace
    } else {
        LogLevel::Unknown
    }
}

fn any_marker(u: &str, word: &str, short: &str, tail: &str) -> (r: bool)
    ensures
        r == has_marker(u@, word, short, tail),
{
    str_contains(u, word) || str_contains(u, short) || str_contains(u, tail)
}

impl LogLevel {
    /// Detect log level from a line of text.
    pub fn detect(line: &str) -> (r: Self)
        ensures
            r == level_of(upper_of(line@)),
    {
        let upper = uppercase(line);
        let u = upper.as_str();
        if any_marker(u, "ERROR", "[E]", "ERR]") {
            LogLevel::Error
        } else if any_marker(u, "WARN", "[W]", "WRN]") {
            LogLevel::Warn
        } else if any_marker(u, "INFO", "[I]", "INF]") {
            LogLevel::Info
        } else if any_marker(u, "DEBUG", "[D]", "DBG]") {
            LogLevel::Debug
        } else if any_marker(u, "TRACE", "[T]", "TRC]") {
            LogLevel::Trace
        } else {
            LogLevel::Unknown
        }
    }
}

/// `s` with leading and trailing whitespace removed, as `str::trim` does.
pub uninterp spec fn trimmed_of(s: Seq<char>) -> Seq<char>;

/// Relies on `str::trim`: the result depends on the characters alone.
#[verifier::external_body]
fn trim(s: &str) -> (r: &str)
    ensures
        r@ == trimmed_of(s@),
{
    s.trim()
}

/// The bytes start with `open` and end with `close`.
pub open spec fn bracketed(b: Seq<u8>, open: u8, close: u8) -> bool {
    b.len() > 0 && b[0] == open && b[b.len() - 1] == close
}

/// The trimmed line looks like a JSON object or array.
pub open spec fn json_like(line: Seq<char>) -> bool {
    let b = encode_utf8(trimmed_of(line));
    bracketed(b, 123u8, 125u8) || bracketed(b, 91u8, 93u8)
}

/// A single log record.
pub struct LogLine {
    /// The raw log line as received (may contain ANSI codes)
    pub raw: String,
    /// Detected log level
    pub level: LogLevel,
    /// Whether the line contains ANSI escape codes
    pub has_ansi: bool,
    /// Timestamp found in the line, in seconds since the Unix epoch
    pub timestamp: Option<i64>,
    /// Whether this line looks like JSON
    pub is_json: bool,
    /// Index of the source this line came from
    pub source_id: usize,
}

/// The instant, in seconds since the Unix epoch, that `s` gives in format
/// `fmt` when it carries its own UTC offset.
pub uninterp spec fn zoned_parse(s: Seq<char>, fmt: Seq<char>) -> Option<i64>;

/// Whether `s` parses in format `fmt` as a date and time without an offset.
pub uninterp spec fn naive_parses(s: Seq<char>, fmt: Seq<char>) -> bool;

/// Whether `c` is whitespace, as `char::is_whitespace` says.
pub uninterp spec fn whitespace_char(c: char) -> bool;

/// Relies on `chrono::NaiveDateTime::parse_from_str`, read in the machine's
/// time zone by `chrono::Local::from_local_datetime`: the instant depends on
/// the time zone, so only whether the text parsed is stated.
#[verifier::external_body]
fn local_timestamp(s: &str, fmt: &str) -> (r: Option<Option<i64>>)
    ensures
        r.is_some() == naive_parses(s@, fmt@),
{
    match chrono::NaiveDateTime::parse_from_str(s, fmt) {
        Ok(dt) => Some(chrono::Local.from_local_datetime(&dt).single().map(|d| d.timestamp())),
        Err(_) => None,
    }
}

/// Relies on `chrono::DateTime::parse_from_str` with `DateTime::timestamp`.
#[verifier::external_body]
fn offset_timestamp(s: &str, fmt: &str) -> (r: Option<i64>)
    ensures
        r == zoned_parse(s@, fmt@),
{
    chrono::DateTime::parse_from_str(s, fmt).ok().map(|d| d.timestamp())
}

/// Relies on `char::is_whitespace`.
#[verifier::external_body]
pub(crate) fn is_whitespace(c: char) -> (r: bool)
    ensures
        r == whitespace_char(c),
{
    c.is_whitespace()
}

/// Relies on `chrono::Local::now` with `DateTime::timestamp`: the time now, in
/// seconds since the Unix epoch.
#[verifier::external_body]
pub(crate) fn now_seconds() -> (r: i64) {
    chrono::Local::now().timestamp()
}

/// Number of timestamp formats tried.
pub const TIMESTAMP_FORMAT_COUNT: usize = 9;

/// The timestamp formats, most specific first.
pub open spec fn timestamp_formats() -> Seq<Seq<char>> {
    seq![
        "%Y-%m-%dT%H:%M:%S%.fZ"@,
        "%Y-%m-%dT%H:%M:%S%.f%:z"@,
        "%Y-%m-%dT%H:%M:%S%:z"@,
        "%Y-%m-%dT%H:%M:%S%.f"@,
        "%Y-%m-%dT%H:%M:%S"@,
        "%Y-%m-%d %H:%M:%S%.f"@,
        "%Y-%m-%d %H:%M:%S"@,
        "%d/%b/%Y:%H:%M:%S %z"@,
        "%b %d %H:%M:%S"@,
    ]
}

/// Timestamp format `i`.
pub fn timestamp_format(i: usize) -> (r: &'static str)
    requires
        i < TIMESTAMP_FORMAT_COUNT,
    ensures
        r@ == timestamp_formats()[i as int],
{
    if i == 0 {
        "%Y-%m-%dT%H:%M:%S%.fZ"
    } else if i == 1 {
        "%Y-%m-%dT%H:%M:%S%.f%:z"
    } else if i == 2 {
        "%Y-%m-%dT%H:%M:%S%:z"
    } else if i == 3 {
        "%Y-%m-%dT%H:%M:%S%.f"
    } else if i == 4 {
        "%Y-%m-%dT%H:%M:%S"
    } else if i == 5 {
        "%Y-%m-%d %H:%M:%S%.f"
    } else if i == 6 {
        "%Y-%m-%d %H:%M:%S"
    } else if i == 7 {
        "%d/%b/%Y:%H:%M:%S %z"
    } else {
        "%b %d %H:%M:%S"
    }
}

/// `s` parses in format `i`, with or without an offset of its own.
pub open spec fn parses_in(s: Seq<char>, i: int) -> bool {
    naive_parses(s, timestamp_formats()[i]) || zoned_parse(s, timestamp_formats()[i]).is_some()
}

/// The first format at or after `i` in which `s` parses, or `TIMESTAMP_FORMAT_COUNT`.
pub open spec fn first_format(s: Seq<char>, i: nat) -> nat
    decreases TIMESTAMP_FORMAT_COUNT - i,
{
    if i >= TIMESTAMP_FORMAT_COUNT {
        TIMESTAMP_FORMAT_COUNT as nat
    } else if parses_in(s, i as int) {
        i
    } else {
        first_format(s, i + 1)
    }
}

/// What the first format that parses `s` gives, when it is one with an
/// offset; a local date and time gives an instant that depends on the
/// machine's time zone and is not stated.
pub open spec fn format_outcome(s: Seq<char>, r: Option<Option<i64>>) -> bool {
    let j = first_format(s, 0);
    &&& (j == TIMESTAMP_FORMAT_COUNT <==> r.is_none())
    &&& (j < TIMESTAMP_FORMAT_COUNT && !naive_parses(s, timestamp_formats()[j as int]) ==> r == Some(
        zoned_parse(s, timestamp_formats()[j as int]),
    ))
}

/// Try every format on `s`: for each, first as a local date and time, then
/// with its own offset. `None` when no format parses.
fn parse_with_formats(s: &str) -> (r: Option<Option<i64>>)
    ensures
        format_outcome(s@, r),
{
    let mut i: usize = 0;
    while i < TIMESTAMP_FORMAT_COUNT
        invariant
            i <= TIMESTAMP_FORMAT_COUNT,
            first_format(s@, 0) == first_format(s@, i as nat),
        decreases TIMESTAMP_FORMAT_COUNT - i,
    {
        let fmt = timestamp_format(i);
        if let Some(t) = local_timestamp(s, fmt) {
            return Some(t);
        }
        if let Some(t) = offset_timestamp(s, fmt) {
            return Some(Some(t));
        }
        i += 1;
    }
    None
}

/// The first 35 characters of a line, where a timestamp is looked for.
pub open spec fn timestamp_prefix(line: Seq<char>) -> Seq<char> {
    if line.len() > 35 {
        line.subrange(0, 35)
    } else {
        line
    }
}

/// Parse a timestamp from the start of a line: the first 35 characters in
/// each format, then each of their first three words. When the first format
/// that parses the prefix carries an offset, the result is the instant it gives.
pub fn parse_timestamp(line: &str) -> (r: Option<i64>)
    ensures
        ({
            let p = timestamp_prefix(line@);
            let j = first_format(p, 0);
            j < TIMESTAMP_FORMAT_COUNT && !naive_parses(p, timestamp_formats()[j as int]) ==> r == zoned_parse(
                p,
                timestamp_formats()[j as int],
            )
        }),
{
    let n = line.unicode_len();
    let k = if n > 35 { 35 } else { n };
    let prefix = line.substring_char(0, k);
    proof {
        assert(prefix@ =~= timestamp_prefix(line@));
    }
    if let Some(t) = parse_with_formats(prefix) {
        return t;
    }
    let mut words: usize = 0;
    let mut start: usize = 0;
    let mut in_word = false;
    let mut i: usize = 0;
    while i < k && words < 3
        invariant
            k == prefix@.len(),
            i <= k,
            start <= i,
            first_format(timestamp_prefix(line@), 0) == TIMESTAMP_FORMAT_COUNT,
        decreases k - i,
    {
        if is_whitespace(prefix.get_char(i)) {
            if in_word {
                if let Some(t) = parse_with_formats(prefix.substring_char(start, i)) {
                    return t;
                }
                words += 1;
                in_word = false;
            }
        } else if !in_word {
            in_word = true;
            start = i;
        }
        i += 1;
    }
    if in_word && words < 3 {
        if let Some(t) = parse_with_formats(prefix.substring_char(start, i)) {
            return t;
        }
    }
    None
}

/// Seconds from `ts` to `now` as text: `future` for a later `ts`, else the
/// largest whole unit among seconds, minutes, hours, days and weeks that
/// keeps the count below the next unit.
pub open spec fn relative_text(ts: i64, now: i64) -> Seq<char> {
    let d = now - ts;
    if d < 0 {
        "future"@
    } else if d < 60 {
        decimal(d as nat) + "s ago"@
    } else if d < 3600 {
        decimal((d / 60) as nat) + "m ago"@
    } else if d < 86400 {
        decimal((d / 3600) as nat) + "h ago"@
    } else if d < 604800 {
        decimal((d / 86400) as nat) + "d ago"@
    } else {
        decimal((d / 604800) as nat) + "w ago"@
    }
}

/// Format the time from `ts` to `now` as human-readable relative time.
pub fn format_relative_time(ts: i64, now: i64) -> (r: String)
    ensures
        r@ == relative_text(ts, now),
{
    let d: i128 = now as i128 - ts as i128;
    if d < 0 {
        return String::from_str("future");
    }
    let (count, unit) = if d < 60 {
        (d, "s ago")
    } else if d < 3600 {
        (d / 60, "m ago")
    } else if d < 86400 {
        (d / 3600, "h ago")
    } else if d < 604800 {
        (d / 86400, "d ago")
    } else {
        (d / 604800, "w ago")
    };
    let mut out = decimal_string(count as u64);
    out.append(unit);
    out
}

impl LogLine {
    /// A record of `raw` from source 0, with everything derived from the text
    /// but the timestamp, which the caller supplies.
    pub fn with_timestamp(raw: String, timestamp: Option<i64>) -> (r: Self)
        ensures
            r.raw@ == raw@,
            r.level == level_of(upper_of(raw@)),
            r.has_ansi == text_contains(raw@, "\u{1b}"@),
            r.is_json == json_like(raw@),
            r.timestamp == timestamp,
            r.source_id == 0,
    {
        let level = LogLevel::detect(raw.as_str());
        let has_ansi = str_contains(raw.as_str(), "\u{1b}");
        let is_json = Self::detect_json(raw.as_str());
        LogLine { raw, level, has_ansi, timestamp, is_json, source_id: 0 }
    }

    /// A record of `raw` from source 0, with level, ANSI and JSON flags and
    /// timestamp derived from the text.
    pub fn new(raw: String) -> (r: Self)
        ensures
            r.raw@ == raw@,
            r.level == level_of(upper_of(raw@)),
            r.has_ansi == text_contains(raw@, "\u{1b}"@),
            r.is_json == json_like(raw@),
            r.source_id == 0,
    {
        let timestamp = parse_timestamp(raw.as_str());
        Self::with_timestamp(raw, timestamp)
    }

    /// Relative time from the record's timestamp to `now`, in seconds since the epoch.
    pub fn relative_time_at(&self, now: i64) -> (r: Option<String>)
        ensures
            match self.timestamp {
                Some(ts) => r matches Some(t) && t@ == relative_text(ts, now),
                None => r.is_none(),
            },
    {
        match self.timestamp {
            Some(ts) => Some(format_relative_time(ts, now)),
            None => None,
        }
    }

    /// Relative time from the record's timestamp to now.
    pub fn relative_time(&self) -> (r: Option<String>)
        ensures
            self.timestamp.is_none() <==> r.is_none(),
    {
        match self.timestamp {
            Some(ts) => Some(format_relative_time(ts, now_seconds())),
            None => None,
        }
    }

    /// Set the source ID for this line.
    pub fn with_source_id(self, source_id: usize) -> (r: Self)
        ensures
            r.raw == self.raw,
            r.level == self.level,
            r.has_ansi == self.has_ansi,
            r.timestamp == self.timestamp,
            r.is_json == self.is_json,
            r.source_id == source_id,
    {
        let mut line = self;
        line.source_id = source_id;
        line
    }

    /// Whether a line looks like a JSON object or array.
    pub fn detect_json(line: &str) -> (r: bool)
        ensures
            r == json_like(line@),
    {
        let t = trim(line);
        let b = t.as_bytes();
        let n = b.len();
        n > 0 && ((b[0] == 123u8 && b[n - 1] == 125u8) || (b[0] == 91u8 && b[n - 1] == 93u8))
    }
}

} // verus!
