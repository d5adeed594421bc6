//! Filters over log text: case-insensitive substring, or regular expression
//! with a literal fallback when the expression does not compile.

use vstd::prelude::*;
use vstd::string::StringSliceAdditionalSpecFns;
use vstd::utf8::encode_utf8;
use crate::text::{
    bytes_match_at, find_bytes_from, lower_of, lowercase, occurs_at, str_contains,
    text_contains,
};

verus! {

#[verifier::external_type_specification]
#[verifier::external_body]
pub struct ExRegex(regex::Regex);

/// Whether `pattern` is accepted by the regular-expression engine.
pub uninterp spec fn regex_compiles(pattern: Seq<char>) -> bool;

/// Whether the compiled `pattern` matches somewhere in `line`.
pub uninterp spec fn regex_is_match(pattern: Seq<char>, line: Seq<char>) -> bool;

/// Byte spans of the successive non-overlapping matches of `pattern` in `line`.
pub uninterp spec fn regex_spans(pattern: Seq<char>, line: Seq<char>) -> Seq<(usize, usize)>;

/// A regular expression together with the pattern it was compiled from.
pub struct CompiledPattern {
    re: regex::Regex,
    source: Ghost<Seq<char>>,
}

impl CompiledPattern {
    /// The pattern this expression was compiled from.
    pub closed spec fn source(&self) -> Seq<char> {
        self.source@
    }
}

/// Relies on `regex::Regex::new`: whether a pattern compiles depends on the pattern alone.
#[verifier::external_body]
fn compile_regex(pattern: &str) -> (r: Option<CompiledPattern>)
    ensures
        r.is_some() == regex_compiles(pattern@),
        r matches Some(c) ==> c.source() == pattern@,
{
    match regex::Regex::new(pattern) {
        Ok(re) => Some(CompiledPattern { re, source: Ghost(pattern@) }),
        Err(_) => None,
    }
}

/// Relies on `regex::Regex::is_match`.
#[verifier::external_body]
fn regex_matches(c: &CompiledPattern, line: &str) -> (r: bool)
    ensures
        r == regex_is_match(c.source(), line@),
{
    c.re.is_match(line)
}

/// Relies on `regex::Regex::find_iter`, with `Match::start` and `Match::end`.
#[verifier::external_body]
fn regex_find_spans(c: &CompiledPattern, line: &str) -> (r: Vec<(usize, usize)>)
    ensures
        r@ == regex_spans(c.source(), line@),
{
    c.re.find_iter(line).map(|m| (m.start(), m.end())).collect()
}

/// A range of bytes `start..end` within a line.
#[derive(Clone, Copy, Debug, PartialEq, Eq, Structural)]
pub struct MatchRange {
    pub start: usize,
    pub end: usize,
}

/// What a filter with this pattern and mode accepts.
pub open spec fn filter_matches(pattern: Seq<char>, is_regex: bool, line: Seq<char>) -> bool {
    if is_regex && regex_compiles(pattern) {
        regex_is_match(pattern, line)
    } else if is_regex {
        text_contains(line, pattern)
    } else {
        text_contains(lower_of(line), lower_of(pattern))
    }
}

/// The first occurrence of `needle` in `hay` at or after `start`, or -1.
pub open spec fn first_occurrence(hay: Seq<u8>, needle: Seq<u8>, start: int) -> int
    decreases hay.len() + 1 - start,
{
    if start < 0 || start > hay.len() {
        -1
    } else if occurs_at(hay, needle, start) {
        start
    } else {
        first_occurrence(hay, needle, start + 1)
    }
}

/// Successive non-overlapping occurrences of a non-empty `needle` in `hay`,
/// scanning left to right from `start`, each scan resuming at the end of the
/// previous occurrence.
pub open spec fn occurrence_ranges(hay: Seq<u8>, needle: Seq<u8>, start: int) -> Seq<MatchRange>
    decreases hay.len() + 1 - start,
{
    let p = first_occurrence(hay, needle, start);
    if needle.len() == 0 || start < 0 || p < start || p + needle.len() > hay.len() {
        seq![]
    } else {
        seq![MatchRange { start: p as usize, end: (p + needle.len()) as usize }]
            + occurrence_ranges(hay, needle, p + needle.len())
    }
}

/// Spans reported by the regular-expression engine, as ranges.
pub open spec fn spans_to_ranges(spans: Seq<(usize, usize)>) -> Seq<MatchRange> {
    spans.map_values(|s: (usize, usize)| MatchRange { start: s.0, end: s.1 })
}

/// The highlight ranges of a filter with this pattern and mode in `line`.
pub open spec fn filter_ranges(pattern: Seq<char>, is_regex: bool, line: Seq<char>) -> Seq<MatchRange> {
    if is_regex && regex_compiles(pattern) {
        spans_to_ranges(regex_spans(pattern, line))
    } else {
        occurrence_ranges(encode_utf8(lower_of(line)), encode_utf8(lower_of(pattern)), 0)
    }
}

proof fn lemma_first_occurrence(hay: Seq<u8>, needle: Seq<u8>, start: int, found: Option<usize>)
    requires
        0 <= start <= hay.len(),
        match found {
            Some(p) => start <= p && occurs_at(hay, needle, p as int) && forall|q: int|
                start <= q < p ==> !#[trigger] occurs_at(hay, needle, q),
            None => forall|q: int| start <= q ==> !#[trigger] occurs_at(hay, needle, q),
        },
    ensures
        first_occurrence(hay, needle, start) == match found {
            Some(p) => p as int,
            None => -1,
        },
    decreases hay.len() + 1 - start,
{
    if occurs_at(hay, needle, start) {
        match found {
            Some(p) => {
                if p > start {
                    assert(!occurs_at(hay, needle, start));
                }
            },
            None => {
                assert(!occurs_at(hay, needle, start));
            },
        }
    } else if start == hay.len() {
        match found {
            Some(p) => {
                assert(p == start);
            },
            None => {},
        }
        assert(first_occurrence(hay, needle, start + 1) == -1);
    } else {
        match found {
            Some(p) => {
                assert(p != start);
            },
            None => {},
        }
        lemma_first_occurrence(hay, needle, start + 1, found);
    }
}

/// A filter applied to log lines.
pub struct ActiveFilter {
    pattern: String,
    is_regex: bool,
    compiled: Option<CompiledPattern>,
    pattern_lower: String,
}

impl ActiveFilter {
    #[verifier::type_invariant]
    spec fn inv(&self) -> bool {
        &&& self.compiled.is_some() == (self.is_regex && regex_compiles(self.pattern@))
        &&& (self.compiled matches Some(c) ==> c.source() == self.pattern@)
        &&& self.pattern_lower@ == lower_of(self.pattern@)
    }

    /// The pattern text.
    pub closed spec fn spec_pattern(&self) -> Seq<char> {
        self.pattern@
    }

    /// Whether the pattern is a regular expression.
    pub closed spec fn spec_is_regex(&self) -> bool {
        self.is_regex
    }

    /// Whether this filter accepts `line`.
    pub open spec fn accepts(&self, line: Seq<char>) -> bool {
        filter_matches(self.spec_pattern(), self.spec_is_regex(), line)
    }

    /// The highlight ranges of this filter in `line`.
    pub open spec fn ranges(&self, line: Seq<char>) -> Seq<MatchRange> {
        filter_ranges(self.spec_pattern(), self.spec_is_regex(), line)
    }

    pub fn new(pattern: String, is_regex: bool) -> (r: Self)
        ensures
            r.spec_pattern() == pattern@,
            r.spec_is_regex() == is_regex,
    {
        let compiled = if is_regex {
            compile_regex(pattern.as_str())
        } else {
            None
        };
        let pattern_lower = lowercase(pattern.as_str());
        ActiveFilter { pattern, is_regex, compiled, pattern_lower }
    }

    /// The pattern text.
    pub fn pattern(&self) -> (r: &String)
        ensures
            r@ == self.spec_pattern(),
    {
        &self.pattern
    }

    /// Whether the pattern is a regular expression.
    pub fn is_regex(&self) -> (r: bool)
        ensures
            r == self.spec_is_regex(),
    {
        self.is_regex
    }

    /// A filter with the same pattern and mode.
    pub fn duplicate(&self) -> (r: Self)
        ensures
            r.spec_pattern() == self.spec_pattern(),
            r.spec_is_regex() == self.spec_is_regex(),
    {
        ActiveFilter::new(self.pattern.clone(), self.is_regex)
    }

    /// Check if a line matches this filter.
    pub fn matches(&self, line: &str) -> (r: bool)
        ensures
            r == self.accepts(line@),
    {
        proof {
            use_type_invariant(self);
        }
        if self.is_regex {
            match &self.compiled {
                Some(re) => regex_matches(re, line),
                None => str_contains(line, self.pattern.as_str()),
            }
        } else {
            let line_lower = lowercase(line);
            str_contains(line_lower.as_str(), self.pattern_lower.as_str())
        }
    }

    /// Find all match ranges in a line.
    pub fn find_matches(&self, line: &str) -> (r: Vec<MatchRange>)
        ensures
            r@ == self.ranges(line@),
    {
        proof {
            use_type_invariant(self);
        }
        if self.is_regex {
            if let Some(re) = &self.compiled {
                let spans = regex_find_spans(re, line);
                let mut out: Vec<MatchRange> = Vec::new();
                let mut i: usize = 0;
                while i < spans.len()
                    invariant
                        i <= spans@.len(),
                        out@ == spans_to_ranges(spans@.subrange(0, i as int)),
                    decreases spans@.len() - i,
                {
                    out.push(MatchRange { start: spans[i].0, end: spans[i].1 });
                    proof {
                        assert(spans@.subrange(0, i + 1) =~= spans@.subrange(0, i as int).push(
                            spans@[i as int],
                        ));
                        assert(spans_to_ranges(spans@.subrange(0, i + 1)) =~= spans_to_ranges(
                            spans@.subrange(0, i as int),
                        ).push(MatchRange { start: spans@[i as int].0, end: spans@[i as int].1 }));
                    }
                    i += 1;
                }
                assert(spans@.subrange(0, spans@.len() as int) =~= spans@);
                return out;
            }
        }
        let line_lower = lowercase(line);
        find_substring_matches(line_lower.as_str().as_bytes(), self.pattern_lower.as_str().as_bytes())
    }
}

/// Successive non-overlapping occurrences of `needle` in `hay`.
fn find_substring_matches(hay: &[u8], needle: &[u8]) -> (r: Vec<MatchRange>)
    ensures
        r@ == occurrence_ranges(hay@, needle@, 0),
{
    let mut out: Vec<MatchRange> = Vec::new();
    if needle.len() == 0 {
        return out;
    }
    let mut start: usize = 0;
    while start <= hay.len()
        invariant
            needle@.len() > 0,
            start <= hay@.len(),
            out@ + occurrence_ranges(hay@, needle@, start as int) == occurrence_ranges(hay@, needle@, 0),
        decreases hay@.len() + 1 - start,
    {
        let found = find_bytes_from(hay, needle, start);
        proof {
            lemma_first_occurrence(hay@, needle@, start as int, found);
        }
        match found {
            Some(pos) => {
                let end = pos + needle.len();
                let ghost before = out@;
                out.push(MatchRange { start: pos, end });
                proof {
                    assert(occurrence_ranges(hay@, needle@, start as int) == seq![MatchRange { start: pos, end }]
                        + occurrence_ranges(hay@, needle@, end as int));
                    assert(out@ + occurrence_ranges(hay@, needle@, end as int) =~= before + (seq![MatchRange { start: pos, end }]
                        + occurrence_ranges(hay@, needle@, end as int)));
                }
                start = end;
            },
            None => {
                assert(out@ + occurrence_ranges(hay@, needle@, start as int) =~= out@);
                return out;
            },
        }
    }
    out
}

/// A saved filter with a name.
pub struct SavedFilter {
    pub name: String,
    pub pattern: String,
    pub is_regex: bool,
}

} // verus!
