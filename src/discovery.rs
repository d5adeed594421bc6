//! Containers and pods offered for adding as sources.

use vstd::prelude::*;
use vstd::string::{StrSliceExecFns, StringExecFns};
use crate::record::{is_whitespace, whitespace_char};

verus! {

/// Information about a discovered container or pod.
#[derive(Debug, Clone)]
pub struct DiscoveredSource {
    /// Name of the container/pod
    pub name: String,
    /// Type of source (for display)
    pub source_type: SourceType,
    /// Current status (running, stopped, etc.)
    pub status: String,
    /// Extra info (image name, containers, etc.)
    pub extra: Option<String>,
    /// Namespace (for K8s pods)
    pub namespace: Option<String>,
}

#[derive(Debug, Clone, Copy, PartialEq, Eq, Structural)]
pub enum SourceType {
    Docker,
    K8s,
}

impl SourceType {
    /// The display label of the source type.
    pub fn to_string(&self) -> (r: String)
        ensures
            r@ == match self {
                SourceType::Docker => "Docker"@,
                SourceType::K8s => "K8s"@,
            },
    {
        match self {
            SourceType::Docker => String::from_str("Docker"),
            SourceType::K8s => String::from_str("K8s"),
        }
    }
}

/// The first position at or after `i` of a character of `s` that `sep`
/// accepts, or `s.len()`.
pub open spec fn first_sep(s: Seq<char>, sep: spec_fn(char) -> bool, i: nat) -> nat
    decreases s.len() - i,
{
    if i >= s.len() {
        s.len()
    } else if sep(s[i as int]) {
        i
    } else {
        first_sep(s, sep, i + 1)
    }
}

/// The pieces of `s` between characters that `sep` accepts, empty pieces included.
pub open spec fn pieces(s: Seq<char>, sep: spec_fn(char) -> bool) -> Seq<Seq<char>>
    decreases s.len(),
{
    let i = first_sep(s, sep, 0);
    if i >= s.len() {
        seq![s]
    } else {
        seq![s.subrange(0, i as int)] + pieces(s.subrange(i as int + 1, s.len() as int), sep)
    }
}

pub open spec fn views(v: Seq<String>) -> Seq<Seq<char>> {
    v.map_values(|s: String| s@)
}

/// The separator test used to split: one character, or any whitespace.
pub open spec fn sep_of(sep: Option<char>) -> spec_fn(char) -> bool {
    match sep {
        Some(c) => |x: char| x == c,
        None => |x: char| whitespace_char(x),
    }
}

fn is_sep(c: char, sep: Option<char>) -> (r: bool)
    ensures
        r == (sep_of(sep))(c),
{
    match sep {
        Some(s) => c == s,
        None => is_whitespace(c),
    }
}

/// Split `s` at every character equal to `sep`, or at every whitespace
/// character when `sep` is `None`; empty pieces are kept.
pub fn split_pieces(s: &str, sep: Option<char>) -> (r: Vec<String>)
    ensures
        views(r@) == pieces(s@, sep_of(sep)),
{
    let ghost f = sep_of(sep);
    let n = s.unicode_len();
    let mut out: Vec<String> = Vec::new();
    let mut start: usize = 0;
    let mut i: usize = 0;
    proof {
        assert(s@.subrange(0, n as int) =~= s@);
        assert(views(out@) =~= Seq::<Seq<char>>::empty());
        assert(views(out@) + pieces(s@, f) =~= pieces(s@, f));
    }
    while i < n
        invariant
            f == sep_of(sep),
            n == s@.len(),
            start <= i <= n,
            pieces(s@, f) == views(out@) + pieces(s@.subrange(start as int, n as int), f),
            first_sep(s@.subrange(start as int, n as int), f, 0) == first_sep(
                s@.subrange(start as int, n as int),
                f,
                (i - start) as nat,
            ),
        decreases n - i,
    {
        let ghost rest = s@.subrange(start as int, n as int);
        if is_sep(s.get_char(i), sep) {
            let piece = String::from_str(s.substring_char(start, i));
            let ghost before = out@;
            out.push(piece);
            proof {
                assert(rest[i - start] == s@[i as int]);
                assert(f(rest[i - start]));
                assert(first_sep(rest, f, (i - start) as nat) == (i - start) as nat);
                assert(first_sep(rest, f, 0) == (i - start) as nat);
                assert(pieces(rest, f) == seq![rest.subrange(0, (i - start) as int)] + pieces(
                    rest.subrange((i - start) + 1, rest.len() as int),
                    f,
                ));
                assert(rest.subrange(0, (i - start) as int) =~= s@.subrange(start as int, i as int));
                assert(rest.subrange((i - start) + 1, rest.len() as int) =~= s@.subrange(i + 1, n as int));
                assert(views(out@) =~= views(before).push(piece@));
                assert(views(before) + (seq![piece@] + pieces(s@.subrange(i + 1, n as int), f)) =~= views(out@)
                    + pieces(s@.subrange(i + 1, n as int), f));
            }
            start = i + 1;
        } else {
            proof {
                assert(rest[i - start] == s@[i as int]);
                assert(!f(rest[i - start]));
                assert(first_sep(rest, f, (i - start) as nat) == first_sep(rest, f, (i - start + 1) as nat));
            }
        }
        i += 1;
    }
    let last = String::from_str(s.substring_char(start, n));
    let ghost before = out@;
    out.push(last);
    proof {
        let rest = s@.subrange(start as int, n as int);
        assert(first_sep(rest, f, (n - start) as nat) == rest.len());
        assert(pieces(rest, f) == seq![rest]);
        assert(rest =~= last@);
        assert(views(out@) =~= views(before).push(last@));
        assert(views(before) + seq![last@] =~= views(out@));
    }
    out
}

/// A line without one trailing carriage return.
pub open spec fn strip_cr(l: Seq<char>) -> Seq<char> {
    if l.len() > 0 && l.last() == '\r' {
        l.drop_last()
    } else {
        l
    }
}

fn strip_cr_string(l: String) -> (r: String)
    ensures
        r@ == strip_cr(l@),
{
    let n = l.as_str().unicode_len();
    if n > 0 && l.as_str().get_char(n - 1) == '\r' {
        String::from_str(l.as_str().substring_char(0, n - 1))
    } else {
        l
    }
}

/// The non-empty entries of `v`, in order.
pub open spec fn non_empty(v: Seq<Seq<char>>) -> Seq<Seq<char>>
    decreases v.len(),
{
    if v.len() == 0 {
        seq![]
    } else {
        let rest = non_empty(v.drop_last());
        if v.last().len() > 0 {
            rest.push(v.last())
        } else {
            rest
        }
    }
}

/// The lines of a command's output, without carriage returns, empty lines dropped.
pub fn output_lines(out: &str) -> (r: Vec<String>)
    ensures
        views(r@) == non_empty(pieces(out@, sep_of(Some('\n'))).map_values(|l: Seq<char>| strip_cr(l))),
{
    let raw = split_pieces(out, Some('\n'));
    let ghost src = pieces(out@, sep_of(Some('\n'))).map_values(|l: Seq<char>| strip_cr(l));
    let mut kept: Vec<String> = Vec::new();
    let mut i: usize = 0;
    while i < raw.len()
        invariant
            i <= raw@.len(),
            views(raw@) == pieces(out@, sep_of(Some('\n'))),
            src == pieces(out@, sep_of(Some('\n'))).map_values(|l: Seq<char>| strip_cr(l)),
            views(kept@) == non_empty(src.subrange(0, i as int)),
        decreases raw@.len() - i,
    {
        let l = strip_cr_string(raw[i].clone());
        proof {
            assert(src[i as int] == strip_cr(raw@[i as int]@));
            assert(src.subrange(0, i + 1).drop_last() =~= src.subrange(0, i as int));
        }
        let ghost before = kept@;
        if l.as_str().unicode_len() > 0 {
            kept.push(l);
            proof {
                assert(views(kept@) =~= views(before).push(l@));
            }
        }
        i += 1;
    }
    proof {
        assert(src.subrange(0, raw@.len() as int) =~= src);
    }
    kept
}

/// A discovered source as text: name, status, extra information, namespace.
pub struct EntryView {
    pub name: Seq<char>,
    pub status: Seq<char>,
    pub extra: Option<Seq<char>>,
    pub namespace: Option<Seq<char>>,
}

pub open spec fn opt_text(o: Option<String>) -> Option<Seq<char>> {
    match o {
        Some(s) => Some(s@),
        None => None,
    }
}

pub open spec fn entry_view(d: DiscoveredSource) -> EntryView {
    EntryView { name: d.name@, status: d.status@, extra: opt_text(d.extra), namespace: opt_text(d.namespace) }
}

pub open spec fn entry_views(v: Seq<DiscoveredSource>) -> Seq<EntryView> {
    v.map_values(|d: DiscoveredSource| entry_view(d))
}

/// The entry a row of fields describes when its fields from `first` on hold at
/// least a name and a status; the field after the status is the extra information.
pub open spec fn row_entry(fields: Seq<Seq<char>>, first: int, namespace: Option<Seq<char>>) -> Option<EntryView> {
    if fields.len() >= first + 2 {
        Some(
            EntryView {
                name: fields[first],
                status: fields[first + 1],
                extra: if fields.len() > first + 2 {
                    Some(fields[first + 2])
                } else {
                    None
                },
                namespace,
            },
        )
    } else {
        None
    }
}

/// The entries that rows make, rows that make none skipped.
pub open spec fn collect_entries(rows: Seq<Option<EntryView>>) -> Seq<EntryView>
    decreases rows.len(),
{
    if rows.len() == 0 {
        seq![]
    } else {
        let rest = collect_entries(rows.drop_last());
        match rows.last() {
            Some(e) => rest.push(e),
            None => rest,
        }
    }
}

/// Whitespace-separated words of a line.
pub open spec fn words(l: Seq<char>) -> Seq<Seq<char>> {
    non_empty(pieces(l, sep_of(None)))
}

/// What a row of `docker ps` output (name, status, image, tab-separated) describes.
pub open spec fn docker_row(l: Seq<char>) -> Option<EntryView> {
    row_entry(pieces(l, sep_of(Some('\t'))), 0, None)
}

/// What a row of `kubectl get pods` output describes: with all namespaces the
/// first column is the namespace, else `namespace` is the one asked for.
pub open spec fn k8s_row(l: Seq<char>, namespace: Option<Seq<char>>) -> Option<EntryView> {
    match namespace {
        None => match row_entry(words(l), 1, None) {
            Some(e) => Some(EntryView { namespace: Some(words(l)[0]), ..e }),
            None => None,
        },
        Some(ns) => row_entry(words(l), 0, Some(ns)),
    }
}

/// The lines of a command's output, as `output_lines` gives them.
pub open spec fn out_lines(out: Seq<char>) -> Seq<Seq<char>> {
    non_empty(pieces(out, sep_of(Some('\n'))).map_values(|l: Seq<char>| strip_cr(l)))
}

fn words_of(l: &str) -> (r: Vec<String>)
    ensures
        views(r@) == words(l@),
{
    let all = split_pieces(l, None);
    let mut kept: Vec<String> = Vec::new();
    let mut i: usize = 0;
    while i < all.len()
        invariant
            i <= all@.len(),
            views(all@) == pieces(l@, sep_of(None)),
            views(kept@) == non_empty(views(all@).subrange(0, i as int)),
        decreases all@.len() - i,
    {
        proof {
            assert(views(all@).subrange(0, i + 1).drop_last() =~= views(all@).subrange(0, i as int));
        }
        let ghost before = kept@;
        if all[i].as_str().unicode_len() > 0 {
            kept.push(all[i].clone());
            proof {
                assert(views(kept@) =~= views(before).push(all@[i as int]@));
            }
        }
        i += 1;
    }
    proof {
        assert(views(all@).subrange(0, all@.len() as int) =~= views(all@));
    }
    kept
}

fn make_entry(fields: &Vec<String>, first: usize, namespace: Option<String>, kind: SourceType) -> (r: Option<
    DiscoveredSource,
>)
    requires
        first <= 1,
    ensures
        match r {
            Some(d) => row_entry(views(fields@), first as int, opt_text(namespace)) == Some(entry_view(d))
                && d.source_type == kind,
            None => row_entry(views(fields@), first as int, opt_text(namespace)).is_none(),
        },
{
    if fields.len() < first + 2 {
        return None;
    }
    let extra = if fields.len() > first + 2 {
        Some(fields[first + 2].clone())
    } else {
        None
    };
    let d = DiscoveredSource {
        name: fields[first].clone(),
        source_type: kind,
        status: fields[first + 1].clone(),
        extra,
        namespace,
    };
    proof {
        assert(row_entry(views(fields@), first as int, opt_text(namespace)) == Some(entry_view(d)));
    }
    Some(d)
}

/// The containers that `docker ps` output lists, one per row with at least a
/// name and a status.
pub fn parse_docker_ps(out: &str) -> (r: Vec<DiscoveredSource>)
    ensures
        entry_views(r@) == collect_entries(out_lines(out@).map_values(|l: Seq<char>| docker_row(l))),
        forall|i: int| 0 <= i < r@.len() ==> (#[trigger] r@[i]).source_type == SourceType::Docker,
{
    let lines = output_lines(out);
    let ghost rows = out_lines(out@).map_values(|l: Seq<char>| docker_row(l));
    let mut found: Vec<DiscoveredSource> = Vec::new();
    let mut i: usize = 0;
    while i < lines.len()
        invariant
            i <= lines@.len(),
            views(lines@) == out_lines(out@),
            rows == out_lines(out@).map_values(|l: Seq<char>| docker_row(l)),
            entry_views(found@) == collect_entries(rows.subrange(0, i as int)),
            forall|j: int| 0 <= j < found@.len() ==> (#[trigger] found@[j]).source_type == SourceType::Docker,
        decreases lines@.len() - i,
    {
        let fields = split_pieces(lines[i].as_str(), Some('\t'));
        proof {
            assert(rows[i as int] == docker_row(lines@[i as int]@));
            assert(rows.subrange(0, i + 1).drop_last() =~= rows.subrange(0, i as int));
        }
        let ghost before = found@;
        match make_entry(&fields, 0, None, SourceType::Docker) {
            Some(d) => {
                found.push(d);
                proof {
                    assert(entry_views(found@) =~= entry_views(before).push(entry_view(d)));
                }
            },
            None => {},
        }
        i += 1;
    }
    proof {
        assert(rows.subrange(0, lines@.len() as int) =~= rows);
    }
    found
}

/// The pods that `kubectl get pods` output lists, after its header row: with
/// no namespace given the first column is each pod's namespace.
pub fn parse_k8s_pods(out: &str, namespace: Option<&str>) -> (r: Vec<DiscoveredSource>)
    ensures
        ({
            let ns = match namespace {
                Some(n) => Some(n@),
                None => None,
            };
            let ls = out_lines(out@);
            let body = if ls.len() > 0 {
                ls.drop_first()
            } else {
                ls
            };
            entry_views(r@) == collect_entries(body.map_values(|l: Seq<char>| k8s_row(l, ns)))
        }),
        forall|i: int| 0 <= i < r@.len() ==> (#[trigger] r@[i]).source_type == SourceType::K8s,
{
    let ghost ns = match namespace {
        Some(n) => Some(n@),
        None => None,
    };
    let lines = output_lines(out);
    let ghost ls = out_lines(out@);
    let ghost body = if ls.len() > 0 {
        ls.drop_first()
    } else {
        ls
    };
    let ghost rows = body.map_values(|l: Seq<char>| k8s_row(l, ns));
    let mut found: Vec<DiscoveredSource> = Vec::new();
    if lines.len() == 0 {
        proof {
            assert(rows =~= Seq::<Option<EntryView>>::empty());
            assert(entry_views(found@) =~= Seq::<EntryView>::empty());
        }
        return found;
    }
    let mut i: usize = 1;
    proof {
        assert(rows.subrange(0, 0) =~= Seq::<Option<EntryView>>::empty());
        assert(entry_views(found@) =~= Seq::<EntryView>::empty());
    }
    while i < lines.len()
        invariant
            1 <= i <= lines@.len(),
            views(lines@) == ls,
            ls.len() > 0,
            body == ls.drop_first(),
            rows == body.map_values(|l: Seq<char>| k8s_row(l, ns)),
            ns == match namespace {
                Some(n) => Some(n@),
                None => None::<Seq<char>>,
            },
            entry_views(found@) == collect_entries(rows.subrange(0, i - 1)),
            forall|j: int| 0 <= j < found@.len() ==> (#[trigger] found@[j]).source_type == SourceType::K8s,
        decreases lines@.len() - i,
    {
        let fields = words_of(lines[i].as_str());
        proof {
            assert(rows[i - 1] == k8s_row(lines@[i as int]@, ns));
            assert(rows.subrange(0, i as int).drop_last() =~= rows.subrange(0, i - 1));
        }
        let ghost before = found@;
        let entry = match namespace {
            Some(n) => make_entry(&fields, 0, Some(String::from_str(n)), SourceType::K8s),
            None => {
                match make_entry(&fields, 1, None, SourceType::K8s) {
                    Some(d) => {
                        let mut d = d;
                        d.namespace = Some(fields[0].clone());
                        Some(d)
                    },
                    None => None,
                }
            },
        };
        match entry {
            Some(d) => {
                found.push(d);
                proof {
                    assert(entry_views(found@) =~= entry_views(before).push(entry_view(d)));
                }
            },
            None => {},
        }
        i += 1;
    }
    proof {
        assert(rows.subrange(0, lines@.len() - 1) =~= rows);
    }
    found
}

} // verus!
