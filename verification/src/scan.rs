//! Finding the JSON objects embedded in a line of console output: each one
//! starts at a `{` and ends at the `}` that closes it, braces inside strings
//! (with their escapes) not counting.
use vstd::prelude::*;
use crate::text::{contains_text, contains_str, concat3};

verus! {

/// The position of the first `{` at or after `pos`.
pub open spec fn next_open(s: Seq<u8>, pos: int) -> Option<int>
    decreases s.len() - pos,
{
    if pos < 0 || pos >= s.len() {
        None
    } else if s[pos] == 0x7b {
        Some(pos)
    } else {
        next_open(s, pos + 1)
    }
}

/// Scanning from `i` with `depth` open braces, inside a string or not and
/// after an escape or not: the position just past the `}` that brings the
/// depth to zero, if the input reaches it.
pub open spec fn scan_close(s: Seq<u8>, i: int, depth: int, in_string: bool, escaped: bool) -> Option<
    int,
>
    decreases s.len() - i,
{
    if i < 0 || i >= s.len() {
        None
    } else if escaped {
        scan_close(s, i + 1, depth, in_string, false)
    } else if s[i] == 0x5c && in_string {
        scan_close(s, i + 1, depth, in_string, true)
    } else if s[i] == 0x22 {
        scan_close(s, i + 1, depth, !in_string, false)
    } else if s[i] == 0x7b && !in_string {
        scan_close(s, i + 1, depth + 1, in_string, false)
    } else if s[i] == 0x7d && !in_string {
        if depth - 1 == 0 {
            Some(i + 1)
        } else {
            scan_close(s, i + 1, depth - 1, in_string, false)
        }
    } else {
        scan_close(s, i + 1, depth, in_string, false)
    }
}

pub proof fn lemma_next_open_bounds(s: Seq<u8>, pos: int)
    ensures
        next_open(s, pos) matches Some(p) ==> pos <= p < s.len() && s[p] == 0x7b,
    decreases s.len() - pos,
{
    if 0 <= pos < s.len() && s[pos] != 0x7b {
        lemma_next_open_bounds(s, pos + 1);
    }
}

pub proof fn lemma_scan_close_bounds(s: Seq<u8>, i: int, depth: int, in_string: bool, escaped: bool)
    ensures
        scan_close(s, i, depth, in_string, escaped) matches Some(e) ==> i < e <= s.len(),
    decreases s.len() - i,
{
    if 0 <= i < s.len() {
        lemma_scan_close_bounds(s, i + 1, depth, in_string, false);
        lemma_scan_close_bounds(s, i + 1, depth, in_string, true);
        lemma_scan_close_bounds(s, i + 1, depth, !in_string, false);
        lemma_scan_close_bounds(s, i + 1, depth + 1, in_string, false);
        lemma_scan_close_bounds(s, i + 1, depth - 1, in_string, false);
    }
}

/// The spans `(start, end)` of the objects found from `pos` on: the first
/// `{`, the end of its object, and the objects after it. Scanning stops at
/// the first object that is not closed.
pub open spec fn object_spans(s: Seq<u8>, pos: int) -> Seq<(int, int)>
    decreases s.len() - pos,
{
    match next_open(s, pos) {
        None => Seq::empty(),
        Some(start) => match scan_close(s, start, 0, false, false) {
            None => Seq::empty(),
            Some(end) => {
                proof {
                    lemma_next_open_bounds(s, pos);
                    lemma_scan_close_bounds(s, start, 0, false, false);
                }
                seq![(start, end)] + object_spans(s, end)
            },
        },
    }
}

/// The position of the first `{` at or after `pos`.
fn find_open(s: &[u8], pos: usize) -> (r: Option<usize>)
    requires
        pos <= s@.len(),
    ensures
        r matches Some(p) ==> next_open(s@, pos as int) == Some(p as int),
        r is None ==> next_open(s@, pos as int) is None,
{
    let mut i = pos;
    while i < s.len()
        invariant
            pos <= i <= s@.len(),
            next_open(s@, pos as int) == next_open(s@, i as int),
        decreases s@.len() - i,
    {
        if s[i] == 0x7b {
            return Some(i);
        }
        i = i + 1;
    }
    None
}

/// The end of the object that opens at `start`.
fn find_close(s: &[u8], start: usize) -> (r: Option<usize>)
    requires
        start < s@.len(),
        s@[start as int] == 0x7b,
    ensures
        r matches Some(e) ==> scan_close(s@, start as int, 0, false, false) == Some(e as int),
        r is None ==> scan_close(s@, start as int, 0, false, false) is None,
{
    assert(s@.len() == s.len());
    let mut i = start + 1;
    let mut depth: usize = 1;
    let mut in_string = false;
    let mut escaped = false;
    while i < s.len()
        invariant
            start < i <= s@.len(),
            1 <= depth <= i - start,
            scan_close(s@, start as int, 0, false, false) == scan_close(
                s@,
                i as int,
                depth as int,
                in_string,
                escaped,
            ),
        decreases s@.len() - i,
    {
        let b = s[i];
        if escaped {
            escaped = false;
        } else if b == 0x5c && in_string {
            escaped = true;
        } else if b == 0x22 {
            in_string = !in_string;
        } else if b == 0x7b && !in_string {
            depth = depth + 1;
        } else if b == 0x7d && !in_string {
            if depth == 1 {
                return Some(i + 1);
            }
            depth = depth - 1;
        }
        i = i + 1;
    }
    None
}

/// The spans of the JSON objects in `input`, as `object_spans` gives them
/// from its start; each span runs from an opening `{` to just past its `}`.
pub fn json_object_spans(input: &[u8]) -> (r: Vec<(usize, usize)>)
    ensures
        r@.map_values(|p: (usize, usize)| (p.0 as int, p.1 as int)) == object_spans(input@, 0),
{
    let mut out: Vec<(usize, usize)> = Vec::new();
    let mut pos: usize = 0;
    let ghost total = object_spans(input@, 0);
    loop
        invariant
            pos <= input@.len(),
            total == object_spans(input@, 0),
            out@.map_values(|p: (usize, usize)| (p.0 as int, p.1 as int)) + object_spans(
                input@,
                pos as int,
            ) == total,
        decreases input@.len() - pos,
    {
        let ghost before = out@.map_values(|p: (usize, usize)| (p.0 as int, p.1 as int));
        match find_open(input, pos) {
            None => {
                assert(object_spans(input@, pos as int) =~= Seq::<(int, int)>::empty());
                assert(before + Seq::<(int, int)>::empty() =~= before);
                assert(before == total);
                assert(total == object_spans(input@, 0));
                return out;
            },
            Some(start) => {
                proof {
                    lemma_next_open_bounds(input@, pos as int);
                }
                match find_close(input, start) {
                    None => {
                        assert(object_spans(input@, pos as int) =~= Seq::<(int, int)>::empty());
                        assert(before + Seq::<(int, int)>::empty() =~= before);
                        assert(before == total);
                        assert(total == object_spans(input@, 0));
                        return out;
                    },
                    Some(end) => {
                        proof {
                            lemma_scan_close_bounds(input@, start as int, 0, false, false);
                        }
                        out.push((start, end));
                        let ghost after = out@.map_values(
                            |p: (usize, usize)| (p.0 as int, p.1 as int),
                        );
                        assert(after =~= before.push((start as int, end as int)));
                        assert(object_spans(input@, pos as int) == seq![
                            (start as int, end as int),
                        ] + object_spans(input@, end as int));
                        assert(after + object_spans(input@, end as int) =~= before + (seq![
                            (start as int, end as int),
                        ] + object_spans(input@, end as int)));
                        pos = end;
                    },
                }
            },
        }
    }
}

proof fn lemma_scan_close_ends_at_brace(s: Seq<u8>, i: int, depth: int, in_string: bool, escaped: bool)
    ensures
        scan_close(s, i, depth, in_string, escaped) matches Some(e) ==> 0 < e <= s.len() && s[e
            - 1] == 0x7d,
    decreases s.len() - i,
{
    if 0 <= i < s.len() {
        lemma_scan_close_ends_at_brace(s, i + 1, depth, in_string, false);
        lemma_scan_close_ends_at_brace(s, i + 1, depth, in_string, true);
        lemma_scan_close_ends_at_brace(s, i + 1, depth, !in_string, false);
        lemma_scan_close_ends_at_brace(s, i + 1, depth + 1, in_string, false);
        lemma_scan_close_ends_at_brace(s, i + 1, depth - 1, in_string, false);
    }
}

/// Inside a string, a backslash takes the byte after it into the string:
/// whatever that byte is (a quote or a brace too), scanning goes on after it
/// as if both were ordinary string content.
pub proof fn lemma_escape_keeps_the_string(s: Seq<u8>, i: int, depth: int)
    requires
        0 <= i,
        i + 1 < s.len(),
        s[i] == 0x5c,
    ensures
        scan_close(s, i, depth, true, false) == scan_close(s, i + 2, depth, true, false),
{
    assert(scan_close(s, i + 1, depth, true, true) == scan_close(s, i + 2, depth, true, false));
}

/// Inside a string, braces do not count: a `{` or `}` there is passed over
/// as ordinary content; outside strings, a `{` opens one more level.
pub proof fn lemma_braces_in_strings_do_not_count(s: Seq<u8>, i: int, depth: int)
    requires
        0 <= i < s.len(),
    ensures
        (s[i] == 0x7b || s[i] == 0x7d) ==> scan_close(s, i, depth, true, false) == scan_close(
            s,
            i + 1,
            depth,
            true,
            false,
        ),
        s[i] == 0x7b ==> scan_close(s, i, depth, false, false) == scan_close(
            s,
            i + 1,
            depth + 1,
            false,
            false,
        ),
        s[i] == 0x22 ==> scan_close(s, i, depth, true, false) == scan_close(
            s,
            i + 1,
            depth,
            false,
            false,
        ) && scan_close(s, i, depth, false, false) == scan_close(s, i + 1, depth, true, false),
{
}

/// The objects found from `pos` on lie inside the input after `pos`, one
/// after the other without overlapping, each from a `{` to a `}`.
pub proof fn lemma_object_spans_ordered(s: Seq<u8>, pos: int)
    requires
        0 <= pos,
    ensures
        forall|k: int|
            0 <= k < object_spans(s, pos).len() ==> {
                let (a, b) = #[trigger] object_spans(s, pos)[k];
                &&& pos <= a < b <= s.len()
                &&& s[a] == 0x7b
                &&& s[b - 1] == 0x7d
            },
        forall|k: int, l: int|
            0 <= k < l < object_spans(s, pos).len() ==> #[trigger] object_spans(s, pos)[k].1
                <= #[trigger] object_spans(s, pos)[l].0,
    decreases s.len() - pos,
{
    lemma_next_open_bounds(s, pos);
    match next_open(s, pos) {
        None => {},
        Some(start) => {
            lemma_scan_close_bounds(s, start, 0, false, false);
            lemma_scan_close_ends_at_brace(s, start, 0, false, false);
            match scan_close(s, start, 0, false, false) {
                None => {},
                Some(end) => {
                    lemma_object_spans_ordered(s, end);
                    let rest = object_spans(s, end);
                    let all = object_spans(s, pos);
                    assert(all == seq![(start, end)] + rest);
                    assert forall|k: int| 0 <= k < all.len() implies {
                        let (a, b) = #[trigger] all[k];
                        &&& pos <= a < b <= s.len()
                        &&& s[a] == 0x7b
                        &&& s[b - 1] == 0x7d
                    } by {
                        if k > 0 {
                            assert(all[k] == rest[k - 1]);
                        }
                    }
                    assert forall|k: int, l: int| 0 <= k < l < all.len() implies #[trigger] all[k].1
                        <= #[trigger] all[l].0 by {
                        assert(all[l] == rest[l - 1]);
                        if k > 0 {
                            assert(all[k] == rest[k - 1]);
                        } else {
                            let (a, b) = rest[l - 1];
                            assert(rest[l - 1] == object_spans(s, end)[l - 1]);
                        }
                    }
                },
            }
        },
    }
}

/// What an object span of a line reads as, as the caller found it.
pub enum SpanReading<T, E> {
    /// The span is not JSON.
    NotJson(E),
    /// A console value whose data holds an object with its own `data`: the
    /// value rebuilt around that inner data, read as the wanted type.
    ConsoleInner(Option<T>),
    /// A console value whose data holds no such object: its data read as
    /// the wanted type.
    ConsoleData(Option<T>),
    /// Any other JSON value, read as the wanted type.
    Other(Result<T, E>),
}

/// The result a span gives, if any: an error where it is not JSON; for a
/// console value, what its (unwrapped) data reads as, nothing where that
/// fails; for any other value, the reading, error or not.
pub fn span_result<T, E>(reading: SpanReading<T, E>) -> (r: Option<Result<T, E>>)
    ensures
        match reading {
            SpanReading::NotJson(e) => r == Some(Err::<T, E>(e)),
            SpanReading::ConsoleInner(o) => match o {
                Some(x) => r == Some(Ok::<T, E>(x)),
                None => r is None,
            },
            SpanReading::ConsoleData(o) => match o {
                Some(x) => r == Some(Ok::<T, E>(x)),
                None => r is None,
            },
            SpanReading::Other(res) => r == Some(res),
        },
{
    match reading {
        SpanReading::NotJson(e) => Some(Err(e)),
        SpanReading::ConsoleInner(o) => match o {
            Some(x) => Some(Ok(x)),
            None => None,
        },
        SpanReading::ConsoleData(o) => match o {
            Some(x) => Some(Ok(x)),
            None => None,
        },
        SpanReading::Other(res) => Some(res),
    }
}

/// Which lines of a node's output a kind of value is looked for in.
#[derive(Debug, Clone, Copy, PartialEq, Eq, Structural)]
pub enum LineFilter {
    /// Lines that mention `"list"`.
    Lists,
    /// Lines that do not mention `"list"`.
    NotLists,
    /// Lines that mention `"src"`.
    Transfers,
    /// Lines that mention `"message"`.
    Messages,
    /// Lines that mention `"kind"`.
    Kinds,
}

/// Whether a non-empty line is looked at under a filter.
pub open spec fn line_selected_spec(line: Seq<char>, f: LineFilter) -> bool {
    line.len() > 0 && match f {
        LineFilter::Lists => contains_text(line, "\"list\""@),
        LineFilter::NotLists => !contains_text(line, "\"list\""@),
        LineFilter::Transfers => contains_text(line, "\"src\""@),
        LineFilter::Messages => contains_text(line, "\"message\""@),
        LineFilter::Kinds => contains_text(line, "\"kind\""@),
    }
}

/// Whether a line is looked at: empty lines never are, the others as the
/// filter says.
pub fn line_selected(line: &str, f: LineFilter) -> (r: bool)
    ensures
        r == line_selected_spec(line@, f),
{
    if line.unicode_len() == 0 {
        return false;
    }
    match f {
        LineFilter::Lists => contains_str(line, "\"list\""),
        LineFilter::NotLists => !contains_str(line, "\"list\""),
        LineFilter::Transfers => contains_str(line, "\"src\""),
        LineFilter::Messages => contains_str(line, "\"message\""),
        LineFilter::Kinds => contains_str(line, "\"kind\""),
    }
}

/// A line with no object in it is read once more as a JSON string: the
/// line between double quotes, as it stands.
pub fn quoted_line(line: &str) -> (r: String)
    ensures
        r@ == "\""@ + line@ + "\""@,
{
    concat3("\"", line, "\"")
}

} // verus!
