use vstd::prelude::*;
use vstd::string::StrSliceExecFns;
use crate::handler::opt_str_view;

verus! {

/// `/` and `\` separate the segments of a path.
pub open spec fn is_separator(c: char) -> bool {
    c == '/' || c == '\\'
}

/// A segment ends at a separator or at the `?` that starts the query.
pub open spec fn is_delimiter(c: char) -> bool {
    is_separator(c) || c == '?'
}

/// Where the next segment of `s` starts: after a leading separator, if any.
pub open spec fn segment_start(s: Seq<char>) -> int {
    if s.len() > 0 && is_separator(s[0]) {
        1
    } else {
        0
    }
}

/// The index of the first delimiter of `s` at or after `from`, or `s.len()`.
pub open spec fn delimiter_from(s: Seq<char>, from: int) -> int
    decreases s.len() - from,
{
    if from >= s.len() {
        s.len() as int
    } else if is_delimiter(s[from]) {
        from
    } else {
        delimiter_from(s, from + 1)
    }
}

/// The next segment of the path `s` and what follows it.
///
/// The segment runs from `segment_start(s)` up to the first delimiter, which
/// starts the remainder. There is no segment where the path ends there, or
/// where a `?` stands right at the start of the segment; with `query_only_first`
/// the latter holds only for a `?` that is the path's first character.
pub open spec fn segment_split(s: Seq<char>, query_only_first: bool) -> (
    Option<Seq<char>>,
    Seq<char>,
) {
    let st = segment_start(s);
    let k = delimiter_from(s, st);
    let lone_query_at = if query_only_first {
        0
    } else {
        st
    };
    if k < s.len() {
        if s[k] == '?' && k == lone_query_at {
            (None, s.subrange(k, s.len() as int))
        } else {
            (Some(s.subrange(st, k)), s.subrange(k, s.len() as int))
        }
    } else if s.len() > st {
        (Some(s.subrange(st, s.len() as int)), Seq::empty())
    } else {
        (None, Seq::empty())
    }
}

/// `delimiter_from` finds the first delimiter at or after `from`.
pub proof fn lemma_delimiter_from(s: Seq<char>, from: int)
    requires
        0 <= from <= s.len(),
    ensures
        from <= delimiter_from(s, from) <= s.len(),
        delimiter_from(s, from) < s.len() ==> is_delimiter(s[delimiter_from(s, from)]),
        forall|j: int| from <= j < delimiter_from(s, from) ==> !is_delimiter(#[trigger] s[j]),
    decreases s.len() - from,
{
    if from < s.len() && !is_delimiter(s[from]) {
        lemma_delimiter_from(s, from + 1);
    }
}

/// The parts of a split path: the remainder is a suffix of the path that is
/// empty or starts with a delimiter; a segment holds no delimiter and sits
/// between the optional leading separator and the remainder, so the remainder
/// is shorter than the path; without a segment, at most a leading separator
/// comes before the remainder, which is empty or starts the query.
pub proof fn lemma_segment_split_parts(s: Seq<char>, query_only_first: bool)
    ensures
        ({
            let (seg, rest) = segment_split(s, query_only_first);
            &&& rest.len() <= s.len()
            &&& rest == s.subrange(s.len() - rest.len(), s.len() as int)
            &&& rest.len() == 0 || is_delimiter(rest[0])
            &&& match seg {
                Some(x) => {
                    &&& s == s.subrange(0, segment_start(s)) + x + rest
                    &&& forall|i: int| 0 <= i < x.len() ==> !is_delimiter(#[trigger] x[i])
                    &&& rest.len() < s.len()
                },
                None => {
                    &&& rest.len() == 0 || rest[0] == '?'
                    &&& s.len() - rest.len() <= 1
                },
            }
        }),
{
    let st = segment_start(s);
    lemma_delimiter_from(s, st);
    let k = delimiter_from(s, st);
    let (seg, rest) = segment_split(s, query_only_first);
    if k < s.len() {
        if let Some(x) = seg {
            assert forall|i: int| 0 <= i < x.len() implies !is_delimiter(#[trigger] x[i]) by {
            }
        }
    } else {
        if let Some(x) = seg {
            assert forall|i: int| 0 <= i < x.len() implies !is_delimiter(#[trigger] x[i]) by {
            }
        }
    }
}

/// The two kinds of split differ only on a path whose leading separator is
/// followed by `?`.
pub proof fn lemma_segment_split_variants(s: Seq<char>)
    ensures
        segment_split(s, true) != segment_split(s, false) ==> s.len() >= 2 && is_separator(s[0])
            && s[1] == '?',
{
    let st = segment_start(s);
    lemma_delimiter_from(s, st);
}

/// Only `/`, `\` and `?` end a segment: a path made of an optional leading
/// `/` or `\` and a non-empty text without those three characters (a `.` may
/// stand in it, as in `index.html`) is one whole segment, and nothing is left
/// after it.
pub proof fn lemma_whole_segment(lead: Seq<char>, x: Seq<char>, query_only_first: bool)
    requires
        lead == Seq::<char>::empty() || lead == seq!['/'] || lead == seq!['\\'],
        x.len() > 0,
        forall|i: int| 0 <= i < x.len() ==> #[trigger] x[i] != '/' && x[i] != '\\' && x[i] != '?',
    ensures
        segment_split(lead + x, query_only_first) == (Some(x), Seq::<char>::empty()),
{
    let s = lead + x;
    let st = segment_start(s);
    assert(st == lead.len()) by {
        if lead.len() == 0 {
            assert(s[0] == x[0]);
        }
    }
    lemma_delimiter_from(s, st);
    let k = delimiter_from(s, st);
    if k < s.len() {
        assert(s[k] == x[k - st]);
        assert(false);
    }
    assert(s.subrange(st, s.len() as int) =~= x);
    assert(s.subrange(s.len() as int, s.len() as int) =~= Seq::<char>::empty());
}

/// A `?` right after the leading separator, or at the very start, leaves no
/// segment, whatever query follows it: `"/?page=2"` and `"?page=2"` have none.
pub proof fn lemma_query_leaves_no_segment(q: Seq<char>)
    ensures
        segment_split(seq!['/', '?'] + q, false).0 is None,
        segment_split(seq!['\\', '?'] + q, false).0 is None,
        segment_split(seq!['?'] + q, false).0 is None,
        segment_split(seq!['?'] + q, true).0 is None,
        segment_split(Seq::<char>::empty(), false).0 is None,
        segment_split(seq!['/'], false).0 is None,
{
    let a = seq!['/', '?'] + q;
    let b = seq!['\\', '?'] + q;
    let c = seq!['?'] + q;
    assert(a[0] == '/' && a[1] == '?');
    assert(b[0] == '\\' && b[1] == '?');
    assert(c[0] == '?');
    assert(seq!['/'][0] == '/');
    assert(delimiter_from(seq!['/'], 1) == 1);
}

/// The characters of `s`, in order.
pub fn chars_of(s: &str) -> (v: Vec<char>)
    ensures
        v@ == s@,
{
    let mut v: Vec<char> = Vec::new();
    for c in it: s.chars()
        invariant
            v@ == it.seq().take(it.index() as int),
    {
        v.push(c);
    }
    v
}

/// Splits `path` into its next segment and what follows, as `segment_split` states.
pub fn split_segment<'a>(path: &'a str, query_only_first: bool) -> (r: (Option<&'a str>, &'a str))
    ensures
        (opt_str_view(r.0), r.1@) == segment_split(path@, query_only_first),
{
    let chars = chars_of(path);
    let n = chars.len();
    let ghost s = path@;
    let ghost st = segment_start(s);
    let mut start: usize = 0;
    let mut a: usize = 0;
    while a < n
        invariant
            chars@ == s,
            s == path@,
            n == s.len(),
            st == segment_start(s),
            a <= n,
            a == 0 ==> start == 0,
            a > 0 ==> start == st && start <= a && delimiter_from(s, st) == delimiter_from(s, a as int),
        decreases n - a,
    {
        let c = chars[a];
        if c == '/' || c == '\\' {
            if a == 0 {
                start = 1;
            } else {
                return (Some(path.substring_char(start, a)), path.substring_char(a, n));
            }
        } else if c == '?' {
            let lone = if query_only_first {
                a == 0
            } else {
                a == start
            };
            if lone {
                return (None, path.substring_char(a, n));
            } else {
                return (Some(path.substring_char(start, a)), path.substring_char(a, n));
            }
        }
        a = a + 1;
    }
    if n > start {
        (Some(path.substring_char(start, n)), path.substring_char(n, n))
    } else {
        (None, path.substring_char(n, n))
    }
}

} // verus!
