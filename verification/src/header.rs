use vstd::prelude::*;
use unicase::UniCase;
use hyper::header::{AccessControlAllowHeaders, AccessControlRequestHeaders, Header};

verus! {

/// The character `c` with ASCII upper-case letters mapped to lower case.
pub open spec fn ascii_lower(c: char) -> char {
    if 'A' <= c && c <= 'Z' {
        ((c as u32) + 32) as char
    } else {
        c
    }
}

/// `a` and `b` are equal once ASCII letters are compared without case.
pub open spec fn eq_ignore_ascii_case(a: Seq<char>, b: Seq<char>) -> bool {
    &&& a.len() == b.len()
    &&& forall|i: int| 0 <= i < a.len() ==> ascii_lower(#[trigger] a[i]) == ascii_lower(b[i])
}

/// Header entries as name/value pairs of character sequences.
pub open spec fn entries_view(h: Seq<(String, String)>) -> Seq<(Seq<char>, Seq<char>)> {
    h.map_values(|p: (String, String)| (p.0@, p.1@))
}

/// The index of the first entry among the first `n` of `h` whose name is `name`
/// (without regard to ASCII case), or -1 where there is none.
pub open spec fn index_in(h: Seq<(Seq<char>, Seq<char>)>, name: Seq<char>, n: int) -> int
    decreases n,
{
    if n <= 0 {
        -1
    } else {
        let r = index_in(h, name, n - 1);
        if r >= 0 {
            r
        } else if eq_ignore_ascii_case(h[n - 1].0, name) {
            n - 1
        } else {
            -1
        }
    }
}

/// The index of the first entry of `h` named `name`, or -1.
pub open spec fn header_index(h: Seq<(Seq<char>, Seq<char>)>, name: Seq<char>) -> int {
    index_in(h, name, h.len() as int)
}

/// The value of the header `name` in `h`: that of its first entry.
pub open spec fn header_get(h: Seq<(Seq<char>, Seq<char>)>, name: Seq<char>) -> Option<Seq<char>> {
    let i = header_index(h, name);
    if 0 <= i {
        Some(h[i].1)
    } else {
        None
    }
}

/// `h` with the header `name` set to `value`: its first entry replaced where it
/// has one, else a new entry at the end.
pub open spec fn header_set(
    h: Seq<(Seq<char>, Seq<char>)>,
    name: Seq<char>,
    value: Seq<char>,
) -> Seq<(Seq<char>, Seq<char>)> {
    let i = header_index(h, name);
    if 0 <= i {
        h.update(i, (name, value))
    } else {
        h.push((name, value))
    }
}

/// Compares two header names as `unicase::UniCase` does: its `==` is
/// `str::eq_ignore_ascii_case` on the two strings, which compares them byte by
/// byte with ASCII letters lowered; on characters that is the relation above.
#[verifier::external_body]
fn unicase_eq(a: &str, b: &str) -> (r: bool)
    ensures
        r == eq_ignore_ascii_case(a@, b@),
{
    UniCase(a) == UniCase(b)
}

/// `c` has the Unicode `White_Space` property, which is what `char::is_whitespace`
/// tests and what `str::trim` removes.
pub open spec fn is_unicode_whitespace(c: char) -> bool {
    ||| '\u{9}' <= c && c <= '\u{d}'
    ||| c == ' ' || c == '\u{85}' || c == '\u{a0}' || c == '\u{1680}'
    ||| '\u{2000}' <= c && c <= '\u{200a}'
    ||| c == '\u{2028}' || c == '\u{2029}' || c == '\u{202f}' || c == '\u{205f}'
    ||| c == '\u{3000}'
}

/// `s` without the white space at its start.
pub open spec fn trim_start(s: Seq<char>) -> Seq<char>
    decreases s.len(),
{
    if s.len() > 0 && is_unicode_whitespace(s[0]) {
        trim_start(s.drop_first())
    } else {
        s
    }
}

/// `s` without the white space at its end.
pub open spec fn trim_end(s: Seq<char>) -> Seq<char>
    decreases s.len(),
{
    if s.len() > 0 && is_unicode_whitespace(s.last()) {
        trim_end(s.drop_last())
    } else {
        s
    }
}

/// `s` without the white space at either end, as `str::trim` gives it.
pub open spec fn trim(s: Seq<char>) -> Seq<char> {
    trim_end(trim_start(s))
}

/// The pieces of `s` between its commas, as `str::split(',')` gives them: one
/// more piece than there are commas, empty ones included.
pub open spec fn split_at_commas(s: Seq<char>) -> Seq<Seq<char>>
    decreases s.len(),
{
    if s.len() == 0 {
        seq![Seq::empty()]
    } else {
        let pieces = split_at_commas(s.drop_last());
        if s.last() == ',' {
            pieces.push(Seq::empty())
        } else {
            pieces.update(pieces.len() - 1, pieces.last().push(s.last()))
        }
    }
}

/// The items of a comma-delimited header value, as hyper parses a list header
/// such as `Access-Control-Request-Headers`: the pieces between the commas,
/// each trimmed of white space, the empty ones left out.
pub open spec fn comma_list_items(raw: Seq<char>) -> Seq<Seq<char>> {
    split_at_commas(raw).map_values(|piece: Seq<char>| trim(piece)).filter(
        |item: Seq<char>| item.len() > 0,
    )
}

/// The items joined by `", "`, as hyper writes a list header.
pub open spec fn comma_join(items: Seq<Seq<char>>) -> Seq<char>
    decreases items.len(),
{
    if items.len() == 0 {
        Seq::empty()
    } else if items.len() == 1 {
        items[0]
    } else {
        comma_join(items.drop_last()) + seq![',', ' '] + items.last()
    }
}

/// The character sequences of a vector of strings.
pub open spec fn strings_view(v: Seq<String>) -> Seq<Seq<char>> {
    v.map_values(|s: String| s@)
}

/// Parses `raw` with `AccessControlRequestHeaders::parse_header` of hyper and
/// hands out the names in the list. Its parser, `from_comma_delimited`, splits
/// the text at commas, trims each piece, drops the empty ones and parses the
/// rest as `UniCase<String>`, which cannot fail; on the bytes of a `str` it
/// cannot fail either.
#[verifier::external_body]
fn parse_header_list(raw: &str) -> (items: Vec<String>)
    ensures
        strings_view(items@) == comma_list_items(raw@),
{
    match AccessControlRequestHeaders::parse_header(&[raw.as_bytes().to_vec()]) {
        Ok(list) => list.0.into_iter().map(|name| name.0).collect(),
        Err(_) => Vec::new(),
    }
}

/// Writes the value of an `Access-Control-Allow-Headers` header of hyper that
/// holds `items`: its `Display` joins the items with `", "`.
#[verifier::external_body]
pub(crate) fn format_header_list(items: Vec<String>) -> (text: String)
    ensures
        text@ == comma_join(strings_view(items@)),
{
    AccessControlAllowHeaders(items.into_iter().map(UniCase).collect()).to_string()
}

/// The value of an `Access-Control-Allow-Headers` header that allows the
/// headers listed in the value `requested` of an `Access-Control-Request-Headers` one.
pub fn allow_headers_value(requested: &str) -> (value: String)
    ensures
        value@ == comma_join(comma_list_items(requested@)),
{
    format_header_list(parse_header_list(requested))
}

/// Whether two header names denote the same header.
pub fn same_header_name(a: &str, b: &str) -> (r: bool)
    ensures
        r == eq_ignore_ascii_case(a@, b@),
{
    unicase_eq(a, b)
}

pub proof fn lemma_eq_ignore_case_is_equivalence(a: Seq<char>, b: Seq<char>, c: Seq<char>)
    ensures
        eq_ignore_ascii_case(a, a),
        eq_ignore_ascii_case(a, b) ==> eq_ignore_ascii_case(b, a),
        eq_ignore_ascii_case(a, b) && eq_ignore_ascii_case(b, c) ==> eq_ignore_ascii_case(a, c),
{
    if eq_ignore_ascii_case(a, b) {
        assert forall|i: int| 0 <= i < b.len() implies ascii_lower(#[trigger] b[i]) == ascii_lower(
            a[i],
        ) by {
        }
    }
    if eq_ignore_ascii_case(a, b) && eq_ignore_ascii_case(b, c) {
        assert forall|i: int| 0 <= i < a.len() implies ascii_lower(#[trigger] a[i]) == ascii_lower(
            c[i],
        ) by {
        }
    }
}

/// What `index_in` finds: -1 where no entry among the first `n` matches, else
/// the first one that does.
pub proof fn lemma_index_in(h: Seq<(Seq<char>, Seq<char>)>, name: Seq<char>, n: int)
    requires
        0 <= n <= h.len(),
    ensures
        index_in(h, name, n) == -1 || 0 <= index_in(h, name, n) < n,
        index_in(h, name, n) == -1 ==> forall|j: int|
            0 <= j < n ==> !eq_ignore_ascii_case(#[trigger] h[j].0, name),
        index_in(h, name, n) >= 0 ==> eq_ignore_ascii_case(h[index_in(h, name, n)].0, name),
        index_in(h, name, n) >= 0 ==> forall|j: int|
            0 <= j < index_in(h, name, n) ==> !eq_ignore_ascii_case(#[trigger] h[j].0, name),
    decreases n,
{
    if n > 0 {
        lemma_index_in(h, name, n - 1);
    }
}

/// `index_in` only depends on which of the first `n` names match.
pub proof fn lemma_index_in_same_matches(
    h1: Seq<(Seq<char>, Seq<char>)>,
    h2: Seq<(Seq<char>, Seq<char>)>,
    name: Seq<char>,
    n: int,
)
    requires
        0 <= n <= h1.len(),
        n <= h2.len(),
        forall|j: int|
            0 <= j < n ==> eq_ignore_ascii_case(#[trigger] h1[j].0, name) == eq_ignore_ascii_case(
                h2[j].0,
                name,
            ),
    ensures
        index_in(h1, name, n) == index_in(h2, name, n),
    decreases n,
{
    if n > 0 {
        lemma_index_in_same_matches(h1, h2, name, n - 1);
    }
}

/// The position of the header `name` in `h`, as `header_index` gives it.
pub fn find_header(h: &Vec<(String, String)>, name: &str) -> (r: Option<usize>)
    ensures
        match r {
            Some(i) => i < h.len() && i as int == header_index(entries_view(h@), name@),
            None => header_index(entries_view(h@), name@) == -1,
        },
{
    let ghost hv = entries_view(h@);
    let mut i: usize = 0;
    while i < h.len()
        invariant
            i <= h.len(),
            hv.len() == h@.len(),
            hv == entries_view(h@),
            index_in(hv, name@, i as int) == -1,
        decreases h.len() - i,
    {
        if same_header_name(h[i].0.as_str(), name) {
            proof {
                lemma_index_in_after_hit(hv, name@, i as int, hv.len() as int);
            }
            return Some(i);
        }
        i = i + 1;
    }
    None
}

/// The value of the header `name` in `h`.
pub fn get_header<'a>(h: &'a Vec<(String, String)>, name: &str) -> (r: Option<&'a String>)
    ensures
        match r {
            Some(v) => header_get(entries_view(h@), name@) == Some(v@),
            None => header_get(entries_view(h@), name@) is None,
        },
{
    match find_header(h, name) {
        Some(i) => {
            Some(&h[i].1)
        },
        None => None,
    }
}

/// Sets the header `name` of `h` to `value`, replacing its first entry.
pub fn set_header(h: &mut Vec<(String, String)>, name: &str, value: String)
    ensures
        entries_view(final(h)@) == header_set(entries_view(old(h)@), name@, value@),
{
    let entry = (name.to_owned(), value);
    match find_header(h, name) {
        Some(i) => {
            h.set(i, entry);
        },
        None => {
            h.push(entry);
        },
    }
}

/// Reading a header right after setting it gives the value set.
pub proof fn lemma_get_after_set(
    h: Seq<(Seq<char>, Seq<char>)>,
    name: Seq<char>,
    value: Seq<char>,
)
    ensures
        header_get(header_set(h, name, value), name) == Some(value),
{
    let h2 = header_set(h, name, value);
    let i = header_index(h, name);
    lemma_index_in(h, name, h.len() as int);
    lemma_eq_ignore_case_is_equivalence(name, name, name);
    if 0 <= i {
        lemma_index_in_same_matches(h, h2, name, i);
        lemma_index_in(h2, name, i);
        lemma_index_in_after_hit(h2, name, i, h2.len() as int);
    } else {
        lemma_index_in_same_matches(h, h2, name, h.len() as int);
    }
}

/// Once the first `k` entries miss and entry `k` matches, `index_in` is `k` for
/// every longer prefix.
proof fn lemma_index_in_after_hit(
    h: Seq<(Seq<char>, Seq<char>)>,
    name: Seq<char>,
    k: int,
    n: int,
)
    requires
        0 <= k < n <= h.len(),
        index_in(h, name, k) == -1,
        eq_ignore_ascii_case(h[k].0, name),
    ensures
        index_in(h, name, n) == k,
    decreases n,
{
    if n > k + 1 {
        lemma_index_in_after_hit(h, name, k, n - 1);
    }
}

/// Setting one header leaves every header of another name as it was.
pub proof fn lemma_set_leaves_other_names(
    h: Seq<(Seq<char>, Seq<char>)>,
    name: Seq<char>,
    value: Seq<char>,
    other: Seq<char>,
)
    requires
        !eq_ignore_ascii_case(name, other),
    ensures
        header_get(header_set(h, name, value), other) == header_get(h, other),
{
    let h2 = header_set(h, name, value);
    let i = header_index(h, name);
    lemma_index_in(h, name, h.len() as int);
    lemma_index_in(h, other, h.len() as int);
    if 0 <= i {
        lemma_eq_ignore_case_is_equivalence(h[i].0, name, other);
        lemma_eq_ignore_case_is_equivalence(name, h[i].0, other);
        assert forall|j: int| 0 <= j < h.len() implies eq_ignore_ascii_case(
            #[trigger] h[j].0,
            other,
        ) == eq_ignore_ascii_case(h2[j].0, other) by {
            if j == i {
                lemma_eq_ignore_case_is_equivalence(h[i].0, name, other);
                lemma_eq_ignore_case_is_equivalence(name, h[i].0, other);
                lemma_eq_ignore_case_is_equivalence(other, h[i].0, name);
            }
        }
        lemma_index_in_same_matches(h, h2, other, h.len() as int);
    } else {
        lemma_index_in_same_matches(h, h2, other, h.len() as int);
    }
}

} // verus!
