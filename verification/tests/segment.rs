use webroute::route::get_next_url_segment;
use webroute::route::sub_route::get_next_url_segment as sub_route_segment;

#[test]
fn segment_after_leading_slash() {
    assert_eq!(get_next_url_segment("/foo/bar"), (Some("foo"), "/bar"));
    assert_eq!(sub_route_segment("/foo/bar"), (Some("foo"), "/bar"));
}

#[test]
fn segment_without_leading_slash() {
    assert_eq!(get_next_url_segment("foo"), (Some("foo"), ""));
    assert_eq!(get_next_url_segment("foo/bar"), (Some("foo"), "/bar"));
}

#[test]
fn segment_ends_at_backslash() {
    assert_eq!(get_next_url_segment("/a\\b"), (Some("a"), "\\b"));
    assert_eq!(get_next_url_segment("\\a/b"), (Some("a"), "/b"));
}

#[test]
fn segment_ends_at_query() {
    assert_eq!(get_next_url_segment("/ab?q=1"), (Some("ab"), "?q=1"));
    assert_eq!(sub_route_segment("/ab?q=1"), (Some("ab"), "?q=1"));
}

#[test]
fn no_segment_in_empty_or_root_path() {
    assert_eq!(get_next_url_segment(""), (None, ""));
    assert_eq!(get_next_url_segment("/"), (None, ""));
    assert_eq!(sub_route_segment(""), (None, ""));
    assert_eq!(sub_route_segment("/"), (None, ""));
}

#[test]
fn query_at_start_gives_no_segment() {
    assert_eq!(get_next_url_segment("?x=1"), (None, "?x=1"));
    assert_eq!(sub_route_segment("?x=1"), (None, "?x=1"));
}

#[test]
fn query_after_slash_differs_between_variants() {
    assert_eq!(get_next_url_segment("/?x=1"), (None, "?x=1"));
    assert_eq!(sub_route_segment("/?x=1"), (Some(""), "?x=1"));
}

#[test]
fn double_slash_gives_empty_segment() {
    assert_eq!(get_next_url_segment("//a"), (Some(""), "/a"));
}

#[test]
fn non_ascii_segment() {
    assert_eq!(get_next_url_segment("/héllo/wörld"), (Some("héllo"), "/wörld"));
    assert_eq!(get_next_url_segment("/日本"), (Some("日本"), ""));
}

#[test]
fn walking_a_path_segment_by_segment() {
    let mut rest = "/a/b/c";
    let mut seen = Vec::new();
    loop {
        let (segment, remainder) = get_next_url_segment(rest);
        match segment {
            Some(s) => {
                seen.push(s.to_string());
                assert!(remainder.len() < rest.len());
                rest = remainder;
            }
            None => break,
        }
    }
    assert_eq!(seen, vec!["a", "b", "c"]);
    assert_eq!(rest, "");
}
