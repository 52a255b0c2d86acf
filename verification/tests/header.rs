use webroute::header::{allow_headers_value, find_header, get_header, same_header_name, set_header};

#[test]
fn header_names_ignore_ascii_case() {
    assert!(same_header_name("Content-Type", "content-type"));
    assert!(same_header_name("ACCESS-CONTROL-REQUEST-HEADERS", "Access-Control-Request-Headers"));
    assert!(!same_header_name("Content-Type", "Content-Length"));
    assert!(!same_header_name("Accept", "Accept-Language"));
}

#[test]
fn set_then_get_header() {
    let mut h: Vec<(String, String)> = Vec::new();
    set_header(&mut h, "Content-Type", "text/plain".to_string());
    assert_eq!(get_header(&h, "content-type").map(|s| s.as_str()), Some("text/plain"));
    assert_eq!(get_header(&h, "Accept"), None);
}

#[test]
fn set_replaces_earlier_value() {
    let mut h: Vec<(String, String)> = Vec::new();
    set_header(&mut h, "X-A", "1".to_string());
    set_header(&mut h, "X-B", "2".to_string());
    set_header(&mut h, "x-a", "3".to_string());
    assert_eq!(h.len(), 2);
    assert_eq!(get_header(&h, "X-A").map(|s| s.as_str()), Some("3"));
    assert_eq!(get_header(&h, "X-B").map(|s| s.as_str()), Some("2"));
    assert_eq!(find_header(&h, "X-B"), Some(1));
}

#[test]
fn first_entry_of_a_name_is_read() {
    let h = vec![
        ("Accept".to_string(), "a".to_string()),
        ("accept".to_string(), "b".to_string()),
    ];
    assert_eq!(get_header(&h, "ACCEPT").map(|s| s.as_str()), Some("a"));
}

#[test]
fn allowed_headers_are_normalised_lists() {
    assert_eq!(allow_headers_value("content-type"), "content-type");
    assert_eq!(allow_headers_value("a,b"), "a, b");
    assert_eq!(allow_headers_value(" a , b ,, c "), "a, b, c");
    assert_eq!(allow_headers_value(""), "");
}

#[test]
fn allow_headers_value_trims_unicode_white_space() {
    assert_eq!(allow_headers_value("\ta\u{a0},\u{3000}b\n,x y"), "a, b, x y");
}
