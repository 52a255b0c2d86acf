use rustc_serialize::json::Json;
use std::str::FromStr;
use webroute::body::{push_bytes, Body};

#[test]
fn str_and_string_bodies_write_their_bytes() {
    let mut out = b"x".to_vec();
    "héllo".write_to(&mut out);
    assert_eq!(out, "xhéllo".as_bytes().to_vec());
    let mut out = Vec::new();
    String::from("abc").write_to(&mut out);
    (&"def").write_to(&mut out);
    assert_eq!(out, b"abcdef".to_vec());
}

#[test]
fn json_body_writes_its_text() {
    let j = Json::from_str("{\"a\": [1, true, null]}").unwrap();
    let mut out = Vec::new();
    j.write_to(&mut out);
    assert_eq!(String::from_utf8(out).unwrap(), "{\"a\":[1,true,null]}");
    let mut out = Vec::new();
    j.pretty().write_to(&mut out);
    assert_eq!(String::from_utf8(out).unwrap(), j.pretty().to_string());
}

#[test]
fn push_bytes_appends() {
    let mut v = vec![1u8];
    push_bytes(&mut v, &[2, 3]);
    push_bytes(&mut v, &[]);
    assert_eq!(v, vec![1, 2, 3]);
}
