use webroute::handler::{Action, HandlerResult};
use webroute::request::{deconstruct, new};
use webroute::{Method, StatusCode};

fn sample() -> webroute::Request {
    new(
        "/users/7?x=1".to_string(),
        Method::Get,
        vec![("Host".to_string(), "example.org".to_string())],
        Some("{\"a\":1}".to_string()),
        &[1, 2, 3],
    )
}

#[test]
fn new_request_routes_its_whole_path() {
    let req = sample();
    assert_eq!(req.get_path(), "/users/7?x=1");
    assert_eq!(req.get_original_path(), "/users/7?x=1");
    assert!(matches!(req.get_method(), Method::Get));
    assert_eq!(req.get_body(), Some("{\"a\":1}"));
}

#[test]
fn set_path_keeps_original_path() {
    let mut req = sample();
    req.set_path("/7?x=1");
    assert_eq!(req.get_path(), "/7?x=1");
    assert_eq!(req.get_original_path(), "/users/7?x=1");
}

#[test]
fn request_headers_are_read_without_case() {
    let req = sample();
    assert_eq!(req.get_request_header("host").map(|s| s.as_str()), Some("example.org"));
    assert_eq!(req.get_request_header("Accept"), None);
}

#[test]
fn response_headers_come_out_of_deconstruct() {
    let mut req = sample();
    req.set_response_header("X-One", "1".to_string());
    req.set_response_header("X-Two", "2".to_string());
    req.set_response_header("x-one", "3".to_string());
    let headers = deconstruct(req);
    assert_eq!(
        headers,
        vec![("x-one".to_string(), "3".to_string()), ("X-Two".to_string(), "2".to_string())]
    );
}

#[test]
fn send_renders_the_body() {
    let mut req = sample();
    let r: HandlerResult<(), ()> = req.send(StatusCode::ok(), "hello");
    match r {
        Ok(Action::Done((status, body))) => {
            assert_eq!(status.to_u16(), 200);
            assert_eq!(body, b"hello".to_vec());
        }
        _ => panic!("expected an answer"),
    }
}

#[test]
fn next_and_error() {
    let req = sample();
    let r: HandlerResult<u32, &str> = req.next(5);
    assert!(matches!(r, Ok(Action::Next(5))));
    let r: HandlerResult<u32, &str> = req.error("bad");
    assert!(matches!(r, Err("bad")));
}

#[test]
fn request_without_readable_body() {
    let req = new("/".to_string(), Method::Extension("PURGE".to_string()), Vec::new(), None, &[]);
    assert_eq!(req.get_body(), None);
    assert!(req.get_method().same_as(&Method::Extension("PURGE".to_string())));
    assert!(!req.get_method().same_as(&Method::Get));
}
