use webroute::handler::{Action, Handler, HandlerResult};
use webroute::request::new;
use webroute::route::route;
use webroute::server::{respond, HyperHandler, Server};
use webroute::{Method, Request, StatusCode};

#[test]
fn unanswered_request_is_not_found() {
    let r: HandlerResult<(), ()> = Ok(Action::Next(()));
    let (status, body) = respond(r);
    assert_eq!(status.to_u16(), 404);
    assert_eq!(body, b"404 - Not Found".to_vec());
}

#[test]
fn failed_request_is_internal_error() {
    let r: HandlerResult<(), String> = Err("boom".to_string());
    let (status, body) = respond(r);
    assert_eq!(status.to_u16(), 500);
    assert_eq!(body, b"500 - Internal Server Error".to_vec());
}

#[test]
fn answer_is_sent_as_is() {
    let r: HandlerResult<(), ()> = Ok(Action::Done((StatusCode::from_u16(201), b"made".to_vec())));
    let (status, body) = respond(r);
    assert_eq!(status.to_u16(), 201);
    assert_eq!(body, b"made".to_vec());
}

struct Hello;

impl Handler<(), (), ()> for Hello {
    fn handle(&self, req: &mut Request, _data: ()) -> HandlerResult<(), ()> {
        req.send(StatusCode::ok(), "hello")
    }
}

#[test]
fn hyper_handler_serves_with_route() {
    let h = HyperHandler::new(route().get(Hello), &[7, 8]);
    assert_eq!(h.get_cookie_key(), &[7, 8]);
    let mut req = new("/".to_string(), Method::Get, Vec::new(), None, h.get_cookie_key());
    let (status, body) = h.handle::<(), ()>(&mut req);
    assert_eq!((status.to_u16(), body), (200, b"hello".to_vec()));
    let mut req = new("/missing".to_string(), Method::Get, Vec::new(), None, h.get_cookie_key());
    let (status, body) = h.handle::<(), ()>(&mut req);
    assert_eq!((status.to_u16(), body), (404, b"404 - Not Found".to_vec()));
}

#[test]
fn server_state() {
    let mut s = Server::http();
    assert!(!s.is_running());
    assert!(!s.uses_tls());
    assert_eq!(s.get_cookie_key(), &[0]);
    s.set_cookie_key(b"secret");
    assert_eq!(s.get_cookie_key(), b"secret");
    let h = s.start(route());
    assert!(s.is_running());
    assert_eq!(h.get_cookie_key(), b"secret");
    s.stop();
    assert!(!s.is_running());
    assert_eq!(s.get_cookie_key(), b"secret");
    assert!(Server::https().uses_tls());
}
