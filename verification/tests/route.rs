use webroute::handler::{Action, ErrorHandler, Handler, HandlerResult, ParamHandler};
use webroute::request::{deconstruct, new};
use webroute::route::route;
use webroute::{Method, Request, StatusCode};

/// Answers with its name and the path it sees.
struct Echo(&'static str);

impl Handler<u32, u32, String> for Echo {
    fn handle(&self, req: &mut Request, data: u32) -> HandlerResult<u32, String> {
        let text = format!("{}:{}:{}", self.0, req.get_path(), data);
        req.send(StatusCode::ok(), text)
    }
}

/// Changes the path it sees and hands the request on.
struct Scribble;

impl Handler<u32, u32, String> for Scribble {
    fn handle(&self, req: &mut Request, data: u32) -> HandlerResult<u32, String> {
        req.set_path("/scribbled");
        req.next(data + 1)
    }
}

/// Fails.
struct Fail;

impl Handler<u32, u32, String> for Fail {
    fn handle(&self, req: &mut Request, _data: u32) -> HandlerResult<u32, String> {
        req.error("failed".to_string())
    }
}

/// Answers a failure with a 503 naming the error.
struct Recover;

impl ErrorHandler<u32, String> for Recover {
    fn handle_error(&self, req: &mut Request, error: String) -> HandlerResult<u32, String> {
        req.send(StatusCode::from_u16(503), error)
    }
}

/// Reads a number from the segment.
struct Number;

impl ParamHandler<u32, u32, String> for Number {
    fn handle_param(&self, req: &mut Request, data: u32, param: &str) -> HandlerResult<u32, String> {
        match param.parse::<u32>() {
            Ok(n) => req.next(data + n),
            Err(_) => req.error(format!("not a number: {}", param)),
        }
    }
}

fn get(path: &str) -> Request {
    new(path.to_string(), Method::Get, Vec::new(), None, &[0])
}

fn answer(r: HandlerResult<u32, String>) -> (u16, String) {
    match r {
        Ok(Action::Done((status, body))) => (status.to_u16(), String::from_utf8(body).unwrap()),
        Ok(Action::Next(d)) => (0, format!("next {}", d)),
        Err(e) => (1, e),
    }
}

#[test]
fn empty_route_hands_on() {
    let r = route();
    let mut req = get("/a");
    let out: HandlerResult<u32, String> = r.handle(&mut req, 7);
    assert_eq!(answer(out), (0, "next 7".to_string()));
}

#[test]
fn route_matches_segment_and_restores_path() {
    let r = route().route("users", Echo("users"));
    let mut req = get("/users/42");
    let out = r.handle(&mut req, 1);
    assert_eq!(answer(out), (200, "users:/42:1".to_string()));
    assert_eq!(req.get_path(), "/users/42");
}

#[test]
fn route_passes_other_segment() {
    let r = route().route("users", Echo("users"));
    let mut req = get("/posts/1");
    let out = r.handle(&mut req, 3);
    assert_eq!(answer(out), (0, "next 3".to_string()));
    assert_eq!(req.get_path(), "/posts/1");
}

#[test]
fn route_keeps_data_when_inner_hands_on() {
    let r = route().route("a", Scribble);
    let mut req = get("/a/b");
    let out = r.handle(&mut req, 3);
    assert_eq!(answer(out), (0, "next 3".to_string()));
    assert_eq!(req.get_path(), "/a/b");
}

#[test]
fn chained_routes_try_in_order() {
    let r = route().route("a", Echo("first")).route("b", Echo("second"));
    let mut req = get("/b");
    assert_eq!(answer(r.handle(&mut req, 0)), (200, "second::0".to_string()));
    let mut req = get("/a");
    assert_eq!(answer(r.handle(&mut req, 0)), (200, "first::0".to_string()));
}

#[test]
fn root_only_without_segment() {
    let r = route().root(Echo("root"));
    let mut req = get("/");
    assert_eq!(answer(r.handle(&mut req, 0)), (200, "root:/:0".to_string()));
    let mut req = get("/x");
    assert_eq!(answer(r.handle(&mut req, 0)), (0, "next 0".to_string()));
}

#[test]
fn method_routes_by_method() {
    let r = route().get(Echo("get")).post(Echo("post"));
    let mut req = get("/");
    assert_eq!(answer(r.handle(&mut req, 0)), (200, "get:/:0".to_string()));
    let mut req = new("/".to_string(), Method::Post, Vec::new(), None, &[0]);
    assert_eq!(answer(r.handle(&mut req, 0)), (200, "post:/:0".to_string()));
    let mut req = new("/".to_string(), Method::Delete, Vec::new(), None, &[0]);
    assert_eq!(answer(r.handle(&mut req, 0)), (0, "next 0".to_string()));
}

#[test]
fn using_runs_after_previous_hands_on() {
    let r = route().using(Scribble).using(Echo("after"));
    let mut req = get("/x");
    assert_eq!(answer(r.handle(&mut req, 1)), (200, "after:/scribbled:2".to_string()));
}

#[test]
fn using_stops_at_an_answer() {
    let r = route().using(Echo("first")).using(Echo("second"));
    let mut req = get("/x");
    assert_eq!(answer(r.handle(&mut req, 1)), (200, "first:/x:1".to_string()));
}

#[test]
fn catch_handles_errors_only() {
    let r = route().using(Fail).catch(Recover);
    let mut req = get("/x");
    assert_eq!(answer(r.handle(&mut req, 1)), (503, "failed".to_string()));
    let r = route().using(Echo("fine")).catch(Recover);
    let mut req = get("/x");
    assert_eq!(answer(r.handle(&mut req, 1)), (200, "fine:/x:1".to_string()));
}

#[test]
fn uncaught_error_stays_an_error() {
    let r = route().using(Fail).using(Echo("never"));
    let mut req = get("/x");
    assert_eq!(answer(r.handle(&mut req, 1)), (1, "failed".to_string()));
}

#[test]
fn param_turns_segment_into_data() {
    let r = route().param(Number, Echo("n"));
    let mut req = get("/5/rest");
    assert_eq!(answer(r.handle(&mut req, 10)), (200, "n:/rest:15".to_string()));
    let mut req = get("/five");
    assert_eq!(answer(r.handle(&mut req, 10)), (1, "not a number: five".to_string()));
    let mut req = get("/");
    assert_eq!(answer(r.handle(&mut req, 10)), (0, "next 10".to_string()));
}

#[test]
fn cors_answers_preflight() {
    let r = route().cors();
    let mut req = new(
        "/api".to_string(),
        Method::Options,
        vec![("Access-Control-Request-Headers".to_string(), "content-type,x-token".to_string())],
        None,
        &[0],
    );
    let out: HandlerResult<u32, String> = r.handle(&mut req, 0);
    assert_eq!(answer(out), (200, "".to_string()));
    assert_eq!(
        deconstruct(req),
        vec![
            ("Access-Control-Allow-Origin".to_string(), "*".to_string()),
            ("Access-Control-Allow-Headers".to_string(), "content-type, x-token".to_string()),
        ]
    );
}

#[test]
fn cors_allows_origin_on_other_requests() {
    let r = route().cors().using(Echo("data"));
    let mut req = get("/api");
    assert_eq!(answer(r.handle(&mut req, 0)), (200, "data:/api:0".to_string()));
    assert_eq!(deconstruct(req), vec![("Access-Control-Allow-Origin".to_string(), "*".to_string())]);
}

#[test]
fn cors_handler_allows_content_type() {
    let mut req = new("/".to_string(), Method::Options, Vec::new(), None, &[0]);
    let out: HandlerResult<u32, String> = webroute::route::before_middleware::cors_handler(&mut req, 0);
    assert_eq!(answer(out), (200, "".to_string()));
    assert_eq!(
        deconstruct(req),
        vec![
            ("Access-Control-Allow-Origin".to_string(), "*".to_string()),
            ("Access-Control-Allow-Headers".to_string(), "Content-Type".to_string()),
        ]
    );
    let mut req = get("/");
    let out: HandlerResult<u32, String> = webroute::route::before_middleware::cors_handler(&mut req, 4);
    assert_eq!(answer(out), (0, "next 4".to_string()));
}

#[test]
fn empty_route_in_front_changes_nothing() {
    for path in ["/a", "/", "/x/y"] {
        let mut req1 = get(path);
        let mut req2 = get(path);
        let with_route = answer(route().using(Echo("e")).handle(&mut req1, 2));
        let alone = answer(Echo("e").handle(&mut req2, 2));
        assert_eq!(with_route, alone);
    }
}

#[test]
fn unit_handlers_change_nothing() {
    let mut req1 = get("/a");
    let mut req2 = get("/a");
    let a = answer(route().using(Scribble).using(()).handle(&mut req1, 1));
    let b = answer(route().using(Scribble).handle(&mut req2, 1));
    assert_eq!(a, b);
    assert_eq!(req1.get_path(), req2.get_path());
    let mut req = get("/a");
    let out = route().using(Fail).catch(()).handle(&mut req, 1);
    assert_eq!(answer(out), (1, "failed".to_string()));
}

#[test]
fn grouping_of_using_does_not_matter() {
    let left = route().using(Scribble).using(Scribble).using(Echo("end"));
    let right = route().using(Scribble).using(route().using(Scribble).using(Echo("end")));
    let mut req1 = get("/p");
    let mut req2 = get("/p");
    let a = answer(left.handle(&mut req1, 0));
    let b = answer(right.handle(&mut req2, 0));
    assert_eq!(a, (200, "end:/scribbled:2".to_string()));
    assert_eq!(a, b);
}
