use webroute::handler::{Action, Handler, HandlerResult};
use webroute::request::new;
use webroute::route::after_middleware::{AddAfterMiddleware, AfterMiddlewareMethods};
use webroute::route::after_route::AfterRoute;
use webroute::route::before_middleware::{AddBeforeMiddleware, BeforeMiddlewareMethods};
use webroute::route::root_middleware::{AddRootMiddleware, RootMiddlewareMethods};
use webroute::route::sub_middleware::{AddSubMiddleware, SubMiddlewareMethods};
use webroute::route::root_route::RootRoute;
use webroute::route::sub_route::SubRoute;
use webroute::{Method, Request, StatusCode};

struct Say(&'static str);

impl Handler<u8, u8, ()> for Say {
    fn handle(&self, req: &mut Request, data: u8) -> HandlerResult<u8, ()> {
        let text = format!("{}:{}:{}", self.0, req.get_path(), data);
        req.send(StatusCode::ok(), text)
    }
}

fn run(sr: &SubRoute<(), Say>, method: Method, path: &str) -> (String, String) {
    let mut req = new(path.to_string(), method, Vec::new(), None, &[0]);
    let out = sr.handle(&mut req, 9);
    let text = match out {
        Ok(Action::Done((_, body))) => String::from_utf8(body).unwrap(),
        Ok(Action::Next(d)) => format!("next {}", d),
        Err(()) => "error".to_string(),
    };
    (text, req.get_path().to_string())
}

fn table() -> SubRoute<(), Say> {
    SubRoute::new(())
        .get(Say("get"))
        .post(Say("post"))
        .route("users", Say("users"))
}

#[test]
fn root_requests_go_by_method() {
    let sr = table();
    assert_eq!(run(&sr, Method::Get, "/"), ("get:/:9".to_string(), "/".to_string()));
    assert_eq!(run(&sr, Method::Post, ""), ("post::9".to_string(), "".to_string()));
    assert_eq!(run(&sr, Method::Put, "/"), ("next 9".to_string(), "/".to_string()));
}

#[test]
fn segments_go_by_name_with_rest_of_path() {
    let sr = table();
    assert_eq!(
        run(&sr, Method::Get, "/users/3"),
        ("users:/3:9".to_string(), "/users/3".to_string())
    );
    assert_eq!(run(&sr, Method::Get, "/other"), ("next 9".to_string(), "/other".to_string()));
}

#[test]
fn later_registration_replaces_earlier() {
    let sr = SubRoute::new(()).get(Say("one")).get(Say("two")).route("x", Say("a")).route("x", Say("b"));
    assert_eq!(run(&sr, Method::Get, "/"), ("two:/:9".to_string(), "/".to_string()));
    assert_eq!(run(&sr, Method::Get, "/x"), ("b::9".to_string(), "/x".to_string()));
}

#[test]
fn extension_methods_are_keys_too() {
    let sr = SubRoute::new(()).method(Method::Extension("PURGE".to_string()), Say("purge"));
    assert_eq!(
        run(&sr, Method::Extension("PURGE".to_string()), "/"),
        ("purge:/:9".to_string(), "/".to_string())
    );
    assert_eq!(run(&sr, Method::Get, "/"), ("next 9".to_string(), "/".to_string()));
}

#[test]
fn add_methods_are_the_same_as_the_short_ones() {
    let sr = SubRoute::new(())
        .add_root_middleware(Method::Get, Say("get"))
        .add_sub_middleware("users", Say("users"));
    assert_eq!(run(&sr, Method::Get, "/"), ("get:/:9".to_string(), "/".to_string()));
    assert_eq!(
        run(&sr, Method::Get, "/users"),
        ("users::9".to_string(), "/users".to_string())
    );
}

#[test]
fn middleware_route_builders() {
    let r: webroute::route::route::Route<u8> = webroute::route::route::Route::new().using(1).add_before_middleware(2);
    let sr = r.get(Say("g")).options(Say("o"));
    let _after: AfterRoute<SubRoute<webroute::route::route::Route<u8>, Say>, u8> = sr.add_after_middleware(5u8).using(6);
    let _root = RootRoute::new(());
}
