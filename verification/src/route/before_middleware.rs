use vstd::prelude::*;
use crate::handler::{Action, HandlerResult};
use crate::header::{comma_join, format_header_list, strings_view};
use crate::method::{Method, MethodView};
use crate::request::{Request, RequestView};
use crate::status_code::StatusCode;
use super::{allow_any_origin, is_empty_ok};
use super::route::Route;

verus! {

/// Routes that before-middleware can be added to.
pub trait AddBeforeMiddleware<B>: Sized {
    /// The before-middleware so far.
    spec fn before_list(&self) -> Seq<B>;

    /// This route with `handler` added at the end of its before-middleware.
    fn add_before_middleware(self, handler: B) -> (r: Route<B>)
        ensures
            r.before_middleware() == self.before_list().push(handler),
    ;
}

/// Adding before-middleware.
pub trait BeforeMiddlewareMethods<B>: AddBeforeMiddleware<B> + Sized {
    /// The same as `add_before_middleware`.
    fn using(self, handler: B) -> (r: Route<B>)
        ensures
            r.before_middleware() == self.before_list().push(handler),
    ;
}

impl<B, T: AddBeforeMiddleware<B>> BeforeMiddlewareMethods<B> for T {
    fn using(self, handler: B) -> (r: Route<B>) {
        self.add_before_middleware(handler)
    }
}

/// The response headers that `cors_handler` sets on a preflight request `r`:
/// any origin, and the `Content-Type` header.
pub open spec fn content_type_preflight_headers(r: RequestView) -> RequestView {
    allow_any_origin(r).with_response_header(
        "Access-Control-Allow-Headers"@,
        comma_join(seq!["Content-Type"@]),
    )
}

/// Answers preflight (`OPTIONS`) requests, allowing any origin and the
/// `Content-Type` header, and allows any origin on the responses to all others.
pub fn cors_handler<D, E>(req: &mut Request, data: D) -> (r: HandlerResult<D, E>)
    ensures
        old(req)@.method == MethodView::Options ==> final(req)@ == content_type_preflight_headers(
            old(req)@,
        ) && is_empty_ok(r),
        old(req)@.method != MethodView::Options ==> final(req)@ == allow_any_origin(old(req)@)
            && r == Ok::<Action<D>, E>(Action::Next(data)),
{
    let preflight = match req.get_method() {
        Method::Options => true,
        _ => false,
    };
    if preflight {
        req.set_response_header("Access-Control-Allow-Origin", "*".to_owned());
        let names = vec!["Content-Type".to_owned()];
        req.set_response_header("Access-Control-Allow-Headers", format_header_list(names));
        let result = req.send(StatusCode::ok(), "");
        proof {
            reveal_strlit("");
        }
        result
    } else {
        req.set_response_header("Access-Control-Allow-Origin", "*".to_owned());
        req.next(data)
    }
}

} // verus!
