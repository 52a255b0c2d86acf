use vstd::prelude::*;
use std::marker::PhantomData;
use crate::handler::{
    opt_str_view, Action, ErrorHandler, Handler, HandlerResult, ParamHandler, PathHandler,
};
use crate::header::{
    allow_headers_value, comma_join, comma_list_items, header_get, header_set, lemma_get_after_set,
    lemma_set_leaves_other_names,
};
use crate::method::{Method, MethodView};
use crate::status_code::StatusCode;
use crate::request::{Request, RequestView};
use self::segment::{segment_split, split_segment};

pub mod after_middleware;
pub mod after_route;
pub mod before_middleware;
pub mod root_middleware;
pub mod root_route;
pub mod route;
pub mod segment;
pub mod sub_middleware;
pub mod sub_route;
pub mod table;

verus! {

/// The next segment of `path` and what follows it. A leading `/` or `\` is
/// skipped; the segment ends at the next `/`, `\` or `?`, where the remainder
/// starts. A `?` right at the start of the segment leaves no segment.
pub fn get_next_url_segment(path: &str) -> (r: (Option<&str>, &str))
    ensures
        (opt_str_view(r.0), r.1@) == segment_split(path@, false),
{
    split_segment(path, false)
}

/// `r` with its data replaced by `data` where it hands the request on.
pub open spec fn keep_data<D1, D2, E>(r: HandlerResult<D1, E>, data: D2) -> HandlerResult<D2, E> {
    match r {
        Ok(Action::Next(_)) => Ok(Action::Next(data)),
        Ok(Action::Done(x)) => Ok(Action::Done(x)),
        Err(e) => Err(e),
    }
}

/// A handler built from smaller ones.
pub struct Route<H> {
    pub handler: H,
}

/// The route that hands every request on unchanged.
pub fn route() -> (r: Route<()>)
    ensures
        r.handler == (),
{
    Route { handler: () }
}

impl<D1, D2, E, H: Handler<D1, D2, E>> Handler<D1, D2, E> for Route<H> {
    open spec fn handles(
        &self,
        before: RequestView,
        data: D1,
        after: RequestView,
        result: HandlerResult<D2, E>,
    ) -> bool {
        self.handler.handles(before, data, after, result)
    }

    fn handle(&self, req: &mut Request, data: D1) -> (result: HandlerResult<D2, E>) {
        self.handler.handle(req, data)
    }
}

/// `handler1`, then `handler2` where `handler1` handed the request on.
pub struct ConcatHandler<H1, H2, D2> {
    pub handler1: H1,
    pub handler2: H2,
    pub phantom: PhantomData<D2>,
}

/// What follows a first step with outcome `r1` in a sequence whose second
/// step is `h2`: `h2` runs on the handed-on data, while an answer or an error
/// ends the sequence as it is.
pub open spec fn then_step<D2, D3, E, H2: Handler<D2, D3, E>>(
    h2: H2,
    mid: RequestView,
    r1: HandlerResult<D2, E>,
    after: RequestView,
    result: HandlerResult<D3, E>,
) -> bool {
    match r1 {
        Ok(Action::Next(d2)) => h2.handles(mid, d2, after, result),
        Ok(Action::Done(x)) => after == mid && result == Ok::<Action<D3>, E>(Action::Done(x)),
        Err(e) => after == mid && result == Err::<Action<D3>, E>(e),
    }
}

impl<D1, D2, D3, E, H1: Handler<D1, D2, E>, H2: Handler<D2, D3, E>> Handler<
    D1,
    D3,
    E,
> for ConcatHandler<H1, H2, D2> {
    open spec fn handles(
        &self,
        before: RequestView,
        data: D1,
        after: RequestView,
        result: HandlerResult<D3, E>,
    ) -> bool {
        exists|mid: RequestView, r1: HandlerResult<D2, E>|
            #[trigger] self.handler1.handles(before, data, mid, r1) && then_step(
                self.handler2,
                mid,
                r1,
                after,
                result,
            )
    }

    fn handle(&self, req: &mut Request, data: D1) -> (result: HandlerResult<D3, E>) {
        match self.handler1.handle(req, data) {
            Ok(Action::Next(d2)) => self.handler2.handle(req, d2),
            Ok(Action::Done(x)) => Ok(Action::Done(x)),
            Err(e) => Err(e),
        }
    }
}

/// `handler1`, then `handler2` on the error where `handler1` failed.
pub struct ConcatErrorHandler<H1, H2> {
    pub handler1: H1,
    pub handler2: H2,
}

impl<D1, D2, E, H1: Handler<D1, D2, E>, H2: ErrorHandler<D2, E>> Handler<
    D1,
    D2,
    E,
> for ConcatErrorHandler<H1, H2> {
    open spec fn handles(
        &self,
        before: RequestView,
        data: D1,
        after: RequestView,
        result: HandlerResult<D2, E>,
    ) -> bool {
        exists|mid: RequestView, r1: HandlerResult<D2, E>|
            #[trigger] self.handler1.handles(before, data, mid, r1) && match r1 {
                Err(e) => self.handler2.handles_error(mid, e, after, result),
                _ => after == mid && result == r1,
            }
    }

    fn handle(&self, req: &mut Request, data: D1) -> (result: HandlerResult<D2, E>) {
        match self.handler1.handle(req, data) {
            Err(e) => self.handler2.handle_error(req, e),
            other => other,
        }
    }
}

/// `prev`, then `handler` with the next segment of the path, where `prev`
/// handed the request on.
pub struct PathRoute<H, P> {
    pub prev: H,
    pub handler: P,
}

/// How a path step `p` handles a request `mid` with data `d`: it is given the
/// next segment, and the path is what follows it while `p` runs and is put
/// back afterwards.
pub open spec fn path_step<D, E, P: PathHandler<D, E>>(
    p: P,
    mid: RequestView,
    d: D,
    after: RequestView,
    result: HandlerResult<D, E>,
) -> bool {
    let split = segment_split(mid.path, false);
    if split.0 is Some {
        exists|inner: RequestView|
            #[trigger] p.handles_path(mid.with_path(split.1), d, split.0, inner, result) && after
                == inner.with_path(mid.path)
    } else {
        p.handles_path(mid, d, None, after, result)
    }
}

impl<D1, D2, E, H: Handler<D1, D2, E>, P: PathHandler<D2, E>> Handler<D1, D2, E> for PathRoute<
    H,
    P,
> {
    open spec fn handles(
        &self,
        before: RequestView,
        data: D1,
        after: RequestView,
        result: HandlerResult<D2, E>,
    ) -> bool {
        exists|mid: RequestView, r1: HandlerResult<D2, E>|
            #[trigger] self.prev.handles(before, data, mid, r1) && match r1 {
                Ok(Action::Next(d2)) => path_step(self.handler, mid, d2, after, result),
                _ => after == mid && result == r1,
            }
    }

    fn handle(&self, req: &mut Request, data: D1) -> (result: HandlerResult<D2, E>) {
        let r1 = self.prev.handle(req, data);
        let ghost mid = req@;
        match r1 {
            Ok(Action::Next(d2)) => {
                let ghost dd = d2;
                let path: String = req.get_path().to_owned();
                let (segment, rest) = get_next_url_segment(path.as_str());
                match segment {
                    Some(seg) => {
                        req.set_path(rest);
                        let result = self.handler.handle_path(req, d2, Some(seg));
                        let ghost inner = req@;
                        req.set_path(path.as_str());
                        assert(self.handler.handles_path(
                            mid.with_path(rest@),
                            dd,
                            Some(seg@),
                            inner,
                            result,
                        ));
                        result
                    },
                    None => self.handler.handle_path(req, d2, None),
                }
            },
            other => other,
        }
    }
}

/// Runs `handler` on a copy of the data where the next segment is `path`, and
/// hands the request on with the data it was given where `handler` does.
pub struct SegmentRoute<H, D3> {
    pub path: String,
    pub handler: H,
    pub phantom: PhantomData<D3>,
}

impl<D2: Clone, D3, E, H: Handler<D2, D3, E>> PathHandler<D2, E> for SegmentRoute<H, D3> {
    open spec fn handles_path(
        &self,
        before: RequestView,
        data: D2,
        segment: Option<Seq<char>>,
        after: RequestView,
        result: HandlerResult<D2, E>,
    ) -> bool {
        if segment == Some(self.path@) {
            exists|copy: D2, r1: HandlerResult<D3, E>|
                cloned(data, copy) && #[trigger] self.handler.handles(before, copy, after, r1)
                    && result == keep_data(r1, data)
        } else {
            after == before && result == Ok::<Action<D2>, E>(Action::Next(data))
        }
    }

    fn handle_path(&self, req: &mut Request, data: D2, segment: Option<&str>) -> (result:
        HandlerResult<D2, E>) {
        match segment {
            Some(param) => {
                let param_owned = param.to_owned();
                if param_owned.eq(&self.path) {
                    let copy = data.clone();
                    match self.handler.handle(req, copy) {
                        Ok(Action::Next(_)) => Ok(Action::Next(data)),
                        Ok(Action::Done(x)) => Ok(Action::Done(x)),
                        Err(e) => Err(e),
                    }
                } else {
                    req.next(data)
                }
            },
            None => req.next(data),
        }
    }
}

/// Runs `handler` where no segment is left, and hands the request on otherwise.
pub struct RootMatch<H> {
    pub handler: H,
}

impl<D, E, H: Handler<D, D, E>> PathHandler<D, E> for RootMatch<H> {
    open spec fn handles_path(
        &self,
        before: RequestView,
        data: D,
        segment: Option<Seq<char>>,
        after: RequestView,
        result: HandlerResult<D, E>,
    ) -> bool {
        match segment {
            Some(_) => after == before && result == Ok::<Action<D>, E>(Action::Next(data)),
            None => self.handler.handles(before, data, after, result),
        }
    }

    fn handle_path(&self, req: &mut Request, data: D, segment: Option<&str>) -> (result:
        HandlerResult<D, E>) {
        match segment {
            Some(_) => req.next(data),
            None => self.handler.handle(req, data),
        }
    }
}

/// Runs `handler` on requests of one method, and hands the others on.
pub struct MethodRoute<H> {
    pub method: Method,
    pub handler: H,
}

impl<D, E, H: Handler<D, D, E>> Handler<D, D, E> for MethodRoute<H> {
    open spec fn handles(
        &self,
        before: RequestView,
        data: D,
        after: RequestView,
        result: HandlerResult<D, E>,
    ) -> bool {
        if before.method == self.method@ {
            self.handler.handles(before, data, after, result)
        } else {
            after == before && result == Ok::<Action<D>, E>(Action::Next(data))
        }
    }

    fn handle(&self, req: &mut Request, data: D) -> (result: HandlerResult<D, E>) {
        if req.get_method().same_as(&self.method) {
            self.handler.handle(req, data)
        } else {
            req.next(data)
        }
    }
}

/// Turns the next segment into data with `param_handler`, then runs `handler`
/// on it; where `handler` hands the request on, it goes on with the data it
/// came with.
pub struct ParamRoute<P, H, D3, D4> {
    pub param_handler: P,
    pub handler: H,
    pub phantom: PhantomData<(D3, D4)>,
}

/// How a parameter step handles a request with segment `param`: the parameter
/// handler turns a copy of the data and `param` into new data, on which
/// `handler` runs; where it hands the request on, it goes on with `data`.
pub open spec fn param_step<
    D2: Clone,
    D3,
    D4,
    E,
    P: ParamHandler<D2, D3, E>,
    H: Handler<D3, D4, E>,
>(
    param_handler: P,
    handler: H,
    before: RequestView,
    data: D2,
    param: Seq<char>,
    after: RequestView,
    result: HandlerResult<D2, E>,
) -> bool {
    exists|copy: D2, mid: RequestView, r1: HandlerResult<D3, E>|
        cloned(data, copy) && #[trigger] param_handler.handles_param(before, copy, param, mid, r1)
            && match r1 {
            Ok(Action::Next(d3)) => exists|r2: HandlerResult<D4, E>|
                #[trigger] handler.handles(mid, d3, after, r2) && result == keep_data(r2, data),
            Ok(Action::Done(x)) => after == mid && result == Ok::<Action<D2>, E>(Action::Done(x)),
            Err(e) => after == mid && result == Err::<Action<D2>, E>(e),
        }
}

impl<
    D2: Clone,
    D3,
    D4,
    E,
    P: ParamHandler<D2, D3, E>,
    H: Handler<D3, D4, E>,
> PathHandler<D2, E> for ParamRoute<P, H, D3, D4> {
    open spec fn handles_path(
        &self,
        before: RequestView,
        data: D2,
        segment: Option<Seq<char>>,
        after: RequestView,
        result: HandlerResult<D2, E>,
    ) -> bool {
        match segment {
            Some(param) => param_step(self.param_handler, self.handler, before, data, param, after, result),
            None => after == before && result == Ok::<Action<D2>, E>(Action::Next(data)),
        }
    }

    fn handle_path(&self, req: &mut Request, data: D2, segment: Option<&str>) -> (result:
        HandlerResult<D2, E>) {
        match segment {
            Some(param) => {
                let copy = data.clone();
                match self.param_handler.handle_param(req, copy, param) {
                    Ok(Action::Next(d3)) => match self.handler.handle(req, d3) {
                        Ok(Action::Next(_)) => Ok(Action::Next(data)),
                        Ok(Action::Done(x)) => Ok(Action::Done(x)),
                        Err(e) => Err(e),
                    },
                    Ok(Action::Done(x)) => Ok(Action::Done(x)),
                    Err(e) => Err(e),
                }
            },
            None => req.next(data),
        }
    }
}

/// Answers preflight (`OPTIONS`) requests for cross-origin resource sharing, and
/// allows any origin on the responses to all others.
pub struct Cors;

/// `Access-Control-Allow-Origin: *` on the response of `r`.
pub open spec fn allow_any_origin(r: RequestView) -> RequestView {
    r.with_response_header("Access-Control-Allow-Origin"@, "*"@)
}

/// The response headers of a preflight request `r`: any origin is allowed, and
/// so are the headers that the request asks for, where it asks.
pub open spec fn preflight_headers(r: RequestView) -> RequestView {
    match header_get(r.request_headers, "Access-Control-Request-Headers"@) {
        Some(requested) => allow_any_origin(r).with_response_header(
            "Access-Control-Allow-Headers"@,
            comma_join(comma_list_items(requested)),
        ),
        None => allow_any_origin(r),
    }
}

/// `r` answers with `200 OK` and an empty body.
pub open spec fn is_empty_ok<D, E>(r: HandlerResult<D, E>) -> bool {
    match r {
        Ok(Action::Done((status, body))) => status.code == 200 && body@ == Seq::<u8>::empty(),
        _ => false,
    }
}

impl<D, E> Handler<D, D, E> for Cors {
    open spec fn handles(
        &self,
        before: RequestView,
        data: D,
        after: RequestView,
        result: HandlerResult<D, E>,
    ) -> bool {
        if before.method == MethodView::Options {
            after == preflight_headers(before) && is_empty_ok(result)
        } else {
            after == allow_any_origin(before) && result == Ok::<Action<D>, E>(Action::Next(data))
        }
    }

    fn handle(&self, req: &mut Request, data: D) -> (result: HandlerResult<D, E>) {
        let preflight = match req.get_method() {
            Method::Options => true,
            _ => false,
        };
        if preflight {
            let requested = match req.get_request_header("Access-Control-Request-Headers") {
                Some(v) => Some(v.clone()),
                None => None,
            };
            req.set_response_header("Access-Control-Allow-Origin", "*".to_owned());
            match requested {
                Some(v) => {
                    let allowed = allow_headers_value(v.as_str());
                    req.set_response_header("Access-Control-Allow-Headers", allowed);
                },
                None => {},
            }
            let result = req.send(StatusCode::ok(), "");
            proof {
                reveal_strlit("");
            }
            result
        } else {
            req.set_response_header("Access-Control-Allow-Origin", "*".to_owned());
            req.next(data)
        }
    }
}

impl<H> Route<H> {
    /// This route, then `handler` where it hands the request on.
    pub fn using<H2, D2>(self, handler: H2) -> (r: Route<ConcatHandler<H, H2, D2>>)
        ensures
            r.handler.handler1 == self.handler,
            r.handler.handler2 == handler,
    {
        Route { handler: ConcatHandler { handler1: self.handler, handler2: handler, phantom: PhantomData } }
    }

    /// This route, then `handler` on the error where it fails.
    pub fn catch<H2>(self, handler: H2) -> (r: Route<ConcatErrorHandler<H, H2>>)
        ensures
            r.handler.handler1 == self.handler,
            r.handler.handler2 == handler,
    {
        Route { handler: ConcatErrorHandler { handler1: self.handler, handler2: handler } }
    }

    /// This route, then `handler` with the next segment of the path.
    pub fn path<P>(self, handler: P) -> (r: Route<PathRoute<H, P>>)
        ensures
            r.handler.prev == self.handler,
            r.handler.handler == handler,
    {
        Route { handler: PathRoute { prev: self.handler, handler } }
    }

    /// This route, then a step that turns the next segment into data with
    /// `param_handler` and runs `handler` on it.
    pub fn param<P, H3, D3, D4>(self, param_handler: P, handler: H3) -> (r: Route<
        PathRoute<H, ParamRoute<P, H3, D3, D4>>,
    >)
        ensures
            r.handler.prev == self.handler,
            r.handler.handler.param_handler == param_handler,
            r.handler.handler.handler == handler,
    {
        self.path(ParamRoute { param_handler, handler, phantom: PhantomData })
    }

    /// This route, then `handler` where the next segment is `path`.
    pub fn route<H2, D3>(self, path: &str, handler: H2) -> (r: Route<
        PathRoute<H, SegmentRoute<H2, D3>>,
    >)
        ensures
            r.handler.prev == self.handler,
            r.handler.handler.path@ == path@,
            r.handler.handler.handler == handler,
    {
        self.path(SegmentRoute { path: path.to_owned(), handler, phantom: PhantomData })
    }

    /// This route, then `handler` where no segment is left.
    pub fn root<H2>(self, handler: H2) -> (r: Route<PathRoute<H, RootMatch<H2>>>)
        ensures
            r.handler.prev == self.handler,
            r.handler.handler.handler == handler,
    {
        self.path(RootMatch { handler })
    }

    /// This route, then `handler` where no segment is left and the request
    /// has the given method.
    pub fn method<H2>(self, method: Method, handler: H2) -> (r: Route<
        PathRoute<H, RootMatch<MethodRoute<H2>>>,
    >)
        ensures
            r.handler.prev == self.handler,
            r.handler.handler.handler.method@ == method@,
            r.handler.handler.handler.handler == handler,
    {
        self.root(MethodRoute { method, handler })
    }

    /// `method` with `GET`.
    pub fn get<H2>(self, handler: H2) -> (r: Route<PathRoute<H, RootMatch<MethodRoute<H2>>>>)
        ensures
            r.handler.prev == self.handler,
            r.handler.handler.handler.method@ == MethodView::Get,
            r.handler.handler.handler.handler == handler,
    {
        self.method(Method::Get, handler)
    }

    /// `method` with `POST`.
    pub fn post<H2>(self, handler: H2) -> (r: Route<PathRoute<H, RootMatch<MethodRoute<H2>>>>)
        ensures
            r.handler.prev == self.handler,
            r.handler.handler.handler.method@ == MethodView::Post,
            r.handler.handler.handler.handler == handler,
    {
        self.method(Method::Post, handler)
    }

    /// `method` with `PUT`.
    pub fn put<H2>(self, handler: H2) -> (r: Route<PathRoute<H, RootMatch<MethodRoute<H2>>>>)
        ensures
            r.handler.prev == self.handler,
            r.handler.handler.handler.method@ == MethodView::Put,
            r.handler.handler.handler.handler == handler,
    {
        self.method(Method::Put, handler)
    }

    /// `method` with `DELETE`.
    pub fn delete<H2>(self, handler: H2) -> (r: Route<PathRoute<H, RootMatch<MethodRoute<H2>>>>)
        ensures
            r.handler.prev == self.handler,
            r.handler.handler.handler.method@ == MethodView::Delete,
            r.handler.handler.handler.handler == handler,
    {
        self.method(Method::Delete, handler)
    }

    /// `method` with `HEAD`.
    pub fn head<H2>(self, handler: H2) -> (r: Route<PathRoute<H, RootMatch<MethodRoute<H2>>>>)
        ensures
            r.handler.prev == self.handler,
            r.handler.handler.handler.method@ == MethodView::Head,
            r.handler.handler.handler.handler == handler,
    {
        self.method(Method::Head, handler)
    }

    /// `method` with `TRACE`.
    pub fn trace<H2>(self, handler: H2) -> (r: Route<PathRoute<H, RootMatch<MethodRoute<H2>>>>)
        ensures
            r.handler.prev == self.handler,
            r.handler.handler.handler.method@ == MethodView::Trace,
            r.handler.handler.handler.handler == handler,
    {
        self.method(Method::Trace, handler)
    }

    /// `method` with `CONNECT`.
    pub fn connect<H2>(self, handler: H2) -> (r: Route<PathRoute<H, RootMatch<MethodRoute<H2>>>>)
        ensures
            r.handler.prev == self.handler,
            r.handler.handler.handler.method@ == MethodView::Connect,
            r.handler.handler.handler.handler == handler,
    {
        self.method(Method::Connect, handler)
    }

    /// `method` with `PATCH`.
    pub fn patch<H2>(self, handler: H2) -> (r: Route<PathRoute<H, RootMatch<MethodRoute<H2>>>>)
        ensures
            r.handler.prev == self.handler,
            r.handler.handler.handler.method@ == MethodView::Patch,
            r.handler.handler.handler.handler == handler,
    {
        self.method(Method::Patch, handler)
    }

    /// `method` with `OPTIONS`.
    pub fn options<H2>(self, handler: H2) -> (r: Route<PathRoute<H, RootMatch<MethodRoute<H2>>>>)
        ensures
            r.handler.prev == self.handler,
            r.handler.handler.handler.method@ == MethodView::Options,
            r.handler.handler.handler.handler == handler,
    {
        self.method(Method::Options, handler)
    }

    /// This route, then [`Cors`].
    pub fn cors<D2>(self) -> (r: Route<ConcatHandler<H, Cors, D2>>)
        ensures
            r.handler.handler1 == self.handler,
    {
        self.using(Cors)
    }
}

/// Putting the route that hands every request on in front of a handler changes
/// nothing: `route().using(h)` handles requests as `h` does.
pub proof fn lemma_using_after_unit<D1, D2, E, H: Handler<D1, D2, E>>(
    c: ConcatHandler<(), H, D1>,
    before: RequestView,
    data: D1,
    after: RequestView,
    result: HandlerResult<D2, E>,
)
    ensures
        c.handles(before, data, after, result) <==> c.handler2.handles(before, data, after, result),
{
    let first = Ok::<Action<D1>, E>(Action::Next(data));
    assert(c.handler1.handles(before, data, before, first));
    if c.handler2.handles(before, data, after, result) {
    }
    if c.handles(before, data, after, result) {
        let (mid, r1) = choose|mid: RequestView, r1: HandlerResult<D1, E>|
            #[trigger] c.handler1.handles(before, data, mid, r1) && then_step(
                c.handler2,
                mid,
                r1,
                after,
                result,
            );
    }
}

/// Appending the handler that hands every request on changes nothing:
/// `r.using(())` handles requests as `r` does.
pub proof fn lemma_using_unit<D1, D2, E, H: Handler<D1, D2, E>>(
    c: ConcatHandler<H, (), D2>,
    before: RequestView,
    data: D1,
    after: RequestView,
    result: HandlerResult<D2, E>,
)
    ensures
        c.handles(before, data, after, result) <==> c.handler1.handles(before, data, after, result),
{
}

/// Catching with the error handler that passes errors on changes nothing:
/// `r.catch(())` handles requests as `r` does.
pub proof fn lemma_catch_unit<D1, D2, E, H: Handler<D1, D2, E>>(
    c: ConcatErrorHandler<H, ()>,
    before: RequestView,
    data: D1,
    after: RequestView,
    result: HandlerResult<D2, E>,
)
    ensures
        c.handles(before, data, after, result) <==> c.handler1.handles(before, data, after, result),
{
}

/// A path step puts the path back: where `route().path(p)` took a segment off
/// the path, the request leaves with the path it came with.
pub proof fn lemma_path_restored<D, E, P: PathHandler<D, E>>(
    x: PathRoute<(), P>,
    before: RequestView,
    data: D,
    after: RequestView,
    result: HandlerResult<D, E>,
)
    requires
        x.handles(before, data, after, result),
        segment_split(before.path, false).0 is Some,
    ensures
        after.path == before.path,
{
    let (mid, r1) = choose|mid: RequestView, r1: HandlerResult<D, E>|
        #[trigger] x.prev.handles(before, data, mid, r1) && match r1 {
            Ok(Action::Next(d2)) => path_step(x.handler, mid, d2, after, result),
            _ => after == mid && result == r1,
        };
    let split = segment_split(mid.path, false);
    let inner = choose|inner: RequestView|
        #[trigger] x.handler.handles_path(mid.with_path(split.1), data, split.0, inner, result)
            && after == inner.with_path(mid.path);
}

/// `route().route(p, h)` hands a request whose next segment is not `p` on
/// untouched.
pub proof fn lemma_route_other_segment<D2: Clone, D3, E, H: Handler<D2, D3, E>>(
    x: PathRoute<(), SegmentRoute<H, D3>>,
    before: RequestView,
    data: D2,
    after: RequestView,
    result: HandlerResult<D2, E>,
)
    requires
        x.handles(before, data, after, result),
        segment_split(before.path, false).0 != Some(x.handler.path@),
    ensures
        after == before,
        result == Ok::<Action<D2>, E>(Action::Next(data)),
{
    let split = segment_split(before.path, false);
    if split.0 is Some {
        let inner = choose|inner: RequestView|
            #[trigger] x.handler.handles_path(before.with_path(split.1), data, split.0, inner, result)
                && after == inner.with_path(before.path);
    }
}

/// `route().route(p, h)` runs `h` on a copy of the data where the next segment
/// is `p`, with the path past `p` while it runs; the path is put back, and
/// where `h` hands the request on it goes on with the data it came with.
pub proof fn lemma_route_matching_segment<D2: Clone, D3, E, H: Handler<D2, D3, E>>(
    x: PathRoute<(), SegmentRoute<H, D3>>,
    before: RequestView,
    data: D2,
    after: RequestView,
    result: HandlerResult<D2, E>,
)
    requires
        x.handles(before, data, after, result),
        segment_split(before.path, false).0 == Some(x.handler.path@),
    ensures
        exists|copy: D2, inner: RequestView, r1: HandlerResult<D3, E>|
            cloned(data, copy) && #[trigger] x.handler.handler.handles(
                before.with_path(segment_split(before.path, false).1),
                copy,
                inner,
                r1,
            ) && after == inner.with_path(before.path) && result == keep_data(r1, data),
{
    let split = segment_split(before.path, false);
    let inner = choose|inner: RequestView|
        #[trigger] x.handler.handles_path(before.with_path(split.1), data, split.0, inner, result)
            && after == inner.with_path(before.path);
    let (copy, r1) = choose|copy: D2, r1: HandlerResult<D3, E>|
        cloned(data, copy) && #[trigger] x.handler.handler.handles(
            before.with_path(split.1),
            copy,
            inner,
            r1,
        ) && result == keep_data(r1, data);
}

/// `route().method(m, h)` hands a request of another method on untouched.
pub proof fn lemma_method_other<D, E, H: Handler<D, D, E>>(
    x: PathRoute<(), RootMatch<MethodRoute<H>>>,
    before: RequestView,
    data: D,
    after: RequestView,
    result: HandlerResult<D, E>,
)
    requires
        x.handles(before, data, after, result),
        before.method != x.handler.handler.method@,
    ensures
        after == before,
        result == Ok::<Action<D>, E>(Action::Next(data)),
{
    let split = segment_split(before.path, false);
    if split.0 is Some {
        let inner = choose|inner: RequestView|
            #[trigger] x.handler.handles_path(before.with_path(split.1), data, split.0, inner, result)
                && after == inner.with_path(before.path);
    }
}

/// Grouping does not matter in a sequence of handlers:
/// `r.using(h2).using(h3)` handles requests as `r.using(h2.using(h3))` does.
pub proof fn lemma_using_associative<
    D1,
    D2,
    D3,
    D4,
    E,
    H1: Handler<D1, D2, E>,
    H2: Handler<D2, D3, E>,
    H3: Handler<D3, D4, E>,
>(
    left: ConcatHandler<ConcatHandler<H1, H2, D2>, H3, D3>,
    right: ConcatHandler<H1, ConcatHandler<H2, H3, D3>, D2>,
    before: RequestView,
    data: D1,
    after: RequestView,
    result: HandlerResult<D4, E>,
)
    requires
        left.handler1.handler1 == right.handler1,
        left.handler1.handler2 == right.handler2.handler1,
        left.handler2 == right.handler2.handler2,
    ensures
        left.handles(before, data, after, result) <==> right.handles(before, data, after, result),
{
    let h1 = right.handler1;
    let h2 = right.handler2.handler1;
    let h3 = right.handler2.handler2;
    if left.handles(before, data, after, result) {
        let (m, q) = choose|m: RequestView, q: HandlerResult<D3, E>|
            #[trigger] left.handler1.handles(before, data, m, q) && then_step(h3, m, q, after, result);
        let (m1, r1) = choose|m1: RequestView, r1: HandlerResult<D2, E>|
            #[trigger] h1.handles(before, data, m1, r1) && then_step(h2, m1, r1, m, q);
    }
    if right.handles(before, data, after, result) {
        let (m1, r1) = choose|m1: RequestView, r1: HandlerResult<D2, E>|
            #[trigger] right.handler1.handles(before, data, m1, r1) && then_step(
                right.handler2,
                m1,
                r1,
                after,
                result,
            );
        match r1 {
            Ok(Action::Next(d2)) => {
                let (m, q) = choose|m: RequestView, q: HandlerResult<D3, E>|
                    #[trigger] h2.handles(m1, d2, m, q) && then_step(h3, m, q, after, result);
                assert(left.handler1.handles(before, data, m, q));
            },
            Ok(Action::Done(x)) => {
                let q = Ok::<Action<D3>, E>(Action::Done(x));
                assert(left.handler1.handles(before, data, m1, q));
            },
            Err(e) => {
                let q = Err::<Action<D3>, E>(e);
                assert(left.handler1.handles(before, data, m1, q));
            },
        }
    }
}

/// `route().root(h)` runs `h` on every request with no segment left, however
/// long its path is: `""`, `"/"` and `"/?page=2"` alike.
pub proof fn lemma_root_runs_handler<D, E, H: Handler<D, D, E>>(
    x: PathRoute<(), RootMatch<H>>,
    before: RequestView,
    data: D,
    after: RequestView,
    result: HandlerResult<D, E>,
)
    requires
        segment_split(before.path, false).0 is None,
    ensures
        x.handles(before, data, after, result) <==> x.handler.handler.handles(
            before,
            data,
            after,
            result,
        ),
{
    let first = Ok::<Action<D>, E>(Action::Next(data));
    assert(x.prev.handles(before, data, before, first));
}

/// `route().method(m, h)` runs `h` on every request of method `m` with no
/// segment left, whichever method `m` is.
pub proof fn lemma_method_matching<D, E, H: Handler<D, D, E>>(
    x: PathRoute<(), RootMatch<MethodRoute<H>>>,
    before: RequestView,
    data: D,
    after: RequestView,
    result: HandlerResult<D, E>,
)
    requires
        segment_split(before.path, false).0 is None,
        before.method == x.handler.handler.method@,
    ensures
        x.handles(before, data, after, result) <==> x.handler.handler.handler.handles(
            before,
            data,
            after,
            result,
        ),
{
    lemma_root_runs_handler(x, before, data, after, result);
}

/// Where the parameter handler of `route().param(p, h)` hands on `d3` and `h`
/// fails on it with `e`, the route fails with that same `e`, the path put back.
pub proof fn lemma_param_error_propagates<
    D2: Clone,
    D3,
    D4,
    E,
    P: ParamHandler<D2, D3, E>,
    H: Handler<D3, D4, E>,
>(
    x: PathRoute<(), ParamRoute<P, H, D3, D4>>,
    before: RequestView,
    data: D2,
    copy: D2,
    mid: RequestView,
    d3: D3,
    inner: RequestView,
    e: E,
)
    requires
        segment_split(before.path, false).0 is Some,
        cloned(data, copy),
        x.handler.param_handler.handles_param(
            before.with_path(segment_split(before.path, false).1),
            copy,
            segment_split(before.path, false).0->0,
            mid,
            Ok(Action::Next(d3)),
        ),
        x.handler.handler.handles(mid, d3, inner, Err(e)),
    ensures
        x.handles(before, data, inner.with_path(before.path), Err(e)),
{
    let split = segment_split(before.path, false);
    let first = Ok::<Action<D2>, E>(Action::Next(data));
    let r1 = Ok::<Action<D3>, E>(Action::Next(d3));
    let r2 = Err::<Action<D4>, E>(e);
    let res = Err::<Action<D2>, E>(e);
    assert(x.handler.handler.handles(mid, d3, inner, r2));
    assert(keep_data(r2, data) == res);
    assert(x.handler.param_handler.handles_param(before.with_path(split.1), copy, split.0->0, mid, r1));
    match r1 {
        Ok(Action::Next(n)) => {
            assert(n == d3);
            assert(x.handler.handler.handles(mid, n, inner, r2) && res == keep_data(r2, data));
        },
        _ => {},
    }
    assert(match r1 {
        Ok(Action::Next(n)) => exists|r: HandlerResult<D4, E>|
            #[trigger] x.handler.handler.handles(mid, n, inner, r) && res == keep_data(r, data),
        Ok(Action::Done(y)) => inner == mid && res == Ok::<Action<D2>, E>(Action::Done(y)),
        Err(f) => inner == mid && res == Err::<Action<D2>, E>(f),
    });
    assert(param_step(
        x.handler.param_handler,
        x.handler.handler,
        before.with_path(split.1),
        data,
        split.0->0,
        inner,
        res,
    ));
    assert(x.handler.handles_path(before.with_path(split.1), data, split.0, inner, res));
    assert(path_step(x.handler, before, data, inner.with_path(before.path), res));
    assert(x.prev.handles(before, data, before, first));
}

/// `route().param(p, h)` hands a request on only with the data it came with,
/// and where it took a segment, only after `h` itself handed it on: an error
/// or an answer of `h` is never turned into handing on.
pub proof fn lemma_param_next_only_after_next<
    D2: Clone,
    D3,
    D4,
    E,
    P: ParamHandler<D2, D3, E>,
    H: Handler<D3, D4, E>,
>(
    x: PathRoute<(), ParamRoute<P, H, D3, D4>>,
    before: RequestView,
    data: D2,
    after: RequestView,
    d: D2,
)
    requires
        x.handles(before, data, after, Ok(Action::Next(d))),
    ensures
        d == data,
        segment_split(before.path, false).0 is Some ==> exists|
            copy: D2,
            mid: RequestView,
            d3: D3,
            inner: RequestView,
            d4: D4,
        |
            cloned(data, copy) && #[trigger] x.handler.param_handler.handles_param(
                before.with_path(segment_split(before.path, false).1),
                copy,
                segment_split(before.path, false).0->0,
                mid,
                Ok(Action::Next(d3)),
            ) && #[trigger] x.handler.handler.handles(mid, d3, inner, Ok(Action::Next(d4))),
{
    let result = Ok::<Action<D2>, E>(Action::Next(d));
    let split = segment_split(before.path, false);
    if split.0 is Some {
        let inner = choose|inner: RequestView|
            #[trigger] x.handler.handles_path(before.with_path(split.1), data, split.0, inner, result)
                && after == inner.with_path(before.path);
        let param = split.0->0;
        let b = before.with_path(split.1);
        let (copy, mid, r1) = choose|copy: D2, mid: RequestView, r1: HandlerResult<D3, E>|
            cloned(data, copy) && #[trigger] x.handler.param_handler.handles_param(
                b,
                copy,
                param,
                mid,
                r1,
            ) && match r1 {
                Ok(Action::Next(d3)) => exists|r2: HandlerResult<D4, E>|
                    #[trigger] x.handler.handler.handles(mid, d3, inner, r2) && result == keep_data(
                        r2,
                        data,
                    ),
                Ok(Action::Done(y)) => inner == mid && result == Ok::<Action<D2>, E>(Action::Done(y)),
                Err(e) => inner == mid && result == Err::<Action<D2>, E>(e),
            };
        match r1 {
            Ok(Action::Next(d3)) => {
                let r2 = choose|r2: HandlerResult<D4, E>|
                    #[trigger] x.handler.handler.handles(mid, d3, inner, r2) && result == keep_data(
                        r2,
                        data,
                    );
                match r2 {
                    Ok(Action::Next(d4)) => {
                        assert(x.handler.handler.handles(mid, d3, inner, Ok(Action::Next(d4))));
                    },
                    _ => {},
                }
            },
            _ => {},
        }
    }
}

/// `route().cors()` answers every preflight (`OPTIONS`) request itself, whatever
/// headers it carries: with `200 OK`, an empty body and
/// `Access-Control-Allow-Origin: *`. It never hands such a request on.
pub proof fn lemma_cors_answers_preflight<D, E>(
    x: ConcatHandler<(), Cors, D>,
    before: RequestView,
    data: D,
    after: RequestView,
    result: HandlerResult<D, E>,
)
    requires
        before.method == MethodView::Options,
        x.handles(before, data, after, result),
    ensures
        match result {
            Ok(Action::Done((status, body))) => status.code == 200 && body@.len() == 0,
            _ => false,
        },
        header_get(after.response_headers, "Access-Control-Allow-Origin"@) == Some("*"@),
{
    let (mid, r1) = choose|mid: RequestView, r1: HandlerResult<D, E>|
        #[trigger] x.handler1.handles(before, data, mid, r1) && then_step(
            x.handler2,
            mid,
            r1,
            after,
            result,
        );
    let origin = "Access-Control-Allow-Origin"@;
    let allow = "Access-Control-Allow-Headers"@;
    reveal_strlit("Access-Control-Allow-Origin");
    reveal_strlit("Access-Control-Allow-Headers");
    let h1 = header_set(before.response_headers, origin, "*"@);
    lemma_get_after_set(before.response_headers, origin, "*"@);
    match header_get(before.request_headers, "Access-Control-Request-Headers"@) {
        Some(requested) => {
            lemma_set_leaves_other_names(h1, allow, comma_join(comma_list_items(requested)), origin);
        },
        None => {},
    }
}

} // verus!
