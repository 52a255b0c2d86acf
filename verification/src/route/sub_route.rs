use vstd::prelude::*;
use crate::handler::{opt_str_view, Action, Handler, HandlerResult};
use crate::method::{Method, MethodView};
use crate::request::{Request, RequestView};
use super::after_middleware::AddAfterMiddleware;
use super::after_route::AfterRoute;
use super::root_middleware::AddRootMiddleware;
use super::sub_middleware::AddSubMiddleware;
use super::segment::{segment_split, split_segment};
use super::table::{
    find_method, insert_method, method_table_view, table_get, table_insert,
    lemma_table_get_after_insert,
};
use vstd::hash_map::StringHashMap;

verus! {

/// The next segment of `path` and what follows it, as the sub-route table
/// splits it: like `route::get_next_url_segment`, except that a `?` gives no
/// segment only where it is the path's first character.
pub fn get_next_url_segment(path: &str) -> (r: (Option<&str>, &str))
    ensures
        (opt_str_view(r.0), r.1@) == segment_split(path@, true),
{
    split_segment(path, true)
}

/// After `prev`, dispatches on the path: where no segment is left, to the
/// handler registered for the request's method; otherwise to the handler
/// registered for the next segment, which sees the rest of the path.
#[verifier::reject_recursive_types(H)]
pub struct SubRoute<P, H> {
    prev: P,
    root_handlers: Vec<(Method, H)>,
    sub_handlers: StringHashMap<H>,
}

/// How `h` handles `mid` when it is given the path `rest`: the path is put
/// back afterwards.
pub open spec fn routed_below<D, E, H: Handler<D, D, E>>(
    h: H,
    mid: RequestView,
    rest: Seq<char>,
    data: D,
    after: RequestView,
    result: HandlerResult<D, E>,
) -> bool {
    exists|inner: RequestView|
        #[trigger] h.handles(mid.with_path(rest), data, inner, result) && after == inner.with_path(
            mid.path,
        )
}

/// Hands `mid` on unchanged with `data`.
pub open spec fn passes_on<D, E>(
    mid: RequestView,
    data: D,
    after: RequestView,
    result: HandlerResult<D, E>,
) -> bool {
    after == mid && result == Ok::<Action<D>, E>(Action::Next(data))
}

/// How the tables `roots` (by method) and `subs` (by segment) dispatch `mid`.
pub open spec fn dispatch<D, E, H: Handler<D, D, E>>(
    roots: Seq<(MethodView, H)>,
    subs: Map<Seq<char>, H>,
    mid: RequestView,
    data: D,
    after: RequestView,
    result: HandlerResult<D, E>,
) -> bool {
    let split = segment_split(mid.path, true);
    if split.0 is None {
        match table_get(roots, mid.method) {
            Some(h) => h.handles(mid, data, after, result),
            None => passes_on(mid, data, after, result),
        }
    } else {
        if subs.contains_key(split.0->0) {
            routed_below(subs[split.0->0], mid, split.1, data, after, result)
        } else {
            passes_on(mid, data, after, result)
        }
    }
}

impl<P, H> SubRoute<P, H> {
    /// The step that runs first.
    pub closed spec fn prev(&self) -> P {
        self.prev
    }

    /// The handlers by method, for requests with no segment left.
    pub closed spec fn roots(&self) -> Seq<(MethodView, H)> {
        method_table_view(self.root_handlers@)
    }

    /// The handlers by next segment.
    pub closed spec fn subs(&self) -> Map<Seq<char>, H> {
        self.sub_handlers@
    }

    /// `prev` with empty tables.
    pub fn new(prev: P) -> (r: SubRoute<P, H>)
        ensures
            r.prev() == prev,
            r.roots() == Seq::<(MethodView, H)>::empty(),
            r.subs() == Map::<Seq<char>, H>::empty(),
    {
        let r = SubRoute { prev, root_handlers: Vec::new(), sub_handlers: StringHashMap::new() };
        r
    }
}

/// What adding a handler to a route extends: the step that runs first and the
/// two tables so far.
pub trait SubRouteBase<P, H> {
    spec fn base_prev(&self) -> P;

    spec fn base_roots(&self) -> Seq<(MethodView, H)>;

    spec fn base_subs(&self) -> Map<Seq<char>, H>;
}

impl<P, H> SubRouteBase<P, H> for SubRoute<P, H> {
    open spec fn base_prev(&self) -> P {
        self.prev()
    }

    open spec fn base_roots(&self) -> Seq<(MethodView, H)> {
        self.roots()
    }

    open spec fn base_subs(&self) -> Map<Seq<char>, H> {
        self.subs()
    }
}

impl<P, H> AddRootMiddleware<P, H> for SubRoute<P, H> {
    fn add_root_middleware(self, method: Method, handler: H) -> (r: SubRoute<P, H>) {
        let mut s = self;
        insert_method(&mut s.root_handlers, method, handler);
        s
    }
}

impl<P, H> AddSubMiddleware<P, H> for SubRoute<P, H> {
    fn add_sub_middleware(self, path: &str, handler: H) -> (r: SubRoute<P, H>) {
        let mut s = self;
        s.sub_handlers.insert(path.to_owned(), handler);
        s
    }
}

impl<P, H, A> AddAfterMiddleware<SubRoute<P, H>, A> for SubRoute<P, H> {
    open spec fn after_prev(&self) -> SubRoute<P, H> {
        *self
    }

    open spec fn after_list(&self) -> Seq<A> {
        Seq::empty()
    }

    fn add_after_middleware(self, handler: A) -> (r: AfterRoute<SubRoute<P, H>, A>) {
        let r = AfterRoute::new(self).add_after_middleware(handler);
        r
    }
}

impl<D1, D2, E, P: Handler<D1, D2, E>, H: Handler<D2, D2, E>> Handler<D1, D2, E> for SubRoute<
    P,
    H,
> {
    open spec fn handles(
        &self,
        before: RequestView,
        data: D1,
        after: RequestView,
        result: HandlerResult<D2, E>,
    ) -> bool {
        exists|mid: RequestView, r1: HandlerResult<D2, E>|
            #[trigger] self.prev().handles(before, data, mid, r1) && match r1 {
                Ok(Action::Next(d2)) => dispatch(self.roots(), self.subs(), mid, d2, after, result),
                _ => after == mid && result == r1,
            }
    }

    fn handle(&self, req: &mut Request, data: D1) -> (result: HandlerResult<D2, E>) {
        let ghost before = req@;
        let ghost d0 = data;
        let r1 = self.prev.handle(req, data);
        let ghost mid = req@;
        let ghost g1 = r1;
        assert(self.prev().handles(before, d0, mid, g1));
        match r1 {
            Ok(Action::Next(d2)) => {
                let path: String = req.get_path().to_owned();
                let (segment, rest) = get_next_url_segment(path.as_str());
                match segment {
                    None => {
                        match find_method(&self.root_handlers, req.get_method()) {
                            Some(i) => {
                                let h = &self.root_handlers[i].1;
                                h.handle(req, d2)
                            },
                            None => req.next(d2),
                        }
                    },
                    Some(seg) => {
                        match self.sub_handlers.get(seg) {
                            Some(h) => {
                                req.set_path(rest);
                                let result = h.handle(req, d2);
                                req.set_path(path.as_str());
                                result
                            },
                            None => req.next(d2),
                        }
                    },
                }
            },
            other => other,
        }
    }
}

/// With nothing before it, a sub-route table dispatches a request itself.
pub proof fn lemma_sub_route_dispatches<D, E, H: Handler<D, D, E>>(
    sr: SubRoute<(), H>,
    before: RequestView,
    data: D,
    after: RequestView,
    result: HandlerResult<D, E>,
)
    requires
        sr.handles(before, data, after, result),
    ensures
        dispatch(sr.roots(), sr.subs(), before, data, after, result),
{
    let (mid, r1) = choose|mid: RequestView, r1: HandlerResult<D, E>|
        #[trigger] sr.prev().handles(before, data, mid, r1) && match r1 {
            Ok(Action::Next(d2)) => dispatch(sr.roots(), sr.subs(), mid, d2, after, result),
            _ => after == mid && result == r1,
        };
}

/// A handler registered for a segment takes the requests for that segment,
/// whatever the table held before.
pub proof fn lemma_registered_segment_taken<D, E, H: Handler<D, D, E>>(
    sr: SubRoute<(), H>,
    earlier: Map<Seq<char>, H>,
    segment: Seq<char>,
    h: H,
    before: RequestView,
    data: D,
    after: RequestView,
    result: HandlerResult<D, E>,
)
    requires
        sr.subs() == earlier.insert(segment, h),
        segment_split(before.path, true).0 == Some(segment),
        sr.handles(before, data, after, result),
    ensures
        routed_below(h, before, segment_split(before.path, true).1, data, after, result),
{
    lemma_sub_route_dispatches(sr, before, data, after, result);
}

/// A handler registered for a method takes the requests of that method that
/// have no segment left, whatever the table held before.
pub proof fn lemma_registered_method_taken<D, E, H: Handler<D, D, E>>(
    sr: SubRoute<(), H>,
    earlier: Seq<(MethodView, H)>,
    method: MethodView,
    h: H,
    before: RequestView,
    data: D,
    after: RequestView,
    result: HandlerResult<D, E>,
)
    requires
        sr.roots() == table_insert(earlier, method, h),
        segment_split(before.path, true).0 is None,
        before.method == method,
        sr.handles(before, data, after, result),
    ensures
        h.handles(before, data, after, result),
{
    lemma_table_get_after_insert(earlier, method, h, method);
    lemma_sub_route_dispatches(sr, before, data, after, result);
}

} // verus!
