use vstd::prelude::*;
use crate::method::{Method, MethodView};
use super::before_middleware::AddBeforeMiddleware;
use super::root_middleware::AddRootMiddleware;
use super::sub_middleware::AddSubMiddleware;
use super::sub_route::{SubRoute, SubRouteBase};

verus! {

/// A route as a list of before-middleware, which sub-route tables extend.
pub struct Route<B> {
    before_middleware: Vec<B>,
}

impl<B> Route<B> {
    /// The before-middleware, in the order they were added.
    pub closed spec fn before_middleware(&self) -> Seq<B> {
        self.before_middleware@
    }

    /// A route with no middleware.
    pub fn new() -> (r: Route<B>)
        ensures
            r.before_middleware() == Seq::<B>::empty(),
    {
        Route { before_middleware: Vec::new() }
    }
}

impl<B> AddBeforeMiddleware<B> for Route<B> {
    open spec fn before_list(&self) -> Seq<B> {
        self.before_middleware()
    }

    fn add_before_middleware(self, handler: B) -> (r: Route<B>) {
        let mut s = self;
        s.before_middleware.push(handler);
        s
    }
}

/// A route extends into a sub-route table that runs after it.
impl<B, H> SubRouteBase<Route<B>, H> for Route<B> {
    open spec fn base_prev(&self) -> Route<B> {
        *self
    }

    open spec fn base_roots(&self) -> Seq<(MethodView, H)> {
        Seq::empty()
    }

    open spec fn base_subs(&self) -> Map<Seq<char>, H> {
        Map::empty()
    }
}

impl<B, H> AddRootMiddleware<Route<B>, H> for Route<B> {
    fn add_root_middleware(self, method: Method, handler: H) -> (r: SubRoute<Route<B>, H>) {
        SubRoute::new(self).add_root_middleware(method, handler)
    }
}

impl<B, H> AddSubMiddleware<Route<B>, H> for Route<B> {
    fn add_sub_middleware(self, path: &str, handler: H) -> (r: SubRoute<Route<B>, H>) {
        SubRoute::new(self).add_sub_middleware(path, handler)
    }
}

} // verus!
