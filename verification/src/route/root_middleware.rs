use vstd::prelude::*;
use crate::method::{Method, MethodView};
use super::sub_route::{SubRoute, SubRouteBase};
use super::table::table_insert;

verus! {

/// Routes that a handler for requests with no segment left can be added to.
pub trait AddRootMiddleware<P, H>: SubRouteBase<P, H> + Sized {
    /// The sub-route table of this route with `handler` registered for
    /// `method`, in place of any earlier one.
    fn add_root_middleware(self, method: Method, handler: H) -> (r: SubRoute<P, H>)
        ensures
            r.prev() == self.base_prev(),
            r.roots() == table_insert(self.base_roots(), method@, handler),
            r.subs() == self.base_subs(),
    ;
}

/// Registering root handlers by method.
pub trait RootMiddlewareMethods<P, H>: AddRootMiddleware<P, H> + Sized {
    /// The same as `add_root_middleware`.
    fn method(self, method: Method, handler: H) -> (r: SubRoute<P, H>)
        ensures
            r.prev() == self.base_prev(),
            r.roots() == table_insert(self.base_roots(), method@, handler),
            r.subs() == self.base_subs(),
    ;

    /// `method` with `GET`.
    fn get(self, handler: H) -> (r: SubRoute<P, H>)
        ensures
            r.prev() == self.base_prev(),
            r.roots() == table_insert(self.base_roots(), MethodView::Get, handler),
            r.subs() == self.base_subs(),
    ;

    /// `method` with `POST`.
    fn post(self, handler: H) -> (r: SubRoute<P, H>)
        ensures
            r.prev() == self.base_prev(),
            r.roots() == table_insert(self.base_roots(), MethodView::Post, handler),
            r.subs() == self.base_subs(),
    ;

    /// `method` with `PUT`.
    fn put(self, handler: H) -> (r: SubRoute<P, H>)
        ensures
            r.prev() == self.base_prev(),
            r.roots() == table_insert(self.base_roots(), MethodView::Put, handler),
            r.subs() == self.base_subs(),
    ;

    /// `method` with `DELETE`.
    fn delete(self, handler: H) -> (r: SubRoute<P, H>)
        ensures
            r.prev() == self.base_prev(),
            r.roots() == table_insert(self.base_roots(), MethodView::Delete, handler),
            r.subs() == self.base_subs(),
    ;

    /// `method` with `HEAD`.
    fn head(self, handler: H) -> (r: SubRoute<P, H>)
        ensures
            r.prev() == self.base_prev(),
            r.roots() == table_insert(self.base_roots(), MethodView::Head, handler),
            r.subs() == self.base_subs(),
    ;

    /// `method` with `TRACE`.
    fn trace(self, handler: H) -> (r: SubRoute<P, H>)
        ensures
            r.prev() == self.base_prev(),
            r.roots() == table_insert(self.base_roots(), MethodView::Trace, handler),
            r.subs() == self.base_subs(),
    ;

    /// `method` with `CONNECT`.
    fn connect(self, handler: H) -> (r: SubRoute<P, H>)
        ensures
            r.prev() == self.base_prev(),
            r.roots() == table_insert(self.base_roots(), MethodView::Connect, handler),
            r.subs() == self.base_subs(),
    ;

    /// `method` with `PATCH`.
    fn patch(self, handler: H) -> (r: SubRoute<P, H>)
        ensures
            r.prev() == self.base_prev(),
            r.roots() == table_insert(self.base_roots(), MethodView::Patch, handler),
            r.subs() == self.base_subs(),
    ;

    /// `method` with `OPTIONS`.
    fn options(self, handler: H) -> (r: SubRoute<P, H>)
        ensures
            r.prev() == self.base_prev(),
            r.roots() == table_insert(self.base_roots(), MethodView::Options, handler),
            r.subs() == self.base_subs(),
    ;
}

impl<P, H, A: AddRootMiddleware<P, H>> RootMiddlewareMethods<P, H> for A {
    fn method(self, method: Method, handler: H) -> (r: SubRoute<P, H>) {
        self.add_root_middleware(method, handler)
    }

    fn get(self, handler: H) -> (r: SubRoute<P, H>) {
        self.method(Method::Get, handler)
    }

    fn post(self, handler: H) -> (r: SubRoute<P, H>) {
        self.method(Method::Post, handler)
    }

    fn put(self, handler: H) -> (r: SubRoute<P, H>) {
        self.method(Method::Put, handler)
    }

    fn delete(self, handler: H) -> (r: SubRoute<P, H>) {
        self.method(Method::Delete, handler)
    }

    fn head(self, handler: H) -> (r: SubRoute<P, H>) {
        self.method(Method::Head, handler)
    }

    fn trace(self, handler: H) -> (r: SubRoute<P, H>) {
        self.method(Method::Trace, handler)
    }

    fn connect(self, handler: H) -> (r: SubRoute<P, H>) {
        self.method(Method::Connect, handler)
    }

    fn patch(self, handler: H) -> (r: SubRoute<P, H>) {
        self.method(Method::Patch, handler)
    }

    fn options(self, handler: H) -> (r: SubRoute<P, H>) {
        self.method(Method::Options, handler)
    }
}

} // verus!
