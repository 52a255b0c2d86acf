use vstd::prelude::*;
use super::sub_route::{SubRoute, SubRouteBase};

verus! {

/// Routes that a handler for a path segment can be added to.
pub trait AddSubMiddleware<P, H>: SubRouteBase<P, H> + Sized {
    /// The sub-route table of this route with `handler` registered for the
    /// segment `path`, in place of any earlier one.
    fn add_sub_middleware(self, path: &str, handler: H) -> (r: SubRoute<P, H>)
        ensures
            r.prev() == self.base_prev(),
            r.roots() == self.base_roots(),
            r.subs() == self.base_subs().insert(path@, handler),
    ;
}

/// Registering handlers by segment.
pub trait SubMiddlewareMethods<P, H>: AddSubMiddleware<P, H> + Sized {
    /// The same as `add_sub_middleware`.
    fn route(self, path: &str, handler: H) -> (r: SubRoute<P, H>)
        ensures
            r.prev() == self.base_prev(),
            r.roots() == self.base_roots(),
            r.subs() == self.base_subs().insert(path@, handler),
    ;
}

impl<P, H, A: AddSubMiddleware<P, H>> SubMiddlewareMethods<P, H> for A {
    fn route(self, path: &str, handler: H) -> (r: SubRoute<P, H>) {
        self.add_sub_middleware(path, handler)
    }
}

} // verus!
