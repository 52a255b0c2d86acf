use vstd::prelude::*;
use super::after_route::AfterRoute;

verus! {

/// Routes that after-middleware can be added to.
pub trait AddAfterMiddleware<S, A>: Sized {
    /// The route that the after-middleware follows.
    spec fn after_prev(&self) -> S;

    /// The after-middleware so far.
    spec fn after_list(&self) -> Seq<A>;

    /// This route with `handler` added at the end of its after-middleware.
    fn add_after_middleware(self, handler: A) -> (r: AfterRoute<S, A>)
        ensures
            r.prev() == self.after_prev(),
            r.after_middleware() == self.after_list().push(handler),
    ;
}

/// Adding after-middleware.
pub trait AfterMiddlewareMethods<S, A>: AddAfterMiddleware<S, A> + Sized {
    /// The same as `add_after_middleware`.
    fn using(self, handler: A) -> (r: AfterRoute<S, A>)
        ensures
            r.prev() == self.after_prev(),
            r.after_middleware() == self.after_list().push(handler),
    ;
}

impl<S, A, T: AddAfterMiddleware<S, A>> AfterMiddlewareMethods<S, A> for T {
    fn using(self, handler: A) -> (r: AfterRoute<S, A>) {
        self.add_after_middleware(handler)
    }
}

} // verus!
