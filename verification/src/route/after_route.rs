use vstd::prelude::*;
use super::after_middleware::AddAfterMiddleware;

verus! {

/// A route followed by a list of after-middleware.
pub struct AfterRoute<S, A> {
    prev: S,
    after_middleware: Vec<A>,
}

impl<S, A> AfterRoute<S, A> {
    /// The route that runs first.
    pub closed spec fn prev(&self) -> S {
        self.prev
    }

    /// The after-middleware, in the order they were added.
    pub closed spec fn after_middleware(&self) -> Seq<A> {
        self.after_middleware@
    }

    /// `prev` with no after-middleware yet.
    pub fn new(prev: S) -> (r: AfterRoute<S, A>)
        ensures
            r.prev() == prev,
            r.after_middleware() == Seq::<A>::empty(),
    {
        AfterRoute { prev, after_middleware: Vec::new() }
    }
}

impl<S, A> AddAfterMiddleware<S, A> for AfterRoute<S, A> {
    open spec fn after_prev(&self) -> S {
        self.prev()
    }

    open spec fn after_list(&self) -> Seq<A> {
        self.after_middleware()
    }

    fn add_after_middleware(self, handler: A) -> (r: AfterRoute<S, A>) {
        let mut s = self;
        s.after_middleware.push(handler);
        s
    }
}

} // verus!
