use vstd::prelude::*;

verus! {

/// A route that a root table follows.
pub struct RootRoute<P> {
    prev: P,
}

impl<P> RootRoute<P> {
    /// The route that runs first.
    pub closed spec fn prev(&self) -> P {
        self.prev
    }

    pub fn new(prev: P) -> (r: RootRoute<P>)
        ensures
            r.prev() == prev,
    {
        RootRoute { prev }
    }
}

} // verus!
