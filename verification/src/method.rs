use vstd::prelude::*;

verus! {

/// An HTTP request method.
#[derive(Debug)]
pub enum Method {
    Options,
    Get,
    Post,
    Put,
    Delete,
    Head,
    Trace,
    Connect,
    Patch,
    /// Any other method, by its name.
    Extension(String),
}

/// The mathematical value of a [`Method`].
pub enum MethodView {
    Options,
    Get,
    Post,
    Put,
    Delete,
    Head,
    Trace,
    Connect,
    Patch,
    Extension(Seq<char>),
}

impl View for Method {
    type V = MethodView;

    open spec fn view(&self) -> MethodView {
        match self {
            Method::Options => MethodView::Options,
            Method::Get => MethodView::Get,
            Method::Post => MethodView::Post,
            Method::Put => MethodView::Put,
            Method::Delete => MethodView::Delete,
            Method::Head => MethodView::Head,
            Method::Trace => MethodView::Trace,
            Method::Connect => MethodView::Connect,
            Method::Patch => MethodView::Patch,
            Method::Extension(name) => MethodView::Extension(name@),
        }
    }
}

impl Method {
    /// Whether two methods are the same method.
    pub fn same_as(&self, other: &Method) -> (r: bool)
        ensures
            r == (self@ == other@),
    {
        match self {
            Method::Options => match other {
                Method::Options => true,
                _ => false,
            },
            Method::Get => match other {
                Method::Get => true,
                _ => false,
            },
            Method::Post => match other {
                Method::Post => true,
                _ => false,
            },
            Method::Put => match other {
                Method::Put => true,
                _ => false,
            },
            Method::Delete => match other {
                Method::Delete => true,
                _ => false,
            },
            Method::Head => match other {
                Method::Head => true,
                _ => false,
            },
            Method::Trace => match other {
                Method::Trace => true,
                _ => false,
            },
            Method::Connect => match other {
                Method::Connect => true,
                _ => false,
            },
            Method::Patch => match other {
                Method::Patch => true,
                _ => false,
            },
            Method::Extension(a) => match other {
                Method::Extension(b) => a.eq(b),
                _ => false,
            },
        }
    }
}

} // verus!
