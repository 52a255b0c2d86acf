use vstd::prelude::*;
use crate::request::{Request, RequestView};
use crate::status_code::StatusCode;

verus! {

/// What a handler decided: hand the request on, with data for the handlers
/// after it, or answer it with a status and the bytes of a body.
pub enum Action<D> {
    Next(D),
    Done((StatusCode, Vec<u8>)),
}

/// The outcome of a handler: an action, or an error of type `E`.
pub type HandlerResult<D, E> = Result<Action<D>, E>;

/// The character sequence of an optional string slice.
pub open spec fn opt_str_view(s: Option<&str>) -> Option<Seq<char>> {
    match s {
        Some(t) => Some(t@),
        None => None,
    }
}

/// A step in the handling of a request: it reads and changes the request, takes
/// data of type `D1`, and hands on data of type `D2`.
///
/// `handles` is the relation that an implementation promises between the request
/// before and after the call, the data it was given and the outcome; it may
/// allow several outcomes. An implementation that does not define it promises
/// nothing.
pub trait Handler<D1, D2, E> {
    open spec fn handles(
        &self,
        before: RequestView,
        data: D1,
        after: RequestView,
        result: HandlerResult<D2, E>,
    ) -> bool {
        true
    }

    fn handle(&self, req: &mut Request, data: D1) -> (result: HandlerResult<D2, E>)
        ensures
            self.handles(old(req)@, data, final(req)@, result),
    ;
}

/// A step that runs when an earlier one failed with an error.
pub trait ErrorHandler<D, E> {
    open spec fn handles_error(
        &self,
        before: RequestView,
        error: E,
        after: RequestView,
        result: HandlerResult<D, E>,
    ) -> bool {
        true
    }

    fn handle_error(&self, req: &mut Request, error: E) -> (result: HandlerResult<D, E>)
        ensures
            self.handles_error(old(req)@, error, final(req)@, result),
    ;
}

/// A step that is given the next segment of the request path, if there is one;
/// while it runs, the request's path is what follows that segment.
pub trait PathHandler<D, E> {
    open spec fn handles_path(
        &self,
        before: RequestView,
        data: D,
        segment: Option<Seq<char>>,
        after: RequestView,
        result: HandlerResult<D, E>,
    ) -> bool {
        true
    }

    fn handle_path(&self, req: &mut Request, data: D, segment: Option<&str>) -> (result:
        HandlerResult<D, E>)
        ensures
            self.handles_path(old(req)@, data, opt_str_view(segment), final(req)@, result),
    ;
}

/// A step that turns a path segment into data for the handlers after it.
pub trait ParamHandler<D1, D2, E> {
    open spec fn handles_param(
        &self,
        before: RequestView,
        data: D1,
        param: Seq<char>,
        after: RequestView,
        result: HandlerResult<D2, E>,
    ) -> bool {
        true
    }

    fn handle_param(&self, req: &mut Request, data: D1, param: &str) -> (result: HandlerResult<
        D2,
        E,
    >)
        ensures
            self.handles_param(old(req)@, data, param@, final(req)@, result),
    ;
}

/// The handler that does nothing: it hands the request and its data on.
impl<D, E> Handler<D, D, E> for () {
    open spec fn handles(
        &self,
        before: RequestView,
        data: D,
        after: RequestView,
        result: HandlerResult<D, E>,
    ) -> bool {
        after == before && result == Ok::<Action<D>, E>(Action::Next(data))
    }

    fn handle(&self, req: &mut Request, data: D) -> (result: HandlerResult<D, E>) {
        req.next(data)
    }
}

/// The error handler that does nothing: it passes the error on.
impl<D, E> ErrorHandler<D, E> for () {
    open spec fn handles_error(
        &self,
        before: RequestView,
        error: E,
        after: RequestView,
        result: HandlerResult<D, E>,
    ) -> bool {
        after == before && result == Err::<Action<D>, E>(error)
    }

    fn handle_error(&self, req: &mut Request, error: E) -> (result: HandlerResult<D, E>) {
        req.error(error)
    }
}

} // verus!
