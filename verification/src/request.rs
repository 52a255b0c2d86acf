use vstd::prelude::*;
use crate::body::{push_bytes, Body};
use crate::handler::{Action, HandlerResult};
use crate::header::{entries_view, get_header, header_get, header_set, set_header};
use crate::method::{Method, MethodView};
use crate::status_code::StatusCode;

verus! {

/// A request being handled, with the parts of its response that handlers set.
pub struct Request {
    path: String,
    original_path: String,
    method: Method,
    request_headers: Vec<(String, String)>,
    response_headers: Vec<(String, String)>,
    body: Option<String>,
    cookie_key: Vec<u8>,
}

/// The mathematical value of a [`Request`].
pub struct RequestView {
    /// The part of the path that is still to be routed.
    pub path: Seq<char>,
    /// The path of the request as it arrived.
    pub original_path: Seq<char>,
    pub method: MethodView,
    pub request_headers: Seq<(Seq<char>, Seq<char>)>,
    pub response_headers: Seq<(Seq<char>, Seq<char>)>,
    /// The text of the request body; `None` where it could not be read.
    pub body: Option<Seq<char>>,
    pub cookie_key: Seq<u8>,
}

impl RequestView {
    /// This request with `path` as the path still to be routed.
    pub open spec fn with_path(self, path: Seq<char>) -> RequestView {
        RequestView { path, ..self }
    }

    /// This request with the response header `name` set to `value`.
    pub open spec fn with_response_header(self, name: Seq<char>, value: Seq<char>) -> RequestView {
        RequestView { response_headers: header_set(self.response_headers, name, value), ..self }
    }
}

impl View for Request {
    type V = RequestView;

    closed spec fn view(&self) -> RequestView {
        RequestView {
            path: self.path@,
            original_path: self.original_path@,
            method: self.method@,
            request_headers: entries_view(self.request_headers@),
            response_headers: entries_view(self.response_headers@),
            body: match self.body {
                Some(b) => Some(b@),
                None => None,
            },
            cookie_key: self.cookie_key@,
        }
    }
}

/// A request for `path` with the given method, headers and body, and no
/// response headers yet; the path still to be routed is the whole path.
pub fn new(
    path: String,
    method: Method,
    headers: Vec<(String, String)>,
    body: Option<String>,
    cookie_key: &[u8],
) -> (r: Request)
    ensures
        r@.path == path@,
        r@.original_path == path@,
        r@.method == method@,
        r@.request_headers == entries_view(headers@),
        r@.response_headers == Seq::<(Seq<char>, Seq<char>)>::empty(),
        r@.body == match body {
            Some(b) => Some(b@),
            None => None::<Seq<char>>,
        },
        r@.cookie_key == cookie_key@,
{
    let routed = path.clone();
    let mut key: Vec<u8> = Vec::new();
    push_bytes(&mut key, cookie_key);
    let r = Request {
        path: routed,
        original_path: path,
        method,
        request_headers: headers,
        response_headers: Vec::new(),
        body,
        cookie_key: key,
    };
    r
}

/// The response headers that the handlers set, in the order they were first set.
pub fn deconstruct(req: Request) -> (headers: Vec<(String, String)>)
    ensures
        entries_view(headers@) == req@.response_headers,
{
    req.response_headers
}

impl Request {
    /// The part of the path that is still to be routed.
    pub fn get_path(&self) -> (p: &str)
        ensures
            p@ == self@.path,
    {
        self.path.as_str()
    }

    /// Sets the part of the path that is still to be routed.
    pub fn set_path(&mut self, path: &str)
        ensures
            final(self)@ == old(self)@.with_path(path@),
    {
        self.path = path.to_owned();
    }

    /// The path of the request as it arrived.
    pub fn get_original_path(&self) -> (p: String)
        ensures
            p@ == self@.original_path,
    {
        self.original_path.clone()
    }

    pub fn get_method(&self) -> (m: &Method)
        ensures
            m@ == self@.method,
    {
        &self.method
    }

    /// The text of the request body, where it could be read.
    pub fn get_body(&self) -> (b: Option<&str>)
        ensures
            match b {
                Some(t) => self@.body == Some(t@),
                None => self@.body is None,
            },
    {
        match &self.body {
            Some(b) => Some(b.as_str()),
            None => None,
        }
    }

    /// Answers the request with `status` and the bytes that `body` writes.
    pub fn send<D, E, T: Body>(&mut self, status: StatusCode, body: T) -> (r: HandlerResult<D, E>)
        ensures
            final(self)@ == old(self)@,
            exists|out: Seq<u8>|
                #[trigger] body.writes(out) && match r {
                    Ok(Action::Done((s, bytes))) => s == status && bytes@ == out,
                    _ => false,
                },
    {
        let mut bytes: Vec<u8> = Vec::new();
        body.write_to(&mut bytes);
        Ok(Action::Done((status, bytes)))
    }

    /// The value of the request header `name` (names compared without ASCII case).
    pub fn get_request_header(&self, name: &str) -> (v: Option<&String>)
        ensures
            match v {
                Some(s) => header_get(self@.request_headers, name@) == Some(s@),
                None => header_get(self@.request_headers, name@) is None,
            },
    {
        get_header(&self.request_headers, name)
    }

    /// Sets the response header `name` to `value`, replacing any earlier value.
    pub fn set_response_header(&mut self, name: &str, value: String)
        ensures
            final(self)@ == old(self)@.with_response_header(name@, value@),
    {
        set_header(&mut self.response_headers, name, value);
    }

    /// Hands the request on with `data`.
    pub fn next<D, E>(&self, data: D) -> (r: HandlerResult<D, E>)
        ensures
            r == Ok::<Action<D>, E>(Action::Next(data)),
    {
        Ok(Action::Next(data))
    }

    /// Fails with `err`.
    pub fn error<D, E>(&self, err: E) -> (r: HandlerResult<D, E>)
        ensures
            r == Err::<Action<D>, E>(err),
    {
        Err(err)
    }
}

} // verus!
