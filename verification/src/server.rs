use vstd::prelude::*;
use vstd::utf8::encode_utf8;
use crate::body::push_bytes;
use crate::handler::{Action, Handler, HandlerResult};
use crate::request::Request;
use crate::status_code::StatusCode;

verus! {

/// The response that ends the handling of a request with outcome `res`: a
/// request that no handler answered is not found, a failed one is an internal
/// error, and an answer is sent as it is.
pub open spec fn response_for<D, E>(res: HandlerResult<D, E>, status: StatusCode, body: Seq<u8>) -> bool {
    match res {
        Ok(Action::Next(_)) => status.code == 404 && body == encode_utf8("404 - Not Found"@),
        Ok(Action::Done((s, b))) => status == s && body == b@,
        Err(_) => status.code == 500 && body == encode_utf8("500 - Internal Server Error"@),
    }
}

/// The status and body bytes of the response for the outcome `res`.
pub fn respond<D, E>(res: HandlerResult<D, E>) -> (r: (StatusCode, Vec<u8>))
    ensures
        response_for(res, r.0, r.1@),
{
    match res {
        Ok(Action::Next(_)) => {
            let mut body: Vec<u8> = Vec::new();
            push_bytes(&mut body, "404 - Not Found".as_bytes());
            (StatusCode::not_found(), body)
        },
        Ok(Action::Done(data)) => data,
        Err(_) => {
            let mut body: Vec<u8> = Vec::new();
            push_bytes(&mut body, "500 - Internal Server Error".as_bytes());
            (StatusCode::internal_server_error(), body)
        },
    }
}

/// Serves each request with `handler`, starting from no data.
pub struct HyperHandler<H> {
    handler: H,
    cookie_key: Vec<u8>,
}

impl<H> HyperHandler<H> {
    pub closed spec fn handler(&self) -> H {
        self.handler
    }

    /// The key for signed cookies that requests are given.
    pub closed spec fn cookie_key(&self) -> Seq<u8> {
        self.cookie_key@
    }

    /// Serves with `handler`, with a copy of `cookie_key`.
    pub fn new(handler: H, cookie_key: &[u8]) -> (r: HyperHandler<H>)
        ensures
            r.handler() == handler,
            r.cookie_key() == cookie_key@,
    {
        let mut key: Vec<u8> = Vec::new();
        push_bytes(&mut key, cookie_key);
        HyperHandler { handler, cookie_key: key }
    }

    pub fn get_cookie_key(&self) -> (k: &[u8])
        ensures
            k@ == self.cookie_key(),
    {
        self.cookie_key.as_slice()
    }

    /// Runs the handler on `req` and gives the status and body bytes to answer with.
    pub fn handle<D2, E>(&self, req: &mut Request) -> (r: (StatusCode, Vec<u8>))
        where
            H: Handler<(), D2, E>,
        ensures
            exists|res: HandlerResult<D2, E>|
                #[trigger] self.handler().handles(old(req)@, (), final(req)@, res) && response_for(
                    res,
                    r.0,
                    r.1@,
                ),
    {
        let ghost before = req@;
        let res = self.handler.handle(req, ());
        let ghost g = res;
        let r = respond(res);
        assert(self.handler().handles(before, (), req@, g));
        r
    }
}

/// The state of a server: whether it is listening, the key for signed cookies,
/// and whether it serves over TLS.
pub struct Server {
    running: bool,
    cookie_key: Vec<u8>,
    tls: bool,
}

impl Server {
    pub closed spec fn running(&self) -> bool {
        self.running
    }

    pub closed spec fn cookie_key(&self) -> Seq<u8> {
        self.cookie_key@
    }

    pub closed spec fn tls(&self) -> bool {
        self.tls
    }

    /// A plain HTTP server that is not listening yet, with the cookie key `[0]`.
    pub fn http() -> (s: Server)
        ensures
            !s.running(),
            s.cookie_key() == seq![0u8],
            !s.tls(),
    {
        let s = Server { running: false, cookie_key: vec![0u8], tls: false };
        s
    }

    /// An HTTPS server that is not listening yet, with the cookie key `[0]`.
    pub fn https() -> (s: Server)
        ensures
            !s.running(),
            s.cookie_key() == seq![0u8],
            s.tls(),
    {
        let s = Server { running: false, cookie_key: vec![0u8], tls: true };
        s
    }

    pub fn set_cookie_key(&mut self, key: &[u8])
        ensures
            final(self).cookie_key() == key@,
            final(self).running() == old(self).running(),
            final(self).tls() == old(self).tls(),
    {
        let mut k: Vec<u8> = Vec::new();
        push_bytes(&mut k, key);
        self.cookie_key = k;
    }

    pub fn get_cookie_key(&self) -> (k: &[u8])
        ensures
            k@ == self.cookie_key(),
    {
        self.cookie_key.as_slice()
    }

    pub fn is_running(&self) -> (b: bool)
        ensures
            b == self.running(),
    {
        self.running
    }

    pub fn uses_tls(&self) -> (b: bool)
        ensures
            b == self.tls(),
    {
        self.tls
    }

    /// Marks the server as listening and gives the handler that serves its
    /// requests, with a copy of the cookie key.
    pub fn start<H>(&mut self, handler: H) -> (h: HyperHandler<H>)
        ensures
            final(self).running(),
            final(self).cookie_key() == old(self).cookie_key(),
            final(self).tls() == old(self).tls(),
            h.handler() == handler,
            h.cookie_key() == old(self).cookie_key(),
    {
        let h = HyperHandler::new(handler, self.cookie_key.as_slice());
        self.running = true;
        h
    }

    /// Marks the server as no longer listening.
    pub fn stop(&mut self)
        ensures
            !final(self).running(),
            final(self).cookie_key() == old(self).cookie_key(),
            final(self).tls() == old(self).tls(),
    {
        self.running = false;
    }
}

} // verus!
