# webroute

A small web framework: requests are routed through handlers that are composed
into routes, and a server answers each request with what the route decided.

`src/` is the library, verified with Verus:

- `request` — the request being handled (path still to route, method, headers,
  body) and the response headers that handlers set.
- `handler` — the handler traits and their outcome (`Action`, `HandlerResult`).
  Each trait carries a relation that its implementations promise between the
  request before and after a call and the outcome.
- `route` — composing handlers (`using`, `catch`, `path`, `route`, `param`,
  `root`, `method` and its shortcuts, `cors`), splitting a path into its next
  segment, and the sub-route tables that dispatch by method and by segment.
- `header` — header names compared without ASCII case, header tables, and the
  list headers used by CORS.
- `body`, `status_code`, `method` — response bodies as bytes, statuses, methods.
- `server` — the response for an outcome, the request handler a server runs,
  and the server's state.

`app/` holds the HTTP side: it reads hyper requests into the library's
`Request`, runs the library's handler, and writes the status, headers and body
back; it also starts and stops hyper listeners and decodes JSON bodies.
