# zenix

A small HTTP framework in the style of Go Fiber, with its core verified by
Verus.

- `src/` is the verified library: the request `Context` and its response
  helpers (`string`, `json`, `html`, `status(..)`), status codes and
  responses, methods, the route table `Server<H>` (exact method-and-path
  matching, 404 otherwise), percent-decoding and query-string parsing,
  request binding (field sources, the JSON body, URL-encoded form bodies,
  query values, the order in which a request's sources are read, and their
  error responses), and `garde` validation reports as JSON (messages
  grouped by field, fields in code-point order, written by `serde_json`).
- `app/` is the network side: the hyper/tokio server loop, sync and async
  handler plumbing, and the conversions between hyper's types and the
  library's.
- `tests/` exercises the library on concrete values.
