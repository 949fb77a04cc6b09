//! The request context handed to every handler, and the response helpers
//! it offers.

use vstd::prelude::*;

use crate::method::Method;
use crate::response::{
    application_json, build_response, response_is, text_html, text_plain, Response, StatusCode,
};

verus! {

/// A type that can be extracted from a request (see [`Context::bind`]).
pub trait FromRequest: Sized {
    /// Extracts `Self` from the request, or answers with an error response.
    fn from_request(ctx: &Context) -> Result<Self, Response>;
}

/// The incoming request, its body already read, with helpers for building
/// responses.
pub struct Context {
    pub method: Method,
    /// The request path.
    pub path: String,
    /// The query string (what follows `?` in the request target), if any.
    pub query: Option<String>,
    /// The request headers, in order, names in lower case.
    pub headers: Vec<(String, Vec<u8>)>,
    /// The request body, read in full.
    pub body: Vec<u8>,
}

/// The query string of `ctx`, empty when the request target has none.
pub open spec fn query_of(ctx: &Context) -> Seq<char> {
    match ctx.query {
        Some(q) => q@,
        None => Seq::empty(),
    }
}

/// The raw query string is the request's query as it came, whatever the
/// method, path, headers or body: present, it is that text; absent, it is
/// empty. Two requests with the same query have the same query string.
pub proof fn lemma_query_of(ctx: &Context, other: &Context)
    ensures
        ctx.query matches Some(q) ==> query_of(ctx) == q@,
        ctx.query is None ==> query_of(ctx) == Seq::<char>::empty(),
        ctx.query == other.query ==> query_of(ctx) == query_of(other),
{
}

impl Context {
    /// A context for a request with the given parts and body.
    pub fn new(
        method: Method,
        path: String,
        query: Option<String>,
        headers: Vec<(String, Vec<u8>)>,
        body: Vec<u8>,
    ) -> (res: Context)
        ensures
            res.method == method,
            res.path == path,
            res.query == query,
            res.headers == headers,
            res.body == body,
    {
        Context { method, path, query, headers, body }
    }

    /// Responds with a plain-text body (status 200).
    pub fn string(self, body: &str) -> (res: Response)
        ensures
            response_is(res, 200, text_plain(), body@),
    {
        build_response(StatusCode::ok(), "text/plain; charset=utf-8", body)
    }

    /// Responds with a JSON body (status 200).
    pub fn json(self, body: &str) -> (res: Response)
        ensures
            response_is(res, 200, application_json(), body@),
    {
        build_response(StatusCode::ok(), "application/json; charset=utf-8", body)
    }

    /// Responds with an HTML body (status 200).
    pub fn html(self, body: &str) -> (res: Response)
        ensures
            response_is(res, 200, text_html(), body@),
    {
        build_response(StatusCode::ok(), "text/html; charset=utf-8", body)
    }

    /// The request path.
    pub fn path(&self) -> (res: &str)
        ensures
            res@ == self.path@,
    {
        self.path.as_str()
    }

    /// The request method.
    pub fn method(&self) -> (res: &Method)
        ensures
            res == &self.method,
    {
        &self.method
    }

    /// The request body bytes.
    pub fn body(&self) -> (res: &[u8])
        ensures
            res@ == self.body@,
    {
        self.body.as_slice()
    }

    /// The raw query string (the part after `?` in the request target),
    /// empty when there is none.
    pub fn query_string(&self) -> (res: &str)
        ensures
            res@ == query_of(self),
    {
        match &self.query {
            Some(q) => q.as_str(),
            None => {
                proof {
                    reveal_strlit("");
                }
                ""
            },
        }
    }

    /// Extracts a `T` from the request through its [`FromRequest`] impl.
    pub fn bind<T: FromRequest>(&self) -> (res: Result<T, Response>)
        ensures
            call_ensures(T::from_request, (self,), res),
    {
        T::from_request(self)
    }

    /// Starts a response with the status `code`.
    pub fn status(self, code: StatusCode) -> (res: StatusResponder)
        ensures
            res.code() == code@,
    {
        StatusResponder { code }
    }
}

/// A response under construction with a chosen status code.
pub struct StatusResponder {
    code: StatusCode,
}

impl StatusResponder {
    /// The chosen status code.
    pub closed spec fn code(&self) -> u16 {
        self.code@
    }

    /// Responds with a plain-text body and the chosen status.
    pub fn string(self, body: &str) -> (res: Response)
        ensures
            response_is(res, self.code(), text_plain(), body@),
    {
        build_response(self.code, "text/plain; charset=utf-8", body)
    }

    /// Responds with a JSON body and the chosen status.
    pub fn json(self, body: &str) -> (res: Response)
        ensures
            response_is(res, self.code(), application_json(), body@),
    {
        build_response(self.code, "application/json; charset=utf-8", body)
    }

    /// Responds with an HTML body and the chosen status.
    pub fn html(self, body: &str) -> (res: Response)
        ensures
            response_is(res, self.code(), text_html(), body@),
    {
        build_response(self.code, "text/html; charset=utf-8", body)
    }
}

} // verus!
