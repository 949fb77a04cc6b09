//! Status codes and responses.

use vstd::prelude::*;

verus! {

/// An HTTP status code: a number from 100 to 999.
#[derive(Clone, Copy, Debug)]
pub struct StatusCode {
    code: u16,
}

impl View for StatusCode {
    type V = u16;

    closed spec fn view(&self) -> u16 {
        self.code
    }
}

impl StatusCode {
    #[verifier::type_invariant]
    closed spec fn inv(&self) -> bool {
        100 <= self.code <= 999
    }

    /// The status code `code`, where it lies from 100 to 999.
    pub fn from_u16(code: u16) -> (res: Option<StatusCode>)
        ensures
            res is Some <==> 100 <= code <= 999,
            res matches Some(s) ==> s@ == code,
    {
        if 100 <= code && code <= 999 {
            Some(StatusCode { code })
        } else {
            None
        }
    }

    /// The code as a number.
    pub fn as_u16(&self) -> (res: u16)
        ensures
            res == self@,
            100 <= res <= 999,
    {
        proof {
            use_type_invariant(self);
        }
        self.code
    }

    /// 200 OK.
    pub fn ok() -> (res: StatusCode)
        ensures
            res@ == 200,
    {
        StatusCode { code: 200 }
    }

    /// 201 Created.
    pub fn created() -> (res: StatusCode)
        ensures
            res@ == 201,
    {
        StatusCode { code: 201 }
    }

    /// 400 Bad Request.
    pub fn bad_request() -> (res: StatusCode)
        ensures
            res@ == 400,
    {
        StatusCode { code: 400 }
    }

    /// 404 Not Found.
    pub fn not_found() -> (res: StatusCode)
        ensures
            res@ == 404,
    {
        StatusCode { code: 404 }
    }

    /// 422 Unprocessable Entity.
    pub fn unprocessable_entity() -> (res: StatusCode)
        ensures
            res@ == 422,
    {
        StatusCode { code: 422 }
    }
}

/// An HTTP response: a status code, a `Content-Type` and a text body.
pub struct Response {
    pub status: StatusCode,
    pub content_type: String,
    pub body: String,
}

/// `r` has status `status`, content type `content_type` and body `body`.
pub open spec fn response_is(r: Response, status: u16, content_type: Seq<char>, body: Seq<char>) -> bool {
    &&& r.status@ == status
    &&& r.content_type@ == content_type
    &&& r.body@ == body
}

/// The content type of plain-text bodies.
pub open spec fn text_plain() -> Seq<char> {
    "text/plain; charset=utf-8"@
}

/// The content type of JSON bodies.
pub open spec fn application_json() -> Seq<char> {
    "application/json; charset=utf-8"@
}

/// The content type of HTML bodies.
pub open spec fn text_html() -> Seq<char> {
    "text/html; charset=utf-8"@
}

/// A response with status `status`, content type `content_type` and body `body`.
pub fn build_response(status: StatusCode, content_type: &str, body: &str) -> (res: Response)
    ensures
        response_is(res, status@, content_type@, body@),
{
    Response { status, content_type: content_type.to_owned(), body: body.to_owned() }
}

/// The answer to a request that no route takes: 404, plain text,
/// "404 Not Found".
pub fn not_found() -> (res: Response)
    ensures
        response_is(res, 404, "text/plain"@, "404 Not Found"@),
{
    build_response(StatusCode::not_found(), "text/plain", "404 Not Found")
}

} // verus!
