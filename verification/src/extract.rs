//! Request extraction: the pieces behind `Context::bind` — error
//! responses, the JSON body and the decoded query string.

use vstd::prelude::*;
use vstd::string::StringExecFns;

use crate::context::{query_of, Context};
use crate::query::{parse_query_str, parsed_query, QueryMap};
use crate::report::{errors_to_json, report_errors, report_json};
use crate::text::utf8_text;
use vstd::utf8::{decode_utf8, valid_utf8};
use crate::response::{application_json, build_response, response_is, text_plain, Response, StatusCode};

verus! {

#[verifier::external_type_specification]
#[verifier::external_body]
pub struct ExValue(serde_json::Value);

/// What `serde_json::from_slice::<serde_json::Value>` makes of `bytes`:
/// the value it parses, or else the display text of its error.
pub uninterp spec fn json_parsed(bytes: Seq<u8>) -> Result<serde_json::Value, Seq<char>>;

/// Parses `bytes` as a JSON value with `serde_json::from_slice`, handing
/// out a failure as the error's display text.
#[verifier::external_body]
fn json_from_slice(bytes: &[u8]) -> (res: Result<serde_json::Value, String>)
    ensures
        match res {
            Ok(v) => json_parsed(bytes@) == Ok::<serde_json::Value, Seq<char>>(v),
            Err(m) => json_parsed(bytes@) == Err::<serde_json::Value, Seq<char>>(m@),
        },
{
    match serde_json::from_slice::<serde_json::Value>(bytes) {
        Ok(v) => Ok(v),
        Err(e) => Err(e.to_string()),
    }
}

/// A `400 Bad Request` plain-text response with body `msg`.
pub fn bad_request(msg: &str) -> (res: Response)
    ensures
        response_is(res, 400, text_plain(), msg@),
{
    build_response(StatusCode::bad_request(), "text/plain; charset=utf-8", msg)
}

/// A `422 Unprocessable Entity` JSON response listing the errors of `report`.
pub fn validation_error(report: &garde::Report) -> (res: Response)
    ensures
        response_is(res, 422, application_json(), report_json(report_errors(*report))),
{
    let body = errors_to_json(report);
    build_response(StatusCode::unprocessable_entity(), "application/json; charset=utf-8", body.as_str())
}

/// The outcome of reading a request body as JSON, given what the JSON
/// parser made of it: the value, or a `400` naming the parser's error.
pub fn json_body_outcome(parsed: Result<serde_json::Value, String>) -> (res: Result<serde_json::Value, Response>)
    ensures
        match parsed {
            Ok(v) => res == Ok::<serde_json::Value, Response>(v),
            Err(m) => res matches Err(r) && response_is(r, 400, text_plain(), "invalid JSON body: "@ + m@),
        },
{
    match parsed {
        Ok(v) => Ok(v),
        Err(m) => {
            let mut msg = String::from_str("invalid JSON body: ");
            msg.append(m.as_str());
            Err(bad_request(msg.as_str()))
        },
    }
}

/// Parses the request body as a JSON value; a body that is no JSON is
/// answered with `400 Bad Request` and the text "invalid JSON body: "
/// followed by the parser's error.
pub fn parse_body_json(ctx: &Context) -> (res: Result<serde_json::Value, Response>)
    ensures
        match json_parsed(ctx.body@) {
            Ok(v) => res == Ok::<serde_json::Value, Response>(v),
            Err(m) => res matches Err(r) && response_is(r, 400, text_plain(), "invalid JSON body: "@ + m),
        },
{
    let bytes = ctx.body();
    json_body_outcome(json_from_slice(bytes))
}

/// Reads the request body as a URL-encoded form: its UTF-8 text parsed as
/// a query string is; a body that is no UTF-8 is answered with
/// `400 Bad Request` and the text "invalid form body".
pub fn parse_form(ctx: &Context) -> (res: Result<QueryMap, Response>)
    ensures
        match res {
            Ok(m) => valid_utf8(ctx.body@) && m@ == parsed_query(decode_utf8(ctx.body@)),
            Err(r) => !valid_utf8(ctx.body@) && response_is(r, 400, text_plain(), "invalid form body"@),
        },
{
    match utf8_text(ctx.body()) {
        Some(text) => Ok(parse_query_str(text)),
        None => Err(bad_request("invalid form body")),
    }
}

/// The request's query string as decoded key/value pairs.
pub fn parse_query(ctx: &Context) -> (res: QueryMap)
    ensures
        res@ == parsed_query(query_of(ctx)),
{
    parse_query_str(ctx.query_string())
}

} // verus!
