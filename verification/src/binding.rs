//! Binding request data to the fields of a struct: where each field is
//! read from (its `#[zenix(from = "...")]` annotation), and the values and
//! error responses that extraction works with.

use vstd::prelude::*;
use vstd::string::StringExecFns;

use crate::context::{query_of, Context};
use crate::extract::{bad_request, json_parsed, parse_body_json, parse_form, parse_query};
use crate::query::parsed_query;
use vstd::utf8::{decode_utf8, valid_utf8};
use crate::query::QueryMap;
use crate::response::{response_is, text_plain, Response};

verus! {

/// Where a field's value is read from.
#[derive(Clone, Copy, Debug, PartialEq, Eq, Structural)]
pub enum FieldSource {
    /// The JSON request body.
    Body,
    /// The URL query string.
    Query,
    /// A URL-encoded form body.
    Form,
}

/// The characters of an optional annotation.
pub open spec fn annotation_view(a: Option<&str>) -> Option<Seq<char>> {
    match a {
        Some(s) => Some(s@),
        None => None,
    }
}

/// The source that an annotation names: `body` the JSON body, `query` the
/// query string, `form` a URL-encoded form body, no annotation the JSON
/// body; any other name none.
pub open spec fn source_named(a: Option<Seq<char>>) -> Option<FieldSource> {
    match a {
        None => Some(FieldSource::Body),
        Some(s) => if s == "body"@ {
            Some(FieldSource::Body)
        } else if s == "query"@ {
            Some(FieldSource::Query)
        } else if s == "form"@ {
            Some(FieldSource::Form)
        } else {
            None
        },
    }
}

/// The message for an annotation naming the unsupported source `s`.
pub open spec fn unsupported_message(s: Seq<char>) -> Seq<char> {
    "unsupported `#[zenix(from = \""@ + s + "\")]` — use body, query, or form"@
}

/// The message for a struct with no field to bind.
pub open spec fn no_fields_message() -> Seq<char> {
    "#[derive(FromRequest)] requires at least one field with a source annotation"@
}

/// Reads a field's annotation.
pub fn field_source(annotation: Option<&str>) -> (res: Result<FieldSource, String>)
    ensures
        match res {
            Ok(src) => source_named(annotation_view(annotation)) == Some(src),
            Err(m) => {
                &&& source_named(annotation_view(annotation)) is None
                &&& annotation matches Some(s) && m@ == unsupported_message(s@)
            },
        },
{
    match annotation {
        None => Ok(FieldSource::Body),
        Some(s) => {
            let name = s.to_owned();
            if name == "body".to_owned() {
                Ok(FieldSource::Body)
            } else if name == "query".to_owned() {
                Ok(FieldSource::Query)
            } else if name == "form".to_owned() {
                Ok(FieldSource::Form)
            } else {
                let mut m = String::from_str("unsupported `#[zenix(from = \"");
                m.append(s);
                m.append("\")]` — use body, query, or form");
                Err(m)
            }
        },
    }
}

/// The fields of a struct (name, annotation) as character sequences.
pub open spec fn fields_view(f: Seq<(String, Option<String>)>) -> Seq<(Seq<char>, Option<Seq<char>>)> {
    f.map_values(
        |x: (String, Option<String>)|
            (
                x.0@,
                match x.1 {
                    Some(a) => Some(a@),
                    None => None,
                },
            ),
    )
}

/// The names of the fields of `f` read from `src`, in order.
pub open spec fn fields_from(f: Seq<(Seq<char>, Option<Seq<char>>)>, src: FieldSource) -> Seq<Seq<char>>
    decreases f.len(),
{
    if f.len() == 0 {
        Seq::empty()
    } else if source_named(f.last().1) == Some(src) {
        fields_from(f.drop_last(), src).push(f.last().0)
    } else {
        fields_from(f.drop_last(), src)
    }
}

/// The name of a field when it is read from `src`, nothing otherwise.
pub open spec fn name_if_from(src: FieldSource) -> spec_fn((Seq<char>, Option<Seq<char>>)) -> Option<Seq<char>> {
    |x: (Seq<char>, Option<Seq<char>>)| if source_named(x.1) == Some(src) {
        Some(x.0)
    } else {
        None
    }
}

/// The fields bound from a source are exactly the fields whose annotation
/// names that source, every one of them, in the order the struct declares
/// them: the list is `f` filtered by source, and each such field is in it.
pub proof fn lemma_fields_from(f: Seq<(Seq<char>, Option<Seq<char>>)>, src: FieldSource)
    ensures
        fields_from(f, src) == f.filter_map(name_if_from(src)),
        forall|i: int|
            0 <= i < f.len() && source_named(f[i].1) == Some(src) ==> fields_from(f, src).contains(
                f[i].0,
            ),
    decreases f.len(),
{
    if f.len() > 0 {
        let g = f.drop_last();
        lemma_fields_from(g, src);
        assert(fields_from(f, src) =~= f.filter_map(name_if_from(src)));
        assert forall|i: int|
            0 <= i < f.len() && source_named(f[i].1) == Some(src) implies fields_from(f, src).contains(
            f[i].0,
        ) by {
            if i == f.len() - 1 {
                assert(fields_from(f, src).last() == f[i].0);
            } else {
                assert(g[i] == f[i]);
                let j = choose|j: int| 0 <= j < fields_from(g, src).len() && fields_from(g, src)[j] == f[i].0;
                assert(fields_from(f, src)[j] == f[i].0);
            }
        }
    }
}

/// The annotation of the first field of `f` that names no supported source.
pub open spec fn first_unsupported(f: Seq<(Seq<char>, Option<Seq<char>>)>) -> Option<Seq<char>>
    decreases f.len(),
{
    if f.len() == 0 {
        None
    } else {
        let r = first_unsupported(f.drop_last());
        if r is Some {
            r
        } else if source_named(f.last().1) is None {
            f.last().1
        } else {
            None
        }
    }
}

/// Which fields of a struct are bound from the body and which from the
/// query string.
pub struct BindingPlan {
    pub body_fields: Vec<String>,
    pub query_fields: Vec<String>,
    pub form_fields: Vec<String>,
}

/// The characters of each string of `v`.
pub open spec fn names_view(v: Seq<String>) -> Seq<Seq<char>> {
    v.map_values(|s: String| s@)
}

/// Sorts the fields `fields` (name, annotation) by where they are bound
/// from. Refused: a field whose annotation names no supported source (the
/// first such), and a struct without fields.
pub fn plan_bindings(fields: &Vec<(String, Option<String>)>) -> (res: Result<BindingPlan, String>)
    ensures
        match res {
            Ok(plan) => {
                &&& first_unsupported(fields_view(fields@)) is None
                &&& fields@.len() > 0
                &&& names_view(plan.body_fields@) == fields_from(fields_view(fields@), FieldSource::Body)
                &&& names_view(plan.query_fields@) == fields_from(fields_view(fields@), FieldSource::Query)
                &&& names_view(plan.form_fields@) == fields_from(fields_view(fields@), FieldSource::Form)
            },
            Err(m) => match first_unsupported(fields_view(fields@)) {
                Some(s) => m@ == unsupported_message(s),
                None => fields@.len() == 0 && m@ == no_fields_message(),
            },
        },
{
    let ghost fv = fields_view(fields@);
    let mut body_fields: Vec<String> = Vec::new();
    let mut query_fields: Vec<String> = Vec::new();
    let mut form_fields: Vec<String> = Vec::new();
    let mut i: usize = 0;
    assert(fv.take(0) =~= Seq::<(Seq<char>, Option<Seq<char>>)>::empty());
    assert(names_view(body_fields@) =~= Seq::<Seq<char>>::empty());
    assert(names_view(query_fields@) =~= Seq::<Seq<char>>::empty());
    assert(names_view(form_fields@) =~= Seq::<Seq<char>>::empty());
    while i < fields.len()
        invariant
            i <= fields.len(),
            fv == fields_view(fields@),
            first_unsupported(fv.take(i as int)) is None,
            names_view(body_fields@) == fields_from(fv.take(i as int), FieldSource::Body),
            names_view(query_fields@) == fields_from(fv.take(i as int), FieldSource::Query),
            names_view(form_fields@) == fields_from(fv.take(i as int), FieldSource::Form),
        decreases fields.len() - i,
    {
        let ghost pre = fv.take(i as int);
        assert(fv.take(i + 1).drop_last() == pre);
        assert(fv.take(i + 1).last() == fv[i as int]);
        let annotation: Option<&str> = match &fields[i].1 {
            Some(a) => Some(a.as_str()),
            None => None,
        };
        assert(annotation_view(annotation) == fv[i as int].1);
        match field_source(annotation) {
            Ok(FieldSource::Body) => {
                body_fields.push(fields[i].0.clone());
                assert(names_view(body_fields@) =~= fields_from(fv.take(i + 1), FieldSource::Body));
            },
            Ok(FieldSource::Query) => {
                query_fields.push(fields[i].0.clone());
                assert(names_view(query_fields@) =~= fields_from(fv.take(i + 1), FieldSource::Query));
            },
            Ok(FieldSource::Form) => {
                form_fields.push(fields[i].0.clone());
                assert(names_view(form_fields@) =~= fields_from(fv.take(i + 1), FieldSource::Form));
            },
            Err(m) => {
                proof {
                    lemma_first_unsupported_prefix(fv, i as int + 1);
                }
                return Err(m);
            },
        }
        i = i + 1;
    }
    assert(fv.take(i as int) == fv);
    if body_fields.len() == 0 && query_fields.len() == 0 && form_fields.len() == 0 {
        proof {
            if fv.len() > 0 {
                lemma_some_field_bound(fv);
            }
        }
        return Err(String::from_str("#[derive(FromRequest)] requires at least one field with a source annotation"));
    }
    Ok(BindingPlan { body_fields, query_fields, form_fields })
}

proof fn lemma_first_unsupported_prefix(f: Seq<(Seq<char>, Option<Seq<char>>)>, n: int)
    requires
        0 <= n <= f.len(),
        first_unsupported(f.take(n)) is Some,
    ensures
        first_unsupported(f) == first_unsupported(f.take(n)),
    decreases f.len() - n,
{
    if n < f.len() {
        assert(f.take(n + 1).drop_last() == f.take(n));
        lemma_first_unsupported_prefix(f, n + 1);
    } else {
        assert(f.take(n) == f);
    }
}

proof fn lemma_some_field_bound(f: Seq<(Seq<char>, Option<Seq<char>>)>)
    requires
        first_unsupported(f) is None,
        f.len() > 0,
    ensures
        fields_from(f, FieldSource::Body).len() > 0 || fields_from(f, FieldSource::Query).len() > 0
            || fields_from(f, FieldSource::Form).len() > 0,
    decreases f.len(),
{
    if first_unsupported(f.drop_last()) is Some {
    } else if f.len() > 1 {
        lemma_some_field_bound(f.drop_last());
    }
}

/// What a request offers the fields of a plan: the parsed JSON body, the
/// parsed form body and the decoded query string, each present when some
/// field is read from it.
pub struct RequestSources {
    pub body: Option<serde_json::Value>,
    pub form: Option<QueryMap>,
    pub query: Option<QueryMap>,
}

/// Reads from the request what the fields of `plan` need, in the order
/// extraction goes: the JSON body when some field is bound from it, then
/// the form body when some field is, then the query string when some field
/// is. The first source that cannot be read answers the request: a body
/// that is no JSON with the "invalid JSON body" `400`, a form body that is
/// no UTF-8 with the "invalid form body" `400`.
pub fn gather_sources(ctx: &Context, plan: &BindingPlan) -> (res: Result<RequestSources, Response>)
    ensures
        match res {
            Ok(src) => {
                &&& plan.body_fields.len() > 0 ==> (json_parsed(ctx.body@) matches Ok(v) && src.body
                    == Some(v))
                &&& plan.body_fields.len() == 0 ==> src.body is None
                &&& plan.form_fields.len() > 0 ==> valid_utf8(ctx.body@) && (src.form matches Some(m)
                    && m@ == parsed_query(decode_utf8(ctx.body@)))
                &&& plan.form_fields.len() == 0 ==> src.form is None
                &&& plan.query_fields.len() > 0 ==> (src.query matches Some(m) && m@ == parsed_query(
                    query_of(ctx),
                ))
                &&& plan.query_fields.len() == 0 ==> src.query is None
            },
            Err(r) => if plan.body_fields.len() > 0 && json_parsed(ctx.body@) is Err {
                json_parsed(ctx.body@) matches Err(m) && response_is(
                    r,
                    400,
                    text_plain(),
                    "invalid JSON body: "@ + m,
                )
            } else {
                &&& plan.form_fields.len() > 0
                &&& !valid_utf8(ctx.body@)
                &&& response_is(r, 400, text_plain(), "invalid form body"@)
            },
        },
{
    let body = if plan.body_fields.len() > 0 {
        match parse_body_json(ctx) {
            Ok(v) => Some(v),
            Err(r) => {
                return Err(r);
            },
        }
    } else {
        None
    };
    let form = if plan.form_fields.len() > 0 {
        match parse_form(ctx) {
            Ok(m) => Some(m),
            Err(r) => {
                return Err(r);
            },
        }
    } else {
        None
    };
    let query = if plan.query_fields.len() > 0 {
        Some(parse_query(ctx))
    } else {
        None
    };
    Ok(RequestSources { body, form, query })
}

/// The value of query parameter `key` as a bound field sees it: the
/// decoded value, or empty text when the query string has no such key.
pub fn query_value(map: &QueryMap, key: &str) -> (res: String)
    ensures
        res@ == if map@.contains_key(key@) {
            map@[key@]
        } else {
            Seq::empty()
        },
{
    match map.get(key) {
        Some(v) => v.clone(),
        None => String::new(),
    }
}

/// The `400` answer when the body field `key` does not hold a value of
/// its type; `err` describes why.
pub fn field_error(key: &str, err: &str) -> (res: Response)
    ensures
        response_is(res, 400, text_plain(), "field `"@ + key@ + "`: "@ + err@),
{
    let mut m = String::from_str("field `");
    m.append(key);
    m.append("`: ");
    m.append(err);
    bad_request(m.as_str())
}

/// The `400` answer when the query parameter `key` does not hold a value
/// of its field's type; `err` describes why.
pub fn query_error(key: &str, err: &str) -> (res: Response)
    ensures
        response_is(res, 400, text_plain(), "query `"@ + key@ + "`: "@ + err@),
{
    let mut m = String::from_str("query `");
    m.append(key);
    m.append("`: ");
    m.append(err);
    bad_request(m.as_str())
}

} // verus!
