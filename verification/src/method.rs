//! HTTP request methods.

use vstd::prelude::*;

verus! {

/// An HTTP request method: one of the standard ones, or an extension
/// method carried by its name.
#[allow(non_camel_case_types)]
#[derive(Debug)]
pub enum Method {
    GET,
    POST,
    PUT,
    DELETE,
    HEAD,
    OPTIONS,
    CONNECT,
    PATCH,
    TRACE,
    Extension(String),
}

impl View for Method {
    type V = Seq<char>;

    /// A method is known by its name, as it stands in a request line.
    open spec fn view(&self) -> Seq<char> {
        match self {
            Method::GET => "GET"@,
            Method::POST => "POST"@,
            Method::PUT => "PUT"@,
            Method::DELETE => "DELETE"@,
            Method::HEAD => "HEAD"@,
            Method::OPTIONS => "OPTIONS"@,
            Method::CONNECT => "CONNECT"@,
            Method::PATCH => "PATCH"@,
            Method::TRACE => "TRACE"@,
            Method::Extension(name) => name@,
        }
    }
}

/// `m` is one of the standard methods (not an extension method).
pub open spec fn is_standard(m: Method) -> bool {
    !(m is Extension)
}

/// Each standard method is known by its own name in the request line, and
/// no two standard methods share a name: requests are told apart by
/// method exactly as their request lines tell them apart.
pub proof fn lemma_method_names(a: Method, b: Method)
    ensures
        Method::GET@ == "GET"@,
        Method::POST@ == "POST"@,
        Method::PUT@ == "PUT"@,
        Method::DELETE@ == "DELETE"@,
        Method::HEAD@ == "HEAD"@,
        Method::OPTIONS@ == "OPTIONS"@,
        Method::CONNECT@ == "CONNECT"@,
        Method::PATCH@ == "PATCH"@,
        Method::TRACE@ == "TRACE"@,
        is_standard(a) && is_standard(b) ==> (a@ == b@ <==> a == b),
{
    reveal_strlit("GET");
    reveal_strlit("POST");
    reveal_strlit("PUT");
    reveal_strlit("DELETE");
    reveal_strlit("HEAD");
    reveal_strlit("OPTIONS");
    reveal_strlit("CONNECT");
    reveal_strlit("PATCH");
    reveal_strlit("TRACE");
    if is_standard(a) && is_standard(b) && a@ == b@ {
        assert(a@.len() == b@.len());
        assert(a@[0] == b@[0]);
        if a@.len() > 1 {
            assert(a@[1] == b@[1]);
        }
    }
}

impl Method {
    /// The method's name.
    pub fn name(&self) -> (res: String)
        ensures
            res@ == self@,
    {
        match self {
            Method::GET => "GET".to_owned(),
            Method::POST => "POST".to_owned(),
            Method::PUT => "PUT".to_owned(),
            Method::DELETE => "DELETE".to_owned(),
            Method::HEAD => "HEAD".to_owned(),
            Method::OPTIONS => "OPTIONS".to_owned(),
            Method::CONNECT => "CONNECT".to_owned(),
            Method::PATCH => "PATCH".to_owned(),
            Method::TRACE => "TRACE".to_owned(),
            Method::Extension(name) => name.clone(),
        }
    }

    /// Whether `self` and `other` are the same method.
    pub fn same_as(&self, other: &Method) -> (res: bool)
        ensures
            res == (self@ == other@),
    {
        self.name() == other.name()
    }

    /// The method called `name`: a standard one where `name` is a standard
    /// method's name, an extension method otherwise.
    pub fn from_name(name: &str) -> (res: Method)
        ensures
            res@ == name@,
    {
        let n = name.to_owned();
        if n == "GET".to_owned() {
            Method::GET
        } else if n == "POST".to_owned() {
            Method::POST
        } else if n == "PUT".to_owned() {
            Method::PUT
        } else if n == "DELETE".to_owned() {
            Method::DELETE
        } else if n == "HEAD".to_owned() {
            Method::HEAD
        } else if n == "OPTIONS".to_owned() {
            Method::OPTIONS
        } else if n == "CONNECT".to_owned() {
            Method::CONNECT
        } else if n == "PATCH".to_owned() {
            Method::PATCH
        } else if n == "TRACE".to_owned() {
            Method::TRACE
        } else {
            Method::Extension(n)
        }
    }
}

} // verus!
