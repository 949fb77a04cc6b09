use zenix::extract::{bad_request, json_body_outcome, parse_body_json, parse_form, parse_query};
use zenix::server::listen_address;
use zenix::{Context, Method, Response, Server, StatusCode};

fn ctx(method: Method, path: &str, query: Option<&str>, body: &[u8]) -> Context {
    Context::new(
        method,
        path.to_string(),
        query.map(|q| q.to_string()),
        vec![("content-type".to_string(), b"application/json".to_vec())],
        body.to_vec(),
    )
}

fn parts(r: &Response) -> (u16, String, String) {
    (r.status.as_u16(), r.content_type.clone(), r.body.clone())
}

#[test]
fn context_string_json_html() {
    let r = ctx(Method::GET, "/", None, b"").string("Hello, World!");
    assert_eq!(parts(&r), (200, "text/plain; charset=utf-8".to_string(), "Hello, World!".to_string()));
    let r = ctx(Method::GET, "/", None, b"").json(r#"{"key":"value"}"#);
    assert_eq!(parts(&r), (200, "application/json; charset=utf-8".to_string(), r#"{"key":"value"}"#.to_string()));
    let r = ctx(Method::GET, "/", None, b"").html("<h1>title</h1>");
    assert_eq!(parts(&r), (200, "text/html; charset=utf-8".to_string(), "<h1>title</h1>".to_string()));
}

#[test]
fn context_status_responder() {
    let created = StatusCode::created();
    let r = ctx(Method::POST, "/users", None, b"").status(created).json(r#"{"created":"ok"}"#);
    assert_eq!(parts(&r), (201, "application/json; charset=utf-8".to_string(), r#"{"created":"ok"}"#.to_string()));
    let r = ctx(Method::POST, "/", None, b"").status(StatusCode::unprocessable_entity()).string("no");
    assert_eq!(parts(&r), (422, "text/plain; charset=utf-8".to_string(), "no".to_string()));
    let r = ctx(Method::POST, "/", None, b"").status(StatusCode::not_found()).html("<p>x</p>");
    assert_eq!(parts(&r), (404, "text/html; charset=utf-8".to_string(), "<p>x</p>".to_string()));
}

#[test]
fn context_accessors() {
    let c = ctx(Method::PUT, "/users/7", Some("a=1&b=2"), b"{\"x\":1}");
    assert_eq!(c.path(), "/users/7");
    assert_eq!(c.method().name(), "PUT");
    assert_eq!(c.body(), b"{\"x\":1}");
    assert_eq!(c.query_string(), "a=1&b=2");
    assert_eq!(c.headers.len(), 1);
    let c = ctx(Method::GET, "/", None, b"");
    assert_eq!(c.query_string(), "");
    assert_eq!(c.body(), b"");
}

#[test]
fn status_code_range() {
    assert!(StatusCode::from_u16(99).is_none());
    assert_eq!(StatusCode::from_u16(100).map(|s| s.as_u16()), Some(100));
    assert_eq!(StatusCode::from_u16(999).map(|s| s.as_u16()), Some(999));
    assert!(StatusCode::from_u16(1000).is_none());
    assert_eq!(StatusCode::ok().as_u16(), 200);
    assert_eq!(StatusCode::bad_request().as_u16(), 400);
}

#[test]
fn method_names() {
    assert_eq!(Method::from_name("GET").name(), "GET");
    assert!(matches!(Method::from_name("DELETE"), Method::DELETE));
    assert!(matches!(Method::from_name("PATCH"), Method::PATCH));
    assert!(matches!(Method::from_name("get"), Method::Extension(_)));
    assert_eq!(Method::from_name("PURGE").name(), "PURGE");
    assert!(Method::GET.same_as(&Method::from_name("GET")));
    assert!(!Method::GET.same_as(&Method::POST));
    assert!(Method::Extension("PURGE".to_string()).same_as(&Method::from_name("PURGE")));
}

#[test]
fn server_routes_by_method_and_exact_path() {
    let mut s: Server<u32> = Server::new();
    s.get("/", 1);
    s.post("/users", 2);
    s.put("/users/:id", 3);
    s.delete("/users/:id", 4);
    assert_eq!(s.lookup(&Method::GET, "/"), Some(&1));
    assert_eq!(s.lookup(&Method::POST, "/users"), Some(&2));
    assert_eq!(s.lookup(&Method::PUT, "/users/:id"), Some(&3));
    assert_eq!(s.lookup(&Method::DELETE, "/users/:id"), Some(&4));
    assert_eq!(s.lookup(&Method::GET, "/users"), None);
    assert_eq!(s.lookup(&Method::POST, "/users/"), None);
    assert_eq!(s.lookup(&Method::PUT, "/users/7"), None);
}

#[test]
fn server_later_registration_replaces() {
    let mut s: Server<&str> = Server::default();
    s.get("/a", "first");
    s.get("/a", "second");
    s.post("/a", "post");
    assert_eq!(s.lookup(&Method::GET, "/a"), Some(&"second"));
    assert_eq!(s.lookup(&Method::POST, "/a"), Some(&"post"));
}

#[test]
fn server_resolve_not_found() {
    let mut s: Server<u8> = Server::new();
    s.get("/", 7);
    assert_eq!(s.resolve(&Method::GET, "/").ok(), Some(&7));
    match s.resolve(&Method::HEAD, "/") {
        Ok(_) => panic!("HEAD / is not registered"),
        Err(r) => assert_eq!(parts(&r), (404, "text/plain".to_string(), "404 Not Found".to_string())),
    }
    match s.resolve(&Method::from_name("GET"), "/missing") {
        Ok(_) => panic!("no such route"),
        Err(r) => assert_eq!(r.status.as_u16(), 404),
    }
}

#[test]
fn listen_address_forms() {
    assert_eq!(listen_address(":3000"), "0.0.0.0:3000");
    assert_eq!(listen_address("127.0.0.1:8080"), "127.0.0.1:8080");
    assert_eq!(listen_address(""), "");
    assert_eq!(listen_address(":"), "0.0.0.0:");
}

#[test]
fn bad_request_response() {
    let r = bad_request("nope");
    assert_eq!(parts(&r), (400, "text/plain; charset=utf-8".to_string(), "nope".to_string()));
}

#[test]
fn parse_body_json_valid_and_invalid() {
    let c = ctx(Method::POST, "/", None, br#"{"name":"ann","age":30}"#);
    let v = parse_body_json(&c).ok().expect("valid JSON");
    assert_eq!(v["name"], serde_json::Value::String("ann".to_string()));
    let c = ctx(Method::POST, "/", None, b"{not json");
    match parse_body_json(&c) {
        Ok(_) => panic!("invalid JSON accepted"),
        Err(r) => {
            assert_eq!(r.status.as_u16(), 400);
            assert_eq!(r.content_type, "text/plain; charset=utf-8");
            assert!(r.body.starts_with("invalid JSON body: "));
            assert!(r.body.len() > "invalid JSON body: ".len());
        }
    }
    let c = ctx(Method::POST, "/", None, b"");
    assert!(parse_body_json(&c).is_err());
}

#[test]
fn json_body_outcome_maps_error() {
    match json_body_outcome(Err("EOF while parsing".to_string())) {
        Ok(_) => panic!("error lost"),
        Err(r) => assert_eq!(parts(&r), (400, "text/plain; charset=utf-8".to_string(), "invalid JSON body: EOF while parsing".to_string())),
    }
    let v = serde_json::Value::Bool(true);
    assert_eq!(json_body_outcome(Ok(v)).ok(), Some(serde_json::Value::Bool(true)));
}

#[test]
fn parse_query_from_context() {
    let c = ctx(Method::GET, "/search", Some("q=rust+lang&page=2"), b"");
    let m = parse_query(&c);
    assert_eq!(m.get("q").cloned(), Some("rust lang".to_string()));
    assert_eq!(m.get("page").cloned(), Some("2".to_string()));
    let c = ctx(Method::GET, "/search", None, b"");
    assert_eq!(parse_query(&c).len(), 0);
}

#[test]
fn server_routes_commute() {
    let mut a: Server<u32> = Server::new();
    a.get("/x", 1);
    a.post("/y", 2);
    let mut b: Server<u32> = Server::new();
    b.post("/y", 2);
    b.get("/x", 1);
    for (m, p) in [(Method::GET, "/x"), (Method::POST, "/y"), (Method::GET, "/y")] {
        assert_eq!(a.lookup(&m, p), b.lookup(&m, p));
    }
}

#[test]
fn parse_body_json_gives_the_parsed_value() {
    let raw: &[u8] = br#"{"a":1,"b":[true]}"#;
    let c = ctx(Method::POST, "/", None, raw);
    let expected: serde_json::Value = serde_json::from_slice(raw).unwrap();
    assert_eq!(parse_body_json(&c).ok(), Some(expected));
    let c = ctx(Method::POST, "/", None, b"[]");
    assert_eq!(parse_body_json(&c).ok(), Some(serde_json::Value::Array(Vec::new())));
}

#[test]
fn parse_form_body() {
    let c = ctx(Method::POST, "/login", Some("next=%2F"), b"user=ann+lee&pass=p%40ss");
    let m = parse_form(&c).ok().expect("UTF-8 form");
    assert_eq!(m.get("user").cloned(), Some("ann lee".to_string()));
    assert_eq!(m.get("pass").cloned(), Some("p@ss".to_string()));
    assert_eq!(m.get("next"), None);
    let c = ctx(Method::POST, "/login", None, &[0xff, 0xfe]);
    match parse_form(&c) {
        Ok(_) => panic!("invalid UTF-8 accepted"),
        Err(r) => assert_eq!(parts(&r), (400, "text/plain; charset=utf-8".to_string(), "invalid form body".to_string())),
    }
}

struct Named {
    name: String,
}

impl zenix::FromRequest for Named {
    fn from_request(ctx: &Context) -> Result<Self, Response> {
        let q = parse_query(ctx);
        match q.get("name") {
            Some(n) => Ok(Named { name: n.clone() }),
            None => Err(bad_request("name missing")),
        }
    }
}

#[test]
fn bind_returns_what_from_request_gives() {
    let c = ctx(Method::GET, "/", Some("name=zed"), b"");
    let n: Named = c.bind().ok().expect("name given");
    assert_eq!(n.name, "zed");
    let c = ctx(Method::GET, "/", None, b"");
    match c.bind::<Named>() {
        Ok(_) => panic!("no name"),
        Err(r) => assert_eq!(parts(&r), (400, "text/plain; charset=utf-8".to_string(), "name missing".to_string())),
    }
}
