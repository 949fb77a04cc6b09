//! The route table: handlers registered by method and exact path, and the
//! decision of which handler answers a request.

use vstd::prelude::*;
use vstd::string::StringExecFns;

use crate::assoc::{keys_distinct, lemma_pairs_map_dom, lemma_pairs_map_index, lemma_pairs_map_update, pairs_map};
use crate::method::{is_standard, lemma_method_names, Method};
use crate::response::{not_found, response_is, Response};
use crate::text::chars_of;

verus! {

/// What a route is registered under: a method and an exact path.
pub struct RouteKey {
    pub method: Method,
    pub path: String,
}

/// The key of route table entries: the method's name and the path.
pub type RouteId = (Seq<char>, Seq<char>);

/// A route table mapping (method, exact path) to a handler of type `H`.
pub struct Server<H> {
    routes: Vec<(RouteKey, H)>,
}

impl<H> Server<H> {
    /// The routes, keyed by method name and path, in registration order.
    pub closed spec fn pairs(&self) -> Seq<(RouteId, H)> {
        self.routes@.map_values(|r: (RouteKey, H)| ((r.0.method@, r.0.path@), r.1))
    }

    #[verifier::type_invariant]
    closed spec fn inv(&self) -> bool {
        keys_distinct(self.pairs())
    }

    /// A server with no routes.
    pub fn new() -> (res: Server<H>)
        ensures
            res@ == Map::<RouteId, H>::empty(),
    {
        let res = Server { routes: Vec::new() };
        assert(res.pairs() =~= Seq::<(RouteId, H)>::empty());
        res
    }

    /// Registers `handler` for `method` and `path`, replacing a handler
    /// registered earlier for the same method and path.
    fn add_route(&mut self, method: Method, path: &str, handler: H)
        ensures
            final(self)@ == old(self)@.insert((method@, path@), handler),
    {
        proof {
            use_type_invariant(&*self);
        }
        let key = RouteKey { method, path: path.to_owned() };
        let mut routes: Vec<(RouteKey, H)> = Vec::new();
        std::mem::swap(&mut routes, &mut self.routes);
        let ghost p = routes@.map_values(|r: (RouteKey, H)| ((r.0.method@, r.0.path@), r.1));
        let ghost id: RouteId = (key.method@, key.path@);
        let n = routes.len();
        let mut i: usize = 0;
        while i < n
            invariant
                n == routes.len(),
                i <= n,
                p == routes@.map_values(|r: (RouteKey, H)| ((r.0.method@, r.0.path@), r.1)),
                keys_distinct(p),
                p == old(self).pairs(),
                id == (key.method@, key.path@),
                id == (method@, path@),
                forall|j: int| 0 <= j < i ==> p[j].0 != id,
            decreases n - i,
        {
            if routes[i].0.method.same_as(&key.method) && routes[i].0.path == key.path {
                assert(p[i as int].0 == id);
                routes.set(i, (key, handler));
                let ghost q = routes@.map_values(|r: (RouteKey, H)| ((r.0.method@, r.0.path@), r.1));
                proof {
                    assert(q =~= p.update(i as int, (p[i as int].0, handler)));
                    lemma_pairs_map_update(p, i as int, handler);
                    assert(keys_distinct(q));
                }
                self.routes = routes;
                return;
            }
            i = i + 1;
        }
        routes.push((key, handler));
        let ghost q = routes@.map_values(|r: (RouteKey, H)| ((r.0.method@, r.0.path@), r.1));
        assert(q =~= p.push((id, handler)));
        assert(q.drop_last() =~= p);
        self.routes = routes;
    }

    /// Registers a GET handler for `path`.
    pub fn get(&mut self, path: &str, handler: H)
        ensures
            final(self)@ == old(self)@.insert(("GET"@, path@), handler),
    {
        self.add_route(Method::GET, path, handler);
    }

    /// Registers a POST handler for `path`.
    pub fn post(&mut self, path: &str, handler: H)
        ensures
            final(self)@ == old(self)@.insert(("POST"@, path@), handler),
    {
        self.add_route(Method::POST, path, handler);
    }

    /// Registers a PUT handler for `path`.
    pub fn put(&mut self, path: &str, handler: H)
        ensures
            final(self)@ == old(self)@.insert(("PUT"@, path@), handler),
    {
        self.add_route(Method::PUT, path, handler);
    }

    /// Registers a DELETE handler for `path`.
    pub fn delete(&mut self, path: &str, handler: H)
        ensures
            final(self)@ == old(self)@.insert(("DELETE"@, path@), handler),
    {
        self.add_route(Method::DELETE, path, handler);
    }

    /// The handler registered for `method` and exactly `path`, if any.
    pub fn lookup(&self, method: &Method, path: &str) -> (res: Option<&H>)
        ensures
            match res {
                Some(h) => self@.contains_key((method@, path@)) && *h == self@[(method@, path@)],
                None => !self@.contains_key((method@, path@)),
            },
    {
        proof {
            use_type_invariant(self);
        }
        let p = path.to_owned();
        let ghost id: RouteId = (method@, path@);
        let mut i: usize = 0;
        while i < self.routes.len()
            invariant
                i <= self.routes.len(),
                p@ == path@,
                id == (method@, path@),
                keys_distinct(self.pairs()),
                forall|j: int| 0 <= j < i ==> self.pairs()[j].0 != id,
            decreases self.routes.len() - i,
        {
            if self.routes[i].0.method.same_as(method) && self.routes[i].0.path == p {
                proof {
                    assert(self.pairs()[i as int].0 == id);
                    lemma_pairs_map_index(self.pairs(), i as int);
                }
                return Some(&self.routes[i].1);
            }
            i = i + 1;
        }
        proof {
            lemma_pairs_map_dom(self.pairs(), id);
        }
        None
    }

    /// Decides who answers a request for `method` and `path`: the handler
    /// registered for exactly that method and path, or else the 404
    /// response.
    pub fn resolve(&self, method: &Method, path: &str) -> (res: Result<&H, Response>)
        ensures
            match res {
                Ok(h) => self@.contains_key((method@, path@)) && *h == self@[(method@, path@)],
                Err(r) => !self@.contains_key((method@, path@)) && response_is(
                    r,
                    404,
                    "text/plain"@,
                    "404 Not Found"@,
                ),
            },
    {
        match self.lookup(method, path) {
            Some(h) => Ok(h),
            None => Err(not_found()),
        }
    }
}

impl<H> View for Server<H> {
    type V = Map<RouteId, H>;

    closed spec fn view(&self) -> Map<RouteId, H> {
        pairs_map(self.pairs())
    }
}

impl<H> Default for Server<H> {
    fn default() -> (res: Self)
        ensures
            res@ == Map::<RouteId, H>::empty(),
    {
        Self::new()
    }
}

/// Registering a route: after a handler is registered for a method and
/// path (`after` is `before` with that registration), a request for
/// exactly that method and path goes to it, and every other method and
/// path answers as it did before.
pub proof fn lemma_route_registration<H>(before: Server<H>, after: Server<H>, id: RouteId, h: H, other: RouteId)
    requires
        after@ == before@.insert(id, h),
        other != id,
    ensures
        after@.contains_key(id),
        after@[id] == h,
        after@.contains_key(other) == before@.contains_key(other),
        before@.contains_key(other) ==> after@[other] == before@[other],
{
}

/// Routes are kept apart by method: a handler registered for one standard
/// method and a path answers no request of another standard method for
/// that path (`resolve` then gives the 404), unless one was registered
/// for it too.
pub proof fn lemma_route_method_exact<H>(before: Server<H>, after: Server<H>, registered: Method, path: Seq<char>, h: H, asked: Method)
    requires
        after@ == before@.insert((registered@, path), h),
        is_standard(registered),
        is_standard(asked),
        asked != registered,
    ensures
        after@.contains_key((asked@, path)) == before@.contains_key((asked@, path)),
{
    lemma_method_names(registered, asked);
}

/// Registering twice for the same method and path leaves the later
/// handler, as if only it had been registered.
pub proof fn lemma_route_replaced<H>(s0: Server<H>, s1: Server<H>, s2: Server<H>, id: RouteId, h1: H, h2: H)
    requires
        s1@ == s0@.insert(id, h1),
        s2@ == s1@.insert(id, h2),
    ensures
        s2@ == s0@.insert(id, h2),
{
    assert(s2@ =~= s0@.insert(id, h2));
}

/// Routes for different methods or paths do not interfere: registering
/// them in either order gives the same table.
pub proof fn lemma_routes_commute<H>(
    s0: Server<H>,
    a1: Server<H>,
    a2: Server<H>,
    b1: Server<H>,
    b2: Server<H>,
    id1: RouteId,
    h1: H,
    id2: RouteId,
    h2: H,
)
    requires
        id1 != id2,
        a1@ == s0@.insert(id1, h1),
        a2@ == a1@.insert(id2, h2),
        b1@ == s0@.insert(id2, h2),
        b2@ == b1@.insert(id1, h1),
    ensures
        a2@ == b2@,
{
    assert(a2@ =~= b2@);
}

/// The socket address a server given `addr` listens on: an address that
/// starts with `:` (a port alone, as in `":3000"`) listens on all
/// interfaces, `0.0.0.0`; any other is taken as it stands.
pub fn listen_address(addr: &str) -> (res: String)
    ensures
        res@ == if addr@.len() > 0 && addr@[0] == ':' {
            "0.0.0.0"@ + addr@
        } else {
            addr@
        },
{
    let cs = chars_of(addr);
    if cs.len() > 0 && cs[0] == ':' {
        let mut res = String::from_str("0.0.0.0");
        res.append(addr);
        res
    } else {
        addr.to_owned()
    }
}

} // verus!
