//! The route table: which handler answers which method and path.

use crate::http::Method;
use crate::text::str_eq;
use vstd::prelude::*;

verus! {

/// The handlers the server knows.
#[derive(Debug, Clone, Copy, PartialEq, Eq, Hash, Structural)]
pub enum Handler {
    /// The status page.
    Home,
    /// The liveness marker.
    Health,
    /// The statistics document.
    Stats,
    /// The request body, sent back.
    Echo,
}

/// One entry of the route table.
#[derive(Debug)]
pub struct Route {
    pub method: Method,
    pub path: String,
    pub handler: Handler,
}

/// What a [`Route`] holds.
pub struct RouteView {
    pub method: Method,
    pub path: Seq<char>,
    pub handler: Handler,
}

impl View for Route {
    type V = RouteView;

    open spec fn view(&self) -> RouteView {
        RouteView { method: self.method, path: self.path@, handler: self.handler }
    }
}

/// What the table says of a method and a path.
#[derive(Debug, Clone, Copy, PartialEq, Eq, Structural)]
pub enum Resolution {
    /// This handler answers.
    Found(Handler),
    /// The path is known, but not under this method.
    MethodNotAllowed,
    /// The path is not known.
    NotFound,
}

/// Whether a route for this method and path is among `routes`.
pub open spec fn has_route(routes: Seq<RouteView>, method: Method, path: Seq<char>) -> bool {
    exists|i: int|
        0 <= i < routes.len() && (#[trigger] routes[i]).method == method && routes[i].path == path
}

/// A place at which the route for this method and path stands.
pub open spec fn route_index(routes: Seq<RouteView>, method: Method, path: Seq<char>) -> int {
    choose|i: int|
        0 <= i < routes.len() && (#[trigger] routes[i]).method == method && routes[i].path == path
}

/// Whether a route for this path, under any method, is among `routes`.
pub open spec fn has_path(routes: Seq<RouteView>, path: Seq<char>) -> bool {
    exists|i: int| 0 <= i < routes.len() && (#[trigger] routes[i]).path == path
}

/// No two routes have both method and path in common.
pub open spec fn distinct_routes(routes: Seq<RouteView>) -> bool {
    forall|i: int, j: int|
        0 <= i < j < routes.len() ==> !((#[trigger] routes[i]).method == (
        #[trigger] routes[j]).method && routes[i].path == routes[j].path)
}

/// What `routes` say of a method and a path: the handler of the exact match;
/// else that the method is not allowed, if the path is known; else that
/// nothing is found.
pub open spec fn resolution(routes: Seq<RouteView>, method: Method, path: Seq<char>) -> Resolution {
    if has_route(routes, method, path) {
        Resolution::Found(routes[route_index(routes, method, path)].handler)
    } else if has_path(routes, path) {
        Resolution::MethodNotAllowed
    } else {
        Resolution::NotFound
    }
}

/// `routes` after a handler has been registered: a route for the same
/// method and path keeps its place and gets the new handler, a new one goes
/// to the end.
pub open spec fn registered(
    routes: Seq<RouteView>,
    method: Method,
    path: Seq<char>,
    handler: Handler,
) -> Seq<RouteView> {
    if has_route(routes, method, path) {
        routes.update(route_index(routes, method, path), RouteView { method, path, handler })
    } else {
        routes.push(RouteView { method, path, handler })
    }
}

/// The routes that every server starts with.
pub open spec fn default_routes() -> Seq<RouteView> {
    seq![
        RouteView { method: Method::GET, path: "/"@, handler: Handler::Home },
        RouteView { method: Method::GET, path: "/health"@, handler: Handler::Health },
        RouteView { method: Method::GET, path: "/stats"@, handler: Handler::Stats },
        RouteView { method: Method::POST, path: "/echo"@, handler: Handler::Echo },
    ]
}

/// The paths of the default routes differ in length.
pub proof fn lemma_default_paths()
    ensures
        "/"@.len() == 1,
        "/health"@.len() == 7,
        "/stats"@.len() == 6,
        "/echo"@.len() == 5,
        distinct_routes(default_routes()),
{
    reveal_strlit("/");
    reveal_strlit("/health");
    reveal_strlit("/stats");
    reveal_strlit("/echo");
}

/// Registering keeps routes distinct.
pub proof fn lemma_registered_distinct(
    routes: Seq<RouteView>,
    method: Method,
    path: Seq<char>,
    handler: Handler,
)
    requires
        distinct_routes(routes),
    ensures
        distinct_routes(registered(routes, method, path, handler)),
{
    let after = registered(routes, method, path, handler);
    assert forall|i: int, j: int| 0 <= i < j < after.len() implies !((#[trigger] after[i]).method
        == (#[trigger] after[j]).method && after[i].path == after[j].path) by {
        if has_route(routes, method, path) {
            let k = route_index(routes, method, path);
            assert(after[i].method == routes[i].method && after[i].path == routes[i].path);
            assert(after[j].method == routes[j].method && after[j].path == routes[j].path);
        } else {
            assert(after[i] == routes[i]);
            if j < routes.len() {
                assert(after[j] == routes[j]);
            }
        }
    }
}

/// Where routes are distinct, the route at `i` is the one that its method
/// and path resolve to.
pub proof fn lemma_route_at(routes: Seq<RouteView>, i: int)
    requires
        distinct_routes(routes),
        0 <= i < routes.len(),
    ensures
        resolution(routes, routes[i].method, routes[i].path) == Resolution::Found(
            routes[i].handler,
        ),
{
    let j = route_index(routes, routes[i].method, routes[i].path);
    assert(routes[j].method == routes[i].method && routes[j].path == routes[i].path);
}

/// The route table. A method and a path have at most one handler.
#[derive(Debug)]
pub struct RouteTable {
    routes: Vec<Route>,
}

impl View for RouteTable {
    type V = Seq<RouteView>;

    closed spec fn view(&self) -> Seq<RouteView> {
        Seq::new(self.routes@.len(), |i: int| self.routes@[i]@)
    }
}

impl RouteTable {
    #[verifier::type_invariant]
    spec fn routes_are_distinct(self) -> bool {
        distinct_routes(self@)
    }

    /// An empty table.
    pub fn new() -> (t: RouteTable)
        ensures
            t@ == Seq::<RouteView>::empty(),
    {
        let t = RouteTable { routes: Vec::new() };
        assert(t@ =~= Seq::<RouteView>::empty());
        t
    }

    /// The table with the routes that every server starts with: the status
    /// page, the liveness marker, the statistics and the echo.
    pub fn with_default_routes() -> (t: RouteTable)
        ensures
            t@ == default_routes(),
    {
        let mut t = RouteTable::new();
        proof {
            lemma_default_paths();
        }
        t.register(Method::GET, String::from_str("/"), Handler::Home);
        assert(t@ =~= default_routes().take(1));
        t.register(Method::GET, String::from_str("/health"), Handler::Health);
        proof {
            let before = default_routes().take(1);
            assert(before[0].path == "/"@);
            assert(!has_route(before, Method::GET, "/health"@));
            assert(t@ =~= default_routes().take(2));
        }
        t.register(Method::GET, String::from_str("/stats"), Handler::Stats);
        proof {
            let before = default_routes().take(2);
            assert(before[0].path == "/"@ && before[1].path == "/health"@);
            assert(!has_route(before, Method::GET, "/stats"@));
            assert(t@ =~= default_routes().take(3));
        }
        t.register(Method::POST, String::from_str("/echo"), Handler::Echo);
        proof {
            let before = default_routes().take(3);
            assert(before[0].method == Method::GET && before[1].method == Method::GET
                && before[2].method == Method::GET);
            assert(!has_route(before, Method::POST, "/echo"@));
            assert(t@ =~= default_routes());
        }
        t
    }

    /// The number of routes.
    pub fn len(&self) -> (n: usize)
        ensures
            n == self@.len(),
            distinct_routes(self@),
    {
        proof {
            use_type_invariant(self);
        }
        self.routes.len()
    }

    /// The route at `i`.
    pub fn route_at(&self, i: usize) -> (route: &Route)
        requires
            i < self@.len(),
        ensures
            route@ == self@[i as int],
    {
        &self.routes[i]
    }

    fn find(&self, method: Method, path: &str) -> (r: Option<usize>)
        ensures
            distinct_routes(self@),
            match r {
                Some(i) => i < self@.len() && self@[i as int].method == method && self@[i as int].path
                    == path@ && has_route(self@, method, path@) && route_index(
                    self@,
                    method,
                    path@,
                ) == i,
                None => !has_route(self@, method, path@),
            },
    {
        proof {
            use_type_invariant(self);
        }
        let mut i: usize = 0;
        while i < self.routes.len()
            invariant
                i <= self@.len(),
                self@.len() == self.routes@.len(),
                distinct_routes(self@),
                forall|j: int|
                    0 <= j < i ==> !((#[trigger] self@[j]).method == method && self@[j].path
                        == path@),
            decreases self@.len() - i,
        {
            if self.routes[i].method == method && str_eq(self.routes[i].path.as_str(), path) {
                proof {
                    let k = route_index(self@, method, path@);
                    assert(self@[i as int].method == method && self@[i as int].path == path@);
                    assert(self@[k].method == method && self@[k].path == path@);
                }
                return Some(i);
            }
            i = i + 1;
        }
        None
    }

    fn knows_path(&self, path: &str) -> (r: bool)
        ensures
            r == has_path(self@, path@),
    {
        let mut i: usize = 0;
        while i < self.routes.len()
            invariant
                i <= self@.len(),
                self@.len() == self.routes@.len(),
                forall|j: int| 0 <= j < i ==> (#[trigger] self@[j]).path != path@,
            decreases self@.len() - i,
        {
            if str_eq(self.routes[i].path.as_str(), path) {
                assert(self@[i as int].path == path@);
                return true;
            }
            i = i + 1;
        }
        false
    }

    /// Registers `handler` for `method` and `path`, in place of the handler
    /// they had, if any.
    pub fn register(&mut self, method: Method, path: String, handler: Handler)
        ensures
            final(self)@ == registered(old(self)@, method, path@, handler),
    {
        let ghost before = self@;
        proof {
            use_type_invariant(&*self);
            lemma_registered_distinct(before, method, path@, handler);
        }
        let found = self.find(method, path.as_str());
        let mut routes: Vec<Route> = Vec::new();
        core::mem::swap(&mut self.routes, &mut routes);
        assert(Seq::new(routes@.len(), |i: int| routes@[i]@) =~= before);
        match found {
            Some(i) => {
                routes.set(i, Route { method, path, handler });
            },
            None => {
                routes.push(Route { method, path, handler });
            },
        }
        assert(Seq::new(routes@.len(), |i: int| routes@[i]@) =~= registered(
            before,
            method,
            path@,
            handler,
        ));
        self.routes = routes;
    }

    /// What the table says of a method and a path. Only an exact match of
    /// both finds a handler.
    pub fn resolve(&self, method: Method, path: &str) -> (r: Resolution)
        ensures
            r == resolution(self@, method, path@),
    {
        match self.find(method, path) {
            Some(i) => Resolution::Found(self.routes[i].handler),
            None => if self.knows_path(path) {
                Resolution::MethodNotAllowed
            } else {
                Resolution::NotFound
            },
        }
    }

    /// The routes as text, one string for each: the method, a space, the path.
    pub fn describe(&self) -> (lines: Vec<String>)
        ensures
            lines@.len() == self@.len(),
            forall|i: int|
                0 <= i < self@.len() ==> (#[trigger] lines@[i])@ == self@[i].method.name() + " "@
                    + self@[i].path,
    {
        let mut lines: Vec<String> = Vec::new();
        let mut i: usize = 0;
        while i < self.routes.len()
            invariant
                i <= self@.len(),
                self@.len() == self.routes@.len(),
                lines@.len() == i,
                forall|j: int|
                    0 <= j < i ==> (#[trigger] lines@[j])@ == self@[j].method.name() + " "@
                        + self@[j].path,
            decreases self@.len() - i,
        {
            let mut line = String::from_str(self.routes[i].method.as_str());
            line.append(" ");
            line.append(self.routes[i].path.as_str());
            lines.push(line);
            i = i + 1;
        }
        lines
    }
}

} // verus!
