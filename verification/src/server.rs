//! The server configuration: ordered middleware list, one route table per
//! HTTP method, an optional fallback handler and a worker-count setting,
//! together with the exact-match router.
//!
//! Handler and middleware callbacks are opaque to the library: the type
//! parameters `M` (middleware callback) and `H` (route or fallback handler)
//! carry whatever callable values the embedding program uses. The library
//! stores them, resolves which one a request selects, and hands it back;
//! the embedding program invokes it.

use vstd::prelude::*;

verus! {

/// The five HTTP methods the router keeps a table for.
#[derive(Clone, Copy, PartialEq, Eq, Structural, Debug)]
pub enum Method {
    Get,
    Post,
    Put,
    Delete,
    Patch,
}

/// Per-connection request state handed through the pipeline: the parsed
/// request line, headers and body, the response buffer the handlers fill,
/// and a key-value slot for middleware-to-handler data. One worker owns a
/// `Context` exclusively for the lifetime of one connection.
pub struct Context {
    pub method: Method,
    pub path: String,
    pub headers: Vec<(String, String)>,
    pub body: String,
    pub response: String,
    pub data: Vec<(String, String)>,
}

impl Context {
    /// A fresh context for one request: the given request line, everything
    /// else empty.
    pub fn new(method: Method, path: String) -> (c: Context)
        ensures
            c.method == method,
            c.path@ == path@,
            c.headers@ =~= Seq::<(String, String)>::empty(),
            c.body@ == Seq::<char>::empty(),
            c.response@ == Seq::<char>::empty(),
            c.data@ =~= Seq::<(String, String)>::empty(),
    {
        Context {
            method,
            path,
            headers: Vec::new(),
            body: String::new(),
            response: String::new(),
            data: Vec::new(),
        }
    }
}

/// What the router may answer for `path` on an ordered route table:
/// `Some(i)` exactly when entry `i` is the first whose pattern equals the
/// path, `None` exactly when no pattern does.
pub open spec fn resolves_to<H>(routes: Seq<(String, H)>, path: Seq<char>, r: Option<usize>) -> bool {
    match r {
        Some(i) => {
            &&& 0 <= i < routes.len()
            &&& routes[i as int].0@ == path
            &&& forall|j: int| 0 <= j < i ==> routes[j].0@ != path
        },
        None => forall|j: int| 0 <= j < routes.len() ==> routes[j].0@ != path,
    }
}

/// Resolution is a function: a route table and a path admit exactly one
/// answer.
pub proof fn lemma_resolution_is_unique<H>(
    routes: Seq<(String, H)>,
    path: Seq<char>,
    r1: Option<usize>,
    r2: Option<usize>,
)
    requires
        resolves_to(routes, path, r1),
        resolves_to(routes, path, r2),
    ensures
        r1 == r2,
{
    match (r1, r2) {
        (Some(i1), Some(i2)) => {
            if i1 < i2 {
                assert(routes[i1 as int].0@ != path);
            } else if i2 < i1 {
                assert(routes[i2 as int].0@ != path);
            }
        },
        (Some(i1), None) => {
            assert(routes[i1 as int].0@ != path);
        },
        (None, Some(i2)) => {
            assert(routes[i2 as int].0@ != path);
        },
        (None, None) => {},
    }
}

/// A registered route is the one resolved: when entry `i` of the table
/// carries the requested path and no earlier entry does, the router's
/// contract forces the answer `i` — with duplicate patterns the
/// first-registered entry wins.
pub proof fn lemma_first_registered_wins<H>(
    routes: Seq<(String, H)>,
    i: usize,
    r: Option<usize>,
)
    requires
        0 <= i < routes.len(),
        forall|j: int| 0 <= j < i ==> routes[j].0@ != routes[i as int].0@,
        resolves_to(routes, routes[i as int].0@, r),
    ensures
        r == Some(i),
{
    lemma_resolution_is_unique(routes, routes[i as int].0@, r, Some(i));
}

/// The registration surface: all fields are append-only (or assign-once for
/// `catchs` and `allow_threads`) before serving begins, and read-only after.
#[derive(Clone)]
pub struct Server<M, H> {
    /// Middleware callbacks, in registration order.
    pub middlewares: Vec<M>,
    /// GET routes: (path pattern, handler), in registration order.
    pub gets: Vec<(String, H)>,
    /// POST routes, in registration order.
    pub posts: Vec<(String, H)>,
    /// PUT routes, in registration order.
    pub puts: Vec<(String, H)>,
    /// DELETE routes, in registration order.
    pub deletes: Vec<(String, H)>,
    /// PATCH routes, in registration order.
    pub patchs: Vec<(String, H)>,
    /// The fallback handler, if one was registered.
    pub catchs: Option<H>,
    /// Requested worker count; 0 means "use the thread-count hint".
    pub allow_threads: usize,
}

impl<M, H> Server<M, H> {
    /// The route table the given method selects.
    pub open spec fn routes_of(self, method: Method) -> Seq<(String, H)> {
        match method {
            Method::Get => self.gets@,
            Method::Post => self.posts@,
            Method::Put => self.puts@,
            Method::Delete => self.deletes@,
            Method::Patch => self.patchs@,
        }
    }

    /// A fresh server: no middlewares, no routes, no fallback handler, and
    /// a worker count of 0 (meaning "use the thread-count hint").
    pub fn new() -> (s: Server<M, H>)
        ensures
            s.middlewares@ =~= Seq::<M>::empty(),
            s.gets@ =~= Seq::<(String, H)>::empty(),
            s.posts@ =~= Seq::<(String, H)>::empty(),
            s.puts@ =~= Seq::<(String, H)>::empty(),
            s.deletes@ =~= Seq::<(String, H)>::empty(),
            s.patchs@ =~= Seq::<(String, H)>::empty(),
            s.catchs.is_none(),
            s.allow_threads == 0,
    {
        Server {
            middlewares: Vec::new(),
            gets: Vec::new(),
            posts: Vec::new(),
            puts: Vec::new(),
            deletes: Vec::new(),
            patchs: Vec::new(),
            catchs: None,
            allow_threads: 0,
        }
    }

    /// Appends a middleware callback; registration order is preserved.
    pub fn middleware(&mut self, callback: M)
        ensures
            final (self).middlewares@ == old(self).middlewares@.push(callback),
            final (self).gets == old(self).gets,
            final (self).posts == old(self).posts,
            final (self).puts == old(self).puts,
            final (self).deletes == old(self).deletes,
            final (self).patchs == old(self).patchs,
            final (self).catchs == old(self).catchs,
            final (self).allow_threads == old(self).allow_threads,
    {
        self.middlewares.push(callback);
    }

    /// Appends a GET route; duplicates are legal, registration order decides.
    pub fn get(&mut self, path: &str, callback: H)
        ensures
            final (self).gets@.len() == old(self).gets@.len() + 1,
            forall|i: int|
                0 <= i < old(self).gets@.len() ==> final (self).gets@[i] == old(self).gets@[i],
            final (self).gets@.last().0@ == path@,
            final (self).gets@.last().1 == callback,
            final (self).middlewares == old(self).middlewares,
            final (self).posts == old(self).posts,
            final (self).puts == old(self).puts,
            final (self).deletes == old(self).deletes,
            final (self).patchs == old(self).patchs,
            final (self).catchs == old(self).catchs,
            final (self).allow_threads == old(self).allow_threads,
    {
        self.gets.push((path.to_owned(), callback));
    }

    /// Appends a POST route; duplicates are legal, registration order decides.
    pub fn post(&mut self, path: &str, callback: H)
        ensures
            final (self).posts@.len() == old(self).posts@.len() + 1,
            forall|i: int|
                0 <= i < old(self).posts@.len() ==> final (self).posts@[i] == old(self).posts@[i],
            final (self).posts@.last().0@ == path@,
            final (self).posts@.last().1 == callback,
            final (self).middlewares == old(self).middlewares,
            final (self).gets == old(self).gets,
            final (self).puts == old(self).puts,
            final (self).deletes == old(self).deletes,
            final (self).patchs == old(self).patchs,
            final (self).catchs == old(self).catchs,
            final (self).allow_threads == old(self).allow_threads,
    {
        self.posts.push((path.to_owned(), callback));
    }

    /// Appends a PUT route; duplicates are legal, registration order decides.
    pub fn put(&mut self, path: &str, callback: H)
        ensures
            final (self).puts@.len() == old(self).puts@.len() + 1,
            forall|i: int|
                0 <= i < old(self).puts@.len() ==> final (self).puts@[i] == old(self).puts@[i],
            final (self).puts@.last().0@ == path@,
            final (self).puts@.last().1 == callback,
            final (self).middlewares == old(self).middlewares,
            final (self).gets == old(self).gets,
            final (self).posts == old(self).posts,
            final (self).deletes == old(self).deletes,
            final (self).patchs == old(self).patchs,
            final (self).catchs == old(self).catchs,
            final (self).allow_threads == old(self).allow_threads,
    {
        self.puts.push((path.to_owned(), callback));
    }

    /// Appends a DELETE route; duplicates are legal, registration order decides.
    pub fn delete(&mut self, path: &str, callback: H)
        ensures
            final (self).deletes@.len() == old(self).deletes@.len() + 1,
            forall|i: int|
                0 <= i < old(self).deletes@.len() ==> final (self).deletes@[i] == old(
                    self,
                ).deletes@[i],
            final (self).deletes@.last().0@ == path@,
            final (self).deletes@.last().1 == callback,
            final (self).middlewares == old(self).middlewares,
            final (self).gets == old(self).gets,
            final (self).posts == old(self).posts,
            final (self).puts == old(self).puts,
            final (self).patchs == old(self).patchs,
            final (self).catchs == old(self).catchs,
            final (self).allow_threads == old(self).allow_threads,
    {
        self.deletes.push((path.to_owned(), callback));
    }

    /// Appends a PATCH route; duplicates are legal, registration order decides.
    pub fn patch(&mut self, path: &str, callback: H)
        ensures
            final (self).patchs@.len() == old(self).patchs@.len() + 1,
            forall|i: int|
                0 <= i < old(self).patchs@.len() ==> final (self).patchs@[i] == old(
                    self,
                ).patchs@[i],
            final (self).patchs@.last().0@ == path@,
            final (self).patchs@.last().1 == callback,
            final (self).middlewares == old(self).middlewares,
            final (self).gets == old(self).gets,
            final (self).posts == old(self).posts,
            final (self).puts == old(self).puts,
            final (self).deletes == old(self).deletes,
            final (self).catchs == old(self).catchs,
            final (self).allow_threads == old(self).allow_threads,
    {
        self.patchs.push((path.to_owned(), callback));
    }

    /// Sets the fallback handler, replacing any earlier one.
    pub fn catch(&mut self, callback: H)
        ensures
            final (self).catchs == Some(callback),
            final (self).middlewares == old(self).middlewares,
            final (self).gets == old(self).gets,
            final (self).posts == old(self).posts,
            final (self).puts == old(self).puts,
            final (self).deletes == old(self).deletes,
            final (self).patchs == old(self).patchs,
            final (self).allow_threads == old(self).allow_threads,
    {
        self.catchs = Some(callback);
    }

    /// Sets the worker count; 0 means "use the thread-count hint".
    pub fn threads(&mut self, allow: usize)
        ensures
            final (self).allow_threads == allow,
            final (self).middlewares == old(self).middlewares,
            final (self).gets == old(self).gets,
            final (self).posts == old(self).posts,
            final (self).puts == old(self).puts,
            final (self).deletes == old(self).deletes,
            final (self).patchs == old(self).patchs,
            final (self).catchs == old(self).catchs,
    {
        self.allow_threads = allow;
    }

    /// Scans the method's route table in registration order and returns the
    /// index of the first route whose pattern equals the path exactly, or
    /// `None` when no pattern matches. "No match" is a normal outcome, not
    /// an error.
    pub fn resolve(&self, method: Method, path: &String) -> (r: Option<usize>)
        ensures
            resolves_to(self.routes_of(method), path@, r),
    {
        let routes: &Vec<(String, H)> = match method {
            Method::Get => &self.gets,
            Method::Post => &self.posts,
            Method::Put => &self.puts,
            Method::Delete => &self.deletes,
            Method::Patch => &self.patchs,
        };
        let mut i: usize = 0;
        while i < routes.len()
            invariant
                routes@ == self.routes_of(method),
                0 <= i <= routes@.len(),
                forall|j: int| 0 <= j < i ==> routes@[j].0@ != path@,
            decreases routes@.len() - i,
        {
            if routes[i].0.eq(path) {
                return Some(i);
            }
            i += 1;
        }
        None
    }

    /// The handler stored at an index of a method's route table.
    pub fn handler_at(&self, method: Method, i: usize) -> (h: &H)
        requires
            0 <= i < self.routes_of(method).len(),
        ensures
            *h == self.routes_of(method)[i as int].1,
    {
        let routes: &Vec<(String, H)> = match method {
            Method::Get => &self.gets,
            Method::Post => &self.posts,
            Method::Put => &self.puts,
            Method::Delete => &self.deletes,
            Method::Patch => &self.patchs,
        };
        &routes[i].1
    }

    /// The fallback handler, if one was registered.
    pub fn fallback(&self) -> (h: Option<&H>)
        ensures
            match h {
                Some(f) => self.catchs == Some(*f),
                None => self.catchs.is_none(),
            },
    {
        self.catchs.as_ref()
    }
}

} // verus!
