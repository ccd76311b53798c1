//! The application's request path as data: the routes registered at
//! startup (every failure is a startup failure, specific and immediate),
//! and, per request, what to do: 404, an immediate response, or a dispatch
//! to a handler with its converted arguments.

use vstd::prelude::*;
use vstd::string::StringExecFns;
use crate::params::{kind_of_code, params_view, resolution_matches, resolve_params, ParamKind, ParamValue};
use crate::response::HandlerResponse;
use vstd::utf8::encode_utf8;
use crate::router::{
    RouteRegistrationError,
    found_for, found_under_other_method, insert_refusal, param_count_fits, registration_message,
    route_params_fit, Router,
};
use crate::text::{decimal_text, push_decimal};

verus! {

/// A route as the Python surface declares it: method, path, whether the
/// handler is a coroutine function, and its path parameters with their
/// conversion codes. The handler object itself stays with the caller, at
/// the same position.
pub struct RouteDecl {
    pub method: String,
    pub path: String,
    pub is_async: bool,
    pub params: Vec<(String, u8)>,
}

/// A registered route: its declaration with the parameter kinds resolved.
pub struct RouteEntry {
    pub method: String,
    pub path: String,
    pub is_async: bool,
    pub params: Vec<(String, ParamKind)>,
}

/// Some route before position `k` has `method`.
pub open spec fn method_seen(decls: Seq<RouteDecl>, k: int, method: Seq<char>) -> bool {
    exists|j: int| 0 <= j < k && (#[trigger] decls[j]).method@ == method
}

/// The insertions registration makes into `method`'s tree for the routes
/// before position `k`: their paths, each with its position.
pub open spec fn prior_insertions(decls: Seq<RouteDecl>, k: int, method: Seq<char>) -> Seq<(Seq<char>, usize)>
    decreases k,
{
    if k <= 0 {
        Seq::empty()
    } else if decls[k - 1].method@ == method {
        prior_insertions(decls, k - 1, method).push((decls[k - 1].path@, (k - 1) as usize))
    } else {
        prior_insertions(decls, k - 1, method)
    }
}

/// `p` is the first parameter whose code names no kind.
pub open spec fn is_first_unknown_code(params: Seq<(String, u8)>, p: int) -> bool {
    &&& 0 <= p < params.len()
    &&& kind_of_code(params[p].1) is None
    &&& forall|q: int| 0 <= q < p ==> kind_of_code((#[trigger] params[q]).1) is Some
}

/// The message for a parameter code that names no kind: the Python and
/// Rust layers disagree.
pub open spec fn unknown_code_message(method: Seq<char>, path: Seq<char>, code: u8, name: Seq<char>) -> Seq<
    char,
> {
    "route "@ + method + " "@ + path + ": unknown parameter kind code "@ + decimal_text(code as nat)
        + " for '"@ + name + "' \u{2014} the Python and Rust layers disagree; reinstall rayo"@
}

/// The reason given for a route with more named parameters than a
/// routing tree can take.
pub open spec fn too_many_params_text() -> Seq<char> {
    "Too many route parameters."@
}

/// Why route `i` fails to register once the routes before it have: more
/// named parameters than a tree can take, else the tree's refusal of its
/// path, else its first unknown parameter code. A route with more than 25
/// `{` in which a named parameter is directly followed by an escaped brace
/// counts as having too many: `matchit` may read its parameters otherwise
/// than `named_param_count`, and could then name a 26th.
pub open spec fn route_failure(decls: Seq<RouteDecl>, i: int) -> Option<Seq<char>> {
    let d = decls[i];
    if !param_count_fits(encode_utf8(d.path@)) {
        Some(registration_message(d.method@, d.path@, too_many_params_text()))
    } else {
    match insert_refusal(prior_insertions(decls, i, d.method@), d.path@) {
        Some(reason) => Some(registration_message(d.method@, d.path@, reason)),
        None => if exists|p: int| is_first_unknown_code(d.params@, p) {
            let p = choose|p: int| is_first_unknown_code(d.params@, p);
            Some(unknown_code_message(d.method@, d.path@, d.params@[p].1, d.params@[p].0@))
        } else {
            None
        },
    }
    }
}

/// A registered route is its declaration with each code replaced by its
/// kind.
pub open spec fn entry_matches(entry: RouteEntry, decl: RouteDecl) -> bool {
    &&& entry.method@ == decl.method@
    &&& entry.path@ == decl.path@
    &&& entry.is_async == decl.is_async
    &&& entry.params@.len() == decl.params@.len()
    &&& forall|p: int|
        0 <= p < decl.params@.len() ==> (#[trigger] entry.params@[p]).0@ == decl.params@[p].0@ && kind_of_code(
            decl.params@[p].1,
        ) == Some(entry.params@[p].1)
}

/// The routing table with its routes; every handler id the table holds is
/// the position of a route.
pub struct AppRoutes {
    router: Router,
    routes: Vec<RouteEntry>,
}

impl AppRoutes {
    #[verifier::type_invariant]
    spec fn ids_are_routes(&self) -> bool {
        forall|m: Seq<char>|
            #![trigger self.router.insertions(m)]
            self.router.insertions(m) is Some ==> forall|i: int|
                0 <= i < self.router.insertions(m)->0.len() ==> (#[trigger] self.router.insertions(m)->0[i]).1
                    < self.routes@.len()
    }

    /// The routing table.
    pub closed spec fn table(&self) -> Router {
        self.router
    }

    /// The registered routes, by position.
    pub closed spec fn entries(&self) -> Seq<RouteEntry> {
        self.routes@
    }

    /// The registered route at `index`.
    pub fn route(&self, index: usize) -> (entry: &RouteEntry)
        requires
            index < self.entries().len(),
        ensures
            *entry == self.entries()[index as int],
    {
        &self.routes[index]
    }

    /// The number of registered routes.
    pub fn route_count(&self) -> (count: usize)
        ensures
            count == self.entries().len(),
    {
        self.routes.len()
    }

    /// The routing table.
    pub fn router(&self) -> (router: &Router)
        ensures
            *router == self.table(),
    {
        &self.router
    }
}

/// What to do with a request.
pub enum RequestPlan {
    /// No route of any method matches: 404, without involving Python.
    NotFound,
    /// No route of the request's method matches, but a route of another
    /// method does: 405, without involving Python.
    MethodNotAllowed,
    /// Route `route` matched. `args` are its converted path parameters, up
    /// to the first that is missing or does not convert, whose response is
    /// `failure`; with no failure, the handler is called with `args`.
    /// (`float` parameters come as text, converted by the caller in order.)
    Dispatch { route: usize, args: Vec<(String, ParamValue)>, failure: Option<HandlerResponse> },
}

impl AppRoutes {
    /// Plans a request: routing is pure Rust, so a miss is a 404 (or a 405
    /// when the path matches under another method) without Python; a match
    /// becomes a dispatch to the matched route's handler
    /// with its path parameters converted, or the response for the first
    /// one that does not convert.
    pub fn plan_request(&self, method: &str, path: &str) -> (plan: RequestPlan)
        ensures
            match found_for(self.table(), method@, path@) {
                None => if found_under_other_method(self.table(), method@, path@) {
                    plan is MethodNotAllowed
                } else {
                    plan is NotFound
                },
                Some((id, matched)) => id < self.entries().len() && match plan {
                    RequestPlan::NotFound | RequestPlan::MethodNotAllowed => false,
                    RequestPlan::Dispatch { route, args, failure } => route == id && resolution_matches(
                        self.entries()[id as int].params@,
                        matched,
                        args@,
                        failure,
                    ),
                },
            },
    {
        proof {
            use_type_invariant(self);
        }
        match self.router.lookup(method, path) {
            None => if self.router.matched_by_other_method(method, path) {
                RequestPlan::MethodNotAllowed
            } else {
                RequestPlan::NotFound
            },
            Some(matched) => {
                let id = matched.handler_id;
                proof {
                    let insertions = self.router.insertions(method@)->0;
                    let k = choose|k: int| 0 <= k < insertions.len() && (#[trigger] insertions[k]).1 == id;
                    assert(insertions[k].1 < self.routes@.len());
                }
                let (args, failure) = resolve_params(&self.routes[id].params, &matched.path_params);
                RequestPlan::Dispatch { route: id, args, failure }
            },
        }
    }
}

proof fn lemma_prior_unseen(decls: Seq<RouteDecl>, k: int, method: Seq<char>)
    requires
        0 <= k <= decls.len(),
        !method_seen(decls, k, method),
    ensures
        prior_insertions(decls, k, method) == Seq::<(Seq<char>, usize)>::empty(),
    decreases k,
{
    if k > 0 {
        assert(decls[k - 1].method@ != method);
        assert(!method_seen(decls, k - 1, method)) by {
            if method_seen(decls, k - 1, method) {
                let j = choose|j: int| 0 <= j < k - 1 && (#[trigger] decls[j]).method@ == method;
                assert(0 <= j < k && decls[j].method@ == method);
            }
        }
        lemma_prior_unseen(decls, k - 1, method);
    }
}

proof fn lemma_prior_ids(decls: Seq<RouteDecl>, k: int, method: Seq<char>)
    requires
        0 <= k <= decls.len(),
    ensures
        forall|i: int| 0 <= i < prior_insertions(decls, k, method).len() ==> (#[trigger] prior_insertions(decls, k, method)[i]).1 < k,
    decreases k,
{
    if k > 0 {
        lemma_prior_ids(decls, k - 1, method);
        let prev = prior_insertions(decls, k - 1, method);
        if decls[k - 1].method@ == method {
            assert forall|i: int| 0 <= i < prev.push((decls[k - 1].path@, (k - 1) as usize)).len() implies (#[trigger] prev.push(
                (decls[k - 1].path@, (k - 1) as usize),
            )[i]).1 < k by {
                if i < prev.len() {
                    assert(prev[i].1 < k - 1);
                }
            }
        }
    }
}

/// Registration inserts every route under its own position: the
/// insertions made into `method`'s tree for the routes before position `k`
/// are exactly the routes of that method, in declaration order, each with
/// its own path and its position as handler id, so a request that matches
/// it is answered by that route's handler.
pub proof fn routes_are_registered_under_their_positions(decls: Seq<RouteDecl>, k: int, method: Seq<char>)
    requires
        0 <= k <= decls.len() <= usize::MAX,
    ensures
        ({
            let inserted = prior_insertions(decls, k, method);
            &&& forall|i: int|
                0 <= i < inserted.len() ==> {
                    let id = (#[trigger] inserted[i]).1 as int;
                    &&& id < k
                    &&& decls[id].method@ == method
                    &&& decls[id].path@ == inserted[i].0
                }
            &&& forall|i: int, j: int| 0 <= i < j < inserted.len() ==> (#[trigger] inserted[i]).1 < (#[trigger] inserted[j]).1
            &&& forall|j: int|
                0 <= j < k && (#[trigger] decls[j]).method@ == method ==> exists|i: int|
                    0 <= i < inserted.len() && (#[trigger] inserted[i]).1 == j
        }),
    decreases k,
{
    if k > 0 {
        routes_are_registered_under_their_positions(decls, k - 1, method);
        let prev = prior_insertions(decls, k - 1, method);
        let inserted = prior_insertions(decls, k, method);
        if decls[k - 1].method@ == method {
            assert(inserted == prev.push((decls[k - 1].path@, (k - 1) as usize)));
            assert forall|i: int| 0 <= i < prev.len() implies #[trigger] inserted[i] == prev[i] by {}
            assert forall|j: int|
                0 <= j < k && (#[trigger] decls[j]).method@ == method implies exists|i: int|
                    0 <= i < inserted.len() && (#[trigger] inserted[i]).1 == j by {
                if j == k - 1 {
                    assert(inserted[prev.len() as int].1 == j);
                } else {
                    let i = choose|i: int| 0 <= i < prev.len() && (#[trigger] prev[i]).1 == j;
                    assert(inserted[i] == prev[i]);
                }
            }
        } else {
            assert(inserted == prev);
        }
    }
}

/// The message for an unknown parameter code.
fn unknown_code_text(method: &String, path: &String, code: u8, name: &String) -> (text: String)
    ensures
        text@ == unknown_code_message(method@, path@, code, name@),
{
    let mut text = String::new();
    text.append("route ");
    text.append(method.as_str());
    text.append(" ");
    text.append(path.as_str());
    text.append(": unknown parameter kind code ");
    push_decimal(&mut text, code as usize);
    text.append(" for '");
    text.append(name.as_str());
    text.append("' \u{2014} the Python and Rust layers disagree; reinstall rayo");
    assert(text@ =~= unknown_code_message(method@, path@, code, name@));
    text
}

/// Resolves the parameter codes of one route; the position of the first
/// unknown code if there is one.
fn resolve_codes(params: &Vec<(String, u8)>) -> (resolved: Result<Vec<(String, ParamKind)>, usize>)
    ensures
        resolved matches Ok(kinds) ==> kinds@.len() == params@.len() && forall|p: int|
            0 <= p < params@.len() ==> (#[trigger] kinds@[p]).0@ == params@[p].0@ && kind_of_code(params@[p].1)
                == Some(kinds@[p].1),
        resolved matches Err(p) ==> is_first_unknown_code(params@, p as int),
        resolved is Ok <==> !exists|p: int| is_first_unknown_code(params@, p),
{
    let n = params.len();
    let mut kinds: Vec<(String, ParamKind)> = Vec::new();
    let mut p: usize = 0;
    while p < n
        invariant
            n == params@.len(),
            p <= n,
            kinds@.len() == p,
            forall|q: int|
                0 <= q < p ==> (#[trigger] kinds@[q]).0@ == params@[q].0@ && kind_of_code(params@[q].1) == Some(
                    kinds@[q].1,
                ),
        decreases n - p,
    {
        match ParamKind::from_code(params[p].1) {
            Some(kind) => {
                kinds.push((params[p].0.clone(), kind));
            },
            None => {
                assert forall|q: int| 0 <= q < p implies kind_of_code((#[trigger] params@[q]).1) is Some by {
                    assert(kinds@[q].0@ == params@[q].0@);
                }
                assert(is_first_unknown_code(params@, p as int));
                return Err(p);
            },
        }
        p = p + 1;
    }
    assert forall|x: int| !is_first_unknown_code(params@, x) by {
        if 0 <= x < n {
            assert(kinds@[x].0@ == params@[x].0@);
        }
    }
    Ok(kinds)
}

/// Registers the declared routes in order: route `i` is registered under
/// handler id `i`. The first route with too many named parameters, that
/// the routing table refuses, or that has a parameter code naming no kind,
/// stops registration with its message.
pub fn register_routes(decls: &Vec<RouteDecl>) -> (registered: Result<AppRoutes, String>)
    ensures
        registered is Ok <==> forall|i: int| 0 <= i < decls@.len() ==> route_failure(decls@, i) is None,
        registered matches Err(message) ==> exists|i: int|
            0 <= i < decls@.len() && (forall|j: int| 0 <= j < i ==> route_failure(decls@, j) is None)
                && #[trigger] route_failure(decls@, i) == Some(message@),
        registered matches Ok(app) ==> {
            &&& app.entries().len() == decls@.len()
            &&& forall|i: int| 0 <= i < decls@.len() ==> entry_matches(#[trigger] app.entries()[i], decls@[i])
            &&& forall|m: Seq<char>| #[trigger]
                app.table().insertions(m) == if method_seen(decls@, decls@.len() as int, m) {
                    Some(prior_insertions(decls@, decls@.len() as int, m))
                } else {
                    None
                }
            &&& forall|m: Seq<char>, i: int|
                #![trigger app.table().insertions(m)->0[i]]
                app.table().insertions(m) is Some && 0 <= i < app.table().insertions(m)->0.len() ==> {
                    let id = app.table().insertions(m)->0[i].1 as int;
                    &&& id < decls@.len()
                    &&& decls@[id].method@ == m
                    &&& decls@[id].path@ == app.table().insertions(m)->0[i].0
                    &&& app.entries()[id].method@ == m
                }
        },
{
    let n = decls.len();
    let mut router = Router::new();
    let mut routes: Vec<RouteEntry> = Vec::new();
    let mut i: usize = 0;
    while i < n
        invariant
            n == decls@.len(),
            i <= n,
            routes@.len() == i,
            forall|j: int| 0 <= j < i ==> route_failure(decls@, j) is None,
            forall|j: int| 0 <= j < i ==> entry_matches(#[trigger] routes@[j], decls@[j]),
            forall|m: Seq<char>| #[trigger] router.accepts_more(m),
            forall|m: Seq<char>| #[trigger]
                router.insertions(m) == if method_seen(decls@, i as int, m) {
                    Some(prior_insertions(decls@, i as int, m))
                } else {
                    None
                },
        decreases n - i,
    {
        let decl = &decls[i];
        if !route_params_fit(decl.path.as_str()) {
            let mut reason = String::new();
            reason.append("Too many route parameters.");
            let error = RouteRegistrationError {
                method: decl.method.clone(),
                path: decl.path.clone(),
                reason,
            };
            let message = error.message();
            assert(route_failure(decls@, i as int) == Some(message@));
            return Err(message);
        }
        let ghost before = router;
        proof {
            if !method_seen(decls@, i as int, decl.method@) {
                lemma_prior_unseen(decls@, i as int, decl.method@);
            }
        }
        let added = router.add_route(decl.method.as_str(), decl.path.as_str(), i);
        proof {
            assert forall|m: Seq<char>| #[trigger] router.insertions(m) == if method_seen(decls@, i + 1, m) {
                Some(prior_insertions(decls@, i + 1, m))
            } else {
                None
            } by {
                if m == decl.method@ {
                    assert(decls@[i as int].method@ == m);
                    assert(method_seen(decls@, i + 1, m));
                } else {
                    assert(method_seen(decls@, i + 1, m) == method_seen(decls@, i as int, m)) by {
                        if method_seen(decls@, i + 1, m) {
                            let j = choose|j: int| 0 <= j < i + 1 && (#[trigger] decls@[j]).method@ == m;
                            assert(j < i);
                        }
                    }
                }
            }
        }
        proof {
            let prior = prior_insertions(decls@, i as int, decl.method@);
            assert(match before.insertions(decl.method@) {
                Some(h) => h,
                None => Seq::empty(),
            } == prior);
        }
        match added {
            Err(error) => {
                let message = error.message();
                assert(route_failure(decls@, i as int) == Some(message@));
                return Err(message);
            },
            Ok(()) => {},
        }
        proof {
            assert forall|m: Seq<char>| #[trigger] router.accepts_more(m) by {
                if m != decl.method@ {
                    assert(before.accepts_more(m));
                }
            }
        }
        match resolve_codes(&decl.params) {
            Err(p) => {
                let message = unknown_code_text(&decl.method, &decl.path, decl.params[p].1, &decl.params[p].0);
                proof {
                    let q = choose|q: int| is_first_unknown_code(decl.params@, q);
                    if q < p {
                        assert(kind_of_code(decl.params@[q].1) is Some);
                    } else if p < q {
                        assert(kind_of_code(decl.params@[p as int].1) is Some);
                    }
                    assert(route_failure(decls@, i as int) == Some(message@));
                }
                return Err(message);
            },
            Ok(kinds) => {
                routes.push(
                    RouteEntry {
                        method: decl.method.clone(),
                        path: decl.path.clone(),
                        is_async: decl.is_async,
                        params: kinds,
                    },
                );
            },
        }
        i = i + 1;
    }
    proof {
        assert forall|m: Seq<char>| #![trigger router.insertions(m)] router.insertions(m) is Some implies forall|k: int|
            0 <= k < router.insertions(m)->0.len() ==> (#[trigger] router.insertions(m)->0[k]).1 < routes@.len() by {
            lemma_prior_ids(decls@, n as int, m);
        }
    }
    let app = AppRoutes { router, routes };
    proof {
        assert forall|m: Seq<char>, i: int|
            #![trigger app.table().insertions(m)->0[i]]
            app.table().insertions(m) is Some && 0 <= i < app.table().insertions(m)->0.len() implies {
                let id = app.table().insertions(m)->0[i].1 as int;
                &&& id < decls@.len()
                &&& decls@[id].method@ == m
                &&& decls@[id].path@ == app.table().insertions(m)->0[i].0
                &&& app.entries()[id].method@ == m
            } by {
            routes_are_registered_under_their_positions(decls@, n as int, m);
            let id = app.table().insertions(m)->0[i].1 as int;
            assert(entry_matches(app.entries()[id], decls@[id]));
        }
    }
    Ok(app)
}

} // verus!
