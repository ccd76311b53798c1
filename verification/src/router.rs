//! Routing with typed path parameters, built at startup from the routes the
//! Python surface registers and never changed while serving. One radix tree
//! per HTTP method; the radix trees are `matchit`'s.

use vstd::prelude::*;
use vstd::string::StringExecFns;
use vstd::string::StringSliceAdditionalSpecFns;
use crate::params::params_view;

verus! {

/// A `matchit` radix tree that maps routes to handler ids. Verus sees
/// nothing inside it: what it holds is `tree_insertions`.
#[verifier::external_body]
pub struct RadixTree {
    tree: matchit::Router<usize>,
}

/// The insertions made into a `matchit` radix tree, in order, with the
/// value of each; refused insertions are included, since a refused
/// insertion can still reshape the tree.
pub uninterp spec fn tree_insertions(tree: RadixTree) -> Seq<(Seq<char>, usize)>;

/// What `matchit::Router::insert` answers for `route` after the given
/// insertions: `None` when it accepts it, else the text of its refusal.
pub uninterp spec fn insert_refusal(insertions: Seq<(Seq<char>, usize)>, route: Seq<char>) -> Option<
    Seq<char>,
>;

/// What `matchit::Router::at` finds for `path` after the given insertions:
/// the value stored with the matching route and the captured parameters
/// (name, raw value) in the order of the route, or nothing.
pub uninterp spec fn tree_lookup(insertions: Seq<(Seq<char>, usize)>, path: Seq<char>) -> Option<
    (usize, Seq<(Seq<char>, Seq<char>)>),
>;

/// A route without parameters: no `{` or `}` in it.
pub open spec fn is_static_route(route: Seq<char>) -> bool {
    route.len() > 0 && forall|k: int| 0 <= k < route.len() ==> route[k] != '{' && route[k] != '}'
}

/// The segments of a text, between its `/` characters (a text without
/// `/` is one segment; `/` at either end gives an empty segment there).
pub open spec fn segments(text: Seq<char>) -> Seq<Seq<char>>
    decreases text.len(),
{
    if text.len() == 0 {
        seq![Seq::empty()]
    } else {
        let before = segments(text.drop_last());
        if text.last() == '/' {
            before.push(Seq::empty())
        } else {
            before.update(before.len() - 1, before.last().push(text.last()))
        }
    }
}

/// The name of a segment that is a whole named parameter, `{name}`, with a
/// name of at least one character and none of `{`, `}`, `*` and `/` in it.
pub open spec fn whole_segment_param(segment: Seq<char>) -> Option<Seq<char>> {
    let name = segment.subrange(1, segment.len() - 1);
    if segment.len() >= 3 && segment[0] == '{' && segment.last() == '}' && forall|k: int|
        0 <= k < name.len() ==> name[k] != '{' && name[k] != '}' && name[k] != '*' && name[k] != '/' {
        Some(name)
    } else {
        None
    }
}

/// A route of static segments (no braces) and whole-segment named
/// parameters, starting with `/`.
pub open spec fn plain_route(route: Seq<char>) -> bool {
    &&& route.len() > 0
    &&& route[0] == '/'
    &&& forall|i: int|
        0 <= i < segments(route).len() ==> (#[trigger] whole_segment_param(segments(route)[i])) is Some
            || forall|k: int|
            0 <= k < segments(route)[i].len() ==> segments(route)[i][k] != '{' && segments(route)[i][k]
                != '}'
}

/// What a path captures against the segments of a plain route: the (name,
/// value) of each parameter segment in order, when the path has as many
/// segments, the same static segments, and a non-empty value in each
/// parameter segment; otherwise nothing.
pub open spec fn segment_captures(route: Seq<Seq<char>>, path: Seq<Seq<char>>) -> Option<
    Seq<(Seq<char>, Seq<char>)>,
>
    decreases route.len(),
{
    if route.len() != path.len() {
        None
    } else if route.len() == 0 {
        Some(Seq::empty())
    } else {
        match segment_captures(route.drop_last(), path.drop_last()) {
            None => None,
            Some(captured) => match whole_segment_param(route.last()) {
                Some(name) => if path.last().len() > 0 {
                    Some(captured.push((name, path.last())))
                } else {
                    None
                },
                None => if route.last() == path.last() {
                    Some(captured)
                } else {
                    None
                },
            },
        }
    }
}

/// Insertion `i` was accepted by the tree.
pub open spec fn insertion_accepted(insertions: Seq<(Seq<char>, usize)>, i: int) -> bool {
    0 <= i < insertions.len() && insert_refusal(insertions.take(i), insertions[i].0) is None
}

/// Every one of the insertions was accepted.
pub open spec fn all_accepted(insertions: Seq<(Seq<char>, usize)>) -> bool {
    forall|i: int| 0 <= i < insertions.len() ==> #[trigger] insertion_accepted(insertions, i)
}

/// After insertions that were all accepted, the insertions with one more
/// are all accepted exactly when that one is.
proof fn lemma_all_accepted_push(insertions: Seq<(Seq<char>, usize)>, next: (Seq<char>, usize))
    requires
        all_accepted(insertions),
    ensures
        all_accepted(insertions.push(next)) <==> insert_refusal(insertions, next.0) is None,
{
    let longer = insertions.push(next);
    assert(longer.take(insertions.len() as int) =~= insertions);
    assert forall|i: int| 0 <= i < insertions.len() implies #[trigger] insertion_accepted(longer, i) by {
        assert(longer.take(i) =~= insertions.take(i));
        assert(insertion_accepted(insertions, i));
    }
    if insert_refusal(insertions, next.0) is None {
        assert(insertion_accepted(longer, insertions.len() as int));
    } else {
        assert(!insertion_accepted(longer, insertions.len() as int));
    }
}

/// How many named parameters a route may declare at most: the tree names
/// them `a` to `z` internally and cannot take a 27th letter.
pub open spec fn named_param_limit() -> nat {
    25
}

/// Whether `s` starts with an escaped brace, `{{` or `}}`.
pub open spec fn starts_with_escape(s: Seq<u8>) -> bool {
    s.len() >= 2 && ((s[0] == 0x7b && s[1] == 0x7b) || (s[0] == 0x7d && s[1] == 0x7d))
}

/// Reads a route from its first byte as `matchit::Router::insert` reads its
/// parameters, up to the route's first invalid parameter or its end: how
/// many named parameters it names on the way, and whether one of them is
/// directly followed by an escaped brace. `{{` and `}}` are escaped braces;
/// a parameter is `{`, a first name byte that is not `}`, more name bytes
/// without `*` or `/`, and an unescaped `}`. A parameter whose name starts
/// with `*` is a catch-all and is not named; `{*}` is invalid. An unescaped
/// `}` outside a parameter, and a parameter without its closing `}`, are
/// invalid.
pub open spec fn params_outside(s: Seq<u8>) -> (nat, bool)
    decreases s.len(),
{
    if s.len() == 0 {
        (0, false)
    } else if starts_with_escape(s) {
        params_outside(s.skip(2))
    } else if s[0] == 0x7d {
        (0, false)
    } else if s[0] == 0x7b {
        if s.len() < 2 || s[1] == 0x7d {
            (0, false)
        } else {
            params_in_name(s.skip(2), s[1] == 0x2a, true)
        }
    } else {
        params_outside(s.skip(1))
    }
}

/// The rest of `params_outside`, inside a parameter's name: `catch_all`
/// tells whether the name started with `*`, `at_start` whether nothing
/// after its first byte has been read yet.
pub open spec fn params_in_name(s: Seq<u8>, catch_all: bool, at_start: bool) -> (nat, bool)
    decreases s.len(),
{
    if s.len() == 0 {
        (0, false)
    } else if starts_with_escape(s) {
        params_in_name(s.skip(2), catch_all, false)
    } else if s[0] == 0x7d {
        if catch_all && at_start {
            (0, false)
        } else if catch_all {
            params_outside(s.skip(1))
        } else {
            let after = params_outside(s.skip(1));
            (after.0 + 1, after.1 || starts_with_escape(s.skip(1)))
        }
    } else if s[0] == 0x2a || s[0] == 0x2f {
        (0, false)
    } else {
        params_in_name(s.skip(1), catch_all, false)
    }
}

/// The named parameters of a route before its first invalid parameter.
pub open spec fn named_param_count(route: Seq<u8>) -> nat {
    params_outside(route).0
}

/// A named parameter of the route, before its first invalid parameter, is
/// directly followed by an escaped brace. `matchit` keeps the position of
/// that brace unshifted when it renames the parameter, so from there on
/// its reading of the route may differ from `params_outside`.
pub open spec fn escape_follows_param(route: Seq<u8>) -> bool {
    params_outside(route).1
}

/// The `{` bytes of a route: no reading of the route can name more
/// parameters than that.
pub open spec fn open_brace_count(route: Seq<u8>) -> nat
    decreases route.len(),
{
    if route.len() == 0 {
        0
    } else {
        open_brace_count(route.drop_last()) + if route.last() == 0x7b {
            1nat
        } else {
            0nat
        }
    }
}

/// `matchit::Router::insert` names at most 25 parameters in the route, the
/// most it can (it names them `a` to `z` and panics on a 26th): the route
/// has at most 25 `{`, or it is read as `params_outside` reads it and names
/// at most 25 there.
pub open spec fn param_count_fits(route: Seq<u8>) -> bool {
    open_brace_count(route) <= named_param_limit() || (named_param_count(route) <= named_param_limit()
        && !escape_follows_param(route))
}

/// Reads a route's parameters as `params_outside` does.
fn scan_route_params(route: &str) -> (scanned: (usize, bool))
    ensures
        scanned.0 == params_outside(route.spec_bytes()).0,
        scanned.1 == params_outside(route.spec_bytes()).1,
{
    let bytes = route.as_bytes();
    let n = bytes.len();
    let ghost total = params_outside(bytes@);
    let mut count: usize = 0;
    let mut escaped_after = false;
    let mut in_name = false;
    let mut catch_all = false;
    let mut at_start = false;
    let mut i: usize = 0;
    assert(bytes@.skip(0) =~= bytes@);
    while i < n
        invariant
            n == bytes@.len(),
            bytes@ == route.spec_bytes(),
            total == params_outside(bytes@),
            i <= n,
            count <= i,
            ({
                let rest = if in_name {
                    params_in_name(bytes@.skip(i as int), catch_all, at_start)
                } else {
                    params_outside(bytes@.skip(i as int))
                };
                count + rest.0 == total.0 && (escaped_after || rest.1) == total.1
            }),
        decreases n - i,
    {
        let ghost rest = bytes@.skip(i as int);
        assert(rest[0] == bytes@[i as int]);
        let pair = i + 1 < n && ((bytes[i] == 0x7b && bytes[i + 1] == 0x7b) || (bytes[i] == 0x7d
            && bytes[i + 1] == 0x7d));
        if i + 1 < n {
            assert(rest[1] == bytes@[i + 1]);
        }
        assert(pair == starts_with_escape(rest));
        if pair {
            assert(rest.skip(2) =~= bytes@.skip(i + 2));
            at_start = false;
            i = i + 2;
        } else if !in_name {
            if bytes[i] == 0x7d {
                return (count, escaped_after);
            } else if bytes[i] == 0x7b {
                if i + 1 >= n || bytes[i + 1] == 0x7d {
                    return (count, escaped_after);
                }
                assert(rest.skip(2) =~= bytes@.skip(i + 2));
                in_name = true;
                catch_all = bytes[i + 1] == 0x2a;
                at_start = true;
                i = i + 2;
            } else {
                assert(rest.skip(1) =~= bytes@.skip(i + 1));
                i = i + 1;
            }
        } else {
            if bytes[i] == 0x7d {
                if catch_all && at_start {
                    return (count, escaped_after);
                }
                let ghost after = rest.skip(1);
                assert(after =~= bytes@.skip(i + 1));
                if !catch_all {
                    let escape_next = i + 1 < n && i + 2 < n && ((bytes[i + 1] == 0x7b && bytes[i + 2] == 0x7b)
                        || (bytes[i + 1] == 0x7d && bytes[i + 2] == 0x7d));
                    if i + 1 < n && i + 2 < n {
                        assert(after[0] == bytes@[i + 1] && after[1] == bytes@[i + 2]);
                    }
                    assert(escape_next == starts_with_escape(after));
                    count = count + 1;
                    escaped_after = escaped_after || escape_next;
                }
                in_name = false;
                i = i + 1;
            } else if bytes[i] == 0x2a || bytes[i] == 0x2f {
                return (count, escaped_after);
            } else {
                assert(rest.skip(1) =~= bytes@.skip(i + 1));
                at_start = false;
                i = i + 1;
            }
        }
    }
    assert(bytes@.skip(n as int) =~= Seq::<u8>::empty());
    (count, escaped_after)
}

/// Counts the named parameters of a route as `named_param_count` does.
pub fn count_named_params(route: &str) -> (count: usize)
    ensures
        count == named_param_count(route.spec_bytes()),
{
    scan_route_params(route).0
}

/// Counts the `{` bytes of a route.
fn count_open_braces(route: &str) -> (count: usize)
    ensures
        count == open_brace_count(route.spec_bytes()),
{
    let bytes = route.as_bytes();
    let n = bytes.len();
    let mut count: usize = 0;
    let mut i: usize = 0;
    while i < n
        invariant
            n == bytes@.len(),
            i <= n,
            count <= i,
            count == open_brace_count(bytes@.take(i as int)),
        decreases n - i,
    {
        assert(bytes@.take(i + 1).drop_last() =~= bytes@.take(i as int));
        if bytes[i] == 0x7b {
            count = count + 1;
        }
        i = i + 1;
    }
    assert(bytes@.take(n as int) =~= bytes@);
    count
}

/// Whether `matchit` can take the route's parameters, as `param_count_fits`
/// says.
pub fn route_params_fit(route: &str) -> (fits: bool)
    ensures
        fits == param_count_fits(route.spec_bytes()),
{
    if count_open_braces(route) <= 25 {
        return true;
    }
    let scanned = scan_route_params(route);
    scanned.0 <= 25 && !scanned.1
}

/// Creates an empty radix tree: `matchit::Router::new`, which holds no
/// route and has seen no insertion.
#[verifier::external_body]
fn new_tree() -> (tree: RadixTree)
    ensures
        tree_insertions(tree) == Seq::<(Seq<char>, usize)>::empty(),
{
    RadixTree { tree: matchit::Router::new() }
}

/// Inserts a route: `matchit::Router::insert`. The insertion is recorded
/// whatever the answer; the answer is the refusal text (the `Display` of
/// `matchit::InsertError`, never empty) that `insert_refusal` names, or
/// `None`. `insert` panics on a route with more than 25 named parameters,
/// which the precondition leaves out. It can also panic once refused
/// insertions have left empty nodes in the tree (building the text of a
/// later conflict can then cut a character in two), so the precondition
/// asks that the tree has refused nothing so far.
#[verifier::external_body]
fn tree_insert(tree: &mut RadixTree, route: &str, value: usize) -> (refusal: Option<
    String,
>)
    requires
        param_count_fits(route.spec_bytes()),
        all_accepted(tree_insertions(*old(tree))),
    ensures
        tree_insertions(*final(tree)) == tree_insertions(*old(tree)).push((route@, value)),
        refusal matches Some(r) ==> insert_refusal(tree_insertions(*old(tree)), route@) == Some(r@)
            && r@.len() > 0,
        refusal is None ==> insert_refusal(tree_insertions(*old(tree)), route@) is None,
{
    tree.tree.insert(route, value).err().map(|insert_error| insert_error.to_string())
}

/// Matches a path: `matchit::Router::at`, with the captured parameters
/// copied out as owned (name, value) pairs; `None` for `MatchError`. The
/// value found is one that was inserted: the tree stores values only where
/// `insert` puts them. A path equal to an accepted route without
/// parameters finds that route's value and no parameters: static segments
/// take priority over parameters (matchit's documented routing priority).
/// In a tree that holds one accepted route, made of static segments and
/// whole-segment named parameters, a path is found exactly when it
/// matches the route segment by segment, each parameter taking the whole,
/// non-empty, segment ("named parameters match anything until the next
/// static segment or the end of the path"), with the parameters in route
/// order under their own names.
#[verifier::external_body]
fn tree_at(tree: &RadixTree, path: &str) -> (found: Option<(usize, Vec<(String, String)>)>)
    ensures
        found_view(found) == tree_lookup(tree_insertions(*tree), path@),
        found matches Some((id, _)) ==> exists|i: int|
            0 <= i < tree_insertions(*tree).len() && (#[trigger] tree_insertions(*tree)[i]).1 == id,
        forall|i: int|
            insertion_accepted(tree_insertions(*tree), i) && is_static_route(tree_insertions(*tree)[i].0)
                && #[trigger] tree_insertions(*tree)[i].0 == path@ ==> found_view(found) == Some(
                (tree_insertions(*tree)[i].1, Seq::<(Seq<char>, Seq<char>)>::empty()),
            ),
        ({
            let insertions = tree_insertions(*tree);
            insertions.len() == 1 && insertion_accepted(insertions, 0) && plain_route(insertions[0].0)
                ==> found_view(found) == match segment_captures(segments(insertions[0].0), segments(path@)) {
                Some(captured) => Some((insertions[0].1, captured)),
                None => None,
            }
        }),
{
    match tree.tree.at(path) {
        Ok(matched) => Some((
            *matched.value,
            matched.params.iter().map(|(name, value)| (name.to_owned(), value.to_owned())).collect(),
        )),
        Err(_) => None,
    }
}

/// A lookup outcome as text.
pub open spec fn found_view(found: Option<(usize, Vec<(String, String)>)>) -> Option<
    (usize, Seq<(Seq<char>, Seq<char>)>),
> {
    match found {
        Some((id, params)) => Some((id, params_view(params@))),
        None => None,
    }
}

/// A successful lookup: which registered handler matched, and the raw path
/// parameter values captured from the URL (typed conversion happens at the
/// dispatch boundary, where a failure can become a 422 response).
pub struct RouteMatch {
    pub handler_id: usize,
    pub path_params: Vec<(String, String)>,
}

/// A lookup outcome as text.
pub open spec fn match_view(m: Option<RouteMatch>) -> Option<(usize, Seq<(Seq<char>, Seq<char>)>)> {
    match m {
        Some(m) => Some((m.handler_id, params_view(m.path_params@))),
        None => None,
    }
}

impl RouteMatch {
    /// The match for what the radix tree found.
    pub fn from_found(found: Option<(usize, Vec<(String, String)>)>) -> (matched: Option<RouteMatch>)
        ensures
            match_view(matched) == found_view(found),
    {
        match found {
            Some((handler_id, path_params)) => Some(RouteMatch { handler_id, path_params }),
            None => None,
        }
    }
}

/// A route failed to register at startup, reported with the route that
/// caused it (configuration errors are never deferred to request time).
pub struct RouteRegistrationError {
    pub method: String,
    pub path: String,
    pub reason: String,
}

/// The text of a registration error.
pub open spec fn registration_message(method: Seq<char>, path: Seq<char>, reason: Seq<char>) -> Seq<
    char,
> {
    "cannot register route "@ + method + " "@ + path + ": "@ + reason
}

impl RouteRegistrationError {
    /// The outcome of registering `method` `path`, given the radix tree's
    /// refusal, if it refused.
    pub fn from_refusal(method: &str, path: &str, refusal: Option<String>) -> (outcome: Result<
        (),
        RouteRegistrationError,
    >)
        ensures
            outcome is Ok <==> refusal is None,
            outcome matches Err(e) ==> e.method@ == method@ && e.path@ == path@ && refusal
                == Some(e.reason),
    {
        match refusal {
            None => Ok(()),
            Some(reason) => Err(
                RouteRegistrationError { method: method.to_owned(), path: path.to_owned(), reason },
            ),
        }
    }

    /// The error's text: `cannot register route <method> <path>: <reason>`.
    pub fn message(&self) -> (text: String)
        ensures
            text@ == registration_message(self.method@, self.path@, self.reason@),
    {
        let mut text = String::new();
        text.append("cannot register route ");
        text.append(self.method.as_str());
        text.append(" ");
        text.append(self.path.as_str());
        text.append(": ");
        text.append(self.reason.as_str());
        text
    }
}

/// The tree registered for `method` among `trees`, if any.
pub open spec fn tree_for(trees: Seq<(String, RadixTree)>, method: Seq<char>) -> Option<
    RadixTree,
>
    decreases trees.len(),
{
    if trees.len() == 0 {
        None
    } else if trees.last().0@ == method {
        Some(trees.last().1)
    } else {
        tree_for(trees.drop_last(), method)
    }
}

/// No two trees are registered under one method.
pub open spec fn methods_distinct(trees: Seq<(String, RadixTree)>) -> bool {
    forall|i: int, j: int| 0 <= i < j < trees.len() ==> (#[trigger] trees[i]).0@ != (#[trigger] trees[j]).0@
}

proof fn lemma_tree_for_absent(trees: Seq<(String, RadixTree)>, method: Seq<char>)
    requires
        forall|i: int| 0 <= i < trees.len() ==> (#[trigger] trees[i]).0@ != method,
    ensures
        tree_for(trees, method) is None,
    decreases trees.len(),
{
    if trees.len() > 0 {
        lemma_tree_for_absent(trees.drop_last(), method);
    }
}

proof fn lemma_tree_for_at(trees: Seq<(String, RadixTree)>, i: int)
    requires
        methods_distinct(trees),
        0 <= i < trees.len(),
    ensures
        tree_for(trees, trees[i].0@) == Some(trees[i].1),
    decreases trees.len(),
{
    if i < trees.len() - 1 {
        assert(trees[i].0@ != trees[trees.len() - 1].0@);
        lemma_tree_for_at(trees.drop_last(), i);
    }
}

/// Replacing the tree at `i` by `t` changes what `tree_for` gives for the
/// method at `i` only.
proof fn lemma_tree_for_update(
    trees: Seq<(String, RadixTree)>,
    i: int,
    t: RadixTree,
    method: Seq<char>,
)
    requires
        methods_distinct(trees),
        0 <= i < trees.len(),
    ensures
        tree_for(trees.update(i, (trees[i].0, t)), method) == (if method == trees[i].0@ {
            Some(t)
        } else {
            tree_for(trees, method)
        }),
    decreases trees.len(),
{
    let u = trees.update(i, (trees[i].0, t));
    if i == trees.len() - 1 {
        assert(u.drop_last() =~= trees.drop_last());
    } else {
        assert(u.drop_last() =~= trees.drop_last().update(i, (trees[i].0, t)));
        assert(trees[i].0@ != trees[trees.len() - 1].0@);
        lemma_tree_for_update(trees.drop_last(), i, t, method);
    }
}

proof fn lemma_tree_for_found(trees: Seq<(String, RadixTree)>, method: Seq<char>)
    requires
        tree_for(trees, method) is Some,
    ensures
        exists|j: int| 0 <= j < trees.len() && (#[trigger] trees[j]).0@ == method && tree_for(trees, method) == Some(trees[j].1),
    decreases trees.len(),
{
    if trees.last().0@ == method {
        assert(trees[trees.len() - 1].0@ == method);
    } else {
        lemma_tree_for_found(trees.drop_last(), method);
        let j = choose|j: int| 0 <= j < trees.len() - 1 && (#[trigger] trees.drop_last()[j]).0@ == method && tree_for(trees.drop_last(), method) == Some(trees.drop_last()[j].1);
        assert(trees[j] == trees.drop_last()[j]);
    }
}

/// What the routing table finds for a request.
pub open spec fn found_for(table: Router, method: Seq<char>, path: Seq<char>) -> Option<
    (usize, Seq<(Seq<char>, Seq<char>)>),
> {
    match table.insertions(method) {
        None => None,
        Some(insertions) => tree_lookup(insertions, path),
    }
}

/// Some method other than `method` has a route that matches `path`.
pub open spec fn found_under_other_method(table: Router, method: Seq<char>, path: Seq<char>) -> bool {
    exists|other: Seq<char>| other != method && (#[trigger] found_for(table, other, path)) is Some
}

/// The routing table: one radix tree per HTTP method, immutable once
/// serving starts.
pub struct Router {
    trees_by_method: Vec<(String, RadixTree)>,
}

impl Router {
    #[verifier::type_invariant]
    spec fn one_tree_per_method(&self) -> bool {
        methods_distinct(self.trees_by_method@)
    }

    /// The insertions made for `method`, if it has a tree.
    pub closed spec fn insertions(&self, method: Seq<char>) -> Option<Seq<(Seq<char>, usize)>> {
        match tree_for(self.trees_by_method@, method) {
            Some(tree) => Some(tree_insertions(tree)),
            None => None,
        }
    }

    /// Every insertion made for `method` so far was accepted (so trivially
    /// when it has no tree yet): its tree can take another route.
    pub open spec fn accepts_more(&self, method: Seq<char>) -> bool {
        match self.insertions(method) {
            None => true,
            Some(insertions) => all_accepted(insertions),
        }
    }

    /// An empty routing table.
    pub fn new() -> (router: Router)
        ensures
            forall|method: Seq<char>| router.insertions(method) is None,
    {
        Router { trees_by_method: Vec::new() }
    }

    /// Registers `path` for `method`, to be answered by handler
    /// `handler_id`. The method's tree is created first if it has none;
    /// the tree's refusal (a conflict, an invalid parameter) becomes the
    /// error, naming the route. Other methods' trees are not touched. The
    /// method's tree must not have refused a route before: after a refusal
    /// it takes no more routes.
    pub fn add_route(&mut self, method: &str, path: &str, handler_id: usize) -> (outcome: Result<
        (),
        RouteRegistrationError,
    >)
        requires
            param_count_fits(path.spec_bytes()),
            old(self).accepts_more(method@),
        ensures
            final(self).accepts_more(method@) <==> outcome is Ok,
            ({
                let before = match old(self).insertions(method@) {
                    Some(h) => h,
                    None => Seq::empty(),
                };
                &&& final(self).insertions(method@) == Some(before.push((path@, handler_id)))
                &&& (outcome is Ok <==> insert_refusal(before, path@) is None)
                &&& outcome matches Err(e) ==> e.method@ == method@ && e.path@ == path@ && insert_refusal(
                    before,
                    path@,
                ) == Some(e.reason@) && e.reason@.len() > 0
            }),
            forall|other: Seq<char>|
                other != method@ ==> #[trigger] final(self).insertions(other) == old(self).insertions(
                    other,
                ),
    {
        proof {
            use_type_invariant(&*self);
        }
        let mut trees: Vec<(String, RadixTree)> = Vec::new();
        std::mem::swap(&mut trees, &mut self.trees_by_method);
        let ghost start = trees@;
        let n = trees.len();
        let mut i: usize = 0;
        while i < n
            invariant
                n == trees@.len(),
                i <= n,
                forall|j: int| 0 <= j < i ==> (#[trigger] trees@[j]).0@ != method@,
            ensures
                i <= n,
                forall|j: int| 0 <= j < i ==> (#[trigger] trees@[j]).0@ != method@,
                i < n ==> trees@[i as int].0@ == method@,
            decreases n - i,
        {
            if crate::params::str_eq(trees[i].0.as_str(), method) {
                break;
            }
            i = i + 1;
        }
        if i == n {
            proof {
                lemma_tree_for_absent(trees@, method@);
            }
            trees.push((method.to_owned(), new_tree()));
            proof {
                assert(trees@.drop_last() =~= start);
                assert(methods_distinct(trees@)) by {
                    assert forall|a: int, b: int| 0 <= a < b < trees@.len() implies (#[trigger] trees@[a]).0@
                        != (#[trigger] trees@[b]).0@ by {
                        if b == trees@.len() - 1 {
                            assert(trees@[a] == start[a]);
                        } else {
                            assert(trees@[a] == start[a] && trees@[b] == start[b]);
                        }
                    }
                }
                assert forall|other: Seq<char>| other != method@ implies tree_for(
                    trees@,
                    other,
                ) == tree_for(start, other) by {}
            }
        }
        proof {
            lemma_tree_for_at(trees@, i as int);
        }
        let ghost mid = trees@;
        proof {
            lemma_all_accepted_push(tree_insertions(mid[i as int].1), (path@, handler_id));
        }
        let refusal = tree_insert(&mut trees[i].1, path, handler_id);
        proof {
            assert forall|other: Seq<char>| true implies tree_for(trees@, other) == (
            if other == mid[i as int].0@ {
                Some(trees@[i as int].1)
            } else {
                tree_for(mid, other)
            }) by {
                lemma_tree_for_update(mid, i as int, trees@[i as int].1, other);
                assert(trees@ =~= mid.update(
                    i as int,
                    (mid[i as int].0, trees@[i as int].1),
                ));
            }
        }
        proof {
            assert(methods_distinct(trees@)) by {
                assert forall|a: int, b: int| 0 <= a < b < trees@.len() implies (#[trigger] trees@[a]).0@
                    != (#[trigger] trees@[b]).0@ by {
                    assert(trees@[a].0 == mid[a].0 && trees@[b].0 == mid[b].0);
                }
            }
        }
        self.trees_by_method = trees;
        RouteRegistrationError::from_refusal(method, path, refusal)
    }

    /// Finds the handler for `method` and `path`, with the raw values of
    /// the path parameters; nothing for a method without routes or a path
    /// that no route of the method matches.
    pub fn lookup(&self, method: &str, path: &str) -> (matched: Option<RouteMatch>)
        ensures
            match self.insertions(method@) {
                None => matched is None,
                Some(insertions) => {
                    &&& match_view(matched) == tree_lookup(insertions, path@)
                    &&& matched matches Some(m) ==> exists|i: int|
                        0 <= i < insertions.len() && (#[trigger] insertions[i]).1 == m.handler_id
                    &&& forall|i: int|
                        insertion_accepted(insertions, i) && is_static_route(insertions[i].0)
                            && #[trigger] insertions[i].0 == path@ ==> match_view(matched) == Some(
                            (insertions[i].1, Seq::<(Seq<char>, Seq<char>)>::empty()),
                        )
                    &&& insertions.len() == 1 && insertion_accepted(insertions, 0) && plain_route(
                        insertions[0].0,
                    ) ==> match_view(matched) == match segment_captures(
                        segments(insertions[0].0),
                        segments(path@),
                    ) {
                        Some(captured) => Some((insertions[0].1, captured)),
                        None => None,
                    }
                },
            },
    {
        proof {
            use_type_invariant(self);
        }
        let n = self.trees_by_method.len();
        let mut i: usize = 0;
        while i < n
            invariant
                n == self.trees_by_method@.len(),
                i <= n,
                methods_distinct(self.trees_by_method@),
                forall|j: int| 0 <= j < i ==> (#[trigger] self.trees_by_method@[j]).0@ != method@,
            decreases n - i,
        {
            if crate::params::str_eq(self.trees_by_method[i].0.as_str(), method) {
                proof {
                    lemma_tree_for_at(self.trees_by_method@, i as int);
                }
                return RouteMatch::from_found(tree_at(&self.trees_by_method[i].1, path));
            }
            i = i + 1;
        }
        proof {
            lemma_tree_for_absent(self.trees_by_method@, method@);
        }
        None
    }

    /// Whether a route of another method than `method` matches `path`:
    /// what tells a method that is not allowed (405) from a path that is
    /// not found (404).
    pub fn matched_by_other_method(&self, method: &str, path: &str) -> (other: bool)
        ensures
            other == found_under_other_method(*self, method@, path@),
    {
        proof {
            use_type_invariant(self);
        }
        let n = self.trees_by_method.len();
        let mut j: usize = 0;
        while j < n
            invariant
                n == self.trees_by_method@.len(),
                j <= n,
                methods_distinct(self.trees_by_method@),
                forall|k: int|
                    0 <= k < j ==> (#[trigger] self.trees_by_method@[k]).0@ == method@ || tree_lookup(
                        tree_insertions(self.trees_by_method@[k].1),
                        path@,
                    ) is None,
            decreases n - j,
        {
            if !crate::params::str_eq(self.trees_by_method[j].0.as_str(), method) {
                if tree_at(&self.trees_by_method[j].1, path).is_some() {
                    proof {
                        lemma_tree_for_at(self.trees_by_method@, j as int);
                        let other = self.trees_by_method@[j as int].0@;
                        assert(found_for(*self, other, path@) is Some);
                    }
                    return true;
                }
            }
            j = j + 1;
        }
        proof {
            assert forall|other: Seq<char>| other != method@ implies (#[trigger] found_for(*self, other, path@)) is None by {
                if tree_for(self.trees_by_method@, other) is Some {
                    lemma_tree_for_found(self.trees_by_method@, other);
                    let k = choose|k: int| 0 <= k < self.trees_by_method@.len() && (#[trigger] self.trees_by_method@[k]).0@ == other && tree_for(self.trees_by_method@, other) == Some(self.trees_by_method@[k].1);
                    assert(self.trees_by_method@[k].0@ != method@);
                }
            }
        }
        false
    }
}

/// What a registration gives back: a route that `add_route` accepted (the
/// tree refused nothing) stays accepted whatever is inserted after it, so,
/// by `lookup`'s contract, a route without parameters keeps being found by
/// its own path, with its handler id and no parameters.
pub proof fn registered_route_stays_accepted(
    before: Seq<(Seq<char>, usize)>,
    path: Seq<char>,
    handler_id: usize,
    later: Seq<(Seq<char>, usize)>,
)
    requires
        insert_refusal(before, path) is None,
    ensures
        insertion_accepted(before.push((path, handler_id)) + later, before.len() as int),
        (before.push((path, handler_id)) + later)[before.len() as int] == (path, handler_id),
{
    let all = before.push((path, handler_id)) + later;
    assert(all.take(before.len() as int) =~= before);
    assert(all[before.len() as int] == (path, handler_id));
}

} // verus!
