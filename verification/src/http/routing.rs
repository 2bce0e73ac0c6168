//! Route patterns and the router's dispatch decision.
//!
//! A route path such as `/users/:id` is compiled into the regular expression
//! `^/users/([^/]+)$` with the parameter names `["id"]`.  Matching is done by
//! the `regex` crate.
use vstd::prelude::*;
use crate::http::errors::Error;
use crate::text::{
    all_ascii, chars_of, concat, is_ascii_alnum, join, join_strings, owned, push_str, str_eq, string_of_range,
    string_push, views,
};

verus! {

// ---------------------------------------------------------------------------
// Trusted access to the `regex` crate and to `char::is_alphanumeric`
// ---------------------------------------------------------------------------

/// Whether `regex::Regex::new` accepts the pattern.
pub uninterp spec fn regex_compiles(pattern: Seq<char>) -> bool;

/// What `Regex::captures` returns for the pattern on `text`: `None` when the
/// text does not match, otherwise the groups in order (group 0 is the whole
/// match), each present or not.
pub uninterp spec fn regex_captures(pattern: Seq<char>, text: Seq<char>) -> Option<Seq<Option<Seq<char>>>>;

/// Whether `char::is_alphanumeric` holds (Unicode Alphabetic or Numeric).
pub uninterp spec fn unicode_alphanumeric(c: char) -> bool;

/// `regex::Regex::new(pattern).is_ok()`: whether the regex crate accepts the
/// pattern.  The contract claims only that the answer is the one named by
/// `regex_compiles` for this pattern.
#[verifier::external_body]
pub(crate) fn regex_check(pattern: &str) -> (r: bool)
    ensures
        r == regex_compiles(pattern@),
{
    regex::Regex::new(pattern).is_ok()
}

/// `regex::Regex::new(pattern)` followed by `Regex::captures(text)`, each
/// group converted to an owned string.  The contract claims that the result
/// is the one named by `regex_captures` for this pattern and text, with group
/// 0 present on a match (the regex documentation guarantees that the whole
/// match is always group 0).
#[verifier::external_body]
pub(crate) fn regex_captures_exec(pattern: &str, text: &str) -> (r: Option<Vec<Option<String>>>)
    requires
        regex_compiles(pattern@),
    ensures
        match r {
            None => regex_captures(pattern@, text@) is None,
            Some(groups) => regex_captures(pattern@, text@) == Some(
                groups@.map_values(|g: Option<String>| opt_str_view(g)),
            ) && groups@.len() >= 1,
        },
{
    let re = regex::Regex::new(pattern).unwrap();
    re.captures(text).map(|caps| caps.iter().map(|m| m.map(|m| m.as_str().to_string())).collect())
}

/// `char::is_alphanumeric`: the answer named by `unicode_alphanumeric`; among
/// ASCII characters exactly the letters and digits are alphanumeric.
#[verifier::external_body]
fn is_alphanumeric(c: char) -> (r: bool)
    ensures
        r == unicode_alphanumeric(c),
        (c as u32) < 128 ==> (r <==> is_ascii_alnum(c)),
{
    c.is_alphanumeric()
}

pub open spec fn opt_str_view(o: Option<String>) -> Option<Seq<char>> {
    match o {
        Some(s) => Some(s@),
        None => None,
    }
}

// ---------------------------------------------------------------------------
// Compiling a route path
// ---------------------------------------------------------------------------

/// Characters that are escaped in the generated regular expression.
pub open spec fn is_regex_special(c: char) -> bool {
    c == '.' || c == '+' || c == '?' || c == '^' || c == '$' || c == '(' || c == ')' || c == '['
        || c == ']' || c == '{' || c == '}' || c == '|' || c == '\\'
}

pub open spec fn is_param_char(c: char) -> bool {
    unicode_alphanumeric(c) || c == '_'
}

/// The length of the parameter name at the start of `s`.
pub open spec fn param_name_len(s: Seq<char>) -> nat
    decreases s.len(),
{
    if s.len() > 0 && is_param_char(s[0]) {
        1 + param_name_len(s.drop_first())
    } else {
        0
    }
}

/// The regex text for a route path (without the anchors) and its parameter
/// names: `:name` becomes `([^/]+)`, `*` becomes `(.*)`, regex
/// metacharacters are escaped and everything else is kept.
pub open spec fn path_regex(s: Seq<char>) -> (Seq<char>, Seq<Seq<char>>)
    decreases s.len(),
{
    if s.len() == 0 {
        (Seq::empty(), Seq::empty())
    } else {
        let c = s[0];
        if c == ':' {
            let n = param_name_len(s.drop_first()) as int;
            proof {
                lemma_param_name_len(s.drop_first());
            }
            let rest = path_regex(s.skip(1 + n));
            ("([^/]+)"@ + rest.0, seq![s.subrange(1, 1 + n)] + rest.1)
        } else {
            let rest = path_regex(s.drop_first());
            let piece = if c == '*' {
                "(.*)"@
            } else if is_regex_special(c) {
                seq!['\\', c]
            } else {
                seq![c]
            };
            (piece + rest.0, rest.1)
        }
    }
}

/// The anchored regex text of a route path.
pub open spec fn route_pattern(path: Seq<char>) -> Seq<char> {
    "^"@ + path_regex(path).0 + "$"@
}

/// The parameter names of a route path, in order.
pub open spec fn route_params(path: Seq<char>) -> Seq<Seq<char>> {
    path_regex(path).1
}

pub proof fn lemma_param_name_len(s: Seq<char>)
    ensures
        param_name_len(s) <= s.len(),
        forall|k: int| 0 <= k < param_name_len(s) ==> is_param_char(#[trigger] s[k]),
        param_name_len(s) < s.len() ==> !is_param_char(s[param_name_len(s) as int]),
    decreases s.len(),
{
    if s.len() > 0 && is_param_char(s[0]) {
        lemma_param_name_len(s.drop_first());
        assert forall|k: int| 0 <= k < param_name_len(s) implies is_param_char(#[trigger] s[k]) by {
            if k > 0 {
                assert(s[k] == s.drop_first()[k - 1]);
            }
        }
    }
}

/// A character of a parameter name among ASCII text: a letter, a digit or
/// `_`.
pub open spec fn is_ascii_param_char(c: char) -> bool {
    is_ascii_alnum(c) || c == '_'
}

/// The length of the ASCII parameter name at the start of `s`.
pub open spec fn ascii_param_name_len(s: Seq<char>) -> nat
    decreases s.len(),
{
    if s.len() > 0 && is_ascii_param_char(s[0]) {
        1 + ascii_param_name_len(s.drop_first())
    } else {
        0
    }
}

/// The ASCII parameter name at the start of a text is no longer than the
/// text.
pub proof fn lemma_ascii_param_name_len(s: Seq<char>)
    ensures
        ascii_param_name_len(s) <= s.len(),
    decreases s.len(),
{
    if s.len() > 0 && is_ascii_param_char(s[0]) {
        lemma_ascii_param_name_len(s.drop_first());
    }
}

/// The parameter names of a route path made of ASCII characters: after each
/// `:` the longest run of ASCII letters, digits and `_`.
pub open spec fn ascii_route_params(s: Seq<char>) -> Seq<Seq<char>>
    decreases s.len(),
{
    if s.len() == 0 {
        Seq::empty()
    } else if s[0] == ':' {
        let n = ascii_param_name_len(s.drop_first()) as int;
        proof {
            lemma_ascii_param_name_len(s.drop_first());
        }
        seq![s.subrange(1, 1 + n)] + ascii_route_params(s.skip(1 + n))
    } else {
        ascii_route_params(s.drop_first())
    }
}

proof fn lemma_ascii_run(t: Seq<char>, m: int)
    requires
        0 <= m <= t.len(),
        forall|k: int| 0 <= k < m ==> is_ascii_param_char(#[trigger] t[k]),
        m < t.len() ==> !is_ascii_param_char(t[m]),
    ensures
        ascii_param_name_len(t) == m,
    decreases m,
{
    if m > 0 {
        assert forall|k: int| 0 <= k < m - 1 implies is_ascii_param_char(#[trigger] t.drop_first()[k]) by {
            assert(t.drop_first()[k] == t[k + 1]);
        }
        if m - 1 < t.drop_first().len() {
            assert(t.drop_first()[m - 1] == t[m]);
        }
        lemma_ascii_run(t.drop_first(), m - 1);
    }
}

/// A compiled route: the anchored regex text and the parameter names.
#[derive(Debug)]
pub struct CompiledPath {
    pub pattern: String,
    pub param_names: Vec<String>,
}

/// The regex text (anchored with `^` and `$`) and the parameter names of a
/// route path.
pub fn compile_pattern(path: &str) -> (r: CompiledPath)
    ensures
        r.pattern@ == route_pattern(path@),
        r.param_names@.map_values(|n: String| n@) == route_params(path@),
        all_ascii(path@) ==> r.param_names@.map_values(|n: String| n@) == ascii_route_params(path@),
{
    let v = chars_of(path);
    let mut pattern = owned("^");
    let mut names: Vec<String> = Vec::new();
    let mut i: usize = 0;
    proof {
        assert(v@.skip(0) =~= v@);
        assert(pattern@ + path_regex(v@.skip(0)).0 =~= "^"@ + path_regex(path@).0);
        assert(names@.map_values(|n: String| n@) + path_regex(v@.skip(0)).1 =~= route_params(
            path@,
        ));
        assert(names@.map_values(|n: String| n@) + ascii_route_params(v@.skip(0)) =~= ascii_route_params(
            path@,
        ));
    }
    while i < v.len()
        invariant
            i <= v@.len(),
            v@ == path@,
            pattern@ + path_regex(v@.skip(i as int)).0 == "^"@ + path_regex(path@).0,
            names@.map_values(|n: String| n@) + path_regex(v@.skip(i as int)).1 == route_params(
                path@,
            ),
            all_ascii(path@) ==> names@.map_values(|n: String| n@) + ascii_route_params(
                v@.skip(i as int),
            ) == ascii_route_params(path@),
        decreases v.len() - i,
    {
        let ghost rest = v@.skip(i as int);
        let ghost nv = names@.map_values(|n: String| n@);
        let ghost pv = pattern@;
        let c = v[i];
        assert(rest[0] == c);
        if c == ':' {
            let start = i + 1;
            let mut j = start;
            proof {
                assert(rest.drop_first() =~= v@.skip(start as int));
                lemma_param_name_len(v@.skip(start as int));
            }
            while j < v.len() && (is_alphanumeric(v[j]) || v[j] == '_')
                invariant
                    start <= j <= v@.len(),
                    start == i + 1,
                    j - start <= param_name_len(v@.skip(start as int)),
                    param_name_len(v@.skip(start as int)) <= v@.skip(start as int).len(),
                    forall|k: int| 0 <= k < param_name_len(v@.skip(start as int)) ==> is_param_char(
                        #[trigger] v@.skip(start as int)[k],
                    ),
                    param_name_len(v@.skip(start as int)) < v@.skip(start as int).len()
                        ==> !is_param_char(
                        v@.skip(start as int)[param_name_len(v@.skip(start as int)) as int],
                    ),
                    v@ == path@,
                    all_ascii(path@) ==> forall|k: int|
                        start <= k < j ==> is_ascii_param_char(#[trigger] v@[k]),
                decreases v.len() - j,
            {
                proof {
                    let t = v@.skip(start as int);
                    if j - start == param_name_len(t) {
                        assert(t[j - start] == v@[j as int]);
                        assert(false);
                    }
                }
                j = j + 1;
            }
            proof {
                let t = v@.skip(start as int);
                if j - start < param_name_len(t) {
                    assert(t[j - start] == v@[j as int]);
                }
                assert(j - start == param_name_len(t));
                if all_ascii(path@) {
                    if j < v@.len() {
                        assert(!(unicode_alphanumeric(v@[j as int]) || v@[j as int] == '_'));
                        assert((v@[j as int] as u32) < 128);
                    }
                    assert forall|k: int| 0 <= k < j - start implies is_ascii_param_char(#[trigger] t[k]) by {
                        assert(t[k] == v@[start + k]);
                    }
                    if j < v@.len() {
                        assert(t[j - start] == v@[j as int]);
                    }
                    lemma_ascii_run(t, j - start);
                }
                assert(rest.skip(1 + (j - start)) =~= v@.skip(j as int));
                assert(rest.subrange(1, 1 + (j - start)) =~= v@.subrange(start as int, j as int));
            }
            let name = string_of_range(&v, start, j);
            names.push(name);
            push_str(&mut pattern, "([^/]+)");
            proof {
                assert(names@.map_values(|n: String| n@) =~= nv.push(name@));
                let rr = path_regex(v@.skip(j as int));
                assert(pattern@ + rr.0 =~= pv + ("([^/]+)"@ + rr.0));
                assert(nv.push(name@) + rr.1 =~= nv + (seq![name@] + rr.1));
                let ar = ascii_route_params(v@.skip(j as int));
                assert(nv.push(name@) + ar =~= nv + (seq![name@] + ar));
            }
            i = j;
        } else {
            proof {
                assert(rest.drop_first() =~= v@.skip(i + 1));
            }
            if c == '*' {
                push_str(&mut pattern, "(.*)");
            } else if c == '.' || c == '+' || c == '?' || c == '^' || c == '$' || c == '('
                || c == ')' || c == '[' || c == ']' || c == '{' || c == '}' || c == '|' || c
                == '\\' {
                string_push(&mut pattern, '\\');
                string_push(&mut pattern, c);
            } else {
                string_push(&mut pattern, c);
            }
            proof {
                let rr = path_regex(v@.skip(i + 1));
                let piece = if c == '*' {
                    "(.*)"@
                } else if is_regex_special(c) {
                    seq!['\\', c]
                } else {
                    seq![c]
                };
                assert(pattern@ =~= pv + piece);
                assert(pattern@ + rr.0 =~= pv + (piece + rr.0));
            }
            i = i + 1;
        }
    }
    proof {
        assert(v@.skip(i as int) =~= Seq::<char>::empty());
        assert(pattern@ + Seq::<char>::empty() =~= pattern@);
        assert(names@.map_values(|n: String| n@) + Seq::<Seq<char>>::empty() =~= names@.map_values(
            |n: String| n@,
        ));
    }
    push_str(&mut pattern, "$");
    CompiledPath { pattern, param_names: names }
}

/// Compiles a route path, or `None` when the regex crate refuses the
/// generated pattern.
pub fn compile_path(path: &str) -> (r: Option<CompiledPath>)
    ensures
        match r {
            Some(c) => c.pattern@ == route_pattern(path@) && c.param_names@.map_values(
                |n: String| n@,
            ) == route_params(path@) && regex_compiles(c.pattern@),
            None => !regex_compiles(route_pattern(path@)),
        },
{
    let c = compile_pattern(path);
    if regex_check(c.pattern.as_str()) {
        Some(c)
    } else {
        None
    }
}

/// Whether a route pattern matches a request path, or `None` when the
/// regex crate refuses the pattern.
pub fn pattern_matches(pattern: &str, text: &str) -> (r: Option<bool>)
    ensures
        match r {
            Some(b) => regex_compiles(pattern@) && b == regex_captures(pattern@, text@) is Some,
            None => !regex_compiles(pattern@),
        },
{
    if !regex_check(pattern) {
        return None;
    }
    match regex_captures_exec(pattern, text) {
        Some(_) => Some(true),
        None => Some(false),
    }
}

// ---------------------------------------------------------------------------
// The route table and the dispatch decision
// ---------------------------------------------------------------------------

/// A registered route: its compiled pattern, parameter names and the index
/// of its handler in the caller's handler list.
#[derive(Debug)]
pub struct Route {
    pub pattern: String,
    pub param_names: Vec<String>,
    pub handler: usize,
}

pub struct RouteView {
    pub pattern: Seq<char>,
    pub params: Seq<Seq<char>>,
    pub handler: usize,
}

impl View for Route {
    type V = RouteView;

    open spec fn view(&self) -> RouteView {
        RouteView {
            pattern: self.pattern@,
            params: self.param_names@.map_values(|n: String| n@),
            handler: self.handler,
        }
    }
}

/// The routes registered for one HTTP method, in registration order.
#[derive(Debug)]
pub struct MethodRoutes {
    pub method: String,
    pub routes: Vec<Route>,
}

/// The routes of a router, grouped by method in the order the methods were
/// first registered.
#[derive(Debug)]
pub struct RouteTable {
    methods: Vec<MethodRoutes>,
}

pub type TableView = Seq<(Seq<char>, Seq<RouteView>)>;

impl View for RouteTable {
    type V = TableView;

    closed spec fn view(&self) -> TableView {
        self.methods@.map_values(
            |m: MethodRoutes| (m.method@, m.routes@.map_values(|r: Route| r@)),
        )
    }
}

/// Every pattern compiles and no method appears twice.
pub open spec fn table_wf(t: TableView) -> bool {
    &&& forall|i: int, j: int| 0 <= i < j < t.len() ==> t[i].0 != t[j].0
    &&& forall|i: int, k: int|
        0 <= i < t.len() && 0 <= k < t[i].1.len() ==> regex_compiles(#[trigger] t[i].1[k].pattern)
}

/// The position of `method` in the table, or -1.
pub open spec fn method_index(t: TableView, method: Seq<char>) -> int
    decreases t.len(),
{
    if t.len() == 0 {
        -1
    } else if t.last().0 == method {
        t.len() - 1
    } else {
        method_index(t.drop_last(), method)
    }
}

/// The routes registered for `method`.
pub open spec fn routes_for(t: TableView, method: Seq<char>) -> Seq<RouteView> {
    let i = method_index(t, method);
    if i >= 0 {
        t[i].1
    } else {
        Seq::empty()
    }
}

/// The first route whose pattern matches `path`.
pub open spec fn first_match(rs: Seq<RouteView>, path: Seq<char>) -> Option<int>
    decreases rs.len(),
{
    if rs.len() == 0 {
        None
    } else {
        match first_match(rs.drop_last(), path) {
            Some(i) => Some(i),
            None => if regex_captures(rs.last().pattern, path) is Some {
                Some(rs.len() - 1)
            } else {
                None
            },
        }
    }
}

/// The path parameters: parameter `i` takes capture group `i + 1` when that
/// group is present.
pub open spec fn params_of(names: Seq<Seq<char>>, groups: Seq<Option<Seq<char>>>) -> Seq<
    (Seq<char>, Seq<char>),
>
    decreases names.len(),
{
    if names.len() == 0 {
        Seq::empty()
    } else {
        let i = names.len() - 1;
        let prev = params_of(names.drop_last(), groups);
        if i + 1 < groups.len() && groups[i + 1] is Some {
            prev.push((names[i], groups[i + 1]->Some_0))
        } else {
            prev
        }
    }
}

/// What the router does with a request.
#[derive(Debug)]
pub enum RouteDecision {
    /// Call handler `handler` with the path parameters; CORS headers are added
    /// to its response when `with_cors` holds and CORS is configured.
    Dispatch { handler: usize, params: Vec<(String, String)>, with_cors: bool },
    /// Answer a CORS preflight with `204 No Content`.
    Preflight,
    /// `405 Method Not Allowed`, listing the methods whose routes match.
    MethodNotAllowed(Vec<String>),
    /// `404 Not Found`.
    NotFound,
}

pub enum DecisionView {
    Dispatch { handler: usize, params: Seq<(Seq<char>, Seq<char>)>, with_cors: bool },
    Preflight,
    MethodNotAllowed(Seq<Seq<char>>),
    NotFound,
}

impl View for RouteDecision {
    type V = DecisionView;

    open spec fn view(&self) -> DecisionView {
        match self {
            RouteDecision::Dispatch { handler, params, with_cors } => DecisionView::Dispatch {
                handler: *handler,
                params: params@.map_values(|p: (String, String)| (p.0@, p.1@)),
                with_cors: *with_cors,
            },
            RouteDecision::Preflight => DecisionView::Preflight,
            RouteDecision::MethodNotAllowed(ms) => DecisionView::MethodNotAllowed(
                ms@.map_values(|m: String| m@),
            ),
            RouteDecision::NotFound => DecisionView::NotFound,
        }
    }
}

/// Dispatching to the first route of `rs` that matches `path`.
pub open spec fn dispatch_to(rs: Seq<RouteView>, i: int, path: Seq<char>, with_cors: bool) -> DecisionView {
    DecisionView::Dispatch {
        handler: rs[i].handler,
        params: params_of(rs[i].params, regex_captures(rs[i].pattern, path)->Some_0),
        with_cors,
    }
}

/// The methods other than `method` with a route that matches `path`, in
/// table order.
pub open spec fn allowed_methods(t: TableView, method: Seq<char>, path: Seq<char>) -> Seq<Seq<char>>
    decreases t.len(),
{
    if t.len() == 0 {
        Seq::empty()
    } else {
        let prev = allowed_methods(t.drop_last(), method, path);
        if t.last().0 != method && first_match(t.last().1, path) is Some {
            prev.push(t.last().0)
        } else {
            prev
        }
    }
}

/// The router's decision: a route for the request's method wins (with CORS);
/// an unmatched `OPTIONS` is a preflight; an unmatched `HEAD` falls back to
/// the `GET` routes (without CORS); otherwise `405` when other methods match
/// the path and `404` when none does.
pub open spec fn decide(t: TableView, method: Seq<char>, path: Seq<char>) -> DecisionView {
    let own = routes_for(t, method);
    let get = routes_for(t, "GET"@);
    match first_match(own, path) {
        Some(i) => dispatch_to(own, i, path, true),
        None => if method == "OPTIONS"@ {
            DecisionView::Preflight
        } else if method == "HEAD"@ && first_match(get, path) is Some {
            dispatch_to(get, first_match(get, path)->Some_0, path, false)
        } else if allowed_methods(t, method, path).len() > 0 {
            DecisionView::MethodNotAllowed(allowed_methods(t, method, path))
        } else {
            DecisionView::NotFound
        },
    }
}

proof fn lemma_method_index(t: TableView, m: Seq<char>)
    ensures
        -1 <= method_index(t, m) < t.len(),
        method_index(t, m) >= 0 ==> t[method_index(t, m)].0 == m,
        method_index(t, m) < 0 ==> forall|j: int| 0 <= j < t.len() ==> t[j].0 != m,
    decreases t.len(),
{
    if t.len() > 0 && t.last().0 != m {
        lemma_method_index(t.drop_last(), m);
        assert forall|j: int| 0 <= j < t.len() - 1 implies t[j] == t.drop_last()[j] by {}
    }
}

proof fn lemma_first_match(rs: Seq<RouteView>, path: Seq<char>)
    ensures
        match first_match(rs, path) {
            Some(i) => 0 <= i < rs.len() && regex_captures(rs[i].pattern, path) is Some,
            None => true,
        },
    decreases rs.len(),
{
    if rs.len() > 0 {
        lemma_first_match(rs.drop_last(), path);
    }
}

/// The first route of `routes` matching `path`, with its capture groups.
fn find_route(routes: &Vec<Route>, path: &str) -> (r: Option<(usize, Vec<Option<String>>)>)
    requires
        forall|k: int| 0 <= k < routes@.len() ==> regex_compiles(#[trigger] routes@[k].pattern@),
    ensures
        match r {
            Some((i, groups)) => first_match(routes@.map_values(|x: Route| x@), path@) == Some(
                i as int,
            ) && regex_captures(routes@[i as int].pattern@, path@) == Some(
                groups@.map_values(|g: Option<String>| opt_str_view(g)),
            ),
            None => first_match(routes@.map_values(|x: Route| x@), path@) is None,
        },
{
    let ghost rv = routes@.map_values(|x: Route| x@);
    let mut i: usize = 0;
    while i < routes.len()
        invariant
            i <= routes@.len(),
            rv == routes@.map_values(|x: Route| x@),
            forall|k: int| 0 <= k < routes@.len() ==> regex_compiles(#[trigger] routes@[k].pattern@),
            first_match(rv.take(i as int), path@) is None,
        decreases routes.len() - i,
    {
        proof {
            assert(rv.take(i + 1).drop_last() =~= rv.take(i as int));
            assert(rv.take(i + 1).last() == routes@[i as int]@);
        }
        match regex_captures_exec(routes[i].pattern.as_str(), path) {
            Some(groups) => {
                proof {
                    lemma_first_match_prefix(rv, path@, i as int);
                }
                return Some((i, groups));
            },
            None => {},
        }
        i = i + 1;
    }
    proof {
        assert(rv.take(i as int) =~= rv);
    }
    None
}

/// When no route before `i` matches and route `i` does, the first match of
/// the whole list is `i`.
proof fn lemma_first_match_prefix(rs: Seq<RouteView>, path: Seq<char>, i: int)
    requires
        0 <= i < rs.len(),
        first_match(rs.take(i), path) is None,
        regex_captures(rs[i].pattern, path) is Some,
    ensures
        first_match(rs, path) == Some(i),
    decreases rs.len(),
{
    if i == rs.len() - 1 {
        assert(rs.drop_last() =~= rs.take(i));
    } else {
        assert(rs.drop_last().take(i) =~= rs.take(i));
        lemma_first_match_prefix(rs.drop_last(), path, i);
    }
}

/// The parameters of a route from its capture groups.
fn collect_params(names: &Vec<String>, groups: &Vec<Option<String>>) -> (r: Vec<(String, String)>)
    ensures
        r@.map_values(|p: (String, String)| (p.0@, p.1@)) == params_of(
            names@.map_values(|n: String| n@),
            groups@.map_values(|g: Option<String>| opt_str_view(g)),
        ),
{
    let ghost nv = names@.map_values(|n: String| n@);
    let ghost gv = groups@.map_values(|g: Option<String>| opt_str_view(g));
    let mut r: Vec<(String, String)> = Vec::new();
    let mut i: usize = 0;
    while i < names.len()
        invariant
            i <= names@.len(),
            nv == names@.map_values(|n: String| n@),
            gv == groups@.map_values(|g: Option<String>| opt_str_view(g)),
            r@.map_values(|p: (String, String)| (p.0@, p.1@)) == params_of(nv.take(i as int), gv),
        decreases names.len() - i,
    {
        let ghost before = r@.map_values(|p: (String, String)| (p.0@, p.1@));
        proof {
            assert(nv.take(i + 1).drop_last() =~= nv.take(i as int));
            assert(nv.take(i + 1).last() == names@[i as int]@);
        }
        if i + 1 < groups.len() {
            match &groups[i + 1] {
                Some(v) => {
                    r.push((names[i].clone(), v.clone()));
                    proof {
                        assert(r@.map_values(|p: (String, String)| (p.0@, p.1@)) =~= before.push(
                            (names@[i as int]@, v@),
                        ));
                    }
                },
                None => {},
            }
        }
        i = i + 1;
    }
    proof {
        assert(nv.take(i as int) =~= nv);
    }
    r
}

impl RouteTable {
    /// A table with no routes.
    pub fn new() -> (r: RouteTable)
        ensures
            r@.len() == 0,
            table_wf(r@),
    {
        let r = RouteTable { methods: Vec::new() };
        assert(r@ =~= Seq::<(Seq<char>, Seq<RouteView>)>::empty());
        r
    }

    /// The routes of every method, for inspection.
    pub fn methods(&self) -> (r: &Vec<MethodRoutes>)
        ensures
            r@.map_values(|m: MethodRoutes| (m.method@, m.routes@.map_values(|x: Route| x@)))
                == self@,
    {
        &self.methods
    }

    /// The position of `method`, or `None`.
    fn find_method(&self, method: &str) -> (r: Option<usize>)
        ensures
            match r {
                Some(i) => i as int == method_index(self@, method@),
                None => method_index(self@, method@) < 0,
            },
    {
        let ghost t = self@;
        let mut i = self.methods.len();
        proof {
            assert(t.take(i as int) =~= t);
        }
        while i > 0
            invariant
                i <= self.methods@.len(),
                t == self@,
                method_index(t, method@) == method_index(t.take(i as int), method@),
            decreases i,
        {
            let ghost tt = t.take(i as int);
            assert(tt.last().0 == self.methods@[i - 1].method@);
            if str_eq(self.methods[i - 1].method.as_str(), method) {
                return Some(i - 1);
            }
            assert(tt.drop_last() =~= t.take(i - 1));
            i = i - 1;
        }
        None
    }

    /// Registers `handler` for `method` at `path`.  Fails, leaving the table
    /// unchanged, when the regex crate refuses the compiled pattern.
    pub fn add_route(&mut self, method: &str, path: &str, handler: usize) -> (r: bool)
        requires
            table_wf(old(self)@),
        ensures
            table_wf(final(self)@),
            r == regex_compiles(route_pattern(path@)),
            !r ==> final(self)@ == old(self)@,
            r ==> ({
                let t = old(self)@;
                let route = RouteView {
                    pattern: route_pattern(path@),
                    params: route_params(path@),
                    handler,
                };
                let i = method_index(t, method@);
                if i >= 0 {
                    final(self)@ == t.update(i, (t[i].0, t[i].1.push(route)))
                } else {
                    final(self)@ == t.push((method@, seq![route]))
                }
            }),
    {
        let ghost t = self@;
        let compiled = match compile_path(path) {
            Some(c) => c,
            None => {
                return false;
            },
        };
        let route = Route { pattern: compiled.pattern, param_names: compiled.param_names, handler };
        let ghost rv = route@;
        proof {
            lemma_method_index(t, method@);
        }
        match self.find_method(method) {
            Some(i) => {
                let mut entry = self.methods.remove(i);
                let ghost old_routes = entry.routes@.map_values(|x: Route| x@);
                entry.routes.push(route);
                proof {
                    assert(entry.routes@.map_values(|x: Route| x@) =~= old_routes.push(rv));
                }
                self.methods.insert(i, entry);
                proof {
                    assert(self@ =~= t.update(i as int, (t[i as int].0, t[i as int].1.push(rv))));
                    let u = self@;
                    assert forall|a: int, k: int|
                        0 <= a < u.len() && 0 <= k < u[a].1.len() implies regex_compiles(
                        #[trigger] u[a].1[k].pattern,
                    ) by {
                        if a == i && k == u[a].1.len() - 1 {
                        } else {
                            assert(u[a].1[k] == t[a].1[k]);
                        }
                    }
                }
            },
            None => {
                let mut routes: Vec<Route> = Vec::new();
                routes.push(route);
                let m = MethodRoutes { method: owned(method), routes };
                self.methods.push(m);
                proof {
                    assert(m.routes@.map_values(|x: Route| x@) =~= seq![rv]);
                    assert(self@ =~= t.push((method@, seq![rv])));
                    let u = self@;
                    assert forall|a: int, b: int| 0 <= a < b < u.len() implies u[a].0 != u[b].0 by {
                        if b == u.len() - 1 {
                            assert(u[a] == t[a]);
                        }
                    }
                    assert forall|a: int, k: int|
                        0 <= a < u.len() && 0 <= k < u[a].1.len() implies regex_compiles(
                        #[trigger] u[a].1[k].pattern,
                    ) by {
                        if a < u.len() - 1 {
                            assert(u[a] == t[a]);
                        }
                    }
                }
            },
        }
        true
    }

    /// The routes of `method`, or an empty list.
    fn routes_of(&self, method: &str) -> (r: Option<&Vec<Route>>)
        requires
            table_wf(self@),
        ensures
            match r {
                Some(rs) => rs@.map_values(|x: Route| x@) == routes_for(self@, method@) && forall|
                    k: int,
                | 0 <= k < rs@.len() ==> regex_compiles(#[trigger] rs@[k].pattern@),
                None => routes_for(self@, method@).len() == 0,
            },
    {
        proof {
            lemma_method_index(self@, method@);
        }
        match self.find_method(method) {
            Some(i) => {
                let rs = &self.methods[i].routes;
                proof {
                    let t = self@;
                    assert(t[i as int].1 == rs@.map_values(|x: Route| x@));
                    assert forall|k: int| 0 <= k < rs@.len() implies regex_compiles(
                        #[trigger] rs@[k].pattern@,
                    ) by {
                        assert(t[i as int].1[k] == rs@[k]@);
                        assert(regex_compiles(t[i as int].1[k].pattern));
                    }
                }
                Some(rs)
            },
            None => None,
        }
    }

    /// The methods other than `method` with a route that matches `path`.
    fn allowed(&self, method: &str, path: &str) -> (r: Vec<String>)
        requires
            table_wf(self@),
        ensures
            r@.map_values(|m: String| m@) == allowed_methods(self@, method@, path@),
    {
        let ghost t = self@;
        let mut r: Vec<String> = Vec::new();
        let mut i: usize = 0;
        while i < self.methods.len()
            invariant
                i <= self.methods@.len(),
                t == self@,
                table_wf(t),
                r@.map_values(|m: String| m@) == allowed_methods(t.take(i as int), method@, path@),
            decreases self.methods.len() - i,
        {
            let ghost before = r@.map_values(|m: String| m@);
            let entry = &self.methods[i];
            proof {
                assert(t.take(i + 1).drop_last() =~= t.take(i as int));
                assert(t.take(i + 1).last() == t[i as int]);
                assert(t[i as int].1 == entry.routes@.map_values(|x: Route| x@));
                assert forall|k: int| 0 <= k < entry.routes@.len() implies regex_compiles(
                    #[trigger] entry.routes@[k].pattern@,
                ) by {
                    assert(t[i as int].1[k] == entry.routes@[k]@);
                    assert(regex_compiles(t[i as int].1[k].pattern));
                }
            }
            if !str_eq(entry.method.as_str(), method) {
                match find_route(&entry.routes, path) {
                    Some(_) => {
                        r.push(entry.method.clone());
                        proof {
                            assert(r@.map_values(|m: String| m@) =~= before.push(entry.method@));
                        }
                    },
                    None => {},
                }
            }
            i = i + 1;
        }
        proof {
            assert(t.take(i as int) =~= t);
        }
        r
    }

    /// What to do with a request for `method` and `path`.
    pub fn decide(&self, method: &str, path: &str) -> (r: RouteDecision)
        requires
            table_wf(self@),
        ensures
            r@ == decide(self@, method@, path@),
    {
        let own = self.routes_of(method);
        match own {
            Some(rs) => match find_route(rs, path) {
                Some((i, groups)) => {
                    proof {
                        lemma_first_match(routes_for(self@, method@), path@);
                    }
                    let params = collect_params(&rs[i].param_names, &groups);
                    return RouteDecision::Dispatch { handler: rs[i].handler, params, with_cors: true };
                },
                None => {},
            },
            None => {},
        }
        if str_eq(method, "OPTIONS") {
            return RouteDecision::Preflight;
        }
        if str_eq(method, "HEAD") {
            match self.routes_of("GET") {
                Some(rs) => match find_route(rs, path) {
                    Some((i, groups)) => {
                        proof {
                            lemma_first_match(routes_for(self@, "GET"@), path@);
                        }
                        let params = collect_params(&rs[i].param_names, &groups);
                        return RouteDecision::Dispatch {
                            handler: rs[i].handler,
                            params,
                            with_cors: false,
                        };
                    },
                    None => {},
                },
                None => {},
            }
        }
        let allowed = self.allowed(method, path);
        if allowed.len() > 0 {
            RouteDecision::MethodNotAllowed(allowed)
        } else {
            RouteDecision::NotFound
        }
    }
}

/// A newly registered route serves the requests it matches, for its
/// method, unless an earlier route of that method already matches them.
pub proof fn lemma_added_route_dispatches(
    t: TableView,
    t2: TableView,
    method: Seq<char>,
    path: Seq<char>,
    handler: usize,
    request_path: Seq<char>,
)
    requires
        ({
            let route = RouteView {
                pattern: route_pattern(path),
                params: route_params(path),
                handler,
            };
            let i = method_index(t, method);
            if i >= 0 {
                t2 == t.update(i, (t[i].0, t[i].1.push(route)))
            } else {
                t2 == t.push((method, seq![route]))
            }
        }),
        first_match(routes_for(t, method), request_path) is None,
        regex_captures(route_pattern(path), request_path) is Some,
    ensures
        decide(t2, method, request_path) matches DecisionView::Dispatch { handler: h, with_cors, .. }
            && h == handler && with_cors,
{
    lemma_method_index(t, method);
    let route = RouteView { pattern: route_pattern(path), params: route_params(path), handler };
    let i = method_index(t, method);
    if i >= 0 {
        assert(method_index(t2, method) == i) by {
            lemma_method_index_update(t, i, (t[i].0, t[i].1.push(route)), method);
        }
        let rs = t[i].1.push(route);
        assert(routes_for(t2, method) == rs);
        assert(rs.drop_last() =~= t[i].1);
    } else {
        assert(t2.last().0 == method);
        assert(method_index(t2, method) == t2.len() - 1);
        assert(routes_for(t2, method) == seq![route]);
        assert(seq![route].drop_last() =~= Seq::<RouteView>::empty());
    }
}

/// Replacing the routes of a method keeps the method's position.
proof fn lemma_method_index_update(
    t: TableView,
    i: int,
    v: (Seq<char>, Seq<RouteView>),
    m: Seq<char>,
)
    requires
        0 <= i < t.len(),
        v.0 == t[i].0,
        method_index(t, m) == i,
    ensures
        method_index(t.update(i, v), m) == i,
    decreases t.len(),
{
    lemma_method_index(t, m);
    let u = t.update(i, v);
    if i < t.len() - 1 {
        assert(u.drop_last() =~= t.drop_last().update(i, v));
        assert(u.last() == t.last());
        assert(t.last().0 != m);
        assert(method_index(t.drop_last(), m) == i);
        lemma_method_index_update(t.drop_last(), i, v, m);
    } else {
        assert(u.last() == v);
    }
}

/// A `405` answer lists only methods other than the request's, and only
/// when there is at least one.
pub proof fn lemma_not_allowed_lists_other_methods(t: TableView, method: Seq<char>, path: Seq<char>)
    ensures
        decide(t, method, path) matches DecisionView::MethodNotAllowed(ms) ==> ms.len() > 0
            && forall|j: int| 0 <= j < ms.len() ==> ms[j] != method,
{
    lemma_allowed_excludes(t, method, path);
}

proof fn lemma_allowed_excludes(t: TableView, method: Seq<char>, path: Seq<char>)
    ensures
        forall|j: int|
            0 <= j < allowed_methods(t, method, path).len() ==> allowed_methods(t, method, path)[j]
                != method,
    decreases t.len(),
{
    if t.len() > 0 {
        lemma_allowed_excludes(t.drop_last(), method, path);
        let p = allowed_methods(t.drop_last(), method, path);
        let a = allowed_methods(t, method, path);
        assert forall|j: int| 0 <= j < a.len() implies a[j] != method by {
            if j < p.len() {
                assert(a[j] == p[j]);
            }
        }
    }
}

/// The error that answers a request whose path only other methods serve:
/// `METHOD PATH (allowed: A, B)`.
pub fn method_not_allowed_error(method: &str, path: &str, allowed: &Vec<String>) -> (r: Error)
    ensures
        r matches Error::MethodNotAllowed(m) && m@ == method@ + " "@ + path@ + " (allowed: "@ + join(
            views(allowed@),
            ", "@,
        ) + ")"@,
{
    let mut m = concat(method, " ");
    push_str(&mut m, path);
    push_str(&mut m, " (allowed: ");
    let list = join_strings(allowed, ", ");
    push_str(&mut m, list.as_str());
    push_str(&mut m, ")");
    Error::MethodNotAllowed(m)
}

/// The error that answers a request no route serves.
pub fn route_not_found_error() -> (r: Error)
    ensures
        r matches Error::NotFound(m) && m@ == "Route not found"@,
{
    Error::NotFound(owned("Route not found"))
}

} // verus!
