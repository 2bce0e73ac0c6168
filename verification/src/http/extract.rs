//! Request data that extractors read: cookies, the form content type, and
//! the errors with which extractors refuse a request.
use vstd::prelude::*;
use crate::http::errors::Error;
use crate::text::{
    concat, owned, contains, split_by_char, split_char, split_once_by_char, split_once_char, starts_with,
    str_contains, str_eq, str_starts_with, trim, trim_str, views,
};

verus! {

/// A value taken from the path parameters of a request.
#[derive(Debug)]
pub struct Path<T>(pub T);

/// A value taken from the query string of a request.
#[derive(Debug)]
pub struct Query<T>(pub T);

/// A value taken from, or written as, a JSON body.
#[derive(Debug)]
pub struct Json<T>(pub T);

/// Application state taken from the extensions of a request.
#[derive(Debug)]
pub struct State<T>(pub T);

/// A value taken from a form-encoded body.
#[derive(Debug)]
pub struct Form<T>(pub T);

/// The raw body of a request, as text or bytes.
#[derive(Debug)]
pub struct Body<T>(pub T);

/// Cookies as `(name, value)` pairs with distinct names.
pub type CookieSeq = Seq<(Seq<char>, Seq<char>)>;

/// The position of `name`, or -1.
pub open spec fn cookie_index(s: CookieSeq, name: Seq<char>) -> int
    decreases s.len(),
{
    if s.len() == 0 {
        -1
    } else if s.last().0 == name {
        s.len() - 1
    } else {
        cookie_index(s.drop_last(), name)
    }
}

/// The value stored for `name`.
pub open spec fn cookie_lookup(s: CookieSeq, name: Seq<char>) -> Option<Seq<char>> {
    let i = cookie_index(s, name);
    if i >= 0 {
        Some(s[i].1)
    } else {
        None
    }
}

/// Sets `name` to `value`, replacing an earlier value in place.
pub open spec fn cookie_upsert(s: CookieSeq, name: Seq<char>, value: Seq<char>) -> CookieSeq {
    let i = cookie_index(s, name);
    if i >= 0 {
        s.update(i, (name, value))
    } else {
        s.push((name, value))
    }
}

/// The cookies of a `Cookie` header: pieces separated by `;`, each trimmed
/// and split at its first `=` into a trimmed name and value; pieces without
/// `=` are skipped and a later value for a name replaces an earlier one.
pub open spec fn parse_cookie_pairs(pieces: Seq<Seq<char>>) -> CookieSeq
    decreases pieces.len(),
{
    if pieces.len() == 0 {
        Seq::empty()
    } else {
        let prev = parse_cookie_pairs(pieces.drop_last());
        match split_once_char(trim(pieces.last()), '=') {
            Some((n, v)) => cookie_upsert(prev, trim(n), trim(v)),
            None => prev,
        }
    }
}

pub open spec fn cookies_of_header(header: Option<Seq<char>>) -> CookieSeq {
    match header {
        Some(h) => parse_cookie_pairs(split_char(h, ';')),
        None => Seq::empty(),
    }
}

pub open spec fn distinct_names(s: CookieSeq) -> bool {
    forall|i: int, j: int| 0 <= i < j < s.len() ==> s[i].0 != s[j].0
}

/// The cookies of a request.
#[derive(Debug)]
pub struct Cookies {
    cookies: Vec<(String, String)>,
}

impl View for Cookies {
    type V = CookieSeq;

    closed spec fn view(&self) -> CookieSeq {
        self.cookies@.map_values(|p: (String, String)| (p.0@, p.1@))
    }
}

proof fn lemma_cookie_index(s: CookieSeq, k: Seq<char>)
    ensures
        -1 <= cookie_index(s, k) < s.len(),
        cookie_index(s, k) >= 0 ==> s[cookie_index(s, k)].0 == k,
        cookie_index(s, k) < 0 ==> forall|j: int| 0 <= j < s.len() ==> s[j].0 != k,
    decreases s.len(),
{
    if s.len() > 0 && s.last().0 != k {
        lemma_cookie_index(s.drop_last(), k);
        assert forall|j: int| 0 <= j < s.len() - 1 implies s[j] == s.drop_last()[j] by {}
    }
}

proof fn lemma_upsert_distinct(s: CookieSeq, k: Seq<char>, v: Seq<char>)
    requires
        distinct_names(s),
    ensures
        distinct_names(cookie_upsert(s, k, v)),
{
    lemma_cookie_index(s, k);
    let t = cookie_upsert(s, k, v);
    let i = cookie_index(s, k);
    assert forall|a: int, b: int| 0 <= a < b < t.len() implies t[a].0 != t[b].0 by {
        if i < 0 && b == t.len() - 1 {
            assert(t[a] == s[a]);
        }
    }
}

/// A value set for a name is what a lookup of that name returns.
pub proof fn lemma_lookup_after_upsert(s: CookieSeq, k: Seq<char>, v: Seq<char>)
    requires
        distinct_names(s),
    ensures
        cookie_lookup(cookie_upsert(s, k, v), k) == Some(v),
{
    lemma_cookie_index(s, k);
    lemma_upsert_distinct(s, k, v);
    let t = cookie_upsert(s, k, v);
    let i = cookie_index(s, k);
    lemma_cookie_index(t, k);
    let j = if i >= 0 {
        i
    } else {
        t.len() - 1
    };
    assert(t[j].0 == k);
    assert forall|a: int, b: int| 0 <= a < b < t.len() implies t[a].0 != t[b].0 by {}
    assert(cookie_index(t, k) == j);
}

proof fn lemma_parse_distinct(pieces: Seq<Seq<char>>)
    ensures
        distinct_names(parse_cookie_pairs(pieces)),
    decreases pieces.len(),
{
    if pieces.len() > 0 {
        lemma_parse_distinct(pieces.drop_last());
        let prev = parse_cookie_pairs(pieces.drop_last());
        match split_once_char(trim(pieces.last()), '=') {
            Some((n, v)) => lemma_upsert_distinct(prev, trim(n), trim(v)),
            None => {},
        }
    }
}

impl Cookies {
    fn find(&self, name: &str) -> (r: Option<usize>)
        ensures
            match r {
                Some(i) => i as int == cookie_index(self@, name@),
                None => cookie_index(self@, name@) < 0,
            },
    {
        let ghost s = self@;
        let mut i = self.cookies.len();
        proof {
            assert(s.take(i as int) =~= s);
        }
        while i > 0
            invariant
                i <= self.cookies@.len(),
                s == self@,
                cookie_index(s, name@) == cookie_index(s.take(i as int), name@),
            decreases i,
        {
            let ghost t = s.take(i as int);
            assert(t.last().0 == self.cookies@[i - 1].0@);
            if str_eq(self.cookies[i - 1].0.as_str(), name) {
                return Some(i - 1);
            }
            assert(t.drop_last() =~= s.take(i - 1));
            i = i - 1;
        }
        None
    }

    fn upsert(&mut self, name: String, value: String)
        ensures
            final(self)@ == cookie_upsert(old(self)@, name@, value@),
    {
        let ghost s = self@;
        proof {
            lemma_cookie_index(s, name@);
        }
        match self.find(name.as_str()) {
            Some(i) => {
                self.cookies.set(i, (name, value));
                assert(self@ =~= s.update(i as int, (name@, value@)));
            },
            None => {
                self.cookies.push((name, value));
                assert(self@ =~= s.push((name@, value@)));
            },
        }
    }

    /// The cookies of a request whose `Cookie` header is `header`, or none
    /// when the header is absent or not text.
    pub fn from_header(header: Option<&str>) -> (r: Cookies)
        ensures
            r@ == cookies_of_header(match header {
                Some(h) => Some(h@),
                None => None,
            }),
            distinct_names(r@),
    {
        let mut c = Cookies { cookies: Vec::new() };
        assert(c@ =~= Seq::<(Seq<char>, Seq<char>)>::empty());
        match header {
            None => c,
            Some(h) => {
                let pieces = split_by_char(h, ';');
                let ghost pv = views(pieces@);
                let mut i: usize = 0;
                while i < pieces.len()
                    invariant
                        i <= pieces@.len(),
                        pv == views(pieces@),
                        c@ == parse_cookie_pairs(pv.take(i as int)),
                    decreases pieces.len() - i,
                {
                    proof {
                        assert(pv.take(i + 1).drop_last() =~= pv.take(i as int));
                        assert(pv.take(i + 1).last() == pieces@[i as int]@);
                    }
                    let trimmed = trim_str(pieces[i].as_str());
                    match split_once_by_char(trimmed.as_str(), '=') {
                        Some((name, value)) => {
                            let n = trim_str(name.as_str());
                            let v = trim_str(value.as_str());
                            c.upsert(n, v);
                        },
                        None => {},
                    }
                    i = i + 1;
                }
                proof {
                    assert(pv.take(i as int) =~= pv);
                    lemma_parse_distinct(pv);
                }
                c
            },
        }
    }

    /// The value of cookie `name`.
    pub fn get(&self, name: &str) -> (r: Option<&String>)
        ensures
            match r {
                Some(v) => cookie_lookup(self@, name@) == Some(v@),
                None => cookie_lookup(self@, name@) is None,
            },
    {
        proof {
            lemma_cookie_index(self@, name@);
        }
        match self.find(name) {
            Some(i) => Some(&self.cookies[i].1),
            None => None,
        }
    }

    /// Whether cookie `name` is present.
    pub fn contains_key(&self, name: &str) -> (r: bool)
        ensures
            r == (cookie_lookup(self@, name@) is Some),
    {
        match self.find(name) {
            Some(_) => true,
            None => false,
        }
    }

    /// All cookies as `(name, value)` pairs.
    pub fn iter(&self) -> (r: &Vec<(String, String)>)
        ensures
            r@.map_values(|p: (String, String)| (p.0@, p.1@)) == self@,
    {
        &self.cookies
    }
}

/// A form body is accepted only with this content type.
pub open spec fn is_form_type(ct: Seq<char>) -> bool {
    starts_with(ct, "application/x-www-form-urlencoded"@)
}

/// Whether a request's content type (missing counts as empty) announces a
/// URL-encoded form.
pub fn is_form_content_type(content_type: Option<&str>) -> (r: bool)
    ensures
        r == match content_type {
            Some(ct) => is_form_type(ct@),
            None => is_form_type(Seq::empty()),
        },
{
    let ct = match content_type {
        Some(ct) => ct,
        None => "",
    };
    let r = str_starts_with(ct, "application/x-www-form-urlencoded");
    proof {
        reveal_strlit("");
        assert(ct@ == Seq::<char>::empty() || content_type is Some);
    }
    r
}

/// Whether an `Accept` header (missing or not text counts as no) asks for
/// HTML.
pub fn accepts_html(accept: Option<&str>) -> (r: bool)
    ensures
        r == match accept {
            Some(a) => contains(a@, "text/html"@),
            None => false,
        },
{
    match accept {
        Some(a) => str_contains(a, "text/html"),
        None => false,
    }
}

/// Why an extractor refused a request.
#[derive(Debug, Clone, Copy, PartialEq, Eq, Structural)]
pub enum ExtractFailure {
    /// Routing stored no path parameters.
    NoPathParams,
    /// The path parameters do not fit the target type.
    PathParams,
    /// The query string does not fit the target type.
    Query,
    /// The body is not the JSON of the target type.
    JsonBody,
    /// A form was expected but the content type is another.
    FormContentType,
    /// The form body is not UTF-8.
    FormUtf8,
    /// The form body does not fit the target type.
    Form,
    /// The body could not be read.
    BodyRead,
    /// A text body is not UTF-8.
    BodyUtf8,
    /// No application state of the asked type was registered.
    MissingState,
}

/// The error an extractor answers with, given the underlying error's text
/// where there is one.
pub open spec fn extraction_error_of(kind: ExtractFailure, detail: Seq<char>) -> (bool, Seq<char>) {
    match kind {
        ExtractFailure::NoPathParams => (true, "No path parameters found"@),
        ExtractFailure::PathParams => (true, "Invalid path parameters: "@ + detail),
        ExtractFailure::Query => (true, "Invalid query parameters: "@ + detail),
        ExtractFailure::JsonBody => (true, "Invalid JSON: "@ + detail),
        ExtractFailure::FormContentType => (true, "Expected application/x-www-form-urlencoded content type"@),
        ExtractFailure::FormUtf8 => (true, "Invalid UTF-8 in form data: "@ + detail),
        ExtractFailure::Form => (true, "Invalid form data: "@ + detail),
        ExtractFailure::BodyRead => (false, "Failed to read body: "@ + detail),
        ExtractFailure::BodyUtf8 => (false, "Invalid UTF-8 in body: "@ + detail),
        ExtractFailure::MissingState => (false, "Application state not found in request extensions"@),
    }
}

/// The error for a refused extraction: a bad request, or an internal error
/// for failures of the server's own (reading the body, missing state).
pub fn extraction_error(kind: ExtractFailure, detail: &str) -> (r: Error)
    ensures
        ({
            let (bad_request, text) = extraction_error_of(kind, detail@);
            if bad_request {
                r matches Error::BadRequest(m) && m@ == text
            } else {
                r matches Error::InternalServerError(m) && m@ == text
            }
        }),
{
    match kind {
        ExtractFailure::NoPathParams => Error::BadRequest(owned("No path parameters found")),
        ExtractFailure::PathParams => Error::BadRequest(concat("Invalid path parameters: ", detail)),
        ExtractFailure::Query => Error::BadRequest(concat("Invalid query parameters: ", detail)),
        ExtractFailure::JsonBody => Error::BadRequest(concat("Invalid JSON: ", detail)),
        ExtractFailure::FormContentType => Error::BadRequest(
            owned("Expected application/x-www-form-urlencoded content type"),
        ),
        ExtractFailure::FormUtf8 => Error::BadRequest(concat("Invalid UTF-8 in form data: ", detail)),
        ExtractFailure::Form => Error::BadRequest(concat("Invalid form data: ", detail)),
        ExtractFailure::BodyRead => Error::InternalServerError(concat("Failed to read body: ", detail)),
        ExtractFailure::BodyUtf8 => Error::InternalServerError(concat("Invalid UTF-8 in body: ", detail)),
        ExtractFailure::MissingState => Error::InternalServerError(
            owned("Application state not found in request extensions"),
        ),
    }
}

/// The form extractor's first step: a request whose content type (missing
/// counts as empty) is not a URL-encoded form is refused.
pub fn check_form_content_type(content_type: Option<&str>) -> (r: Result<(), Error>)
    ensures
        match content_type {
            Some(ct) => is_form_type(ct@),
            None => is_form_type(Seq::empty()),
        } <==> r is Ok,
        r matches Err(e) ==> e matches Error::BadRequest(m) && m@
            == "Expected application/x-www-form-urlencoded content type"@,
{
    if is_form_content_type(content_type) {
        Ok(())
    } else {
        Err(extraction_error(ExtractFailure::FormContentType, ""))
    }
}

} // verus!
