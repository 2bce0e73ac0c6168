//! CORS configuration and the headers it adds to responses.
use vstd::prelude::*;
use crate::text::{chars_of, decimal, join, join_strings, owned, str_eq, u64_to_string, views};

verus! {

/// CORS configuration for a router or server.
#[derive(Debug)]
pub struct CorsConfig {
    /// Allowed origins; `*` allows every origin.
    pub allowed_origins: Vec<String>,
    /// Allowed HTTP methods.
    pub allowed_methods: Vec<String>,
    /// Allowed request headers.
    pub allowed_headers: Vec<String>,
    /// Whether credentials (cookies, authorization headers) are allowed.
    pub allow_credentials: bool,
    /// How long a preflight answer may be cached, in seconds.
    pub max_age: u32,
}

pub struct CorsView {
    pub origins: Seq<Seq<char>>,
    pub methods: Seq<Seq<char>>,
    pub headers: Seq<Seq<char>>,
    pub credentials: bool,
    pub max_age: u32,
}

impl View for CorsConfig {
    type V = CorsView;

    open spec fn view(&self) -> CorsView {
        CorsView {
            origins: views(self.allowed_origins@),
            methods: views(self.allowed_methods@),
            headers: views(self.allowed_headers@),
            credentials: self.allow_credentials,
            max_age: self.max_age,
        }
    }
}

fn strings(items: &[&str]) -> (r: Vec<String>)
    ensures
        views(r@) == items@.map_values(|s: &str| s@),
{
    let mut r: Vec<String> = Vec::new();
    let mut i: usize = 0;
    while i < items.len()
        invariant
            i <= items@.len(),
            views(r@) == items@.take(i as int).map_values(|s: &str| s@),
        decreases items.len() - i,
    {
        r.push(owned(items[i]));
        proof {
            assert(items@.take(i + 1).map_values(|s: &str| s@) =~= items@.take(i as int).map_values(
                |s: &str| s@,
            ).push(items@[i as int]@));
            assert(views(r@) =~= views(r@.drop_last()).push(r@.last()@));
        }
        i = i + 1;
    }
    assert(items@.take(items@.len() as int) =~= items@);
    r
}

fn copy_strings(v: &Vec<String>) -> (r: Vec<String>)
    ensures
        views(r@) == views(v@),
{
    let mut r: Vec<String> = Vec::new();
    let mut i: usize = 0;
    while i < v.len()
        invariant
            i <= v@.len(),
            views(r@) == views(v@).take(i as int),
        decreases v.len() - i,
    {
        r.push(v[i].clone());
        proof {
            assert(views(r@) =~= views(r@.drop_last()).push(r@.last()@));
            assert(views(v@).take(i + 1) =~= views(v@).take(i as int).push(v@[i as int]@));
        }
        i = i + 1;
    }
    assert(views(v@).take(v@.len() as int) =~= views(v@));
    r
}

fn push_view(v: &mut Vec<String>, s: &str)
    ensures
        views(final(v)@) == views(old(v)@).push(s@),
{
    v.push(owned(s));
    assert(views(v@) =~= views(old(v)@).push(s@));
}

impl Default for CorsConfig {
    /// The permissive configuration.
    fn default() -> (r: CorsConfig)
        ensures
            r@.origins == seq!["*"@],
            r@.methods == seq!["GET"@, "POST"@, "PUT"@, "DELETE"@, "OPTIONS"@, "PATCH"@],
            r@.headers == seq!["*"@],
            !r@.credentials,
            r@.max_age == 3600,
    {
        CorsConfig::permissive()
    }
}

impl CorsConfig {
    /// Allows every origin, the common methods and every header, without
    /// credentials, for an hour.
    pub fn permissive() -> (r: CorsConfig)
        ensures
            r@.origins == seq!["*"@],
            r@.methods == seq!["GET"@, "POST"@, "PUT"@, "DELETE"@, "OPTIONS"@, "PATCH"@],
            r@.headers == seq!["*"@],
            !r@.credentials,
            r@.max_age == 3600,
    {
        let r = CorsConfig {
            allowed_origins: strings(&["*"]),
            allowed_methods: strings(&["GET", "POST", "PUT", "DELETE", "OPTIONS", "PATCH"]),
            allowed_headers: strings(&["*"]),
            allow_credentials: false,
            max_age: 3600,
        };
        r
    }

    /// No origins, `GET` and `POST`, and only `Content-Type`.
    pub fn restrictive() -> (r: CorsConfig)
        ensures
            r@.origins.len() == 0,
            r@.methods == seq!["GET"@, "POST"@],
            r@.headers == seq!["Content-Type"@],
            !r@.credentials,
            r@.max_age == 3600,
    {
        let r = CorsConfig {
            allowed_origins: Vec::new(),
            allowed_methods: strings(&["GET", "POST"]),
            allowed_headers: strings(&["Content-Type"]),
            allow_credentials: false,
            max_age: 3600,
        };
        assert(r@.origins =~= Seq::<Seq<char>>::empty());
        r
    }

    /// Adds an allowed origin.
    pub fn allow_origin(self, origin: &str) -> (r: CorsConfig)
        ensures
            r@ == (CorsView { origins: self@.origins.push(origin@), ..self@ }),
    {
        let mut s = self;
        push_view(&mut s.allowed_origins, origin);
        s
    }

    /// Adds an allowed method.
    pub fn allow_method(self, method: &str) -> (r: CorsConfig)
        ensures
            r@ == (CorsView { methods: self@.methods.push(method@), ..self@ }),
    {
        let mut s = self;
        push_view(&mut s.allowed_methods, method);
        s
    }

    /// Adds an allowed header.
    pub fn allow_header(self, header: &str) -> (r: CorsConfig)
        ensures
            r@ == (CorsView { headers: self@.headers.push(header@), ..self@ }),
    {
        let mut s = self;
        push_view(&mut s.allowed_headers, header);
        s
    }

    /// Allows credentials.
    pub fn credentials(self) -> (r: CorsConfig)
        ensures
            r@ == (CorsView { credentials: true, ..self@ }),
    {
        CorsConfig { allow_credentials: true, ..self }
    }

    /// Sets the preflight cache age.
    pub fn max_age(self, seconds: u32) -> (r: CorsConfig)
        ensures
            r@ == (CorsView { max_age: seconds, ..self@ }),
    {
        CorsConfig { max_age: seconds, ..self }
    }

    /// A copy of the configuration.
    pub fn duplicate(&self) -> (r: CorsConfig)
        ensures
            r@ == self@,
    {
        CorsConfig {
            allowed_origins: copy_strings(&self.allowed_origins),
            allowed_methods: copy_strings(&self.allowed_methods),
            allowed_headers: copy_strings(&self.allowed_headers),
            allow_credentials: self.allow_credentials,
            max_age: self.max_age,
        }
    }
}

pub open spec fn header(name: Seq<char>, value: Seq<char>) -> Seq<(Seq<char>, Seq<char>)> {
    seq![(name, value)]
}

pub open spec fn when(b: bool, h: Seq<(Seq<char>, Seq<char>)>) -> Seq<(Seq<char>, Seq<char>)> {
    if b {
        h
    } else {
        Seq::empty()
    }
}

/// The CORS headers the router adds, in order: the origin (`*` when it is
/// allowed, else the first allowed origin), the methods and the headers
/// joined with `, `, `true` for credentials when allowed, and the max age.
pub open spec fn router_cors_headers(c: CorsView) -> Seq<(Seq<char>, Seq<char>)> {
    when(
        c.origins.len() > 0,
        header(
            "Access-Control-Allow-Origin"@,
            if c.origins.contains("*"@) {
                "*"@
            } else {
                c.origins[0]
            },
        ),
    ) + when(
        c.methods.len() > 0,
        header("Access-Control-Allow-Methods"@, join(c.methods, ", "@)),
    ) + when(
        c.headers.len() > 0,
        header("Access-Control-Allow-Headers"@, join(c.headers, ", "@)),
    ) + when(c.credentials, header("Access-Control-Allow-Credentials"@, "true"@)) + header(
        "Access-Control-Max-Age"@,
        decimal(c.max_age as nat),
    )
}

pub open spec fn pair_views(v: Seq<(String, String)>) -> Seq<(Seq<char>, Seq<char>)> {
    v.map_values(|p: (String, String)| (p.0@, p.1@))
}

fn push_header(v: &mut Vec<(String, String)>, name: &str, value: String)
    ensures
        pair_views(final(v)@) == pair_views(old(v)@) + header(name@, value@),
{
    v.push((owned(name), value));
    assert(pair_views(v@) =~= pair_views(old(v)@) + header(name@, value@));
}

fn contains_star(v: &Vec<String>) -> (r: bool)
    ensures
        r == views(v@).contains("*"@),
{
    let mut i: usize = 0;
    while i < v.len()
        invariant
            i <= v@.len(),
            forall|k: int| 0 <= k < i ==> v@[k]@ != "*"@,
        decreases v.len() - i,
    {
        if str_eq(v[i].as_str(), "*") {
            assert(views(v@)[i as int] == "*"@);
            return true;
        }
        i = i + 1;
    }
    proof {
        if views(v@).contains("*"@) {
            let k = choose|k: int| 0 <= k < views(v@).len() && views(v@)[k] == "*"@;
            assert(v@[k]@ == "*"@);
        }
    }
    false
}

/// The CORS headers that the router adds to responses and preflights.
pub fn cors_headers(c: &CorsConfig) -> (r: Vec<(String, String)>)
    ensures
        pair_views(r@) == router_cors_headers(c@),
{
    let mut h: Vec<(String, String)> = Vec::new();
    let ghost e = Seq::<(Seq<char>, Seq<char>)>::empty();
    assert(pair_views(h@) =~= e);
    if c.allowed_origins.len() > 0 {
        if contains_star(&c.allowed_origins) {
            push_header(&mut h, "Access-Control-Allow-Origin", owned("*"));
        } else {
            push_header(&mut h, "Access-Control-Allow-Origin", c.allowed_origins[0].clone());
        }
    }
    let ghost h1 = pair_views(h@);
    if c.allowed_methods.len() > 0 {
        push_header(&mut h, "Access-Control-Allow-Methods", join_strings(&c.allowed_methods, ", "));
    }
    let ghost h2 = pair_views(h@);
    if c.allowed_headers.len() > 0 {
        push_header(&mut h, "Access-Control-Allow-Headers", join_strings(&c.allowed_headers, ", "));
    }
    let ghost h3 = pair_views(h@);
    if c.allow_credentials {
        push_header(&mut h, "Access-Control-Allow-Credentials", owned("true"));
    }
    let ghost h4 = pair_views(h@);
    push_header(&mut h, "Access-Control-Max-Age", u64_to_string(c.max_age as u64));
    proof {
        let cv = c@;
        assert(h1 =~= e + when(
            cv.origins.len() > 0,
            header(
                "Access-Control-Allow-Origin"@,
                if cv.origins.contains("*"@) {
                    "*"@
                } else {
                    cv.origins[0]
                },
            ),
        ));
        assert(h2 =~= h1 + when(
            cv.methods.len() > 0,
            header("Access-Control-Allow-Methods"@, join(cv.methods, ", "@)),
        ));
        assert(h3 =~= h2 + when(
            cv.headers.len() > 0,
            header("Access-Control-Allow-Headers"@, join(cv.headers, ", "@)),
        ));
        assert(h4 =~= h3 + when(cv.credentials, header("Access-Control-Allow-Credentials"@, "true"@)));
    }
    h
}

// ---------------------------------------------------------------------------
// The server adapter's CORS headers
// ---------------------------------------------------------------------------

/// Whether `http::HeaderValue::from_str` accepts the text: every byte is a
/// tab or at least a space and not DEL. The bytes of a character beyond
/// ASCII are all at least 128, so over characters: every one is a tab, or at
/// least a space and not DEL.
pub open spec fn header_value_ok(s: Seq<char>) -> bool {
    forall|i: int| 0 <= i < s.len() ==> (#[trigger] s[i] == '\t' || (s[i] >= ' ' && s[i] != '\x7f'))
}

/// `http::HeaderValue::from_str(s).is_ok()`: whether every byte of the text
/// passes the crate's `is_valid` check (see `header_value_ok`).
#[verifier::external_body]
fn header_value_check(s: &str) -> (r: bool)
    ensures
        r == header_value_ok(s@),
{
    http::HeaderValue::from_str(s).is_ok()
}

/// A header when its value is acceptable.
pub open spec fn valid_header(name: Seq<char>, value: Seq<char>) -> Seq<(Seq<char>, Seq<char>)> {
    when(header_value_ok(value), header(name, value))
}

/// The CORS headers the server adapter sets on every response: the first
/// allowed origin, the methods and headers joined with `, `, `true` for
/// credentials when allowed, and the max age; a value that is not a valid
/// header value is left out.
pub open spec fn adapter_cors_headers(c: CorsView) -> Seq<(Seq<char>, Seq<char>)> {
    (if c.origins.len() > 0 {
        valid_header("access-control-allow-origin"@, c.origins[0])
    } else {
        Seq::empty()
    }) + (if c.methods.len() > 0 {
        valid_header("access-control-allow-methods"@, join(c.methods, ", "@))
    } else {
        Seq::empty()
    }) + (if c.headers.len() > 0 {
        valid_header("access-control-allow-headers"@, join(c.headers, ", "@))
    } else {
        Seq::empty()
    }) + when(c.credentials, header("access-control-allow-credentials"@, "true"@)) + valid_header(
        "access-control-max-age"@,
        decimal(c.max_age as nat),
    )
}

fn push_valid_header(v: &mut Vec<(String, String)>, name: &str, value: String)
    ensures
        pair_views(final(v)@) == pair_views(old(v)@) + valid_header(name@, value@),
{
    if header_value_check(value.as_str()) {
        push_header(v, name, value);
    } else {
        assert(pair_views(v@) =~= pair_views(old(v)@) + Seq::<(Seq<char>, Seq<char>)>::empty());
    }
}

/// The CORS headers that the server adapter inserts into a response.
pub fn adapter_headers(c: &CorsConfig) -> (r: Vec<(String, String)>)
    ensures
        pair_views(r@) == adapter_cors_headers(c@),
{
    let mut h: Vec<(String, String)> = Vec::new();
    let ghost e = Seq::<(Seq<char>, Seq<char>)>::empty();
    assert(pair_views(h@) =~= e);
    if c.allowed_origins.len() > 0 {
        push_valid_header(&mut h, "access-control-allow-origin", c.allowed_origins[0].clone());
    }
    let ghost h1 = pair_views(h@);
    if c.allowed_methods.len() > 0 {
        push_valid_header(&mut h, "access-control-allow-methods", join_strings(&c.allowed_methods, ", "));
    }
    let ghost h2 = pair_views(h@);
    if c.allowed_headers.len() > 0 {
        push_valid_header(&mut h, "access-control-allow-headers", join_strings(&c.allowed_headers, ", "));
    }
    let ghost h3 = pair_views(h@);
    if c.allow_credentials {
        push_header(&mut h, "access-control-allow-credentials", owned("true"));
    }
    let ghost h4 = pair_views(h@);
    push_valid_header(&mut h, "access-control-max-age", u64_to_string(c.max_age as u64));
    proof {
        let cv = c@;
        assert(h1 =~= e + (if cv.origins.len() > 0 {
            valid_header("access-control-allow-origin"@, cv.origins[0])
        } else {
            Seq::empty()
        }));
        assert(h2 =~= h1 + (if cv.methods.len() > 0 {
            valid_header("access-control-allow-methods"@, join(cv.methods, ", "@))
        } else {
            Seq::empty()
        }));
        assert(h3 =~= h2 + (if cv.headers.len() > 0 {
            valid_header("access-control-allow-headers"@, join(cv.headers, ", "@))
        } else {
            Seq::empty()
        }));
        assert(h4 =~= h3 + when(cv.credentials, header("access-control-allow-credentials"@, "true"@)));
    }
    h
}

} // verus!
