//! API versions: parsing, choosing the version of a request, and the
//! deprecation headers of deprecated versions.
use vstd::prelude::*;
use crate::text::{
    char_index, chars_of, find_spec, find_str_from, owned, parse_u8, parses_unsigned,
    split_by_char, split_char, split_once_by_char, split_once_char, starts_with, str_eq,
    str_starts_with, string_of_range, unsigned_digits, digits_value, views,
};

verus! {

/// An API version.
#[derive(Clone, Copy, Debug, PartialEq, Eq, Structural, Hash)]
pub enum ApiVersion {
    V1,
    V2,
    V3,
    Custom(u8),
}

/// `s` without its leading `v` characters.
pub open spec fn trim_leading_v(s: Seq<char>) -> Seq<char>
    decreases s.len(),
{
    if s.len() > 0 && s[0] == 'v' {
        trim_leading_v(s.drop_first())
    } else {
        s
    }
}

/// The version a text names: `v1`/`1`, `v2`/`2`, `v3`/`3`, or else the
/// number (0 to 255) after any leading `v`s as a custom version.
pub open spec fn api_version_of(s: Seq<char>) -> Option<ApiVersion> {
    if s == "v1"@ || s == "1"@ {
        Some(ApiVersion::V1)
    } else if s == "v2"@ || s == "2"@ {
        Some(ApiVersion::V2)
    } else if s == "v3"@ || s == "3"@ {
        Some(ApiVersion::V3)
    } else if parses_unsigned(trim_leading_v(s), 255) {
        Some(ApiVersion::Custom(digits_value(unsigned_digits(trim_leading_v(s))) as u8))
    } else {
        None
    }
}

pub open spec fn api_version_str(v: ApiVersion) -> Seq<char> {
    match v {
        ApiVersion::V1 => "v1"@,
        ApiVersion::V2 => "v2"@,
        ApiVersion::V3 => "v3"@,
        ApiVersion::Custom(_) => "custom"@,
    }
}

impl ApiVersion {
    /// The version named by `s`, if any.
    pub fn from_str(s: &str) -> (r: Option<ApiVersion>)
        ensures
            r == api_version_of(s@),
    {
        if str_eq(s, "v1") || str_eq(s, "1") {
            return Some(ApiVersion::V1);
        }
        if str_eq(s, "v2") || str_eq(s, "2") {
            return Some(ApiVersion::V2);
        }
        if str_eq(s, "v3") || str_eq(s, "3") {
            return Some(ApiVersion::V3);
        }
        let v = chars_of(s);
        let mut i: usize = 0;
        proof {
            assert(v@.skip(0) =~= v@);
        }
        while i < v.len() && v[i] == 'v'
            invariant
                i <= v@.len(),
                v@ == s@,
                trim_leading_v(s@) == trim_leading_v(v@.skip(i as int)),
            decreases v.len() - i,
        {
            assert(v@.skip(i as int).drop_first() =~= v@.skip(i + 1));
            i = i + 1;
        }
        let rest = string_of_range(&v, i, v.len());
        proof {
            assert(rest@ =~= v@.skip(i as int));
        }
        match parse_u8(rest.as_str()) {
            Some(n) => Some(ApiVersion::Custom(n)),
            None => None,
        }
    }

    /// `v1`, `v2`, `v3` or `custom`.
    pub fn as_str(&self) -> (r: &'static str)
        ensures
            r@ == api_version_str(*self),
    {
        match self {
            ApiVersion::V1 => "v1",
            ApiVersion::V2 => "v2",
            ApiVersion::V3 => "v3",
            ApiVersion::Custom(_) => "custom",
        }
    }
}

/// The first path segment that starts with `v`.
pub open spec fn first_v_segment(segs: Seq<Seq<char>>) -> Option<Seq<char>>
    decreases segs.len(),
{
    if segs.len() == 0 {
        None
    } else if starts_with(segs[0], "v"@) {
        Some(segs[0])
    } else {
        first_v_segment(segs.drop_first())
    }
}

/// The text that follows the first `;version=` of an Accept header, up to
/// the next `;version=` and then up to the first `,`.
pub open spec fn accept_version_text(a: Seq<char>) -> Option<Seq<char>> {
    let pat = ";version="@;
    match find_spec(a, pat, 0) {
        None => None,
        Some(i) => {
            let rest = a.skip(i + pat.len());
            let piece = match find_spec(rest, pat, 0) {
                Some(j) => rest.take(j),
                None => rest,
            };
            Some(
                match char_index(piece, ',') {
                    Some(k) => piece.take(k),
                    None => piece,
                },
            )
        },
    }
}

/// The first `version=<v>` pair of a query string that names a version.
pub open spec fn query_version(pairs: Seq<Seq<char>>) -> Option<ApiVersion>
    decreases pairs.len(),
{
    if pairs.len() == 0 {
        None
    } else {
        match split_once_char(pairs[0], '=') {
            Some((k, v)) => if k == "version"@ && api_version_of(v) is Some {
                api_version_of(v)
            } else {
                query_version(pairs.drop_first())
            },
            None => query_version(pairs.drop_first()),
        }
    }
}

/// The version of a request: from the first path segment starting with `v`,
/// then the Accept header's `;version=`, then a `version` query parameter,
/// and otherwise the default.
pub open spec fn request_version(
    path: Seq<char>,
    accept: Option<Seq<char>>,
    query: Option<Seq<char>>,
    default: ApiVersion,
) -> ApiVersion {
    let from_path = match first_v_segment(split_char(path, '/')) {
        Some(seg) => api_version_of(seg),
        None => None,
    };
    let from_accept = match accept {
        Some(a) => match accept_version_text(a) {
            Some(t) => api_version_of(t),
            None => None,
        },
        None => None,
    };
    let from_query = match query {
        Some(q) => query_version(split_char(q, '&')),
        None => None,
    };
    if from_path is Some {
        from_path->Some_0
    } else if from_accept is Some {
        from_accept->Some_0
    } else if from_query is Some {
        from_query->Some_0
    } else {
        default
    }
}

pub open spec fn opt_seq(o: Option<&str>) -> Option<Seq<char>> {
    match o {
        Some(s) => Some(s@),
        None => None,
    }
}

fn version_from_path(path: &str) -> (r: Option<ApiVersion>)
    ensures
        r == match first_v_segment(split_char(path@, '/')) {
            Some(seg) => api_version_of(seg),
            None => None,
        },
{
    let segs = split_by_char(path, '/');
    let ghost sv = views(segs@);
    let mut i: usize = 0;
    proof {
        assert(sv.skip(0) =~= sv);
    }
    while i < segs.len()
        invariant
            i <= segs@.len(),
            sv == views(segs@),
            sv == split_char(path@, '/'),
            first_v_segment(sv) == first_v_segment(sv.skip(i as int)),
        decreases segs.len() - i,
    {
        let ghost rest = sv.skip(i as int);
        assert(rest[0] == segs@[i as int]@);
        assert(rest.drop_first() =~= sv.skip(i + 1));
        if str_starts_with(segs[i].as_str(), "v") {
            return ApiVersion::from_str(segs[i].as_str());
        }
        i = i + 1;
    }
    proof {
        assert(sv.skip(0) =~= sv);
    }
    None
}

fn version_from_accept(accept: &str) -> (r: Option<ApiVersion>)
    ensures
        r == match accept_version_text(accept@) {
            Some(t) => api_version_of(t),
            None => None,
        },
{
    let a = chars_of(accept);
    let pat = chars_of(";version=");
    match find_str_from(&a, &pat, 0) {
        None => None,
        Some(i) => {
            proof {
                lemma_find_spec_bounds(a@, pat@, 0);
                assert(occurs_at_bounds(a@, pat@, i as int));
                assert(i + pat@.len() <= a@.len());
                assert(a@.len() == a.len());
                assert(pat@.len() == pat.len());
            }
            let rest_s = string_of_range(&a, i + pat.len(), a.len());
            let rest = chars_of(rest_s.as_str());
            proof {
                assert(rest@ =~= accept@.skip(i + ";version="@.len()));
            }
            let piece = match find_str_from(&rest, &pat, 0) {
                Some(j) => {
                    proof {
                        lemma_find_spec_bounds(rest@, pat@, 0);
                    }
                    string_of_range(&rest, 0, j)
                },
                None => rest_s,
            };
            proof {
                assert(piece@ == match find_spec(rest@, pat@, 0) {
                    Some(j) => rest@.take(j),
                    None => rest@,
                });
            }
            let text = match split_once_by_char(piece.as_str(), ',') {
                Some((head, _)) => head,
                None => piece,
            };
            proof {
                lemma_split_once_take(piece@, ',');
            }
            ApiVersion::from_str(text.as_str())
        },
    }
}

/// The index that `find_spec` returns is a real occurrence.
pub open spec fn occurs_at_bounds(s: Seq<char>, p: Seq<char>, i: int) -> bool {
    0 <= i && i + p.len() <= s.len()
}

proof fn lemma_find_spec_bounds(s: Seq<char>, p: Seq<char>, from: int)
    ensures
        find_spec(s, p, from) matches Some(i) ==> occurs_at_bounds(s, p, i),
    decreases s.len() + 1 - from,
{
    if 0 <= from <= s.len() && !crate::text::occurs_at(s, p, from) {
        lemma_find_spec_bounds(s, p, from + 1);
    }
}

proof fn lemma_split_once_take(s: Seq<char>, c: char)
    ensures
        match split_once_char(s, c) {
            Some((a, b)) => a == match char_index(s, c) {
                Some(k) => s.take(k),
                None => s,
            },
            None => char_index(s, c) is None,
        },
{
}

fn version_from_query(query: &str) -> (r: Option<ApiVersion>)
    ensures
        r == query_version(split_char(query@, '&')),
{
    let pairs = split_by_char(query, '&');
    let ghost pv = views(pairs@);
    let mut i: usize = 0;
    proof {
        assert(pv.skip(0) =~= pv);
    }
    while i < pairs.len()
        invariant
            i <= pairs@.len(),
            pv == views(pairs@),
            pv == split_char(query@, '&'),
            query_version(pv) == query_version(pv.skip(i as int)),
        decreases pairs.len() - i,
    {
        let ghost rest = pv.skip(i as int);
        assert(rest[0] == pairs@[i as int]@);
        assert(rest.drop_first() =~= pv.skip(i + 1));
        match split_once_by_char(pairs[i].as_str(), '=') {
            Some((k, v)) => {
                if str_eq(k.as_str(), "version") {
                    match ApiVersion::from_str(v.as_str()) {
                        Some(ver) => {
                            return Some(ver);
                        },
                        None => {},
                    }
                }
            },
            None => {},
        }
        i = i + 1;
    }
    None
}

/// The API version of a request (see [`request_version`]).
pub fn extract_version(
    path: &str,
    accept: Option<&str>,
    query: Option<&str>,
    default: ApiVersion,
) -> (r: ApiVersion)
    ensures
        r == request_version(path@, opt_seq(accept), opt_seq(query), default),
{
    match version_from_path(path) {
        Some(v) => {
            return v;
        },
        None => {},
    }
    match accept {
        Some(a) => match version_from_accept(a) {
            Some(v) => {
                return v;
            },
            None => {},
        },
        None => {},
    }
    match query {
        Some(q) => match version_from_query(q) {
            Some(v) => {
                return v;
            },
            None => {},
        },
        None => {},
    }
    default
}

/// The position of the entry for `v`, or -1.
pub open spec fn version_index<R>(s: Seq<(ApiVersion, R)>, v: ApiVersion) -> int
    decreases s.len(),
{
    if s.len() == 0 {
        -1
    } else if s.last().0 == v {
        s.len() - 1
    } else {
        version_index(s.drop_last(), v)
    }
}

/// The router registered for `v`.
pub open spec fn version_lookup<R>(s: Seq<(ApiVersion, R)>, v: ApiVersion) -> Option<R> {
    let i = version_index(s, v);
    if i >= 0 {
        Some(s[i].1)
    } else {
        None
    }
}

/// `s` with the router for `v` set to `r`: an existing entry is replaced in
/// place, otherwise one is added.
pub open spec fn version_insert<R>(s: Seq<(ApiVersion, R)>, v: ApiVersion, r: R) -> Seq<
    (ApiVersion, R),
> {
    let i = version_index(s, v);
    if i >= 0 {
        s.update(i, (v, r))
    } else {
        s.push((v, r))
    }
}

/// The found position holds `v`, and no later one does.
pub proof fn lemma_version_index<R>(s: Seq<(ApiVersion, R)>, v: ApiVersion)
    ensures
        -1 <= version_index(s, v) < s.len(),
        version_index(s, v) >= 0 ==> s[version_index(s, v)].0 == v,
        forall|j: int| version_index(s, v) < j < s.len() ==> s[j].0 != v,
    decreases s.len(),
{
    if s.len() > 0 && s.last().0 != v {
        lemma_version_index(s.drop_last(), v);
        assert forall|j: int| version_index(s, v) < j < s.len() implies s[j].0 != v by {
            if j < s.len() - 1 {
                assert(s[j] == s.drop_last()[j]);
            }
        }
    }
}

/// The last entry for `w` is found again once the entry for another
/// version has been written.
proof fn lemma_version_index_other<R>(s: Seq<(ApiVersion, R)>, v: ApiVersion, r: R, w: ApiVersion)
    requires
        w != v,
    ensures
        version_lookup(version_insert(s, v, r), w) == version_lookup(s, w),
    decreases s.len(),
{
    let i = version_index(s, v);
    lemma_version_index(s, v);
    lemma_version_index(s, w);
    let k = version_index(s, w);
    if i >= 0 {
        lemma_same_index_after_update(s, i, (v, r), w);
    } else {
        let t = s.push((v, r));
        assert(t.drop_last() =~= s);
        assert(version_index(t, w) == k);
        if k >= 0 {
            assert(t[k] == s[k]);
        }
    }
}

proof fn lemma_same_index_after_update<R>(
    s: Seq<(ApiVersion, R)>,
    i: int,
    e: (ApiVersion, R),
    w: ApiVersion,
)
    requires
        0 <= i < s.len(),
        s[i].0 != w,
        e.0 != w,
    ensures
        version_index(s.update(i, e), w) == version_index(s, w),
        version_index(s, w) >= 0 ==> s.update(i, e)[version_index(s, w)].1 == s[version_index(s, w)].1,
    decreases s.len(),
{
    lemma_version_index(s, w);
    if s.len() > 0 {
        if i == s.len() - 1 {
            assert(s.update(i, e).drop_last() =~= s.drop_last());
        } else {
            assert(s.update(i, e).drop_last() =~= s.drop_last().update(i, e));
            if s.last().0 != w {
                lemma_same_index_after_update(s.drop_last(), i, e, w);
            }
        }
    }
}

/// A router registered for a version is the one found for it, and the
/// routers of other versions stay as they were.
pub proof fn lemma_router_read_after_write<R>(
    s: Seq<(ApiVersion, R)>,
    v: ApiVersion,
    r: R,
    w: ApiVersion,
)
    ensures
        version_lookup(version_insert(s, v, r), v) == Some(r),
        w != v ==> version_lookup(version_insert(s, v, r), w) == version_lookup(s, w),
{
    lemma_version_index(s, v);
    let i = version_index(s, v);
    let t = version_insert(s, v, r);
    lemma_version_index(t, v);
    if i >= 0 {
        assert(t[i].0 == v);
        assert forall|j: int| i < j < t.len() implies t[j].0 != v by {
            assert(t[j] == s[j]);
        }
    } else {
        assert(t.last().0 == v);
    }
    if w != v {
        lemma_version_index_other(s, v, r, w);
    }
}

/// Routers kept per API version, with the version used when a request
/// names none.
#[derive(Debug)]
pub struct VersionedRouter<R> {
    routers: Vec<(ApiVersion, R)>,
    default_version: ApiVersion,
}

impl<R> VersionedRouter<R> {
    /// The registered routers, the last entry for a version being the one
    /// in use.
    pub closed spec fn routers(&self) -> Seq<(ApiVersion, R)> {
        self.routers@
    }

    pub closed spec fn default_spec(&self) -> ApiVersion {
        self.default_version
    }

    pub fn new(default_version: ApiVersion) -> (r: VersionedRouter<R>)
        ensures
            r.routers() == Seq::<(ApiVersion, R)>::empty(),
            r.default_spec() == default_version,
    {
        VersionedRouter { routers: Vec::new(), default_version }
    }

    /// Registers `router` for `version`, replacing an earlier one.
    pub fn version(&mut self, version: ApiVersion, router: R)
        ensures
            final(self).routers() == version_insert(old(self).routers(), version, router),
            final(self).default_spec() == old(self).default_spec(),
    {
        let n = self.routers.len();
        let mut i: usize = n;
        let mut found: bool = false;
        while i > 0
            invariant_except_break
                !found,
                forall|j: int| i <= j < n ==> self.routers@[j].0 != version,
            invariant
                n == self.routers@.len(),
                i <= n,
            ensures
                found ==> i < n && self.routers@[i as int].0 == version && forall|j: int|
                    i < j < n ==> self.routers@[j].0 != version,
                !found ==> forall|j: int| 0 <= j < n ==> self.routers@[j].0 != version,
            decreases i,
        {
            if self.routers[i - 1].0 == version {
                i = i - 1;
                found = true;
                break;
            }
            i = i - 1;
        }
        proof {
            lemma_version_index(self.routers@, version);
        }
        if found {
            self.routers.set(i, (version, router));
        } else {
            self.routers.push((version, router));
        }
    }

    /// The router registered for `version`.
    pub fn get_router(&self, version: ApiVersion) -> (r: Option<&R>)
        ensures
            match version_lookup(self.routers(), version) {
                Some(x) => r is Some && *r->0 == x,
                None => r is None,
            },
    {
        let mut i: usize = self.routers.len();
        proof {
            lemma_version_index(self.routers@, version);
        }
        while i > 0
            invariant
                i <= self.routers@.len(),
                forall|j: int| i <= j < self.routers@.len() ==> self.routers@[j].0 != version,
            decreases i,
        {
            if self.routers[i - 1].0 == version {
                proof {
                    lemma_version_index(self.routers@, version);
                }
                return Some(&self.routers[i - 1].1);
            }
            i = i - 1;
        }
        None
    }

    /// The version a request asks for (see [`request_version`]), this
    /// router's default when it names none.
    pub fn extract_version(&self, path: &str, accept: Option<&str>, query: Option<&str>) -> (r:
        ApiVersion)
        ensures
            r == request_version(path@, opt_seq(accept), opt_seq(query), self.default_spec()),
    {
        extract_version(path, accept, query, self.default_version)
    }
}

/// Marks versions as deprecated and tells clients so.
#[derive(Debug)]
pub struct DeprecationMiddleware {
    deprecated_versions: Vec<ApiVersion>,
    sunset_date: Option<String>,
}

pub struct DeprecationView {
    pub deprecated: Seq<ApiVersion>,
    pub sunset: Option<Seq<char>>,
}

impl View for DeprecationMiddleware {
    type V = DeprecationView;

    closed spec fn view(&self) -> DeprecationView {
        DeprecationView {
            deprecated: self.deprecated_versions@,
            sunset: match self.sunset_date {
                Some(d) => Some(d@),
                None => None,
            },
        }
    }
}

/// The headers for a response in `version`: none for a supported version;
/// for a deprecated one `Deprecation: true`, the `Sunset` date when set, and
/// a `Link` to the documentation.
pub open spec fn deprecation_headers(m: DeprecationView, version: ApiVersion) -> Seq<
    (Seq<char>, Seq<char>),
> {
    if m.deprecated.contains(version) {
        seq![("Deprecation"@, "true"@)] + match m.sunset {
            Some(d) => seq![("Sunset"@, d)],
            None => Seq::empty(),
        } + seq![("Link"@, "</api/docs>; rel=\"deprecation\""@)]
    } else {
        Seq::empty()
    }
}

impl DeprecationMiddleware {
    pub fn new(deprecated_versions: Vec<ApiVersion>) -> (r: DeprecationMiddleware)
        ensures
            r@.deprecated == deprecated_versions@,
            r@.sunset is None,
    {
        DeprecationMiddleware { deprecated_versions, sunset_date: None }
    }

    pub fn with_sunset_date(self, date: String) -> (r: DeprecationMiddleware)
        ensures
            r@.deprecated == self@.deprecated,
            r@.sunset == Some(date@),
    {
        DeprecationMiddleware { sunset_date: Some(date), ..self }
    }

    /// The headers to add to a response served in `version`.
    pub fn headers_for(&self, version: ApiVersion) -> (r: Vec<(String, String)>)
        ensures
            r@.map_values(|p: (String, String)| (p.0@, p.1@)) == deprecation_headers(self@, version),
    {
        let mut found = false;
        let mut i: usize = 0;
        while i < self.deprecated_versions.len()
            invariant
                i <= self.deprecated_versions@.len(),
                found == (exists|k: int|
                    0 <= k < i && self.deprecated_versions@[k] == version),
            decreases self.deprecated_versions.len() - i,
        {
            if self.deprecated_versions[i] == version {
                found = true;
            }
            i = i + 1;
        }
        proof {
            if found {
                let k = choose|k: int| 0 <= k < i && self.deprecated_versions@[k] == version;
                assert(self@.deprecated[k] == version);
            }
        }
        let mut r: Vec<(String, String)> = Vec::new();
        if found {
            r.push((owned("Deprecation"), owned("true")));
            match &self.sunset_date {
                Some(d) => {
                    r.push((owned("Sunset"), d.clone()));
                },
                None => {},
            }
            r.push((owned("Link"), owned("</api/docs>; rel=\"deprecation\"")));
        }
        proof {
            assert(r@.map_values(|p: (String, String)| (p.0@, p.1@)) =~= deprecation_headers(
                self@,
                version,
            ));
        }
        r
    }
}

} // verus!
