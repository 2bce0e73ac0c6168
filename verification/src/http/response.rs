//! Responses as plain values: a status, headers in order and a body, with
//! the constructors that handlers and the error path use.
use vstd::prelude::*;
use crate::http::errors::{error_object, json_string_text, message_of, status_of, Error};
use crate::text::{eq_ignore_ascii_case, lower_seq, owned};

verus! {

/// The `Server` header of every response.
pub const SERVER_HEADER_VALUE: &'static str = "Oxidite/3.1.0";

/// The body a client receives when a value could not be written as JSON.
pub const JSON_FAILURE_BODY: &'static str = "{\"error\":\"Internal Server Error\"}";

/// What a response carries.
#[derive(Debug, Clone, PartialEq, Eq)]
pub enum ResponseBody {
    Empty,
    Text(String),
    Bytes(Vec<u8>),
}

/// A response body as plain values.
pub enum BodyView {
    Empty,
    Text(Seq<char>),
    Bytes(Seq<u8>),
}

pub open spec fn body_view(b: ResponseBody) -> BodyView {
    match b {
        ResponseBody::Empty => BodyView::Empty,
        ResponseBody::Text(s) => BodyView::Text(s@),
        ResponseBody::Bytes(v) => BodyView::Bytes(v@),
    }
}

/// An HTTP response: status code, headers in order, body.
#[derive(Debug, Clone)]
pub struct OxiditeResponse {
    pub status: u16,
    pub headers: Vec<(String, String)>,
    pub body: ResponseBody,
}

pub open spec fn header_views(h: Seq<(String, String)>) -> Seq<(Seq<char>, Seq<char>)> {
    h.map_values(|p: (String, String)| (p.0@, p.1@))
}

/// The headers of a response with a content type.
pub open spec fn typed_headers(content_type: Seq<char>) -> Seq<(Seq<char>, Seq<char>)> {
    seq![("Content-Type"@, content_type), ("Server"@, SERVER_HEADER_VALUE@)]
}

fn pair(a: &str, b: &str) -> (r: (String, String))
    ensures
        r.0@ == a@,
        r.1@ == b@,
{
    (owned(a), owned(b))
}

fn typed(content_type: &str) -> (r: Vec<(String, String)>)
    ensures
        header_views(r@) == typed_headers(content_type@),
{
    let mut h: Vec<(String, String)> = Vec::new();
    h.push(pair("Content-Type", content_type));
    h.push(pair("Server", SERVER_HEADER_VALUE));
    assert(header_views(h@) =~= typed_headers(content_type@));
    h
}

fn server_only() -> (r: Vec<(String, String)>)
    ensures
        header_views(r@) == seq![("Server"@, SERVER_HEADER_VALUE@)],
{
    let mut h: Vec<(String, String)> = Vec::new();
    h.push(pair("Server", SERVER_HEADER_VALUE));
    assert(header_views(h@) =~= seq![("Server"@, SERVER_HEADER_VALUE@)]);
    h
}

/// Whether two header names are the same name, ASCII letter case aside.
pub open spec fn same_name(a: Seq<char>, b: Seq<char>) -> bool {
    lower_seq(a) == lower_seq(b)
}

/// `h` with every header named `name` taken out and `(name, value)` added
/// at the end.
pub open spec fn with_header(h: Seq<(Seq<char>, Seq<char>)>, name: Seq<char>, value: Seq<char>) -> Seq<
    (Seq<char>, Seq<char>),
> {
    h.filter(|p: (Seq<char>, Seq<char>)| !same_name(p.0, name)).push((name, value))
}

impl OxiditeResponse {
    /// A `200` response with a JSON body already written out.
    pub fn json_bytes(json: Vec<u8>) -> (r: OxiditeResponse)
        ensures
            r.status == 200,
            header_views(r.headers@) == typed_headers("application/json"@),
            body_view(r.body) == BodyView::Bytes(json@),
    {
        OxiditeResponse { status: 200, headers: typed("application/json"), body: ResponseBody::Bytes(json) }
    }

    /// The response for a value written as JSON: the bytes on success, a
    /// `500` with a fixed error body when the value could not be written.
    pub fn json_from(written: Result<Vec<u8>, String>) -> (r: OxiditeResponse)
        ensures
            header_views(r.headers@) == typed_headers("application/json"@),
            match written {
                Ok(json) => r.status == 200 && body_view(r.body) == BodyView::Bytes(json@),
                Err(_) => r.status == 500 && body_view(r.body) == BodyView::Text(JSON_FAILURE_BODY@),
            },
    {
        match written {
            Ok(json) => OxiditeResponse::json_bytes(json),
            Err(_) => OxiditeResponse {
                status: 500,
                headers: typed("application/json"),
                body: ResponseBody::Text(owned(JSON_FAILURE_BODY)),
            },
        }
    }

    /// A `200` HTML response.
    pub fn html(body: &str) -> (r: OxiditeResponse)
        ensures
            r.status == 200,
            header_views(r.headers@) == typed_headers("text/html"@),
            body_view(r.body) == BodyView::Text(body@),
    {
        OxiditeResponse { status: 200, headers: typed("text/html"), body: ResponseBody::Text(owned(body)) }
    }

    /// A `200` plain text response.
    pub fn text(body: &str) -> (r: OxiditeResponse)
        ensures
            r.status == 200,
            header_views(r.headers@) == typed_headers("text/plain"@),
            body_view(r.body) == BodyView::Text(body@),
    {
        OxiditeResponse { status: 200, headers: typed("text/plain"), body: ResponseBody::Text(owned(body)) }
    }

    /// An empty `200` response.
    pub fn ok() -> (r: OxiditeResponse)
        ensures
            r.status == 200,
            header_views(r.headers@) == seq![("Server"@, SERVER_HEADER_VALUE@)],
            r.body == ResponseBody::Empty,
    {
        OxiditeResponse { status: 200, headers: server_only(), body: ResponseBody::Empty }
    }

    /// An empty `204 No Content` response.
    pub fn no_content() -> (r: OxiditeResponse)
        ensures
            r.status == 204,
            header_views(r.headers@) == seq![("Server"@, SERVER_HEADER_VALUE@)],
            r.body == ResponseBody::Empty,
    {
        OxiditeResponse { status: 204, headers: server_only(), body: ResponseBody::Empty }
    }

    /// The response that answers an error: its status and the JSON object
    /// `{"error": message}`.
    pub fn from_error(error: &Error) -> (r: OxiditeResponse)
        ensures
            r.status == status_of(*error),
            header_views(r.headers@) == typed_headers("application/json"@),
            body_view(r.body) == BodyView::Text(error_object(json_string_text(message_of(*error)))),
    {
        OxiditeResponse {
            status: error.status_code(),
            headers: typed("application/json"),
            body: ResponseBody::Text(error.response_body()),
        }
    }

    /// The status code.
    pub fn status(&self) -> (r: u16)
        ensures
            r == self.status,
    {
        self.status
    }

    /// The headers, in order.
    pub fn headers(&self) -> (r: &Vec<(String, String)>)
        ensures
            r == &self.headers,
    {
        &self.headers
    }

    /// Sets a header: any header of that name, ASCII letter case aside, is
    /// replaced.
    pub fn insert_header(&mut self, name: &str, value: &str)
        ensures
            header_views(final(self).headers@) == with_header(header_views(old(self).headers@), name@, value@),
            final(self).status == old(self).status,
            final(self).body == old(self).body,
    {
        let ghost pred = |p: (Seq<char>, Seq<char>)| !same_name(p.0, name@);
        let ghost hv = header_views(self.headers@);
        let mut kept: Vec<(String, String)> = Vec::new();
        let mut i: usize = 0;
        while i < self.headers.len()
            invariant
                i <= self.headers@.len(),
                hv == header_views(self.headers@),
                pred == (|p: (Seq<char>, Seq<char>)| !same_name(p.0, name@)),
                header_views(kept@) == hv.take(i as int).filter(pred),
            decreases self.headers.len() - i,
        {
            proof {
                reveal(Seq::filter);
                assert(hv.take(i + 1).drop_last() =~= hv.take(i as int));
                assert(hv.take(i + 1).last() == hv[i as int]);
            }
            if !eq_ignore_ascii_case(self.headers[i].0.as_str(), name) {
                let ghost before = kept@;
                kept.push(pair(self.headers[i].0.as_str(), self.headers[i].1.as_str()));
                proof {
                    assert(header_views(kept@) =~= header_views(before).push(hv[i as int]));
                }
            }
            i = i + 1;
        }
        proof {
            assert(hv.take(self.headers@.len() as int) =~= hv);
        }
        let ghost before = kept@;
        kept.push(pair(name, value));
        proof {
            assert(header_views(kept@) =~= header_views(before).push((name@, value@)));
        }
        self.headers = kept;
    }
}

} // verus!
