use oxidite::http::errors::Error;
use oxidite::http::response::{OxiditeResponse, ResponseBody, JSON_FAILURE_BODY, SERVER_HEADER_VALUE};

fn header<'a>(r: &'a OxiditeResponse, name: &str) -> Option<&'a str> {
    r.headers().iter().find(|(n, _)| n == name).map(|(_, v)| v.as_str())
}

#[test]
fn constructors_set_status_type_and_body() {
    let r = OxiditeResponse::text("hi");
    assert_eq!(r.status(), 200);
    assert_eq!(header(&r, "Content-Type"), Some("text/plain"));
    assert_eq!(header(&r, "Server"), Some(SERVER_HEADER_VALUE));
    assert_eq!(r.body, ResponseBody::Text("hi".to_string()));
    assert_eq!(header(&OxiditeResponse::html("<p/>"), "Content-Type"), Some("text/html"));
    assert_eq!(OxiditeResponse::ok().status(), 200);
    assert_eq!(OxiditeResponse::ok().body, ResponseBody::Empty);
    assert_eq!(OxiditeResponse::no_content().status(), 204);
    assert_eq!(header(&OxiditeResponse::no_content(), "Content-Type"), None);
}

#[test]
fn json_responses() {
    let r = OxiditeResponse::json_from(Ok(b"{\"a\":1}".to_vec()));
    assert_eq!(r.status(), 200);
    assert_eq!(header(&r, "Content-Type"), Some("application/json"));
    assert_eq!(r.body, ResponseBody::Bytes(b"{\"a\":1}".to_vec()));
    let failed = OxiditeResponse::json_from(Err("key must be a string".to_string()));
    assert_eq!(failed.status(), 500);
    assert_eq!(failed.body, ResponseBody::Text(JSON_FAILURE_BODY.to_string()));
}

#[test]
fn errors_become_json_responses() {
    let r = OxiditeResponse::from_error(&Error::Unauthorized("token expired".to_string()));
    assert_eq!(r.status(), 401);
    assert_eq!(r.body, ResponseBody::Text("{\"error\":\"Unauthorized access: token expired\"}".to_string()));
}

#[test]
fn inserting_a_header_replaces_any_case() {
    let mut r = OxiditeResponse::text("x");
    r.insert_header("content-type", "text/csv");
    assert_eq!(header(&r, "Content-Type"), None);
    assert_eq!(header(&r, "content-type"), Some("text/csv"));
    assert_eq!(r.headers().len(), 2);
    r.insert_header("X-Trace", "1");
    assert_eq!(r.headers().last().unwrap(), &("X-Trace".to_string(), "1".to_string()));
}
