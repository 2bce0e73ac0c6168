use oxidite::http::cors::{adapter_headers, cors_headers, CorsConfig};
use oxidite::http::errors::{render_ignition_error, should_log_connection_error, use_error_page, Error};
use oxidite::http::extract::{
    accepts_html, check_form_content_type, extraction_error, is_form_content_type, Cookies, ExtractFailure,
};
use oxidite::http::routing::{compile_path, pattern_matches, RouteDecision, RouteTable};
use oxidite::http::versioning::{extract_version, ApiVersion, DeprecationMiddleware, VersionedRouter};

fn header<'a>(headers: &'a [(String, String)], name: &str) -> Option<&'a str> {
    headers.iter().find(|(n, _)| n == name).map(|(_, v)| v.as_str())
}

#[test]
fn test_compile_path() {
    let compiled = compile_path("/users/:id").unwrap();
    assert_eq!(compiled.param_names, vec!["id"]);
    assert_eq!(pattern_matches(&compiled.pattern, "/users/123"), Some(true));
    assert_eq!(pattern_matches(&compiled.pattern, "/users/123/posts"), Some(false));

    let compiled = compile_path("/users/:user_id/posts/:post_id").unwrap();
    assert_eq!(compiled.param_names, vec!["user_id", "post_id"]);
    assert_eq!(pattern_matches(&compiled.pattern, "/users/1/posts/2"), Some(true));
}

#[test]
fn test_exact_match() {
    let compiled = compile_path("/users").unwrap();
    assert_eq!(compiled.param_names.len(), 0);
    assert_eq!(pattern_matches(&compiled.pattern, "/users"), Some(true));
    assert_eq!(pattern_matches(&compiled.pattern, "/users/123"), Some(false));
}

#[test]
fn invalid_patterns_are_reported() {
    assert_eq!(pattern_matches("^(unclosed$", "x"), None);
}

#[test]
fn compiled_patterns_escape_and_wildcard() {
    let compiled = compile_path("/files/*").unwrap();
    assert_eq!(compiled.pattern, "^/files/(.*)$");
    let compiled = compile_path("/a.b").unwrap();
    assert_eq!(compiled.pattern, "^/a\\.b$");
    assert_eq!(pattern_matches(&compiled.pattern, "/a.b"), Some(true));
    assert_eq!(pattern_matches(&compiled.pattern, "/axb"), Some(false));
}

#[test]
fn test_method_not_allowed_when_path_exists() {
    let mut table = RouteTable::new();
    assert!(table.add_route("GET", "/users", 0));
    match table.decide("POST", "/users") {
        RouteDecision::MethodNotAllowed(methods) => assert_eq!(methods, vec!["GET"]),
        _ => panic!("expected 405"),
    }
}

#[test]
fn test_not_found_when_path_missing() {
    let mut table = RouteTable::new();
    assert!(table.add_route("GET", "/users", 0));
    assert!(matches!(table.decide("GET", "/missing"), RouteDecision::NotFound));
}

#[test]
fn test_not_found_on_empty_router() {
    let table = RouteTable::new();
    assert!(matches!(table.decide("GET", "/missing"), RouteDecision::NotFound));
}

#[test]
fn router_dispatches_with_params_and_fallbacks() {
    let mut table = RouteTable::new();
    assert!(table.add_route("GET", "/users/:id", 7));
    assert!(table.add_route("POST", "/users", 8));
    match table.decide("GET", "/users/42") {
        RouteDecision::Dispatch { handler, params, with_cors } => {
            assert_eq!(handler, 7);
            assert_eq!(params, vec![("id".to_string(), "42".to_string())]);
            assert!(with_cors);
        }
        _ => panic!("expected dispatch"),
    }
    match table.decide("HEAD", "/users/42") {
        RouteDecision::Dispatch { handler, with_cors, .. } => {
            assert_eq!(handler, 7);
            assert!(!with_cors);
        }
        _ => panic!("expected GET fallback"),
    }
    assert!(matches!(table.decide("OPTIONS", "/users"), RouteDecision::Preflight));
}

#[test]
fn test_cors_config_default() {
    let config = CorsConfig::default();
    assert_eq!(config.allowed_origins, vec!["*"]);
    assert!(!config.allowed_methods.is_empty());
    assert_eq!(config.allowed_headers, vec!["*"]);
    assert!(!config.allow_credentials);
    assert_eq!(config.max_age, 3600);
}

#[test]
fn test_cors_config_permissive() {
    let config = CorsConfig::permissive();
    assert_eq!(config.allowed_origins, vec!["*"]);
    assert_eq!(config.allowed_headers, vec!["*"]);
}

#[test]
fn test_cors_config_restrictive() {
    let config = CorsConfig::restrictive();
    assert!(config.allowed_origins.is_empty());
    assert_eq!(config.allowed_methods, vec!["GET", "POST"]);
    assert_eq!(config.allowed_headers, vec!["Content-Type"]);
}

#[test]
fn test_cors_preflight_response() {
    let config = CorsConfig {
        allowed_origins: vec!["http://localhost:3000".to_string()],
        allowed_methods: vec!["GET".to_string(), "POST".to_string()],
        allowed_headers: vec!["Content-Type".to_string()],
        allow_credentials: true,
        max_age: 7200,
    };
    let headers = cors_headers(&config);
    assert_eq!(header(&headers, "Access-Control-Allow-Origin"), Some("http://localhost:3000"));
    assert_eq!(header(&headers, "Access-Control-Allow-Methods"), Some("GET, POST"));
    assert_eq!(header(&headers, "Access-Control-Allow-Headers"), Some("Content-Type"));
    assert_eq!(header(&headers, "Access-Control-Allow-Credentials"), Some("true"));
    assert_eq!(header(&headers, "Access-Control-Max-Age"), Some("7200"));
}

#[test]
fn test_cors_wildcard_origin() {
    let headers = cors_headers(&CorsConfig::permissive());
    assert_eq!(header(&headers, "Access-Control-Allow-Origin"), Some("*"));
    assert_eq!(header(&headers, "Access-Control-Allow-Credentials"), None);
}

#[test]
fn restrictive_cors_has_no_origin_header() {
    let headers = cors_headers(&CorsConfig::restrictive());
    assert_eq!(header(&headers, "Access-Control-Allow-Origin"), None);
    assert_eq!(header(&headers, "Access-Control-Allow-Methods"), Some("GET, POST"));
}

#[test]
fn api_versions_parse_and_print() {
    assert_eq!(ApiVersion::from_str("v1"), Some(ApiVersion::V1));
    assert_eq!(ApiVersion::from_str("2"), Some(ApiVersion::V2));
    assert_eq!(ApiVersion::from_str("v9"), Some(ApiVersion::Custom(9)));
    assert_eq!(ApiVersion::from_str("vv12"), Some(ApiVersion::Custom(12)));
    assert_eq!(ApiVersion::from_str("v300"), None);
    assert_eq!(ApiVersion::from_str("x"), None);
    assert_eq!(ApiVersion::V3.as_str(), "v3");
    assert_eq!(ApiVersion::Custom(4).as_str(), "custom");
}

#[test]
fn request_version_sources_in_order() {
    assert_eq!(extract_version("/api/v2/users", None, None, ApiVersion::V1), ApiVersion::V2);
    assert_eq!(
        extract_version("/api/users", Some("application/vnd.api+json;version=3"), None, ApiVersion::V1),
        ApiVersion::V3
    );
    assert_eq!(
        extract_version("/api/users", None, Some("a=b&version=2"), ApiVersion::V1),
        ApiVersion::V2
    );
    assert_eq!(extract_version("/api/users", None, None, ApiVersion::V3), ApiVersion::V3);
}

#[test]
fn versioned_router_registers_per_version() {
    let mut routers: VersionedRouter<&str> = VersionedRouter::new(ApiVersion::V1);
    routers.version(ApiVersion::V1, "one");
    routers.version(ApiVersion::V2, "two");
    routers.version(ApiVersion::V1, "uno");
    assert_eq!(routers.get_router(ApiVersion::V1), Some(&"uno"));
    assert_eq!(routers.get_router(ApiVersion::V2), Some(&"two"));
    assert_eq!(routers.get_router(ApiVersion::V3), None);
    assert_eq!(routers.extract_version("/api/users", None, None), ApiVersion::V1);
}

#[test]
fn deprecation_headers_for_deprecated_versions() {
    let m = DeprecationMiddleware::new(vec![ApiVersion::V1]).with_sunset_date("2025-01-01".to_string());
    let h = m.headers_for(ApiVersion::V1);
    assert_eq!(header(&h, "Deprecation"), Some("true"));
    assert_eq!(header(&h, "Sunset"), Some("2025-01-01"));
    assert_eq!(header(&h, "Link"), Some("</api/docs>; rel=\"deprecation\""));
    assert!(m.headers_for(ApiVersion::V2).is_empty());
}

#[test]
fn cookies_are_parsed_and_later_values_win() {
    let c = Cookies::from_header(Some("a=1; b = two ; junk; a=3"));
    assert_eq!(c.get("a").map(String::as_str), Some("3"));
    assert_eq!(c.get("b").map(String::as_str), Some("two"));
    assert!(!c.contains_key("junk"));
    assert_eq!(c.iter().len(), 2);
    assert!(Cookies::from_header(None).iter().is_empty());
}

#[test]
fn content_type_and_accept_checks() {
    assert!(is_form_content_type(Some("application/x-www-form-urlencoded; charset=utf-8")));
    assert!(!is_form_content_type(Some("application/json")));
    assert!(!is_form_content_type(None));
    assert!(accepts_html(Some("text/html,application/xhtml+xml")));
    assert!(!accepts_html(None));
}

#[test]
fn errors_map_to_statuses_and_messages() {
    let e = Error::NotFound("user".to_string());
    assert_eq!(e.status_code(), 404);
    assert!(e.is_client_error());
    assert_eq!(e.to_string(), "Resource not found: user");
    assert_eq!(e.response_body(), "{\"error\":\"Resource not found: user\"}");
    let quoted = Error::BadRequest("say \"hi\"".to_string()).response_body();
    assert_eq!(quoted, "{\"error\":\"Bad request: say \\\"hi\\\"\"}");
    let internal = Error::InternalServerError("db".to_string());
    assert_eq!(internal.status_code(), 500);
    assert!(internal.is_server_error());
    assert!(use_error_page("development", true, &internal));
    assert!(!use_error_page("production", true, &internal));
    assert!(!use_error_page("development", true, &e));
    assert!(render_ignition_error(&internal).contains("Internal server error: db"));
    assert!(should_log_connection_error(Some(&internal), ""));
    assert!(!should_log_connection_error(None, "connection closed before message completed"));
    assert!(should_log_connection_error(None, "broken pipe"));
}

#[test]
fn extraction_errors() {
    let e = extraction_error(ExtractFailure::JsonBody, "expected value at line 1");
    assert_eq!(e.status_code(), 400);
    assert_eq!(e.to_string(), "Bad request: Invalid JSON: expected value at line 1");
    let e = extraction_error(ExtractFailure::MissingState, "");
    assert_eq!(e.status_code(), 500);
    assert!(check_form_content_type(Some("application/x-www-form-urlencoded")).is_ok());
    match check_form_content_type(Some("application/json")) {
        Err(Error::BadRequest(m)) => assert_eq!(m, "Expected application/x-www-form-urlencoded content type"),
        _ => panic!("expected a bad request"),
    }
}

#[test]
fn error_body_escapes_control_characters() {
    let body = Error::BadRequest("a\tb\nc\u{1}d\\e/f\u{7f}é".to_string()).response_body();
    assert_eq!(body, "{\"error\":\"Bad request: a\\tb\\nc\\u0001d\\\\e/f\u{7f}é\"}");
}

#[test]
fn adapter_headers_drop_values_that_are_not_header_values() {
    let good = CorsConfig::restrictive().allow_origin("https://a.example\tx");
    let headers = adapter_headers(&good);
    assert_eq!(header(&headers, "access-control-allow-origin"), Some("https://a.example\tx"));
    let bad = CorsConfig::restrictive().allow_origin("https://a.example\n");
    let headers = adapter_headers(&bad);
    assert_eq!(header(&headers, "access-control-allow-origin"), None);
    let del = CorsConfig::restrictive().allow_origin("x\u{7f}");
    assert_eq!(header(&adapter_headers(&del), "access-control-allow-origin"), None);
    let unicode = CorsConfig::restrictive().allow_origin("héllo");
    assert_eq!(header(&adapter_headers(&unicode), "access-control-allow-origin"), Some("héllo"));
}
