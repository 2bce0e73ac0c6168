//! Application errors: their HTTP status, their text and the pages and
//! bodies that answer them.
use vstd::prelude::*;
use crate::text::{concat, contains, owned, push_str, str_contains, str_eq};

verus! {

/// An error of an application. Errors that come from a protocol, I/O,
/// encoding or parsing layer carry that layer's own error text.
#[derive(Debug)]
pub enum Error {
    InternalServerError(String),
    InternalServerErrorWithSource { message: String },
    NotFound(String),
    BadRequest(String),
    Unauthorized(String),
    Forbidden(String),
    Conflict(String),
    Validation(String),
    RateLimited(String),
    ServiceUnavailable(String),
    MethodNotAllowed(String),
    Hyper(String),
    Io(String),
    SerdeJson(String),
    SerdeUrlEncoded(String),
    Http(String),
    Utf8(String),
}

/// The HTTP status that answers `e`.
pub open spec fn status_of(e: Error) -> u16 {
    match e {
        Error::NotFound(_) => 404,
        Error::BadRequest(_) | Error::SerdeJson(_) | Error::SerdeUrlEncoded(_) | Error::Utf8(_) => 400,
        Error::Unauthorized(_) => 401,
        Error::Forbidden(_) => 403,
        Error::Conflict(_) => 409,
        Error::Validation(_) => 422,
        Error::RateLimited(_) => 429,
        Error::ServiceUnavailable(_) => 503,
        Error::MethodNotAllowed(_) => 405,
        _ => 500,
    }
}

/// A status in the 4xx range.
pub open spec fn is_client_status(s: u16) -> bool {
    400 <= s < 500
}

/// A status in the 5xx range.
pub open spec fn is_server_status(s: u16) -> bool {
    500 <= s < 600
}

/// The text of `e`: a fixed prefix and its detail, or, for errors of an
/// underlying layer, that layer's text alone.
pub open spec fn message_of(e: Error) -> Seq<char> {
    match e {
        Error::InternalServerError(m) => "Internal server error: "@ + m@,
        Error::InternalServerErrorWithSource { message } => "Internal server error: "@ + message@,
        Error::NotFound(m) => "Resource not found: "@ + m@,
        Error::BadRequest(m) => "Bad request: "@ + m@,
        Error::Unauthorized(m) => "Unauthorized access: "@ + m@,
        Error::Forbidden(m) => "Forbidden: "@ + m@,
        Error::Conflict(m) => "Resource conflict: "@ + m@,
        Error::Validation(m) => "Validation failed: "@ + m@,
        Error::RateLimited(m) => "Rate limit exceeded: "@ + m@,
        Error::ServiceUnavailable(m) => "Service temporarily unavailable: "@ + m@,
        Error::MethodNotAllowed(m) => "Method not allowed: "@ + m@,
        Error::Hyper(m) => m@,
        Error::Io(m) => m@,
        Error::SerdeJson(m) => m@,
        Error::SerdeUrlEncoded(m) => m@,
        Error::Http(m) => m@,
        Error::Utf8(m) => m@,
    }
}

/// The heading that the development error page shows for `e`.
pub open spec fn title_of(e: Error) -> Seq<char> {
    match e {
        Error::InternalServerError(_) | Error::InternalServerErrorWithSource { .. } => "Internal Server Error"@,
        Error::NotFound(_) => "Not Found"@,
        Error::BadRequest(_) => "Bad Request"@,
        Error::Unauthorized(_) => "Unauthorized"@,
        Error::Forbidden(_) => "Forbidden"@,
        Error::Conflict(_) => "Conflict"@,
        Error::Validation(_) => "Validation Error"@,
        Error::RateLimited(_) => "Rate Limited"@,
        Error::ServiceUnavailable(_) => "Service Unavailable"@,
        Error::MethodNotAllowed(_) => "Method Not Allowed"@,
        Error::Hyper(_) => "Hyper Protocol Error"@,
        Error::Io(_) => "I/O Error"@,
        Error::SerdeJson(_) => "JSON Serialization Error"@,
        Error::SerdeUrlEncoded(_) => "URL Encoded Error"@,
        Error::Http(_) => "HTTP Error"@,
        Error::Utf8(_) => "UTF-8 Encoding Error"@,
    }
}

impl Error {
    /// An internal error that keeps the text of the error it wraps.
    pub fn internal(source_text: String) -> (r: Error)
        ensures
            r == (Error::InternalServerErrorWithSource { message: source_text }),
    {
        Error::InternalServerErrorWithSource { message: source_text }
    }

    /// The HTTP status code of this error.
    pub fn status_code(&self) -> (r: u16)
        ensures
            r == status_of(*self),
    {
        match self {
            Error::NotFound(_) => 404,
            Error::BadRequest(_) | Error::SerdeJson(_) | Error::SerdeUrlEncoded(_) | Error::Utf8(_) => 400,
            Error::Unauthorized(_) => 401,
            Error::Forbidden(_) => 403,
            Error::Conflict(_) => 409,
            Error::Validation(_) => 422,
            Error::RateLimited(_) => 429,
            Error::ServiceUnavailable(_) => 503,
            Error::MethodNotAllowed(_) => 405,
            _ => 500,
        }
    }

    /// Whether this error is the client's fault (a 4xx status).
    pub fn is_client_error(&self) -> (r: bool)
        ensures
            r == is_client_status(status_of(*self)),
    {
        let s = self.status_code();
        400 <= s && s < 500
    }

    /// Whether this error is the server's fault (a 5xx status).
    pub fn is_server_error(&self) -> (r: bool)
        ensures
            r == is_server_status(status_of(*self)),
    {
        let s = self.status_code();
        500 <= s && s < 600
    }

    /// The text of this error.
    pub fn to_string(&self) -> (r: String)
        ensures
            r@ == message_of(*self),
    {
        match self {
            Error::InternalServerError(m) => concat("Internal server error: ", m.as_str()),
            Error::InternalServerErrorWithSource { message } => concat("Internal server error: ", message.as_str()),
            Error::NotFound(m) => concat("Resource not found: ", m.as_str()),
            Error::BadRequest(m) => concat("Bad request: ", m.as_str()),
            Error::Unauthorized(m) => concat("Unauthorized access: ", m.as_str()),
            Error::Forbidden(m) => concat("Forbidden: ", m.as_str()),
            Error::Conflict(m) => concat("Resource conflict: ", m.as_str()),
            Error::Validation(m) => concat("Validation failed: ", m.as_str()),
            Error::RateLimited(m) => concat("Rate limit exceeded: ", m.as_str()),
            Error::ServiceUnavailable(m) => concat("Service temporarily unavailable: ", m.as_str()),
            Error::MethodNotAllowed(m) => concat("Method not allowed: ", m.as_str()),
            Error::Hyper(m) => owned(m.as_str()),
            Error::Io(m) => owned(m.as_str()),
            Error::SerdeJson(m) => owned(m.as_str()),
            Error::SerdeUrlEncoded(m) => owned(m.as_str()),
            Error::Http(m) => owned(m.as_str()),
            Error::Utf8(m) => owned(m.as_str()),
        }
    }

    /// The heading of the development error page for this error.
    pub fn title(&self) -> (r: &'static str)
        ensures
            r@ == title_of(*self),
    {
        match self {
            Error::InternalServerError(_) | Error::InternalServerErrorWithSource { .. } => "Internal Server Error",
            Error::NotFound(_) => "Not Found",
            Error::BadRequest(_) => "Bad Request",
            Error::Unauthorized(_) => "Unauthorized",
            Error::Forbidden(_) => "Forbidden",
            Error::Conflict(_) => "Conflict",
            Error::Validation(_) => "Validation Error",
            Error::RateLimited(_) => "Rate Limited",
            Error::ServiceUnavailable(_) => "Service Unavailable",
            Error::MethodNotAllowed(_) => "Method Not Allowed",
            Error::Hyper(_) => "Hyper Protocol Error",
            Error::Io(_) => "I/O Error",
            Error::SerdeJson(_) => "JSON Serialization Error",
            Error::SerdeUrlEncoded(_) => "URL Encoded Error",
            Error::Http(_) => "HTTP Error",
            Error::Utf8(_) => "UTF-8 Encoding Error",
        }
    }
}

/// Part 1 of the development error page.
pub const PAGE_HEAD: &'static str = r#"<!DOCTYPE html>
<html lang="en">
<head>
    <meta charset="UTF-8">
    <meta name="viewport" content="width=device-width, initial-scale=1.0">
    <title>Oxidite Exception: "#;

/// Part 2 of the development error page.
pub const PAGE_AFTER_TITLE: &'static str = r#"</title>
    <style>
        :root {
            --bg-color: #0f1115;
            --surface: #1e2128;
            --primary: #f05033;
            --text: #e2e8f0;
            --text-muted: #94a3b8;
            --border: #334155;
            --danger: #ef4444;
        }
        body {
            font-family: ui-sans-serif, system-ui, -apple-system, BlinkMacSystemFont, "Segoe UI", Roboto, "Helvetica Neue", Arial, sans-serif;
            background-color: var(--bg-color);
            color: var(--text);
            margin: 0;
            padding: 0;
            display: flex;
            justify-content: center;
        }
        .container {
            max-width: 1200px;
            width: 100%;
            margin: 40px;
            background-color: var(--surface);
            border-radius: 12px;
            box-shadow: 0 25px 50px -12px rgba(0, 0, 0, 0.5);
            overflow: hidden;
            border: 1px solid var(--border);
        }
        .header {
            background: linear-gradient(135deg, #2a0808 0%, var(--surface) 100%);
            padding: 40px;
            border-bottom: 1px solid var(--border);
        }
        .logo {
            font-size: 24px;
            font-weight: 800;
            color: var(--primary);
            margin-bottom: 20px;
            display: flex;
            align-items: center;
            gap: 10px;
        }
        .logo svg {
            width: 32px;
            height: 32px;
        }
        h1 {
            margin: 0;
            font-size: 32px;
            font-weight: 700;
            color: white;
            line-height: 1.2;
        }
        .exception-type {
            display: inline-block;
            background-color: rgba(239, 68, 68, 0.1);
            color: var(--danger);
            padding: 4px 12px;
            border-radius: 9999px;
            font-size: 14px;
            font-weight: 600;
            margin-bottom: 16px;
        }
        .content {
            padding: 40px;
        }
        .stack-trace {
            background-color: #0d1117;
            border-radius: 8px;
            padding: 20px;
            font-family: ui-monospace, SFMono-Regular, Menlo, Monaco, Consolas, "Liberation Mono", "Courier New", monospace;
            font-size: 14px;
            line-height: 1.6;
            overflow-x: auto;
            border: 1px solid var(--border);
        }
        .footer {
            padding: 20px 40px;
            background-color: #15181e;
            border-top: 1px solid var(--border);
            font-size: 14px;
            color: var(--text-muted);
            display: flex;
            justify-content: space-between;
        }
    </style>
</head>
<body>
    <div class="container">
        <div class="header">
            <div class="logo">
                <svg viewBox="0 0 24 24" fill="none" stroke="currentColor" stroke-width="2" stroke-linecap="round" stroke-linejoin="round">
                    <path d="M12 2v20M17 5H9.5a3.5 3.5 0 0 0 0 7h5a3.5 3.5 0 0 1 0 7H6"/>
                </svg>
                Oxidite
            </div>
            <div class="exception-type">"#;

/// Part 3 of the development error page.
pub const PAGE_AFTER_KIND: &'static str = r#"</div>
            <h1>"#;

/// Part 4 of the development error page.
pub const PAGE_AFTER_HEADING: &'static str = r#"</h1>
        </div>
        <div class="content">
            <h3>Stack Trace</h3>
            <div class="stack-trace">
                <div>Environment: development</div>
                <div style="color: var(--text-muted); margin-top: 10px;">Backtrace captured at crash site:</div>
                <div style="color: var(--primary); margin-top: 10px;">"#;

/// Part 5 of the development error page.
pub const PAGE_TAIL: &'static str = r#"</div>
            </div>
        </div>
        <div class="footer">
            <span>Oxidite Framework v2.3.3-1</span>
            <span>Running in Development Mode</span>
        </div>
    </div>
</body>
</html>"#;

/// The development error page: the error's heading twice (as the page
/// title and as its kind), then its text twice (as the heading and as the
/// trace line).
pub open spec fn ignition_page(title: Seq<char>, message: Seq<char>) -> Seq<char> {
    PAGE_HEAD@ + title + PAGE_AFTER_TITLE@ + title + PAGE_AFTER_KIND@ + message
        + PAGE_AFTER_HEADING@ + message + PAGE_TAIL@
}

/// Renders the development error page for `error`.
pub fn render_ignition_error(error: &Error) -> (r: String)
    ensures
        r@ == ignition_page(title_of(*error), message_of(*error)),
{
    let title = error.title();
    let message = error.to_string();
    let mut r = owned(PAGE_HEAD);
    push_str(&mut r, title);
    push_str(&mut r, PAGE_AFTER_TITLE);
    push_str(&mut r, title);
    push_str(&mut r, PAGE_AFTER_KIND);
    push_str(&mut r, message.as_str());
    push_str(&mut r, PAGE_AFTER_HEADING);
    push_str(&mut r, message.as_str());
    push_str(&mut r, PAGE_TAIL);
    r
}

/// Whether a failed request is answered with the development error page:
/// only in the `development` environment, for a client that accepts HTML,
/// and for a server error.
pub open spec fn shows_error_page(env: Seq<char>, accepts_html: bool, e: Error) -> bool {
    env == "development"@ && accepts_html && is_server_status(status_of(e))
}

/// Decides whether the development error page answers `error`.
pub fn use_error_page(env: &str, accepts_html: bool, error: &Error) -> (r: bool)
    ensures
        r == shows_error_page(env@, accepts_html, *error),
{
    str_eq(env, "development") && accepts_html && error.is_server_error()
}

/// Whether a failed connection is worth logging: a service error only when
/// it is a server error; any other failure unless its text mentions
/// `NotFound` or `connection closed`.
pub open spec fn logs_connection_error(service_error: Option<Error>, text: Seq<char>) -> bool {
    match service_error {
        Some(e) => is_server_status(status_of(e)),
        None => !contains(text, "NotFound"@) && !contains(text, "connection closed"@),
    }
}

/// Decides whether a failed connection is logged.
pub fn should_log_connection_error(service_error: Option<&Error>, text: &str) -> (r: bool)
    ensures
        r == logs_connection_error(
            match service_error {
                Some(e) => Some(*e),
                None => None,
            },
            text@,
        ),
{
    match service_error {
        Some(e) => e.is_server_error(),
        None => !str_contains(text, "NotFound") && !str_contains(text, "connection closed"),
    }
}

/// A lowercase hexadecimal digit.
pub open spec fn hex_digit(n: int) -> char {
    if n < 10 {
        ('0' as int + n) as char
    } else {
        ('a' as int + n - 10) as char
    }
}

/// How `serde_json` writes one character inside a string literal: `"` and
/// `\` behind a backslash, the control characters with a short escape as
/// `\b \t \n \f \r`, the other control characters as `\u00` and two
/// lowercase hex digits, every other character as itself.
pub open spec fn json_escape_char(c: char) -> Seq<char> {
    if c == '"' {
        seq!['\\', '"']
    } else if c == '\\' {
        seq!['\\', '\\']
    } else if c == '\x08' {
        seq!['\\', 'b']
    } else if c == '\t' {
        seq!['\\', 't']
    } else if c == '\n' {
        seq!['\\', 'n']
    } else if c == '\x0c' {
        seq!['\\', 'f']
    } else if c == '\r' {
        seq!['\\', 'r']
    } else if (c as int) < 0x20 {
        seq!['\\', 'u', '0', '0', hex_digit(c as int / 16), hex_digit(c as int % 16)]
    } else {
        seq![c]
    }
}

/// The characters of `s`, each escaped as `serde_json` writes it.
pub open spec fn json_escaped(s: Seq<char>) -> Seq<char>
    decreases s.len(),
{
    if s.len() == 0 {
        Seq::empty()
    } else {
        json_escaped(s.drop_last()) + json_escape_char(s.last())
    }
}

/// The JSON string literal that `serde_json` writes for the text `s`: the
/// escaped characters between double quotes.
pub open spec fn json_string_text(s: Seq<char>) -> Seq<char> {
    seq!['"'] + json_escaped(s) + seq!['"']
}

/// `serde_json::to_string` on a string slice: the JSON literal for `s`, as
/// `format_escaped_str` and its `ESCAPE` table write it.
/// Serialising a string does not fail (`serde_json` documents failure only
/// for maps with non-string keys and failing `Serialize` impls).
#[verifier::external_body]
fn json_string(s: &str) -> (r: String)
    ensures
        r@ == json_string_text(s@),
{
    match serde_json::to_string(s) {
        Ok(t) => t,
        Err(_) => String::new(),
    }
}

/// The JSON object `{"error": ...}` around an already quoted JSON string.
pub open spec fn error_object(quoted: Seq<char>) -> Seq<char> {
    "{\"error\":"@ + quoted + "}"@
}

/// Builds the JSON error object from the JSON literal of the error text.
pub fn error_object_from(quoted: &str) -> (r: String)
    ensures
        r@ == error_object(quoted@),
{
    let mut r = concat("{\"error\":", quoted);
    push_str(&mut r, "}");
    r
}

impl Error {
    /// The JSON body of the response that answers this error, sent with
    /// status `status_code()`.
    pub fn response_body(&self) -> (r: String)
        ensures
            r@ == error_object(json_string_text(message_of(*self))),
    {
        let text = self.to_string();
        let quoted = json_string(text.as_str());
        error_object_from(quoted.as_str())
    }
}

} // verus!
