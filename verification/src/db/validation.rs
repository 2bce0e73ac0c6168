//! The field checks that a derived model runs before it is saved: e-mail
//! and URL formats, text lengths in bytes, number ranges, patterns, and the
//! query and verdict of a uniqueness check.
use vstd::prelude::*;
use crate::http::routing::{regex_captures, regex_captures_exec, regex_check, regex_compiles};
use crate::text::{
    concat, decimal, i64_to_string, owned, push_str, signed_decimal, u64_to_string, utf8_byte_len,
    utf8_len,
};

verus! {

/// The pattern an e-mail address must match.
pub const EMAIL_PATTERN: &'static str = r"^[^@\s]+@[^@\s]+\.[^@\s]+$";

/// The pattern a URL must match.
pub const URL_PATTERN: &'static str = r"^https?://[^\s/$.?#].[^\s]*$";

/// A check on one field.
#[derive(Debug, Clone)]
pub enum FieldRule {
    /// The text is an e-mail address.
    Email,
    /// The text is an `http` or `https` URL.
    Url,
    /// The text has at least this many bytes.
    MinLength(usize),
    /// The text has at most this many bytes.
    MaxLength(usize),
    /// The number is at least this.
    Min(i64),
    /// The number is at most this.
    Max(i64),
    /// The text matches this regular expression.
    Pattern(String),
}

/// The value of a field: text, or a number read as `i64`.
#[derive(Debug, Clone)]
pub enum FieldValue {
    Text(String),
    Number(i64),
}

/// One check of one field's value.
#[derive(Debug, Clone)]
pub struct FieldCheck {
    pub field: String,
    pub rule: FieldRule,
    pub value: FieldValue,
}

/// Whether the regular expression of a rule, if it has one, is one the
/// regex crate accepts.
pub open spec fn rule_regex_ok(rule: FieldRule) -> bool {
    match rule {
        FieldRule::Email => regex_compiles(EMAIL_PATTERN@),
        FieldRule::Url => regex_compiles(URL_PATTERN@),
        FieldRule::Pattern(p) => regex_compiles(p@),
        _ => true,
    }
}

/// The message of a failed check, or none when the value passes. A rule
/// on a value of the other kind checks nothing.
pub open spec fn rule_error(field: Seq<char>, rule: FieldRule, value: FieldValue) -> Option<Seq<char>> {
    match value {
        FieldValue::Text(t) => match rule {
            FieldRule::Email => if regex_captures(EMAIL_PATTERN@, t@) is Some {
                None
            } else {
                Some("Invalid email format for field "@ + field)
            },
            FieldRule::Url => if regex_captures(URL_PATTERN@, t@) is Some {
                None
            } else {
                Some("Invalid URL format for field "@ + field)
            },
            FieldRule::MinLength(n) => if utf8_len(t@) < n {
                Some("Field "@ + field + " must be at least "@ + decimal(n as nat) + " characters long"@)
            } else {
                None
            },
            FieldRule::MaxLength(n) => if utf8_len(t@) > n {
                Some("Field "@ + field + " must be at most "@ + decimal(n as nat) + " characters long"@)
            } else {
                None
            },
            FieldRule::Pattern(p) => if regex_captures(p@, t@) is Some {
                None
            } else {
                Some("Field "@ + field + " does not match required pattern"@)
            },
            _ => None,
        },
        FieldValue::Number(x) => match rule {
            FieldRule::Min(m) => if x < m {
                Some("Field "@ + field + " must be >= "@ + signed_decimal(m as int))
            } else {
                None
            },
            FieldRule::Max(m) => if x > m {
                Some("Field "@ + field + " must be <= "@ + signed_decimal(m as int))
            } else {
                None
            },
            _ => None,
        },
    }
}

/// The message of the first failed check, in order.
pub open spec fn first_error(checks: Seq<FieldCheck>) -> Option<Seq<char>>
    decreases checks.len(),
{
    if checks.len() == 0 {
        None
    } else {
        match rule_error(checks[0].field@, checks[0].rule, checks[0].value) {
            Some(e) => Some(e),
            None => first_error(checks.drop_first()),
        }
    }
}

/// Whether every regular expression of the checks is accepted.
pub open spec fn regexes_compile(checks: Seq<FieldCheck>) -> bool {
    forall|i: int| 0 <= i < checks.len() ==> rule_regex_ok(#[trigger] checks[i].rule)
}

fn matches_pattern(pattern: &str, text: &str) -> (r: bool)
    requires
        regex_compiles(pattern@),
    ensures
        r == regex_captures(pattern@, text@) is Some,
{
    match regex_captures_exec(pattern, text) {
        Some(_) => true,
        None => false,
    }
}

fn with_field(head: &str, field: &str, tail: &str) -> (r: String)
    ensures
        r@ == head@ + field@ + tail@,
{
    let mut r = concat(head, field);
    push_str(&mut r, tail);
    r
}

/// Runs one check: the message when it fails.
fn check_one(c: &FieldCheck) -> (r: Option<String>)
    requires
        rule_regex_ok(c.rule),
    ensures
        match r {
            Some(m) => rule_error(c.field@, c.rule, c.value) == Some(m@),
            None => rule_error(c.field@, c.rule, c.value) is None,
        },
{
    let f = c.field.as_str();
    match &c.value {
        FieldValue::Text(t) => match &c.rule {
            FieldRule::Email => {
                if matches_pattern(EMAIL_PATTERN, t.as_str()) {
                    None
                } else {
                    Some(concat("Invalid email format for field ", f))
                }
            },
            FieldRule::Url => {
                if matches_pattern(URL_PATTERN, t.as_str()) {
                    None
                } else {
                    Some(concat("Invalid URL format for field ", f))
                }
            },
            FieldRule::MinLength(n) => {
                if utf8_byte_len(t.as_str()) < *n as u128 {
                    let mut m = with_field("Field ", f, " must be at least ");
                    push_str(&mut m, u64_to_string(*n as u64).as_str());
                    push_str(&mut m, " characters long");
                    Some(m)
                } else {
                    None
                }
            },
            FieldRule::MaxLength(n) => {
                if utf8_byte_len(t.as_str()) > *n as u128 {
                    let mut m = with_field("Field ", f, " must be at most ");
                    push_str(&mut m, u64_to_string(*n as u64).as_str());
                    push_str(&mut m, " characters long");
                    Some(m)
                } else {
                    None
                }
            },
            FieldRule::Pattern(p) => {
                if matches_pattern(p.as_str(), t.as_str()) {
                    None
                } else {
                    Some(with_field("Field ", f, " does not match required pattern"))
                }
            },
            _ => None,
        },
        FieldValue::Number(x) => match &c.rule {
            FieldRule::Min(m) => {
                if *x < *m {
                    let mut msg = with_field("Field ", f, " must be >= ");
                    push_str(&mut msg, i64_to_string(*m).as_str());
                    Some(msg)
                } else {
                    None
                }
            },
            FieldRule::Max(m) => {
                if *x > *m {
                    let mut msg = with_field("Field ", f, " must be <= ");
                    push_str(&mut msg, i64_to_string(*m).as_str());
                    Some(msg)
                } else {
                    None
                }
            },
            _ => None,
        },
    }
}

fn rule_regex_check(rule: &FieldRule) -> (r: bool)
    ensures
        r == rule_regex_ok(*rule),
{
    match rule {
        FieldRule::Email => regex_check(EMAIL_PATTERN),
        FieldRule::Url => regex_check(URL_PATTERN),
        FieldRule::Pattern(p) => regex_check(p.as_str()),
        _ => true,
    }
}

/// Runs the checks in order and answers with the first failure's message;
/// `None` when the regex crate refuses one of their patterns.
pub fn validate_checks(checks: &Vec<FieldCheck>) -> (r: Option<Result<(), String>>)
    ensures
        match r {
            None => !regexes_compile(checks@),
            Some(Ok(())) => regexes_compile(checks@) && first_error(checks@) is None,
            Some(Err(m)) => regexes_compile(checks@) && first_error(checks@) == Some(m@),
        },
{
    let mut i: usize = 0;
    while i < checks.len()
        invariant
            i <= checks@.len(),
            forall|k: int| 0 <= k < i ==> rule_regex_ok(#[trigger] checks@[k].rule),
        decreases checks.len() - i,
    {
        if !rule_regex_check(&checks[i].rule) {
            return None;
        }
        i = i + 1;
    }
    let mut j: usize = 0;
    assert(checks@.skip(0) =~= checks@);
    while j < checks.len()
        invariant
            j <= checks@.len(),
            regexes_compile(checks@),
            first_error(checks@) == first_error(checks@.skip(j as int)),
        decreases checks.len() - j,
    {
        assert(checks@.skip(j as int)[0] == checks@[j as int]);
        assert(checks@.skip(j as int).drop_first() =~= checks@.skip(j + 1));
        match check_one(&checks[j]) {
            Some(m) => {
                return Some(Err(m));
            },
            None => {},
        }
        j = j + 1;
    }
    assert(checks@.skip(j as int) =~= Seq::<FieldCheck>::empty());
    Some(Ok(()))
}

/// The query that counts the other rows holding a value in `column`: the
/// value binds to `$1`, the row's own id to `$2`.
pub fn unique_check_sql(table: &str, column: &str) -> (r: String)
    ensures
        r@ == "SELECT COUNT(*) FROM "@ + table@ + " WHERE "@ + column@ + " = $1 AND id != $2"@,
{
    let mut q = concat("SELECT COUNT(*) FROM ", table);
    push_str(&mut q, " WHERE ");
    push_str(&mut q, column);
    push_str(&mut q, " = $1 AND id != $2");
    q
}

/// The verdict of a uniqueness check from the count of other rows.
pub fn unique_error(field: &str, other_rows: i64) -> (r: Option<String>)
    ensures
        match r {
            Some(m) => other_rows > 0 && m@ == "Field "@ + field@ + " must be unique"@,
            None => other_rows <= 0,
        },
{
    if other_rows > 0 {
        Some(with_field("Field ", field, " must be unique"))
    } else {
        None
    }
}

} // verus!
