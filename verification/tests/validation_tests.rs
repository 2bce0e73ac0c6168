use oxidite::db::validation::{
    unique_check_sql, unique_error, validate_checks, FieldCheck, FieldRule, FieldValue,
};

fn email_check(email: &str) -> Vec<FieldCheck> {
    vec![FieldCheck {
        field: "email".to_string(),
        rule: FieldRule::Email,
        value: FieldValue::Text(email.to_string()),
    }]
}

fn text(field: &str, rule: FieldRule, value: &str) -> FieldCheck {
    FieldCheck { field: field.to_string(), rule, value: FieldValue::Text(value.to_string()) }
}

fn number(field: &str, rule: FieldRule, value: i64) -> FieldCheck {
    FieldCheck { field: field.to_string(), rule, value: FieldValue::Number(value) }
}

#[test]
fn test_email_validation_valid() {
    assert_eq!(validate_checks(&email_check("test@example.com")), Some(Ok(())));
}

#[test]
fn test_email_validation_invalid() {
    let result = validate_checks(&email_check("invalid-email")).unwrap();
    assert!(result.is_err());
    assert!(result.unwrap_err().contains("Invalid email format"));
}

#[test]
fn test_email_validation_missing_at() {
    assert!(validate_checks(&email_check("testexample.com")).unwrap().is_err());
}

#[test]
fn test_email_validation_missing_domain() {
    assert!(validate_checks(&email_check("test@")).unwrap().is_err());
}

#[test]
fn checks_run_in_order_and_report_the_first_failure() {
    let checks = vec![
        text("name", FieldRule::MinLength(3), "abcd"),
        text("name", FieldRule::MaxLength(3), "abcd"),
        number("age", FieldRule::Min(0), -1),
    ];
    assert_eq!(
        validate_checks(&checks),
        Some(Err("Field name must be at most 3 characters long".to_string()))
    );
    let checks = vec![number("age", FieldRule::Min(0), -1), number("age", FieldRule::Max(150), 200)];
    assert_eq!(validate_checks(&checks), Some(Err("Field age must be >= 0".to_string())));
    let checks = vec![number("age", FieldRule::Max(-5), 1)];
    assert_eq!(validate_checks(&checks), Some(Err("Field age must be <= -5".to_string())));
}

#[test]
fn lengths_count_bytes() {
    let checks = vec![text("name", FieldRule::MinLength(3), "éa")];
    assert_eq!(validate_checks(&checks), Some(Ok(())));
    let checks = vec![text("name", FieldRule::MinLength(4), "éa")];
    assert_eq!(
        validate_checks(&checks),
        Some(Err("Field name must be at least 4 characters long".to_string()))
    );
}

#[test]
fn urls_and_patterns() {
    assert_eq!(validate_checks(&vec![text("site", FieldRule::Url, "https://example.com/a")]), Some(Ok(())));
    assert_eq!(
        validate_checks(&vec![text("site", FieldRule::Url, "ftp://example.com")]),
        Some(Err("Invalid URL format for field site".to_string()))
    );
    let code = text("code", FieldRule::Pattern("^[A-Z]{3}$".to_string()), "abc");
    assert_eq!(
        validate_checks(&vec![code]),
        Some(Err("Field code does not match required pattern".to_string()))
    );
    let broken = text("code", FieldRule::Pattern("^(".to_string()), "abc");
    assert_eq!(validate_checks(&vec![broken]), None);
}

#[test]
fn uniqueness_query_and_verdict() {
    assert_eq!(
        unique_check_sql("users", "email"),
        "SELECT COUNT(*) FROM users WHERE email = $1 AND id != $2"
    );
    assert_eq!(unique_error("email", 1), Some("Field email must be unique".to_string()));
    assert_eq!(unique_error("email", 0), None);
}
