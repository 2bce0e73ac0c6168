use oxidite::cli::args::{parse_addr_opt, AddrError};
use oxidite::cli::naming::{pluralize_table_name, to_snake_case, validate_rust_type_name};
use oxidite::cli::sql_script::{normalize_database_url, split_sql_statements};

#[test]
fn snake_case_conversion() {
    assert_eq!(to_snake_case("UserProfile"), "user_profile");
    assert_eq!(to_snake_case("user"), "user");
}

#[test]
fn pluralize_table_names() {
    assert_eq!(pluralize_table_name("users"), "users");
    assert_eq!(pluralize_table_name("post"), "posts");
}

#[test]
fn validates_type_names() {
    assert!(validate_rust_type_name("User").is_ok());
    assert!(validate_rust_type_name("_User1").is_ok());
    assert!(validate_rust_type_name("1User").is_err());
    assert!(validate_rust_type_name("user-name").is_err());
}

#[test]
fn sql_split_ignores_comments_and_empty_lines() {
    let sql = r#"
            -- comment
            CREATE TABLE users (id INTEGER);

            INSERT INTO users (id) VALUES (1);
            -- trailing
        "#;
    let statements = split_sql_statements(sql);
    assert_eq!(statements.len(), 2);
    assert!(statements[0].starts_with("CREATE TABLE users"));
    assert!(statements[1].starts_with("INSERT INTO users"));
}

#[test]
fn splitter_handles_semicolons_in_strings() {
    let sql = "INSERT INTO x VALUES ('a;b'); INSERT INTO x VALUES (\"c;d\");";
    let statements = split_sql_statements(sql);
    assert_eq!(statements.len(), 2);
}

#[test]
fn splitter_ignores_line_and_block_comments() {
    let sql = r#"
            -- before
            CREATE TABLE users(id INTEGER); /* block; comment */
            INSERT INTO users(id) VALUES (1); -- tail
        "#;
    let statements = split_sql_statements(sql);
    assert_eq!(statements.len(), 2);
    assert!(statements[0].starts_with("CREATE TABLE users"));
    assert!(statements[1].starts_with("INSERT INTO users"));
}

#[test]
fn normalizes_relative_sqlite_file_urls() {
    assert_eq!(normalize_database_url("sqlite://data.db"), "sqlite://./data.db");
    assert_eq!(
        normalize_database_url("sqlite://db/app.db?mode=rwc"),
        "sqlite://./db/app.db?mode=rwc"
    );
    assert_eq!(normalize_database_url("sqlite:///tmp/data.db"), "sqlite:///tmp/data.db");
    assert_eq!(
        normalize_database_url("postgres://localhost/app"),
        "postgres://localhost/app"
    );
}

#[test]
fn parses_host_and_port_from_addr() {
    let (host, port) = parse_addr_opt(&Some("127.0.0.1:8080".to_string())).unwrap();
    assert_eq!(host.as_deref(), Some("127.0.0.1"));
    assert_eq!(port, Some(8080));
}

#[test]
fn rejects_invalid_addr() {
    assert!(parse_addr_opt(&Some("not-an-addr".to_string())).is_err());
}

#[test]
fn addr_errors_name_the_address() {
    let missing = parse_addr_opt(&Some("localhost".to_string())).unwrap_err();
    assert_eq!(missing, AddrError::MissingPort("localhost".to_string()));
    assert_eq!(missing.message(), "invalid address `localhost`; expected host:port");
    let bad = parse_addr_opt(&Some("localhost:99999".to_string())).unwrap_err();
    assert_eq!(bad, AddrError::InvalidPort("localhost:99999".to_string()));
    assert_eq!(bad.message(), "invalid port in address `localhost:99999`");
    assert_eq!(parse_addr_opt(&None).unwrap(), (None, None));
}

#[test]
fn addr_splits_at_last_colon() {
    let (host, port) = parse_addr_opt(&Some("[::1]:3000".to_string())).unwrap();
    assert_eq!(host.as_deref(), Some("[::1]"));
    assert_eq!(port, Some(3000));
}

#[test]
fn snake_case_of_acronyms_and_digits() {
    assert_eq!(to_snake_case("HTTPServer"), "h_t_t_p_server");
    assert_eq!(to_snake_case(""), "");
}

#[test]
fn pluralize_only_appends_s() {
    assert_eq!(pluralize_table_name("category"), "categorys");
    assert_eq!(pluralize_table_name("box"), "boxs");
    assert_eq!(pluralize_table_name(""), "s");
}

#[test]
fn splitter_keeps_last_statement_without_semicolon() {
    let statements = split_sql_statements("SELECT 1; SELECT 2");
    assert_eq!(statements, vec!["SELECT 1".to_string(), "SELECT 2".to_string()]);
    assert!(split_sql_statements("  -- only a comment\n").is_empty());
}
