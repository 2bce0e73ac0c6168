use oxidite::config::namespace::EnvVar;
use oxidite::config::value::{coerce_env_value, ConfigValue};
use oxidite::config::{
    environment_name, is_already_set, namespaced_env_key, Config, ConfigError, EnvOverrides, Environment,
};

fn s(v: &str) -> ConfigValue {
    ConfigValue::Str(v.to_string())
}

fn table(entries: Vec<(&str, ConfigValue)>) -> ConfigValue {
    ConfigValue::Table(entries.into_iter().map(|(k, v)| (k.to_string(), v)).collect())
}

fn var(name: &str, value: &str) -> EnvVar {
    let float_bits = value.trim().parse::<f64>().ok().map(f64::to_bits);
    EnvVar { name: name.to_string(), value: value.to_string(), float_bits }
}

fn with_custom(custom: Vec<(&str, ConfigValue)>) -> Config {
    let mut c = Config::default();
    c.custom = custom.into_iter().map(|(k, v)| (k.to_string(), v)).collect();
    c
}

fn lookup_str(c: &Config, key: &str) -> Option<String> {
    match c.lookup(key) {
        Some(ConfigValue::Str(v)) => Some(v),
        _ => None,
    }
}

fn no_overrides() -> EnvOverrides {
    EnvOverrides {
        app_name: None,
        server_host: None,
        server_port: None,
        database_url: None,
        redis_url: None,
        jwt_secret: None,
    }
}

#[test]
fn test_default_config() {
    let config = Config::default();
    assert_eq!(config.server.host, "127.0.0.1");
    assert_eq!(config.server.port, 3000);
}

#[test]
fn test_environment_parsing() {
    assert_eq!(Environment::from_str("production"), Environment::Production);
    assert_eq!(Environment::from_str("PROD"), Environment::Production);
}

#[test]
fn test_get_required_typed_values() {
    let config = Config::default();
    assert_eq!(config.get_u16("server.port").unwrap(), 3000);
}

#[test]
fn test_get_namespaced_custom_value() {
    let config = with_custom(vec![(
        "google",
        table(vec![
            ("client_id", s("abc")),
            ("oauth", table(vec![("redirect_url", s("http://localhost/callback"))])),
        ]),
    )]);
    assert_eq!(lookup_str(&config, "google.client_id").unwrap(), "abc");
    assert_eq!(
        lookup_str(&config, "google.oauth.redirect_url").unwrap(),
        "http://localhost/callback"
    );
}

#[test]
fn test_has_key_namespaced() {
    let config = with_custom(vec![(
        "platform",
        table(vec![("name", s("test")), ("api", table(vec![("key", s("secret"))]))]),
    )]);
    assert!(config.has_key("platform.name"));
    assert!(config.has_key("platform.api.key"));
    assert!(!config.has_key("platform.missing"));
}

#[test]
fn test_coerce_boolean() {
    assert!(matches!(coerce_env_value("true", None), ConfigValue::Boolean(true)));
    assert!(matches!(coerce_env_value("TRUE", None), ConfigValue::Boolean(true)));
    assert!(matches!(coerce_env_value("false", None), ConfigValue::Boolean(false)));
    assert!(matches!(coerce_env_value("FALSE", None), ConfigValue::Boolean(false)));
}

#[test]
fn test_coerce_integer() {
    assert!(matches!(coerce_env_value("30", None), ConfigValue::Integer(30)));
    assert!(matches!(coerce_env_value("-5", None), ConfigValue::Integer(-5)));
    assert!(matches!(coerce_env_value("0", None), ConfigValue::Integer(0)));
    match coerce_env_value("3.14", Some(3.14f64.to_bits())) {
        ConfigValue::Float(_) => {}
        _ => panic!("expected Float"),
    }
}

#[test]
fn test_coerce_float() {
    match coerce_env_value("3.14", Some(3.14f64.to_bits())) {
        ConfigValue::Float(bits) => assert!((f64::from_bits(bits) - 3.14).abs() < 1e-10),
        _ => panic!("expected Float"),
    }
}

#[test]
fn test_coerce_string() {
    assert!(matches!(coerce_env_value("hello", None), ConfigValue::Str(v) if v == "hello"));
    assert!(matches!(coerce_env_value("abc123", None), ConfigValue::Str(v) if v == "abc123"));
}

#[test]
fn test_flat_custom_string_override() {
    let mut config = with_custom(vec![("demo", table(vec![("url", s("from-toml"))]))]);
    config.collect_env_overrides(&vec![var("DEMO_URL", "from-dotenv")], &vec![]).unwrap();
    assert_eq!(lookup_str(&config, "demo.url").unwrap(), "from-dotenv");
}

#[test]
fn test_flat_custom_integer_override() {
    let mut config = with_custom(vec![("demo", table(vec![("timeout", ConfigValue::Integer(10))]))]);
    config.collect_env_overrides(&vec![var("DEMO_TIMEOUT", "30")], &vec![]).unwrap();
    assert!(matches!(config.lookup("demo.timeout"), Some(ConfigValue::Integer(30))));
}

#[test]
fn test_flat_custom_boolean_override() {
    let mut config = with_custom(vec![("demo", table(vec![("debug", ConfigValue::Boolean(false))]))]);
    config.collect_env_overrides(&vec![var("DEMO_DEBUG", "true")], &vec![]).unwrap();
    assert_eq!(config.get_bool("demo.debug").unwrap(), true);
}

#[test]
fn test_dotted_subtable_override() {
    let mut config = with_custom(vec![(
        "demo",
        table(vec![("service", table(vec![("url", s("from-toml-nested"))]))]),
    )]);
    config
        .collect_env_overrides(&vec![var("DEMO_SERVICE_URL", "from-dotenv-nested")], &vec![])
        .unwrap();
    assert_eq!(lookup_str(&config, "demo.service.url").unwrap(), "from-dotenv-nested");
}

#[test]
fn test_multiple_custom_namespace_overrides() {
    let mut config = with_custom(vec![
        ("demo", table(vec![("url", s("demo-toml"))])),
        ("google", table(vec![("client_id", s("google-toml"))])),
    ]);
    config
        .collect_env_overrides(
            &vec![var("DEMO_URL", "demo-env"), var("GOOGLE_CLIENT_ID", "google-env")],
            &vec![],
        )
        .unwrap();
    assert_eq!(lookup_str(&config, "demo.url").unwrap(), "demo-env");
    assert_eq!(lookup_str(&config, "google.client_id").unwrap(), "google-env");
}

#[test]
fn test_os_env_vars_ignored() {
    let mut config = Config::default();
    let preset = vec!["PATH".to_string(), "HOME".to_string()];
    config
        .collect_env_overrides(&vec![var("PATH", "/usr/bin:/bin"), var("HOME", "/root")], &preset)
        .unwrap();
    assert!(lookup_str(&config, "path").is_none());
    assert!(lookup_str(&config, "home").is_none());
}

#[test]
fn test_ambiguous_namespace_dotted_vs_flat() {
    let mut config = with_custom(vec![
        ("demo_service", table(vec![("url", s("flat"))])),
        ("demo", table(vec![("service", table(vec![("url", s("dotted"))]))])),
    ]);
    match config.collect_env_overrides(&vec![], &vec![]) {
        Err(ConfigError::AmbiguousNamespace { prefix, candidates }) => {
            assert_eq!(prefix, "DEMO_SERVICE_");
            assert!(candidates.contains(&"demo_service".to_string()));
            assert!(candidates.contains(&"demo.service".to_string()));
        }
        _ => panic!("expected AmbiguousNamespace error"),
    }
}

#[test]
fn test_case_sensitive_collision() {
    let mut config = with_custom(vec![
        ("demo", table(vec![("url", s("lower"))])),
        ("DEMO", table(vec![("url", s("upper"))])),
    ]);
    match config.collect_env_overrides(&vec![], &vec![]) {
        Err(ConfigError::AmbiguousNamespace { prefix, .. }) => assert_eq!(prefix, "DEMO_"),
        _ => panic!("expected AmbiguousNamespace error"),
    }
}

#[test]
fn test_unknown_env_var_ignored() {
    let mut config = with_custom(vec![("demo", table(vec![("url", s("ok"))]))]);
    config.collect_env_overrides(&vec![var("UNKNOWN_KEY", "somevalue")], &vec![]).unwrap();
    assert_eq!(lookup_str(&config, "demo.url").unwrap(), "ok");
    assert!(!config.has_key("unknown.key"));
}

#[test]
fn test_numeric_like_string_override() {
    let mut config = with_custom(vec![("demo", table(vec![("version", s("1.0"))]))]);
    config.collect_env_overrides(&vec![var("DEMO_VERSION", "2.0")], &vec![]).unwrap();
    match config.lookup("demo.version") {
        Some(ConfigValue::Float(bits)) => assert!((f64::from_bits(bits) - 2.0).abs() < 1e-10),
        _ => panic!("expected Float"),
    }
}

#[test]
fn test_float_coercion() {
    let mut config = with_custom(vec![("demo", table(vec![("threshold", ConfigValue::Float(0.5f64.to_bits()))]))]);
    config.collect_env_overrides(&vec![var("DEMO_THRESHOLD", "0.75")], &vec![]).unwrap();
    match config.lookup("demo.threshold") {
        Some(ConfigValue::Float(bits)) => assert!((f64::from_bits(bits) - 0.75).abs() < 1e-10),
        _ => panic!("expected Float"),
    }
}

#[test]
fn test_no_env_override_preserves_toml() {
    let mut config =
        with_custom(vec![("demo", table(vec![("url", s("from-toml")), ("timeout", ConfigValue::Integer(10))]))]);
    config.collect_env_overrides(&vec![], &vec![]).unwrap();
    assert_eq!(lookup_str(&config, "demo.url").unwrap(), "from-toml");
    assert!(matches!(config.lookup("demo.timeout"), Some(ConfigValue::Integer(10))));
}

#[test]
fn test_partial_override() {
    let mut config =
        with_custom(vec![("demo", table(vec![("url", s("toml-url")), ("timeout", ConfigValue::Integer(10))]))]);
    config.collect_env_overrides(&vec![var("DEMO_URL", "env-url")], &vec![]).unwrap();
    assert_eq!(lookup_str(&config, "demo.url").unwrap(), "env-url");
    assert!(matches!(config.lookup("demo.timeout"), Some(ConfigValue::Integer(10))));
}

#[test]
fn test_table_level_override_skipped() {
    let mut config = with_custom(vec![(
        "demo",
        table(vec![("service", table(vec![("url", s("nested"))]))]),
    )]);
    config.collect_env_overrides(&vec![var("DEMO_SERVICE", "not-a-property")], &vec![]).unwrap();
    assert_eq!(lookup_str(&config, "demo.service.url").unwrap(), "nested");
}

#[test]
fn test_single_name_var_in_namespace() {
    let config = with_custom(vec![("platform", table(vec![("name", s("myapp"))]))]);
    let pairs = config.env_assignments();
    assert!(matches!(assigned(&pairs, "PLATFORM_NAME"), Some(ConfigValue::Str(v)) if v == "myapp"));
}

#[test]
fn test_non_string_namespaced_values() {
    let config = with_custom(vec![(
        "myapp",
        table(vec![("port", ConfigValue::Integer(8080)), ("debug", ConfigValue::Boolean(true))]),
    )]);
    let pairs = config.env_assignments();
    assert!(matches!(assigned(&pairs, "MYAPP_PORT"), Some(ConfigValue::Integer(8080))));
    assert!(matches!(assigned(&pairs, "MYAPP_DEBUG"), Some(ConfigValue::Boolean(true))));
}

#[test]
fn test_env_table_takes_precedence_over_namespace() {
    let mut config = with_custom(vec![("google", table(vec![("client_id", s("from-namespace"))]))]);
    config.env = vec![("GOOGLE_CLIENT_ID".to_string(), "from-env-table".to_string())];
    let pairs = config.env_assignments();
    let first = pairs.iter().position(|(n, _)| n == "GOOGLE_CLIENT_ID").unwrap();
    assert!(matches!(&pairs[first].1, ConfigValue::Str(v) if v == "from-env-table"));
}

#[test]
fn test_os_env_takes_precedence_over_namespaced() {
    assert!(is_already_set(Some("os-value")));
    assert!(!is_already_set(Some("")));
    assert!(!is_already_set(None));
}

#[test]
fn test_invalid_server_port_env_returns_error() {
    let mut config = Config::default();
    let mut vars = no_overrides();
    vars.server_port = Some("not-a-port".to_string());
    match config.apply_env_overrides(&vars) {
        Err(ConfigError::InvalidEnvValue { name, value }) => {
            assert_eq!(name, "SERVER_PORT");
            assert_eq!(value, "not-a-port");
        }
        _ => panic!("expected InvalidEnvValue"),
    }
    assert_eq!(config.server.port, 3000);
}

#[test]
fn test_known_section_server_port_still_works() {
    let mut config = Config::default();
    let mut vars = no_overrides();
    vars.server_port = Some("8080".to_string());
    vars.server_host = Some("0.0.0.0".to_string());
    vars.redis_url = Some("redis://cache".to_string());
    config.apply_env_overrides(&vars).unwrap();
    assert_eq!(config.server.port, 8080);
    assert_eq!(config.server.host, "0.0.0.0");
    assert_eq!(config.cache.redis_url, "redis://cache");
    assert_eq!(config.queue.redis_url, "redis://cache");
    assert_eq!(config.get_u16("server.port").unwrap(), 8080);
}

#[test]
fn typed_getters_report_missing_and_invalid() {
    let config = with_custom(vec![("demo", table(vec![("name", s("x"))]))]);
    assert!(matches!(config.get_u16("demo.name"), Err(ConfigError::InvalidType(k)) if k == "demo.name"));
    assert!(matches!(config.get_u16("demo.nothing"), Err(ConfigError::MissingKey(k)) if k == "demo.nothing"));
    assert!(matches!(config.get_bool("server.port"), Err(ConfigError::InvalidType(_))));
    assert_eq!(config.get_bool("database.ssl").unwrap(), false);
    assert!(config.has_key("server.port"));
    assert!(!config.has_key("nonexistent.key"));
}

#[test]
fn custom_tables_shadow_sections() {
    let config = with_custom(vec![("server", table(vec![("port", ConfigValue::Integer(9))]))]);
    assert_eq!(config.get_u16("server.port").unwrap(), 9);
    let config = with_custom(vec![("server", table(vec![("port", s("nine"))]))]);
    assert_eq!(config.get_u16("server.port").unwrap(), 3000);
}

#[test]
fn environment_names_and_keys() {
    assert_eq!(Environment::from_str("Testing"), Environment::Testing);
    assert_eq!(Environment::from_str("test"), Environment::Testing);
    assert_eq!(Environment::from_str("staging"), Environment::Development);
    assert_eq!(Environment::Production.as_str(), "production");
    assert_eq!(environment_name(Some("prod"), Some("test")), "prod");
    assert_eq!(environment_name(None, Some("test")), "test");
    assert_eq!(environment_name(None, None), "development");
    assert_eq!(namespaced_env_key("google.oauth", "client_id"), "GOOGLE.OAUTH_CLIENT_ID");
}

#[test]
fn root_table_holds_sections_and_custom() {
    let config = with_custom(vec![("demo", table(vec![("url", s("u"))]))]);
    let root = config.root_table().unwrap();
    let keys: Vec<&str> = root.iter().map(|(k, _)| k.as_str()).collect();
    assert_eq!(keys, vec!["app", "server", "database", "cache", "queue", "security", "env", "demo"]);
}

fn assigned<'a>(pairs: &'a [(String, ConfigValue)], name: &str) -> Option<&'a ConfigValue> {
    pairs.iter().find(|(n, _)| n == name).map(|(_, v)| v)
}

#[test]
fn test_namespaced_env_injection() {
    let config = with_custom(vec![(
        "google",
        table(vec![("client_id", s("g-123")), ("client_secret", s("g-secret"))]),
    )]);
    let pairs = config.env_assignments();
    assert!(matches!(assigned(&pairs, "GOOGLE_CLIENT_ID"), Some(ConfigValue::Str(v)) if v == "g-123"));
    assert!(matches!(assigned(&pairs, "GOOGLE_CLIENT_SECRET"), Some(ConfigValue::Str(v)) if v == "g-secret"));
}

#[test]
fn test_nested_namespaced_env_injection() {
    let config = with_custom(vec![(
        "google",
        table(vec![(
            "oauth",
            table(vec![("client_id", s("nested-123")), ("client_secret", s("nested-secret"))]),
        )]),
    )]);
    let pairs = config.env_assignments();
    assert!(matches!(assigned(&pairs, "GOOGLE_OAUTH_CLIENT_ID"), Some(ConfigValue::Str(v)) if v == "nested-123"));
    assert!(matches!(
        assigned(&pairs, "GOOGLE_OAUTH_CLIENT_SECRET"),
        Some(ConfigValue::Str(v)) if v == "nested-secret"
    ));
}

#[test]
fn test_flat_env_table_injection() {
    let mut config = Config::default();
    config.env = vec![("FLAT_TEST_VAR".to_string(), "flat_value".to_string())];
    let pairs = config.env_assignments();
    assert_eq!(pairs[0].0, "FLAT_TEST_VAR");
    assert!(matches!(&pairs[0].1, ConfigValue::Str(v) if v == "flat_value"));
    assert!(assigned(&pairs, "ENV_FLAT_TEST_VAR").is_none());
}

#[test]
fn known_sections_are_assigned_with_their_types() {
    let pairs = Config::default().env_assignments();
    assert!(matches!(assigned(&pairs, "SERVER_HOST"), Some(ConfigValue::Str(v)) if v == "127.0.0.1"));
    assert!(matches!(assigned(&pairs, "SERVER_PORT"), Some(ConfigValue::Integer(3000))));
    assert!(matches!(assigned(&pairs, "APP_DEBUG"), Some(ConfigValue::Boolean(_))));
    assert!(matches!(assigned(&pairs, "SECURITY_CORS_ORIGINS"), Some(ConfigValue::Array(_))));
}

#[test]
fn environment_names_round_trip() {
    for e in [Environment::Development, Environment::Testing, Environment::Production] {
        assert_eq!(Environment::from_str(e.as_str()), e);
    }
}

#[test]
fn override_reads_back_nested_field() {
    let mut config = with_custom(vec![(
        "shop",
        table(vec![("payments", table(vec![("retries", ConfigValue::Integer(1))]))]),
    )]);
    config.collect_env_overrides(&vec![var("SHOP_PAYMENTS_RETRIES", "5")], &vec![]).unwrap();
    assert!(matches!(config.lookup("shop.payments.retries"), Some(ConfigValue::Integer(5))));
    config.collect_env_overrides(&vec![var("SHOP_PAYMENTS_MODE", "live")], &vec![]).unwrap();
    assert!(matches!(config.lookup("shop.payments.mode"), Some(ConfigValue::Str(v)) if v == "live"));
}
