use oxidite::cli::args::{resolve_run_options, RunOptions};
use oxidite::cli::dev::{
    binary_name, default_ignore_patterns, is_reloadable_path, run_env_vars, should_ignore_path,
    should_reload, DevOptions, DevState, WatchEventKind,
};
use oxidite::cli::generate::make_model;
use oxidite::cli::maintenance::{
    average_latency, confirms, create_seeder, deploy_target, latency_stats, mask_env_value, migration_totals, requests_per_worker,
    DeployTarget,
};
use oxidite::cli::naming::NameError;
use oxidite::cli::output::{classify_error, deprecated, is_debug, ErrorDisplay};
use oxidite::cli::process::{
    plan_start, status_style, stop_process, ProcessError, ProcessInfo, ProcessList, StatusStyle, StopPlan,
};
use oxidite::cli::project::{create_cargo_toml, project_dirs, resolve_project_type, ProjectType};
use oxidite::cli::runner::{is_rust_script, needs_write};
use oxidite::cli::scanner::make_migration_diff;
use oxidite::db::query::DatabaseType;
use oxidite::db::schema::{ColumnSchema, ColumnType, TableSchema};

fn strings(v: &[&str]) -> Vec<String> {
    v.iter().map(|s| s.to_string()).collect()
}

fn process(id: &str, name: &str) -> ProcessInfo {
    ProcessInfo {
        id: id.to_string(),
        name: name.to_string(),
        pid: 1,
        status: "online".to_string(),
        started_at: String::new(),
        cwd: String::new(),
        command: "cargo run".to_string(),
    }
}

#[test]
fn extends_ignore_patterns() {
    let patterns = default_ignore_patterns(&vec!["dist".to_string()]);
    assert!(patterns.iter().any(|pattern| pattern == "dist"));
    assert!(patterns.iter().any(|pattern| pattern == "/target/"));
}

#[test]
fn ignores_expected_paths() {
    let patterns = default_ignore_patterns(&vec![]);
    assert!(should_ignore_path("./target/debug/app", &patterns));
    assert!(should_ignore_path("./dist/bundle.js", &vec!["dist".to_string()]));
    assert!(!should_ignore_path("./src/main.rs", &patterns));
}

#[test]
fn marks_reloadable_files() {
    assert!(is_reloadable_path("src/main.rs"));
    assert!(is_reloadable_path("oxidite.toml"));
    assert!(!is_reloadable_path("README.txt"));
}

#[test]
fn ignore_patterns_skip_duplicates_and_blanks() {
    let patterns = default_ignore_patterns(&strings(&["dist", "", "dist", "/target/"]));
    assert_eq!(patterns.iter().filter(|p| *p == "dist").count(), 1);
    assert_eq!(patterns.iter().filter(|p| *p == "/target/").count(), 1);
    assert!(!patterns.iter().any(|p| p.is_empty()));
}

#[test]
fn reload_needs_relevant_event_and_path() {
    let patterns = default_ignore_patterns(&vec![]);
    assert!(should_reload(WatchEventKind::DataModified, &strings(&["./src/lib.rs"]), &patterns));
    assert!(!should_reload(WatchEventKind::Other, &strings(&["./src/lib.rs"]), &patterns));
    assert!(!should_reload(WatchEventKind::Created, &strings(&["./target/x.rs"]), &patterns));
    assert!(!should_reload(WatchEventKind::Removed, &strings(&["./notes.txt"]), &patterns));
}

#[test]
fn dev_state_debounces_and_queues_rebuilds() {
    let mut state = DevState::new(1000);
    assert!(!state.on_event(true, 1100));
    assert!(state.on_event(true, 1300));
    assert!(state.build_in_progress);
    assert!(!state.on_event(true, 1600));
    assert!(state.should_rebuild);
    state.on_build_finished();
    assert!(state.on_event(false, 1650));
}

#[test]
fn binary_and_run_environment() {
    assert_eq!(binary_name(Some("api"), &vec![]), "api");
    let manifest = strings(&["[package]", "name = \"shop\"", "version = \"0.1.0\""]);
    assert_eq!(binary_name(None, &manifest), "shop");
    assert_eq!(binary_name(None, &vec![]), "app");
    let options = RunOptions { host: Some("0.0.0.0".to_string()), port: Some(8080), env: None, bin: None };
    assert_eq!(
        run_env_vars(&options),
        vec![
            ("SERVER_HOST".to_string(), "0.0.0.0".to_string()),
            ("SERVER_PORT".to_string(), "8080".to_string())
        ]
    );
    let d = DevOptions::default();
    assert!(!d.hot_reload && d.watch.is_empty() && d.run.port.is_none());
}

#[test]
fn run_options_prefer_explicit_values() {
    let r = resolve_run_options(Some("127.0.0.1:4000".to_string()), None, Some(5000), None).unwrap();
    assert_eq!(r.host.as_deref(), Some("127.0.0.1"));
    assert_eq!(r.port, Some(5000));
}

#[test]
fn process_stop_and_start_plans() {
    let mut procs = ProcessList::new();
    assert_eq!(stop_process(&procs, None).unwrap(), StopPlan::NothingToStop);
    procs.add(process("web-1", "web"));
    procs.add(process("worker-2", "worker"));
    assert_eq!(stop_process(&procs, None).unwrap(), StopPlan::Stop(vec![0, 1]));
    assert_eq!(stop_process(&procs, Some("worker")).unwrap(), StopPlan::Stop(vec![1]));
    let err = stop_process(&procs, Some("db")).unwrap_err();
    assert_eq!(err, ProcessError::NotFound("db".to_string()));
    assert_eq!(err.message(), "Process 'db' not found");
    let plan = plan_start(&procs, Some("web"), 77, true);
    assert_eq!(plan.id, "web-77");
    assert!(plan.stop_existing);
    assert_eq!(plan.command, "cargo run --release");
    assert!(procs.remove("web-1"));
    assert!(!procs.remove("web-1"));
    assert_eq!(procs.processes.len(), 1);
    assert_eq!(status_style("online"), StatusStyle::Green);
    assert_eq!(status_style("error"), StatusStyle::RedBold);
    assert_eq!(status_style("starting"), StatusStyle::Yellow);
}

#[test]
fn project_types_and_layout() {
    assert_eq!(resolve_project_type(Some("API"), None).unwrap(), Some(ProjectType::Api));
    assert_eq!(resolve_project_type(None, Some("serverless")).unwrap(), Some(ProjectType::Serverless));
    assert_eq!(resolve_project_type(None, None).unwrap(), None);
    assert!(resolve_project_type(Some("desktop"), None).is_err());
    let dirs = project_dirs(ProjectType::Serverless);
    assert!(dirs.contains(&"infra/aws".to_string()));
    assert!(!dirs.contains(&"src/controllers".to_string()));
    assert!(project_dirs(ProjectType::Fullstack).contains(&"public/css".to_string()));
}

#[test]
fn generated_model_file() {
    let file = make_model("BlogPost").unwrap();
    assert_eq!(file.path, "src/models/blog_post.rs");
    assert!(file.content.contains("pub struct BlogPost"));
    assert_eq!(make_model("1Bad").unwrap_err(), NameError::BadStart);
    assert_eq!(NameError::BadChar.message(), "name must contain only letters, numbers, and underscores");
}

#[test]
fn runner_decisions() {
    assert!(is_rust_script("tools/seed.rs"));
    assert!(!is_rust_script("seed.py"));
    assert!(needs_write(None, "x"));
    assert!(!needs_write(Some("x"), "x"));
    assert!(needs_write(Some("y"), "x"));
}

#[test]
fn output_helpers() {
    assert_eq!(deprecated("serve", "dev"), "'serve' is deprecated, use 'dev' instead");
    assert!(is_debug(Some("1")));
    assert!(is_debug(Some("TRUE")));
    assert!(!is_debug(Some("yes")));
    assert!(!is_debug(None));
    assert_eq!(classify_error("could not compile `app`"), ErrorDisplay::Compile);
    assert_eq!(classify_error("connection refused"), ErrorDisplay::Runtime);
    assert_eq!(classify_error("permission denied"), ErrorDisplay::Permission);
    assert_eq!(classify_error("boom"), ErrorDisplay::Plain);
}

#[test]
fn maintenance_helpers() {
    assert_eq!(mask_env_value("JWT_SECRET", "abc"), "***");
    assert_eq!(mask_env_value("DATABASE_URL", "short"), "short");
    let long = "postgres://user@localhost:5432/database_name";
    assert_eq!(mask_env_value("DATABASE_URL", long), format!("{}...", &long[..27]));
    assert!(confirms(" Y "));
    assert!(!confirms("yes"));
    assert_eq!(deploy_target("docker").unwrap(), DeployTarget::Docker);
    assert_eq!(
        deploy_target("heroku").unwrap_err(),
        "Unknown deploy target: heroku. Options: aws-lambda, docker, cloudflare"
    );
    assert_eq!(requests_per_worker(100, 8), 12);
    let stats = latency_stats(vec![30, 10, 20, 40]).unwrap();
    assert_eq!((stats.min, stats.max, stats.p50, stats.p90, stats.p99), (10, 40, 30, 40, 40));
    assert!(latency_stats(vec![]).is_none());
    assert_eq!(migration_totals(3, 1), "\nTotal: 3 migrations (1 applied, 2 pending)");
}

#[test]
fn synced_tables_give_an_empty_migration() {
    let column = |name: &str, ty: ColumnType| ColumnSchema {
        name: name.to_string(),
        ty,
        nullable: false,
        primary_key: name == "id",
        default: None,
    };
    let table = || TableSchema {
        name: "users".to_string(),
        columns: vec![column("id", ColumnType::BigInt), column("email", ColumnType::Text)],
    };
    let diff = make_migration_diff(&vec![table()], &vec![Some(table())], DatabaseType::Postgres);
    assert!(diff.up.is_empty() && diff.down.is_empty() && diff.changes.is_empty());
    let mut old = table();
    old.columns.pop();
    old.columns.push(column("name", ColumnType::Text));
    let diff = make_migration_diff(&vec![table()], &vec![Some(old)], DatabaseType::Postgres);
    assert_eq!(
        diff.up,
        "ALTER TABLE users ADD COLUMN email TEXT NOT NULL;\nALTER TABLE users DROP COLUMN name;\n"
    );
    assert_eq!(diff.changes.len(), 2);
    let fresh = make_migration_diff(&vec![table()], &vec![None], DatabaseType::Sqlite);
    assert!(fresh.up.starts_with("CREATE TABLE"));
    assert_eq!(fresh.down, "DROP TABLE users;\n");
}

#[test]
fn project_manifest_text() {
    let expected = "[package]
name = \"demo\"
version = \"0.1.0\"
edition = \"2021\"

[dependencies]
# Oxidite — only the features this project type needs: minimal — add features as needed (database, auth, queue, ...).
# To add more: oxidite = { features = [\"auth\", \"realtime\", ...] }
        oxidite = { version = \"2.3.4\", default-features = false, features = [\"minimal\"] }

tokio = { version = \"1\", features = [\"full\"] }

serde = { version = \"1\", features = [\"derive\"] }
serde_json = \"1\"
tracing = \"0.1\"
tracing-subscriber = { version = \"0.3\", features = [\"env-filter\"] }

[dev-dependencies]
oxidite-testing = \"2.3.4\"
";
    assert_eq!(create_cargo_toml("demo", ProjectType::Serverless), expected);
    let full = create_cargo_toml("shop", ProjectType::Fullstack);
    assert!(full.contains("oxidite = { version = \"2.3.4\", features = [\"full\"] }"));
    assert!(full.contains("serde_json = \"1\"\n\n[dev-dependencies]"));
}

#[test]
fn seeder_is_stamped_with_digits_and_an_rfc3339_time() {
    let seeder = create_seeder("Users");
    let file = seeder.path.strip_prefix("seeds/").unwrap();
    let stamp = file.strip_suffix("_users.sql").unwrap();
    assert!(stamp.len() >= 14 && stamp.chars().all(|c| c.is_ascii_digit()));
    let header = seeder.content.lines().nth(1).unwrap();
    let at = header.strip_prefix("-- Created at: ").unwrap();
    assert!(at.contains('T') && at.contains(':') && at.ends_with("+00:00"));
    assert!(seeder.content.starts_with("-- Seed: Users\n"));
}

#[test]
fn average_latency_rounds_down() {
    assert_eq!(average_latency(&vec![1, 2, 4]), 2);
    assert_eq!(average_latency(&vec![u64::MAX, u64::MAX]), u64::MAX as u128);
    assert_eq!(average_latency(&vec![1_500_000_000, 500_000_001]), 1_000_000_000);
}
