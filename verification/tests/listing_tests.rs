use oxidite::cli::maintenance::seed_file_order;
use oxidite::db::migrations::list_migrations;
use oxidite::db::query::{pool_max_connections, DatabaseType, PoolOptions};
use oxidite::db::schema::column_names_query;

#[test]
fn list_migrations_orders_sql_files_and_skips_others() {
    let files = vec![
        ("20240102000000_add_posts.sql".to_string(), "-- migrate:up\nCREATE TABLE posts (id INTEGER);\n\n-- migrate:down\nDROP TABLE posts;\n".to_string()),
        ("notes.txt".to_string(), "ignored".to_string()),
        ("nounderscore.sql".to_string(), "ignored".to_string()),
        ("20240101000000_create_users.sql".to_string(), "-- migrate:up\nCREATE TABLE users (id INTEGER);\n".to_string()),
    ];
    let listed = list_migrations(&files);
    assert_eq!(listed.len(), 2);
    assert_eq!(listed[0].version, "20240101000000_create_users");
    assert_eq!(listed[0].name, "create_users");
    assert_eq!(listed[0].up_sql, "CREATE TABLE users (id INTEGER);");
    assert_eq!(listed[0].down_sql, "");
    assert_eq!(listed[1].version, "20240102000000_add_posts");
    assert_eq!(listed[1].down_sql, "DROP TABLE posts;");
}

#[test]
fn seed_files_are_sql_names_in_order() {
    let names = vec!["b_seed.sql".to_string(), "readme.md".to_string(), "a_seed.sql".to_string(), ".sql".to_string()];
    assert_eq!(seed_file_order(names), vec!["a_seed.sql".to_string(), "b_seed.sql".to_string()]);
}

#[test]
fn in_memory_pool_has_one_connection() {
    let options = PoolOptions::default();
    assert_eq!(pool_max_connections("sqlite::memory:", &options), 1);
    assert_eq!(pool_max_connections("sqlite://./data.db", &options), 10);
}

#[test]
fn column_names_query_per_backend() {
    assert_eq!(column_names_query(DatabaseType::Sqlite, "users"), "SELECT name FROM pragma_table_info('users')");
    assert_eq!(
        column_names_query(DatabaseType::Postgres, "o'k"),
        "SELECT column_name FROM information_schema.columns WHERE table_name = 'o''k' ORDER BY ordinal_position"
    );
}
