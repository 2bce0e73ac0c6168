use oxidite::db::cache::QueryCache;
use oxidite::db::migrations::{
    mark_applied_sql, mark_reverted_sql, order_migrations, pending_migrations, Migration,
    MigrationError, MigrationManager,
};
use oxidite::db::model_meta::{derive_model, parse_table_name, AttrValue, ItemShape, ModelArg};
use oxidite::db::model_meta::{derive_model_meta, is_persisted, FieldSpec, ModelError, ModelId, TypeShape};
use oxidite::db::model_query::{ModelQuery, QueryValue, SortDirection};
use oxidite::db::query::{
    escape_sql_literal, is_valid_identifier, parse_database_type, DatabaseType, OrmError, Pagination,
    PoolOptions, QueryBuilder,
};
use oxidite::db::relations::{eager_load_sql, group_many, group_one, HasMany, RelationError};
use oxidite::db::schema::ColumnType;
use oxidite::db::model_meta::{all_sql, find_many_sql, find_sql};
use oxidite::db::model_meta::{not_found, save_action, SaveAction};
use oxidite::db::model_meta::{eager_method_name, relation_spec, RelationKind};

fn path(ty: &str) -> TypeShape {
    TypeShape::Path(ty.to_string())
}

fn field(name: &str, ty: TypeShape) -> FieldSpec {
    FieldSpec { name: name.to_string(), ty }
}

fn test_model_fields() -> Vec<FieldSpec> {
    vec![
        field("id", path("i64")),
        field("name", path("String")),
        field("deleted_at", TypeShape::OptionOf(Box::new(path("i64")))),
    ]
}

#[test]
fn query_builder_escapes_single_quotes() {
    let query = QueryBuilder::new("users").where_eq("name", "O'Reilly").build();
    assert_eq!(query, "SELECT * FROM users WHERE name = 'O''Reilly'");
}

#[test]
fn query_builder_normalizes_order_direction() {
    let asc_query = QueryBuilder::new("users").order_by("id", "something").build();
    assert_eq!(asc_query, "SELECT * FROM users ORDER BY id ASC");

    let desc_query = QueryBuilder::new("users").order_by("id", "DESC").build();
    assert_eq!(desc_query, "SELECT * FROM users ORDER BY id DESC");
}

#[test]
fn parse_database_type_rejects_unknown_scheme() {
    let err = parse_database_type("unknown://localhost").expect_err("expected failure");
    assert!(err.contains("unsupported database URL scheme"));
}

#[test]
fn parse_database_type_accepts_supported_schemes() {
    assert_eq!(parse_database_type("postgres://localhost/db").unwrap(), DatabaseType::Postgres);
    assert_eq!(parse_database_type("mysql://localhost/db").unwrap(), DatabaseType::MySql);
    assert_eq!(parse_database_type("sqlite://db.sqlite").unwrap(), DatabaseType::Sqlite);
}

#[test]
fn pagination_validation() {
    assert!(Pagination::new(0, 0).is_err());
    assert!(Pagination::from_page(0, 10).is_err());
    assert!(Pagination::from_page(1, 0).is_err());

    let pagination = Pagination::from_page(2, 10).unwrap();
    assert_eq!(pagination.limit, 10);
    assert_eq!(pagination.offset, 10);
}

#[test]
fn model_query_builds_safe_sql_with_soft_delete_and_pagination() {
    let meta = derive_model_meta("TestModel", None, None, &test_model_fields()).unwrap();
    let pagination = Pagination::from_page(2, 25).unwrap();
    let (sql, _binds) = ModelQuery::new(&meta.table_name, meta.has_soft_delete)
        .filter_eq("name", QueryValue::text("alice"))
        .order_by("id", SortDirection::Desc)
        .paginate(pagination)
        .build_sql(false)
        .unwrap();

    assert_eq!(
        sql,
        "SELECT * FROM testmodels WHERE deleted_at IS NULL AND name = ? ORDER BY id DESC LIMIT 25 OFFSET 25"
    );
}

#[test]
fn model_query_rejects_invalid_identifier() {
    let meta = derive_model_meta("TestModel", None, None, &test_model_fields()).unwrap();
    let result = ModelQuery::new(&meta.table_name, meta.has_soft_delete)
        .filter_eq("name;drop_table", QueryValue::text("alice"))
        .build_sql(false);
    assert!(result.is_err());
}

#[test]
fn derived_model_persisted_state_uses_id() {
    assert!(is_persisted(&ModelId::Integer(1)));
    assert!(!is_persisted(&ModelId::Integer(0)));
}

#[test]
fn test_metadata() {
    let fields = vec![field("id", path("i64")), field("username", path("String"))];
    let meta = derive_model_meta("User", None, None, &fields).unwrap();
    assert_eq!(meta.table_name, "users");
    assert!(meta.fields.contains(&"id".to_string()));
    assert!(meta.fields.contains(&"username".to_string()));
}

#[test]
fn test_has_soft_delete() {
    let fields = vec![
        field("id", path("i64")),
        field("username", path("String")),
        field("deleted_at", TypeShape::OptionOf(Box::new(path("i64")))),
    ];
    let meta = derive_model_meta("UserWithSoftDelete", None, None, &fields).unwrap();
    assert!(meta.has_soft_delete);
    assert_eq!(meta.delete_query, "UPDATE userwithsoftdeletes SET deleted_at = $1 WHERE id = $2");
}

#[test]
fn model_meta_queries_and_errors() {
    let fields = vec![
        field("id", path("i64")),
        field("title", path("String")),
        field("body", path("String")),
        field("created_at", path("i64")),
        field("updated_at", path("i64")),
    ];
    let meta = derive_model_meta("Post", Some("articles"), None, &fields).unwrap();
    assert_eq!(meta.table_name, "articles");
    assert_eq!(
        meta.create_query,
        "INSERT INTO articles (title, body, created_at, updated_at) VALUES ($1, $2, $3, $4)"
    );
    assert_eq!(
        meta.update_query,
        "UPDATE articles SET title = $1, body = $2, updated_at = $3 WHERE id = $4"
    );
    assert_eq!(meta.delete_query, "DELETE FROM articles WHERE id = $1");
    assert!(!meta.has_soft_delete);

    let no_id = vec![field("name", path("String"))];
    assert_eq!(derive_model_meta("X", None, None, &no_id).unwrap_err(), ModelError::MissingId);
    let bad_id = vec![field("id", path("u8"))];
    assert_eq!(derive_model_meta("X", None, None, &bad_id).unwrap_err(), ModelError::BadIdType);
    let both = vec![field("id", path("i64"))];
    assert_eq!(
        derive_model_meta("X", Some("a"), Some("b"), &both).unwrap_err(),
        ModelError::BothTableNames
    );
    assert_eq!(ModelError::MissingId.message(), "Model derive requires an `id` field");
}

#[test]
fn persisted_ids_of_each_kind() {
    assert!(is_persisted(&ModelId::Uuid(7)));
    assert!(!is_persisted(&ModelId::Uuid(0)));
    assert!(is_persisted(&ModelId::Text("a".to_string())));
    assert!(!is_persisted(&ModelId::Text(String::new())));
    assert!(!is_persisted(&ModelId::Integer(-3)));
}

#[test]
fn identifiers_and_literals() {
    assert!(is_valid_identifier("user_id2"));
    assert!(!is_valid_identifier(""));
    assert!(!is_valid_identifier("name;drop"));
    assert_eq!(escape_sql_literal("it's"), "it''s");
}

#[test]
fn orm_error_messages() {
    let e = OrmError::NotFound { model: "User", id: -4 };
    assert_eq!(e.message(), "model `User` with id `-4` was not found");
    let e = OrmError::InvalidIdentifier { kind: "column", value: "a b".to_string() };
    assert_eq!(e.message(), "invalid SQL identifier `a b` for column");
    assert_eq!(
        OrmError::InvalidPagination("page must be 1 or greater").message(),
        "invalid pagination: page must be 1 or greater"
    );
    assert_eq!(OrmError::Validation("bad".to_string()).message(), "validation failed: bad");
}

#[test]
fn pagination_from_page_offsets() {
    let p = Pagination::from_page(3, 20).unwrap();
    assert_eq!((p.limit, p.offset), (20, 40));
    assert_eq!(
        Pagination::new(0, 5).unwrap_err(),
        OrmError::InvalidPagination("limit must be greater than 0")
    );
}

#[test]
fn pool_options_defaults() {
    let p = PoolOptions::default();
    assert_eq!(p.max_connections, 10);
    assert_eq!(p.min_connections, 0);
    assert_eq!(p.connect_timeout_secs, 30);
    assert_eq!(p.idle_timeout_secs, Some(600));
}

#[test]
fn model_query_counts_and_includes_deleted() {
    let (sql, binds) = ModelQuery::new("users", true)
        .with_deleted()
        .filter_eq("age", QueryValue::I64(3))
        .build_sql(true)
        .unwrap();
    assert_eq!(sql, "SELECT COUNT(*) as count FROM users WHERE age = ?");
    assert_eq!(binds.len(), 1);
}

#[test]
fn cache_stores_and_retrieves() {
    let mut cache = QueryCache::new();
    cache.insert("test_key".to_string(), 60_000, vec![1, 2, 3], 0);
    assert_eq!(cache.get("test_key", 10), Some(vec![1, 2, 3]));
}

#[test]
fn cache_expires() {
    let mut cache = QueryCache::new();
    cache.insert("expire_key".to_string(), 10, vec![4, 5, 6], 1000);
    assert!(cache.get("expire_key", 1000).is_some());
    assert!(cache.get("expire_key", 1020).is_none());
}

#[test]
fn cache_remove_works() {
    let mut cache = QueryCache::new();
    cache.insert("remove_key".to_string(), 60_000, vec![7, 8, 9], 0);
    cache.remove("remove_key");
    assert!(cache.get("remove_key", 1).is_none());
}

#[test]
fn cache_clear_works() {
    let mut cache = QueryCache::new();
    cache.insert("key1".to_string(), 60_000, vec![1], 0);
    cache.insert("key2".to_string(), 60_000, vec![2], 0);
    cache.clear();
    assert!(cache.is_empty());
}

#[test]
fn cache_invalidate_prefix() {
    let mut cache = QueryCache::new();
    cache.insert("user:1".to_string(), 60_000, vec![1], 0);
    cache.insert("user:2".to_string(), 60_000, vec![2], 0);
    cache.insert("post:1".to_string(), 60_000, vec![3], 0);
    cache.invalidate_prefix("user:");
    assert!(cache.get("user:1", 1).is_none());
    assert!(cache.get("user:2", 1).is_none());
    assert!(cache.get("post:1", 1).is_some());
}

#[test]
fn cache_evicts_least_recently_used() {
    let mut cache = QueryCache::with_capacity(2);
    cache.insert("a".to_string(), 100, vec![1], 0);
    cache.insert("b".to_string(), 100, vec![2], 0);
    assert!(cache.get("a", 1).is_some());
    cache.insert("c".to_string(), 100, vec![3], 2);
    assert_eq!(cache.len(), 2);
    assert!(cache.get("b", 3).is_none());
    assert!(cache.get("a", 3).is_some());
    assert!(cache.get("c", 3).is_some());
}

#[test]
fn migration_files_round_trip() {
    let m = Migration::with_stamp("20240101120000", "create_users");
    assert_eq!(m.version, "20240101120000_create_users");
    assert_eq!(m.file_name(), "20240101120000_create_users.sql");
    let text = "-- migrate:up\nCREATE TABLE users (id INTEGER);\n\n-- migrate:down\nDROP TABLE users;\n";
    let parsed = Migration::parse("20240101120000_create_users", text).unwrap();
    assert_eq!(parsed.name, "create_users");
    assert_eq!(parsed.up_sql, "CREATE TABLE users (id INTEGER);");
    assert_eq!(parsed.down_sql, "DROP TABLE users;");
    assert_eq!(parsed.file_content(), text);
    assert_eq!(Migration::parse("nounderscore", "").unwrap_err(), MigrationError::InvalidFilename);
    let fresh = Migration::new("add_posts");
    assert!(fresh.version.ends_with("_add_posts"));
    let stamp = fresh.version.strip_suffix("_add_posts").unwrap();
    assert!(stamp.len() >= 14 && stamp.chars().all(|c| c.is_ascii_digit()));
}

#[test]
fn migrations_are_ordered_and_filtered() {
    let found = vec![
        Migration::with_stamp("3", "c"),
        Migration::with_stamp("1", "a"),
        Migration::with_stamp("2", "b"),
    ];
    let ordered = order_migrations(found);
    let versions: Vec<&str> = ordered.iter().map(|m| m.version.as_str()).collect();
    assert_eq!(versions, vec!["1_a", "2_b", "3_c"]);
    let pending = pending_migrations(ordered, &vec!["2_b".to_string()]);
    let versions: Vec<&str> = pending.iter().map(|m| m.version.as_str()).collect();
    assert_eq!(versions, vec!["1_a", "3_c"]);
    assert_eq!(
        mark_applied_sql("1_a", 1700000000),
        "INSERT INTO _migrations (version, applied_at) VALUES ('1_a', 1700000000)"
    );
    assert_eq!(mark_reverted_sql("1_a"), "DELETE FROM _migrations WHERE version = '1_a'");
    let manager = MigrationManager::new("migrations");
    let planned = manager.file_for(&Migration::with_stamp("9", "x"));
    assert_eq!(planned.path, "migrations/9_x.sql");
}

#[test]
fn relations_load_and_group() {
    assert_eq!(
        eager_load_sql("posts", "user_id", 3).unwrap(),
        Some("SELECT * FROM posts WHERE user_id IN (?, ?, ?)".to_string())
    );
    assert_eq!(eager_load_sql("posts", "user_id", 0).unwrap(), None);
    assert!(matches!(
        eager_load_sql("posts", "user id", 1),
        Err(RelationError::InvalidForeignKey(k)) if k == "user id"
    ));
    let groups = group_many(&vec![1, 2], &vec![2, 1, 2]);
    let of = |k: i64| groups.iter().find(|g| g.0 == k).map(|g| g.1.clone());
    assert_eq!(of(1), Some(vec![1]));
    assert_eq!(of(2), Some(vec![0, 2]));
    let ones = group_one(&vec![5, 6], &vec![6]);
    let one_of = |k: i64| ones.iter().find(|g| g.0 == k).map(|g| g.1);
    assert_eq!(one_of(5), Some(None));
    assert_eq!(one_of(6), Some(Some(0)));
    let rel: HasMany<(), ()> = HasMany::new(7, "user_id");
    assert_eq!(rel.parent_id(), 7);
    assert_eq!(rel.query_sql("posts").unwrap(), "SELECT * FROM posts WHERE user_id = ?");
}

#[test]
fn column_types_per_backend() {
    assert_eq!(ColumnType::Boolean.to_sql(DatabaseType::Sqlite), "INTEGER");
    assert_eq!(ColumnType::Boolean.to_sql(DatabaseType::Postgres), "BOOLEAN");
    assert_eq!(ColumnType::Json.to_sql(DatabaseType::Postgres), "JSONB");
    assert_eq!(ColumnType::Varchar(40).to_sql(DatabaseType::MySql), "VARCHAR(40)");
}

#[test]
fn model_lookup_queries() {
    assert_eq!(find_sql("users", false), "SELECT * FROM users WHERE id = ?");
    assert_eq!(find_sql("users", true), "SELECT * FROM users WHERE id = ? AND deleted_at IS NULL");
    assert_eq!(all_sql("users", true), "SELECT * FROM users WHERE deleted_at IS NULL");
    assert_eq!(all_sql("users", false), "SELECT * FROM users");
    assert_eq!(
        find_many_sql("users", true, 2),
        Some("SELECT * FROM users WHERE id IN (?, ?) AND deleted_at IS NULL".to_string())
    );
    assert_eq!(find_many_sql("users", false, 0), None);
}

#[test]
fn save_decides_between_create_and_update() {
    assert_eq!(save_action(&Ok(()), true).unwrap(), SaveAction::Update);
    assert_eq!(save_action(&Ok(()), false).unwrap(), SaveAction::Create);
    assert_eq!(
        save_action(&Err("name is empty".to_string()), true).unwrap_err(),
        OrmError::Validation("name is empty".to_string())
    );
    assert_eq!(not_found("users", 9).message(), "model `users` with id `9` was not found");
}

#[test]
fn migration_file_reads_back_what_was_written() {
    let mut m = Migration::with_stamp("20240101000000", "create_posts");
    m.up_sql = "CREATE TABLE posts (id INTEGER);\nCREATE INDEX posts_id ON posts (id);".to_string();
    m.down_sql = "DROP TABLE posts;".to_string();
    let back = Migration::parse(&m.version, &m.file_content()).unwrap();
    assert_eq!(back.up_sql, m.up_sql);
    assert_eq!(back.down_sql, m.down_sql);
    assert_eq!(back.version, m.version);
    let empty = Migration::with_stamp("1", "empty");
    let back = Migration::parse("1_empty", &empty.file_content()).unwrap();
    assert_eq!(back.up_sql, "");
    assert_eq!(back.down_sql, "");
}

fn props(v: &[(&str, &str)]) -> Vec<(String, String)> {
    v.iter().map(|(k, x)| (k.to_string(), x.to_string())).collect()
}

#[test]
fn relation_attributes_are_read() {
    let spec = relation_spec(
        RelationKind::HasMany,
        &props(&[("model", "Post"), ("foreign_key", "user_id"), ("name", "posts")]),
    )
    .unwrap();
    assert_eq!(spec.model, "Post");
    assert_eq!(spec.foreign_key, "user_id");
    assert_eq!(eager_method_name(&spec), Some("eager_load_posts".to_string()));
    let owner = relation_spec(
        RelationKind::BelongsTo,
        &props(&[("model", "User"), ("foreign_key", "user_id"), ("name", "owner")]),
    )
    .unwrap();
    assert_eq!(eager_method_name(&owner), None);
    assert_eq!(
        relation_spec(RelationKind::HasOne, &props(&[("model", "A"), ("through", "b")])).unwrap_err(),
        "unsupported relation property"
    );
    assert_eq!(
        relation_spec(RelationKind::HasOne, &props(&[("name", "a")])).unwrap_err(),
        "missing `model` in relation"
    );
    assert_eq!(
        relation_spec(RelationKind::HasOne, &props(&[("model", "A"), ("name", "a")])).unwrap_err(),
        "missing `foreign_key` in relation"
    );
    assert_eq!(
        relation_spec(RelationKind::HasOne, &props(&[("model", "A"), ("foreign_key", "a_id")])).unwrap_err(),
        "missing `name` in relation"
    );
}

#[test]
fn model_query_chain_fails_only_on_a_refused_call() {
    let ok = ModelQuery::new("users", true)
        .select(&["id", "name"])
        .filter_eq("name", QueryValue::text("alice"))
        .filter_is_null("email")
        .order_by("id", SortDirection::Desc)
        .limit(5)
        .offset(10)
        .with_deleted()
        .build_sql(false);
    assert!(ok.is_ok());

    let refused = ModelQuery::new("users", true)
        .filter_like("bad column", "x")
        .order_by("id", SortDirection::Asc)
        .limit(5)
        .build_sql(false);
    match refused {
        Err(OrmError::InvalidIdentifier { kind, value }) => {
            assert_eq!(kind, "column");
            assert_eq!(value, "bad column");
        }
        other => panic!("unexpected {other:?}"),
    }

    assert!(ModelQuery::new("users", false).select(&[]).limit(1).build_sql(true).is_err());
    assert!(ModelQuery::new("bad table", false).limit(1).build_sql(false).is_err());
}

#[test]
fn model_attributes_and_item_shape_are_checked_in_order() {
    let arg = |key: &str, value: AttrValue| ModelArg { key: key.to_string(), value };
    let s = |v: &str| AttrValue::Str(v.to_string());
    assert_eq!(parse_table_name(&vec![]), Ok(None));
    assert_eq!(parse_table_name(&vec![arg("table", s("t1"))]), Ok(Some("t1".to_string())));
    assert_eq!(parse_table_name(&vec![arg("table_name", s("a"))]), Ok(Some("a".to_string())));
    assert_eq!(
        parse_table_name(&vec![arg("table_name", s("a")), arg("table_name", s("b"))]),
        Err(ModelError::DuplicateTableName)
    );
    assert_eq!(parse_table_name(&vec![arg("table", s("a")), arg("table", s("b"))]), Err(ModelError::DuplicateTable));
    assert_eq!(parse_table_name(&vec![arg("name", s("a"))]), Err(ModelError::UnsupportedAttribute));
    assert_eq!(parse_table_name(&vec![arg("table", AttrValue::Missing)]), Err(ModelError::ExpectedEquals));
    assert_eq!(parse_table_name(&vec![arg("table", AttrValue::NotAString)]), Err(ModelError::ExpectedString));
    assert_eq!(
        parse_table_name(&vec![arg("table_name", s("a")), arg("table", s("b"))]),
        Err(ModelError::BothTableNames)
    );
    // The first error stops the reading.
    assert_eq!(
        parse_table_name(&vec![arg("bogus", s("x")), arg("table", AttrValue::Missing)]),
        Err(ModelError::UnsupportedAttribute)
    );
    assert_eq!(ModelError::DuplicateTable.message(), "duplicate `table` in #[model(...)]");

    let fields = test_model_fields();
    let named = derive_model("TestModel", ItemShape::NamedStruct, &vec![arg("table", s("things"))], &fields).unwrap();
    assert_eq!(named.table_name, "things");
    assert_eq!(derive_model("TestModel", ItemShape::NamedStruct, &vec![], &fields).unwrap().table_name, "testmodels");
    assert_eq!(
        derive_model("TestModel", ItemShape::TupleStruct, &vec![], &fields).unwrap_err(),
        ModelError::NamedFieldsRequired
    );
    assert_eq!(derive_model("TestModel", ItemShape::NotAStruct, &vec![], &fields).unwrap_err(), ModelError::OnlyStructs);
    // Attribute errors come before shape errors.
    assert_eq!(
        derive_model("TestModel", ItemShape::NotAStruct, &vec![arg("x", s("y"))], &fields).unwrap_err(),
        ModelError::UnsupportedAttribute
    );
    assert_eq!(
        ModelError::NamedFieldsRequired.message(),
        "Model derive requires a struct with named fields"
    );
}
