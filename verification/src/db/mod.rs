//! The ORM's verified parts: SQL building, schemas, migrations, relations
//! and the query cache.
pub mod query;
pub mod model_query;
pub mod cache;
pub mod schema;
pub mod migrations;
pub mod relations;
pub mod model_meta;
pub mod validation;
