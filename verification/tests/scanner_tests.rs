use oxidite::cli::scanner::{ModelScanner, ScanError};
use oxidite::db::schema::ColumnType;

#[test]
fn scans_models_and_their_columns() {
    let source = r#"
        #[derive(Model)]
        #[model(table_name = "people")]
        struct Person {
            id: i64,
            name: String,
            age: Option<i32>,
            odd: Option<u8>::Assoc,
        }

        struct NotAModel {
            weird: Option<u8>::日,
        }

        #[derive(Model)]
        struct Post {
            id: i64,
            published: bool,
        }
    "#;
    let mut scanner = ModelScanner::new();
    assert!(scanner.scan_source(source).is_ok());
    let models = scanner.models();
    assert_eq!(models.len(), 2);
    assert_eq!(models[0].name, "people");
    let cols = &models[0].columns;
    assert_eq!(cols.len(), 4);
    assert_eq!((cols[0].name.as_str(), cols[0].ty, cols[0].nullable, cols[0].primary_key), ("id", ColumnType::BigInt, false, true));
    assert_eq!((cols[1].ty, cols[1].nullable), (ColumnType::Text, false));
    // The inner text of `Option < i32 >` is ` i32` (with its space), which maps to text.
    assert_eq!((cols[2].ty, cols[2].nullable), (ColumnType::Text, true));
    // A type that starts with `Option <` but does not end with ` >` is still a nullable column.
    assert_eq!((cols[3].name.as_str(), cols[3].ty, cols[3].nullable), ("odd", ColumnType::Text, true));
    assert_eq!(models[1].name, "posts");
    assert_eq!((models[1].columns[1].ty, models[1].columns[1].nullable), (ColumnType::Boolean, false));
}

#[test]
fn model_type_that_cannot_be_sliced_adds_nothing() {
    let source = "#[derive(Model)]\nstruct Item { id: i64, tag: Option<u8>::日 }\n";
    let mut scanner = ModelScanner::new();
    assert!(matches!(scanner.scan_source(source), Err(ScanError::MalformedType(t)) if t == "Option < u8 > :: 日"));
    assert!(scanner.models().is_empty());
}

#[test]
fn unparsable_source_is_a_parse_error() {
    let mut scanner = ModelScanner::new();
    assert!(matches!(scanner.scan_source("struct {"), Err(ScanError::Parse(_))));
    assert!(scanner.models().is_empty());
}
