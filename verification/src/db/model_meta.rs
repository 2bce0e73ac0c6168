//! What deriving `Model` for a struct produces: its table, its fields, its
//! column schemas and the SQL of its create, update and delete queries.
use vstd::prelude::*;
use crate::db::query::OrmError;
use crate::db::relations::{placeholders, placeholders_exec};
use crate::db::schema::{ColumnSchema, ColumnType};
use crate::text::{
    concat, decimal, join, join_strings, lemma_views_push, owned, push_str, str_eq, to_lowercase,
    u64_to_string, unicode_lowercase, views,
};

verus! {

/// The shape of a field's declared type: a path type by its last segment,
/// an `Option` of a type, or any other type.
#[derive(Debug)]
pub enum TypeShape {
    Path(String),
    OptionOf(Box<TypeShape>),
    Other,
}

/// A named field of the struct.
#[derive(Debug)]
pub struct FieldSpec {
    pub name: String,
    pub ty: TypeShape,
}

/// Why a struct cannot derive `Model`.
#[derive(Debug, PartialEq, Eq, Structural)]
pub enum ModelError {
    /// Both `table_name` and `table` were given.
    BothTableNames,
    /// The struct has no `id` field.
    MissingId,
    /// `id` is not `i64`, `Uuid` or `String`.
    BadIdType,
    /// `created_at` is not `i64`.
    BadCreatedAt,
    /// `updated_at` is not `i64`.
    BadUpdatedAt,
    /// `deleted_at` is not `Option<i64>`.
    BadDeletedAt,
    /// `table_name` is given twice in `#[model(...)]`.
    DuplicateTableName,
    /// `table` is given twice in `#[model(...)]`.
    DuplicateTable,
    /// `#[model(...)]` names something other than `table_name` or `table`.
    UnsupportedAttribute,
    /// `table_name` or `table` is not followed by `=`.
    ExpectedEquals,
    /// The value after `=` is not a string literal.
    ExpectedString,
    /// The struct is a tuple or unit struct.
    NamedFieldsRequired,
    /// The item is not a struct.
    OnlyStructs,
}

/// The text shown for a model that cannot be derived.
pub open spec fn model_error_text(e: ModelError) -> Seq<char> {
    match e {
        ModelError::BothTableNames => "use either `table_name` or `table` in #[model(...)], not both"@,
        ModelError::MissingId => "Model derive requires an `id` field"@,
        ModelError::BadIdType => "Model derive requires `id` to be of type i64, Uuid, or String"@,
        ModelError::BadCreatedAt => "`created_at` must be i64 for automatic timestamp support"@,
        ModelError::BadUpdatedAt => "`updated_at` must be i64 for automatic timestamp support"@,
        ModelError::BadDeletedAt => "`deleted_at` must be Option<i64> for soft-delete support"@,
        ModelError::DuplicateTableName => "duplicate `table_name` in #[model(...)]"@,
        ModelError::DuplicateTable => "duplicate `table` in #[model(...)]"@,
        ModelError::UnsupportedAttribute => "unsupported model attribute; expected `table_name = \"...\"` or `table = \"...\"`"@,
        ModelError::ExpectedEquals => "expected `=`"@,
        ModelError::ExpectedString => "expected string literal"@,
        ModelError::NamedFieldsRequired => "Model derive requires a struct with named fields"@,
        ModelError::OnlyStructs => "Model derive can only be used on structs"@,
    }
}

impl ModelError {
    /// The message shown to the user.
    pub fn message(&self) -> (r: &'static str)
        ensures
            r@ == model_error_text(*self),
    {
        match self {
            ModelError::BothTableNames => "use either `table_name` or `table` in #[model(...)], not both",
            ModelError::MissingId => "Model derive requires an `id` field",
            ModelError::BadIdType => "Model derive requires `id` to be of type i64, Uuid, or String",
            ModelError::BadCreatedAt => "`created_at` must be i64 for automatic timestamp support",
            ModelError::BadUpdatedAt => "`updated_at` must be i64 for automatic timestamp support",
            ModelError::BadDeletedAt => "`deleted_at` must be Option<i64> for soft-delete support",
            ModelError::DuplicateTableName => "duplicate `table_name` in #[model(...)]",
            ModelError::DuplicateTable => "duplicate `table` in #[model(...)]",
            ModelError::UnsupportedAttribute => "unsupported model attribute; expected `table_name = \"...\"` or `table = \"...\"`",
            ModelError::ExpectedEquals => "expected `=`",
            ModelError::ExpectedString => "expected string literal",
            ModelError::NamedFieldsRequired => "Model derive requires a struct with named fields",
            ModelError::OnlyStructs => "Model derive can only be used on structs",
        }
    }
}

#[derive(Debug, Clone, Copy, PartialEq, Eq, Structural)]
pub enum IdKind {
    Integer,
    Uuid,
    Text,
}

/// The id of a model row, by the kind of its `id` field; a UUID is held
/// as its 128-bit value.
#[derive(Debug, Clone, PartialEq, Eq)]
pub enum ModelId {
    Integer(i64),
    Uuid(u128),
    Text(String),
}

/// Whether a row with this id has been stored: a positive integer, a
/// non-nil UUID, a non-empty text.
pub open spec fn id_persisted(id: ModelId) -> bool {
    match id {
        ModelId::Integer(n) => n > 0,
        ModelId::Uuid(u) => u != 0,
        ModelId::Text(s) => s@.len() > 0,
    }
}

/// Whether a model with this id has been stored.
pub fn is_persisted(id: &ModelId) -> (r: bool)
    ensures
        r == id_persisted(*id),
{
    match id {
        ModelId::Integer(n) => *n > 0,
        ModelId::Uuid(u) => *u != 0,
        ModelId::Text(s) => !s.as_str().is_empty(),
    }
}

/// `text`, followed by `suffix` for a model with soft deletes.
pub open spec fn with_soft(text: Seq<char>, soft: bool, suffix: Seq<char>) -> Seq<char> {
    if soft {
        text + suffix
    } else {
        text
    }
}

/// The query that finds one row of a model by id; deleted rows are left out
/// for a model with soft deletes.
pub fn find_sql(table: &str, soft: bool) -> (r: String)
    ensures
        r@ == with_soft("SELECT * FROM "@ + table@ + " WHERE id = ?"@, soft, " AND deleted_at IS NULL"@),
{
    let mut q = concat("SELECT * FROM ", table);
    push_str(&mut q, " WHERE id = ?");
    if soft {
        push_str(&mut q, " AND deleted_at IS NULL");
    }
    q
}

/// The query that loads every row of a model.
pub fn all_sql(table: &str, soft: bool) -> (r: String)
    ensures
        r@ == with_soft("SELECT * FROM "@ + table@, soft, " WHERE deleted_at IS NULL"@),
{
    let mut q = concat("SELECT * FROM ", table);
    if soft {
        push_str(&mut q, " WHERE deleted_at IS NULL");
    }
    q
}

/// The query that loads the rows with `count` ids, bound in order; nothing
/// to load for no ids.
pub fn find_many_sql(table: &str, soft: bool, count: usize) -> (r: Option<String>)
    ensures
        match r {
            None => count == 0,
            Some(q) => count > 0 && q@ == with_soft(
                "SELECT * FROM "@ + table@ + " WHERE id IN ("@ + placeholders(count as nat) + ")"@,
                soft,
                " AND deleted_at IS NULL"@,
            ),
        },
{
    if count == 0 {
        return None;
    }
    let mut q = concat("SELECT * FROM ", table);
    push_str(&mut q, " WHERE id IN (");
    let p = placeholders_exec(count);
    push_str(&mut q, p.as_str());
    push_str(&mut q, ")");
    if soft {
        push_str(&mut q, " AND deleted_at IS NULL");
    }
    Some(q)
}

/// The error for a missing row of a model.
pub fn not_found(table: &'static str, id: i64) -> (r: OrmError)
    ensures
        r == (OrmError::NotFound { model: table, id }),
{
    OrmError::NotFound { model: table, id }
}

/// What saving a model does.
#[derive(Debug, Clone, Copy, PartialEq, Eq, Structural)]
pub enum SaveAction {
    /// Insert a new row.
    Create,
    /// Update the stored row.
    Update,
}

/// Saving a model: a failed validation is refused with its message;
/// otherwise a stored model is updated and a new one created.
pub fn save_action(validation: &Result<(), String>, persisted: bool) -> (r: Result<SaveAction, OrmError>)
    ensures
        match validation {
            Err(m) => r matches Err(OrmError::Validation(x)) && x@ == m@,
            Ok(()) => r == Ok::<SaveAction, OrmError>(if persisted {
                SaveAction::Update
            } else {
                SaveAction::Create
            }),
        },
{
    match validation {
        Err(m) => Err(OrmError::Validation(owned(m.as_str()))),
        Ok(()) => if persisted {
            Ok(SaveAction::Update)
        } else {
            Ok(SaveAction::Create)
        },
    }
}

pub open spec fn is_path(t: TypeShape, name: Seq<char>) -> bool {
    match t {
        TypeShape::Path(n) => n@ == name,
        _ => false,
    }
}

pub open spec fn is_option_i64(t: TypeShape) -> bool {
    match t {
        TypeShape::OptionOf(inner) => is_path(*inner, "i64"@),
        _ => false,
    }
}

/// The column type of a field type, and whether the column is nullable
/// (an `Option`).
pub open spec fn column_of(t: TypeShape) -> (ColumnType, bool)
    decreases t,
{
    match t {
        TypeShape::OptionOf(inner) => (column_of(*inner).0, true),
        TypeShape::Path(n) => (
            if n@ == "i64"@ {
                ColumnType::BigInt
            } else if n@ == "i32"@ {
                ColumnType::Int
            } else if n@ == "String"@ {
                ColumnType::Text
            } else if n@ == "bool"@ {
                ColumnType::Boolean
            } else if n@ == "f64"@ {
                ColumnType::Float
            } else if n@ == "DateTime"@ {
                ColumnType::DateTime
            } else if n@ == "Value"@ {
                ColumnType::Json
            } else if n@ == "Uuid"@ {
                ColumnType::Uuid
            } else {
                ColumnType::Text
            },
            false,
        ),
        TypeShape::Other => (ColumnType::Text, false),
    }
}

pub open spec fn field_names(fields: Seq<FieldSpec>) -> Seq<Seq<char>> {
    fields.map_values(|f: FieldSpec| f.name@)
}

/// The first field named `n`, by position, or -1.
pub open spec fn field_index(fields: Seq<FieldSpec>, n: Seq<char>) -> int
    decreases fields.len(),
{
    if fields.len() == 0 {
        -1
    } else if fields[0].name@ == n {
        0
    } else {
        let r = field_index(fields.drop_first(), n);
        if r < 0 {
            -1
        } else {
            r + 1
        }
    }
}

/// The fields that are written by create and update: all but `id` and the
/// timestamps.
pub open spec fn is_managed(n: Seq<char>) -> bool {
    n == "id"@ || n == "created_at"@ || n == "updated_at"@ || n == "deleted_at"@
}

pub open spec fn data_fields(names: Seq<Seq<char>>) -> Seq<Seq<char>>
    decreases names.len(),
{
    if names.len() == 0 {
        Seq::empty()
    } else {
        let p = data_fields(names.drop_last());
        if is_managed(names.last()) {
            p
        } else {
            p.push(names.last())
        }
    }
}

/// The columns that create writes, in order: the data fields, then the
/// timestamps that the model has.
pub open spec fn create_columns(names: Seq<Seq<char>>, has_created: bool, has_updated: bool) -> Seq<
    Seq<char>,
> {
    data_fields(names) + (if has_created {
        seq!["created_at"@]
    } else {
        Seq::empty()
    }) + (if has_updated {
        seq!["updated_at"@]
    } else {
        Seq::empty()
    })
}

/// `$1, $2, ...` up to `n`.
pub open spec fn dollar_list(n: nat) -> Seq<char> {
    join(Seq::new(n, |i: int| "$"@ + decimal((i + 1) as nat)), ", "@)
}

pub open spec fn create_query(table: Seq<char>, cols: Seq<Seq<char>>) -> Seq<char> {
    if cols.len() == 0 {
        "INSERT INTO "@ + table + " DEFAULT VALUES"@
    } else {
        "INSERT INTO "@ + table + " ("@ + join(cols, ", "@) + ") VALUES ("@ + dollar_list(cols.len())
            + ")"@
    }
}

/// The assignments of an update: each data field and then `updated_at`,
/// numbered from `$1`.
pub open spec fn update_sets(names: Seq<Seq<char>>, has_updated: bool) -> Seq<Seq<char>> {
    let d = data_fields(names);
    Seq::new(d.len(), |i: int| d[i] + " = $"@ + decimal((i + 1) as nat)) + (if has_updated {
        seq!["updated_at = $"@ + decimal((d.len() + 1) as nat)]
    } else {
        Seq::empty()
    })
}

pub open spec fn update_query(table: Seq<char>, names: Seq<Seq<char>>, has_updated: bool) -> Seq<char> {
    "UPDATE "@ + table + " SET "@ + join(update_sets(names, has_updated), ", "@) + " WHERE id = $"@
        + decimal((update_sets(names, has_updated).len() + 1) as nat)
}

pub open spec fn delete_query(table: Seq<char>, soft: bool) -> Seq<char> {
    if soft {
        "UPDATE "@ + table + " SET deleted_at = $1 WHERE id = $2"@
    } else {
        "DELETE FROM "@ + table + " WHERE id = $1"@
    }
}

/// A model's metadata.
#[derive(Debug)]
pub struct ModelMeta {
    pub table_name: String,
    pub fields: Vec<String>,
    pub id_kind: IdKind,
    pub has_soft_delete: bool,
    pub create_query: String,
    pub update_query: String,
    pub delete_query: String,
    pub columns: Vec<ColumnSchema>,
}

/// The table of a model: the explicit name if one was given, else the
/// struct's name lowercased, with an `s`.
pub open spec fn table_of(lowered_type_name: Seq<char>, table_name: Option<Seq<char>>, table: Option<Seq<char>>) -> Seq<char> {
    match table_name {
        Some(t) => t,
        None => match table {
            Some(t) => t,
            None => lowered_type_name + "s"@,
        },
    }
}

/// Why a struct with these fields cannot derive `Model`, checked in order.
pub open spec fn meta_error(fields: Seq<FieldSpec>, both_names: bool) -> Option<ModelError> {
    let id = field_index(fields, "id"@);
    let c = field_index(fields, "created_at"@);
    let u = field_index(fields, "updated_at"@);
    let d = field_index(fields, "deleted_at"@);
    if both_names {
        Some(ModelError::BothTableNames)
    } else if id < 0 {
        Some(ModelError::MissingId)
    } else if !(is_path(fields[id].ty, "i64"@) || is_path(fields[id].ty, "Uuid"@) || is_path(
        fields[id].ty,
        "String"@,
    )) {
        Some(ModelError::BadIdType)
    } else if c >= 0 && !is_path(fields[c].ty, "i64"@) {
        Some(ModelError::BadCreatedAt)
    } else if u >= 0 && !is_path(fields[u].ty, "i64"@) {
        Some(ModelError::BadUpdatedAt)
    } else if d >= 0 && !is_option_i64(fields[d].ty) {
        Some(ModelError::BadDeletedAt)
    } else {
        None
    }
}

pub open spec fn id_kind_of(t: TypeShape) -> IdKind {
    if is_path(t, "i64"@) {
        IdKind::Integer
    } else if is_path(t, "Uuid"@) {
        IdKind::Uuid
    } else {
        IdKind::Text
    }
}

/// The column schema of a field.
pub open spec fn column_schema_of(f: FieldSpec, c: ColumnSchema) -> bool {
    &&& c.name@ == f.name@
    &&& c.ty == column_of(f.ty).0
    &&& c.nullable == column_of(f.ty).1
    &&& c.primary_key == (f.name@ == "id"@)
    &&& c.default is None
}

fn is_path_exec(t: &TypeShape, name: &str) -> (r: bool)
    ensures
        r == is_path(*t, name@),
{
    match t {
        TypeShape::Path(n) => str_eq(n.as_str(), name),
        _ => false,
    }
}

fn column_of_exec(t: &TypeShape) -> (r: (ColumnType, bool))
    ensures
        r == column_of(*t),
    decreases t,
{
    match t {
        TypeShape::OptionOf(inner) => {
            let (c, _) = column_of_exec(inner);
            (c, true)
        },
        TypeShape::Path(n) => {
            let s = n.as_str();
            let c = if str_eq(s, "i64") {
                ColumnType::BigInt
            } else if str_eq(s, "i32") {
                ColumnType::Int
            } else if str_eq(s, "String") {
                ColumnType::Text
            } else if str_eq(s, "bool") {
                ColumnType::Boolean
            } else if str_eq(s, "f64") {
                ColumnType::Float
            } else if str_eq(s, "DateTime") {
                ColumnType::DateTime
            } else if str_eq(s, "Value") {
                ColumnType::Json
            } else if str_eq(s, "Uuid") {
                ColumnType::Uuid
            } else {
                ColumnType::Text
            };
            (c, false)
        },
        TypeShape::Other => (ColumnType::Text, false),
    }
}

proof fn lemma_field_index(fields: Seq<FieldSpec>, n: Seq<char>)
    ensures
        -1 <= field_index(fields, n) < fields.len(),
        field_index(fields, n) >= 0 ==> fields[field_index(fields, n)].name@ == n,
        forall|j: int|
            0 <= j < fields.len() && (field_index(fields, n) < 0 || j < field_index(fields, n)) ==> fields[j].name@ != n,
    decreases fields.len(),
{
    if fields.len() > 0 && fields[0].name@ != n {
        lemma_field_index(fields.drop_first(), n);
        assert forall|j: int| 0 < j < fields.len() implies fields[j] == fields.drop_first()[j - 1] by {}
    }
}

fn find_field(fields: &Vec<FieldSpec>, n: &str) -> (r: Option<usize>)
    ensures
        match r {
            Some(i) => i as int == field_index(fields@, n@),
            None => field_index(fields@, n@) < 0,
        },
{
    proof {
        lemma_field_index(fields@, n@);
    }
    let mut i: usize = 0;
    while i < fields.len()
        invariant
            i <= fields@.len(),
            forall|j: int| 0 <= j < i ==> fields@[j].name@ != n@,
            -1 <= field_index(fields@, n@) < fields@.len(),
            field_index(fields@, n@) >= 0 ==> fields@[field_index(fields@, n@)].name@ == n@,
            forall|j: int|
                0 <= j < fields@.len() && (field_index(fields@, n@) < 0 || j < field_index(fields@, n@))
                    ==> fields@[j].name@ != n@,
        decreases fields.len() - i,
    {
        if str_eq(fields[i].name.as_str(), n) {
            return Some(i);
        }
        i = i + 1;
    }
    None
}

fn is_managed_exec(n: &str) -> (r: bool)
    ensures
        r == is_managed(n@),
{
    str_eq(n, "id") || str_eq(n, "created_at") || str_eq(n, "updated_at") || str_eq(n, "deleted_at")
}

fn dollar(i: usize) -> (r: String)
    ensures
        r@ == "$"@ + decimal(i as nat),
{
    concat("$", u64_to_string(i as u64).as_str())
}

proof fn lemma_data_fields_len(names: Seq<Seq<char>>)
    ensures
        data_fields(names).len() <= names.len(),
    decreases names.len(),
{
    if names.len() > 0 {
        lemma_data_fields_len(names.drop_last());
    }
}

fn names_of(fields: &Vec<FieldSpec>) -> (r: Vec<String>)
    ensures
        views(r@) == field_names(fields@),
{
    let mut r: Vec<String> = Vec::new();
    let mut i: usize = 0;
    while i < fields.len()
        invariant
            i <= fields@.len(),
            views(r@) == field_names(fields@).take(i as int),
        decreases fields.len() - i,
    {
        let ghost old_r = r@;
        let n = owned(fields[i].name.as_str());
        r.push(n);
        proof {
            lemma_views_push(old_r, n);
            assert(field_names(fields@).take(i + 1) =~= field_names(fields@).take(i as int).push(
                fields@[i as int].name@,
            ));
        }
        i = i + 1;
    }
    assert(field_names(fields@).take(fields@.len() as int) =~= field_names(fields@));
    r
}

fn data_fields_exec(names: &Vec<String>) -> (r: Vec<String>)
    ensures
        views(r@) == data_fields(views(names@)),
{
    let mut r: Vec<String> = Vec::new();
    let mut i: usize = 0;
    while i < names.len()
        invariant
            i <= names@.len(),
            views(r@) == data_fields(views(names@).take(i as int)),
        decreases names.len() - i,
    {
        let ghost t = views(names@).take(i + 1);
        assert(t.drop_last() =~= views(names@).take(i as int));
        assert(t.last() == names@[i as int]@);
        if !is_managed_exec(names[i].as_str()) {
            let ghost old_r = r@;
            let n = owned(names[i].as_str());
            r.push(n);
            proof {
                lemma_views_push(old_r, n);
            }
        }
        i = i + 1;
    }
    assert(views(names@).take(names@.len() as int) =~= views(names@));
    r
}

fn dollar_list_exec(n: usize) -> (r: String)
    ensures
        r@ == dollar_list(n as nat),
{
    let mut parts: Vec<String> = Vec::new();
    let mut i: usize = 0;
    while i < n
        invariant
            i <= n,
            views(parts@) == Seq::new(i as nat, |k: int| "$"@ + decimal((k + 1) as nat)),
        decreases n - i,
    {
        let ghost old_p = parts@;
        let d = dollar(i + 1);
        parts.push(d);
        proof {
            lemma_views_push(old_p, d);
            assert(views(parts@) =~= Seq::new((i + 1) as nat, |k: int| "$"@ + decimal((k + 1) as nat)));
        }
        i = i + 1;
    }
    join_strings(&parts, ", ")
}

fn update_sets_exec(data: &Vec<String>, has_updated: bool) -> (r: Vec<String>)
    requires
        data@.len() + 2 <= usize::MAX,
    ensures
        views(r@) == Seq::new(views(data@).len(), |i: int| views(data@)[i] + " = $"@ + decimal((i + 1) as nat))
            + (if has_updated {
            seq!["updated_at = $"@ + decimal((views(data@).len() + 1) as nat)]
        } else {
            Seq::<Seq<char>>::empty()
        }),
{
    let ghost d = views(data@);
    let mut r: Vec<String> = Vec::new();
    let mut i: usize = 0;
    while i < data.len()
        invariant
            i <= data@.len(),
            d == views(data@),
            views(r@) == Seq::new(i as nat, |k: int| d[k] + " = $"@ + decimal((k + 1) as nat)),
        decreases data.len() - i,
    {
        let ghost old_r = r@;
        let mut line = concat(data[i].as_str(), " = $");
        let dl = u64_to_string((i + 1) as u64);
        push_str(&mut line, dl.as_str());
        r.push(line);
        proof {
            lemma_views_push(old_r, line);
            assert(views(r@) =~= Seq::new((i + 1) as nat, |k: int| d[k] + " = $"@ + decimal((k + 1) as nat)));
        }
        i = i + 1;
    }
    if has_updated {
        let ghost old_r = r@;
        let dl = u64_to_string((data.len() + 1) as u64);
        let line = concat("updated_at = $", dl.as_str());
        r.push(line);
        proof {
            lemma_views_push(old_r, line);
            assert(views(r@) =~= Seq::new(d.len(), |k: int| d[k] + " = $"@ + decimal((k + 1) as nat)) + seq![
                "updated_at = $"@ + decimal((d.len() + 1) as nat),
            ]);
        }
    } else {
        assert(views(r@) =~= Seq::new(d.len(), |k: int| d[k] + " = $"@ + decimal((k + 1) as nat)) + Seq::<
            Seq<char>,
        >::empty());
    }
    r
}

fn columns_of(fields: &Vec<FieldSpec>) -> (r: Vec<ColumnSchema>)
    ensures
        r@.len() == fields@.len(),
        forall|i: int| 0 <= i < fields@.len() ==> column_schema_of(fields@[i], #[trigger] r@[i]),
{
    let mut r: Vec<ColumnSchema> = Vec::new();
    let mut i: usize = 0;
    while i < fields.len()
        invariant
            i <= fields@.len(),
            r@.len() == i,
            forall|j: int| 0 <= j < i ==> column_schema_of(fields@[j], #[trigger] r@[j]),
        decreases fields.len() - i,
    {
        let (ty, nullable) = column_of_exec(&fields[i].ty);
        let pk = str_eq(fields[i].name.as_str(), "id");
        r.push(
            ColumnSchema {
                name: owned(fields[i].name.as_str()),
                ty,
                nullable,
                primary_key: pk,
                default: None,
            },
        );
        i = i + 1;
    }
    r
}

/// `m` is the metadata of a model named `struct_name` with these fields and
/// table attributes: its table, fields, id kind, soft-delete flag, queries
/// and column schemas.
pub open spec fn meta_of(
    m: ModelMeta,
    struct_name: Seq<char>,
    table_name: Option<Seq<char>>,
    table: Option<Seq<char>>,
    fields: Seq<FieldSpec>,
) -> bool {
    let t = table_of(unicode_lowercase(struct_name), table_name, table);
    let names = field_names(fields);
    let hc = field_index(fields, "created_at"@) >= 0;
    let hu = field_index(fields, "updated_at"@) >= 0;
    let hd = field_index(fields, "deleted_at"@) >= 0;
    &&& m.table_name@ == t
    &&& views(m.fields@) == names
    &&& m.id_kind == id_kind_of(fields[field_index(fields, "id"@)].ty)
    &&& m.has_soft_delete == hd
    &&& m.create_query@ == create_query(t, create_columns(names, hc, hu))
    &&& m.update_query@ == update_query(t, names, hu)
    &&& m.delete_query@ == delete_query(t, hd)
    &&& m.columns@.len() == fields.len()
    &&& forall|i: int| 0 <= i < fields.len() ==> column_schema_of(fields[i], #[trigger] m.columns@[i])
}

/// Derives the metadata of a model named `struct_name` with these fields and
/// the optional `table_name` and `table` attributes.
pub fn derive_model_meta(
    struct_name: &str,
    table_name: Option<&str>,
    table: Option<&str>,
    fields: &Vec<FieldSpec>,
) -> (r: Result<ModelMeta, ModelError>)
    requires
        fields@.len() + 2 <= usize::MAX,
    ensures
        match meta_error(fields@, table_name is Some && table is Some) {
            Some(e) => r == Err::<ModelMeta, ModelError>(e),
            None => r matches Ok(m) && meta_of(
                m,
                struct_name@,
                match table_name {
                    Some(x) => Some(x@),
                    None => None,
                },
                match table {
                    Some(x) => Some(x@),
                    None => None,
                },
                fields@,
            ),
        },
{
    proof {
        lemma_field_index(fields@, "id"@);
        lemma_field_index(fields@, "created_at"@);
        lemma_field_index(fields@, "updated_at"@);
        lemma_field_index(fields@, "deleted_at"@);
    }
    if table_name.is_some() && table.is_some() {
        return Err(ModelError::BothTableNames);
    }
    let id = match find_field(fields, "id") {
        Some(i) => i,
        None => {
            return Err(ModelError::MissingId);
        },
    };
    let id_ty = &fields[id].ty;
    let id_kind = if is_path_exec(id_ty, "i64") {
        IdKind::Integer
    } else if is_path_exec(id_ty, "Uuid") {
        IdKind::Uuid
    } else if is_path_exec(id_ty, "String") {
        IdKind::Text
    } else {
        return Err(ModelError::BadIdType);
    };
    let created = find_field(fields, "created_at");
    match created {
        Some(c) => {
            if !is_path_exec(&fields[c].ty, "i64") {
                return Err(ModelError::BadCreatedAt);
            }
        },
        None => {},
    }
    let updated = find_field(fields, "updated_at");
    match updated {
        Some(u) => {
            if !is_path_exec(&fields[u].ty, "i64") {
                return Err(ModelError::BadUpdatedAt);
            }
        },
        None => {},
    }
    let deleted = find_field(fields, "deleted_at");
    match deleted {
        Some(d) => {
            let ok = match &fields[d].ty {
                TypeShape::OptionOf(inner) => is_path_exec(inner, "i64"),
                _ => false,
            };
            if !ok {
                return Err(ModelError::BadDeletedAt);
            }
        },
        None => {},
    }
    let has_created = created.is_some();
    let has_updated = updated.is_some();
    let has_deleted = deleted.is_some();
    let table_text = match table_name {
        Some(t) => owned(t),
        None => match table {
            Some(t) => owned(t),
            None => {
                let lower = to_lowercase(struct_name);
                concat(lower.as_str(), "s")
            },
        },
    };
    let names = names_of(fields);
    let data = data_fields_exec(&names);
    proof {
        lemma_data_fields_len(views(names@));
    }
    let mut cols = data_fields_exec(&names);
    if has_created {
        let ghost old_c = cols@;
        let c = owned("created_at");
        cols.push(c);
        proof {
            lemma_views_push(old_c, c);
        }
    }
    if has_updated {
        let ghost old_c = cols@;
        let c = owned("updated_at");
        cols.push(c);
        proof {
            lemma_views_push(old_c, c);
        }
    }
    proof {
        let names_v = field_names(fields@);
        let d = data_fields(names_v);
        let tail1: Seq<Seq<char>> = if has_created { seq!["created_at"@] } else { Seq::empty() };
        let tail2: Seq<Seq<char>> = if has_updated { seq!["updated_at"@] } else { Seq::empty() };
        assert(views(cols@) =~= d + tail1 + tail2);
    }
    let create = if cols.len() == 0 {
        let mut q = concat("INSERT INTO ", table_text.as_str());
        push_str(&mut q, " DEFAULT VALUES");
        q
    } else {
        let mut q = concat("INSERT INTO ", table_text.as_str());
        push_str(&mut q, " (");
        let joined = join_strings(&cols, ", ");
        push_str(&mut q, joined.as_str());
        push_str(&mut q, ") VALUES (");
        let dl = dollar_list_exec(cols.len());
        push_str(&mut q, dl.as_str());
        push_str(&mut q, ")");
        q
    };
    let sets = update_sets_exec(&data, has_updated);
    let mut update = concat("UPDATE ", table_text.as_str());
    push_str(&mut update, " SET ");
    let joined_sets = join_strings(&sets, ", ");
    push_str(&mut update, joined_sets.as_str());
    push_str(&mut update, " WHERE id = $");
    let last = u64_to_string((sets.len() + 1) as u64);
    push_str(&mut update, last.as_str());
    let delete = if has_deleted {
        let mut q = concat("UPDATE ", table_text.as_str());
        push_str(&mut q, " SET deleted_at = $1 WHERE id = $2");
        q
    } else {
        let mut q = concat("DELETE FROM ", table_text.as_str());
        push_str(&mut q, " WHERE id = $1");
        q
    };
    let columns = columns_of(fields);
    Ok(
        ModelMeta {
            table_name: table_text,
            fields: names,
            id_kind,
            has_soft_delete: has_deleted,
            create_query: create,
            update_query: update,
            delete_query: delete,
            columns,
        },
    )
}

/// The kind of a relation attribute on a model.
#[derive(Debug, Clone, Copy, PartialEq, Eq, Structural)]
pub enum RelationKind {
    HasMany,
    HasOne,
    BelongsTo,
}

/// A relation declared by `#[has_many(...)]`, `#[has_one(...)]` or
/// `#[belongs_to(...)]`: the related model, the foreign key column and the
/// name of the generated method.
#[derive(Debug, Clone, PartialEq, Eq)]
pub struct RelationSpec {
    pub kind: RelationKind,
    pub model: String,
    pub foreign_key: String,
    pub name: String,
}

/// The `model`, `foreign_key` and `name` properties of a relation, the
/// last value of each winning; `None` when a property is not one of them.
pub open spec fn relation_props(props: Seq<(Seq<char>, Seq<char>)>) -> Option<
    (Option<Seq<char>>, Option<Seq<char>>, Option<Seq<char>>),
>
    decreases props.len(),
{
    if props.len() == 0 {
        Some((None, None, None))
    } else {
        match relation_props(props.drop_last()) {
            None => None,
            Some((m, f, n)) => {
                let (k, v) = props.last();
                if k == "model"@ {
                    Some((Some(v), f, n))
                } else if k == "foreign_key"@ {
                    Some((m, Some(v), n))
                } else if k == "name"@ {
                    Some((m, f, Some(v)))
                } else {
                    None
                }
            },
        }
    }
}

/// The relation a relation attribute declares, or the message that
/// refuses it.
pub open spec fn relation_of(kind: RelationKind, props: Seq<(Seq<char>, Seq<char>)>) -> Result<
    (Seq<char>, Seq<char>, Seq<char>),
    Seq<char>,
> {
    match relation_props(props) {
        None => Err("unsupported relation property"@),
        Some((m, f, n)) => match m {
            None => Err("missing `model` in relation"@),
            Some(model) => match f {
                None => Err("missing `foreign_key` in relation"@),
                Some(fk) => match n {
                    None => Err("missing `name` in relation"@),
                    Some(name) => Ok((model, fk, name)),
                },
            },
        },
    }
}

fn opt_copy(o: &Option<String>) -> (r: Option<String>)
    ensures
        match r {
            Some(x) => o matches Some(y) && x@ == y@,
            None => o is None,
        },
{
    match o {
        Some(x) => Some(owned(x.as_str())),
        None => None,
    }
}

/// Reads a relation attribute's properties (name and string value, in
/// order).
pub fn relation_spec(kind: RelationKind, props: &Vec<(String, String)>) -> (r: Result<RelationSpec, String>)
    ensures
        match relation_of(kind, props@.map_values(|p: (String, String)| (p.0@, p.1@))) {
            Ok((m, f, n)) => r matches Ok(spec) && spec.kind == kind && spec.model@ == m
                && spec.foreign_key@ == f && spec.name@ == n,
            Err(e) => r matches Err(x) && x@ == e,
        },
{
    let ghost pv = props@.map_values(|p: (String, String)| (p.0@, p.1@));
    let mut model: Option<String> = None;
    let mut fk: Option<String> = None;
    let mut name: Option<String> = None;
    let mut ok = true;
    let mut i: usize = 0;
    while i < props.len()
        invariant
            i <= props@.len(),
            pv == props@.map_values(|p: (String, String)| (p.0@, p.1@)),
            ok ==> relation_props(pv.take(i as int)) == Some(
                (
                    match model {
                        Some(x) => Some(x@),
                        None => None::<Seq<char>>,
                    },
                    match fk {
                        Some(x) => Some(x@),
                        None => None::<Seq<char>>,
                    },
                    match name {
                        Some(x) => Some(x@),
                        None => None::<Seq<char>>,
                    },
                ),
            ),
            !ok ==> relation_props(pv.take(i as int)) is None,
        decreases props.len() - i,
    {
        proof {
            assert(pv.take(i + 1).drop_last() =~= pv.take(i as int));
            assert(pv.take(i + 1).last() == (props@[i as int].0@, props@[i as int].1@));
        }
        if ok {
            let k = props[i].0.as_str();
            let v = props[i].1.as_str();
            if str_eq(k, "model") {
                model = Some(owned(v));
            } else if str_eq(k, "foreign_key") {
                fk = Some(owned(v));
            } else if str_eq(k, "name") {
                name = Some(owned(v));
            } else {
                ok = false;
            }
        }
        i = i + 1;
    }
    proof {
        assert(pv.take(props@.len() as int) =~= pv);
    }
    if !ok {
        return Err(owned("unsupported relation property"));
    }
    match (opt_copy(&model), opt_copy(&fk), opt_copy(&name)) {
        (None, _, _) => Err(owned("missing `model` in relation")),
        (Some(_), None, _) => Err(owned("missing `foreign_key` in relation")),
        (Some(_), Some(_), None) => Err(owned("missing `name` in relation")),
        (Some(m), Some(f), Some(n)) => Ok(RelationSpec { kind, model: m, foreign_key: f, name: n }),
    }
}

/// The name of the method that eager-loads a relation: `eager_load_`
/// and the relation's name; a `belongs_to` relation has none.
pub fn eager_method_name(spec: &RelationSpec) -> (r: Option<String>)
    ensures
        match r {
            Some(m) => spec.kind != RelationKind::BelongsTo && m@ == "eager_load_"@ + spec.name@,
            None => spec.kind == RelationKind::BelongsTo,
        },
{
    match spec.kind {
        RelationKind::BelongsTo => None,
        _ => Some(concat("eager_load_", spec.name.as_str())),
    }
}

// ---------------------------------------------------------------------------
// The `#[model(...)]` attribute and the shape of the item
// ---------------------------------------------------------------------------

/// What follows a key inside `#[model(...)]`: `= "..."`, `=` and something
/// that is not a string literal, or no `=` at all.
#[derive(Debug)]
pub enum AttrValue {
    Str(String),
    NotAString,
    Missing,
}

/// One argument of `#[model(...)]`, in the order written (over all such
/// attributes): its path as written and what follows it.
#[derive(Debug)]
pub struct ModelArg {
    pub key: String,
    pub value: AttrValue,
}

/// The item the derive is applied to.
#[derive(Debug, Clone, Copy, PartialEq, Eq, Structural)]
pub enum ItemShape {
    NamedStruct,
    TupleStruct,
    UnitStruct,
    NotAStruct,
}

/// The `table_name` and `table` values found in the first `n` arguments,
/// or the first error: a key given twice, a key without `=` or without a
/// string, or any other key.
pub open spec fn model_args_scan(args: Seq<ModelArg>, n: int) -> Result<(Option<Seq<char>>, Option<Seq<char>>), ModelError>
    decreases n,
{
    if n <= 0 {
        Ok((None, None))
    } else {
        match model_args_scan(args, n - 1) {
            Err(e) => Err(e),
            Ok((tn, ta)) => {
                let a = args[n - 1];
                if a.key@ == "table_name"@ {
                    if tn is Some {
                        Err(ModelError::DuplicateTableName)
                    } else {
                        match a.value {
                            AttrValue::Str(v) => Ok((Some(v@), ta)),
                            AttrValue::NotAString => Err(ModelError::ExpectedString),
                            AttrValue::Missing => Err(ModelError::ExpectedEquals),
                        }
                    }
                } else if a.key@ == "table"@ {
                    if ta is Some {
                        Err(ModelError::DuplicateTable)
                    } else {
                        match a.value {
                            AttrValue::Str(v) => Ok((tn, Some(v@))),
                            AttrValue::NotAString => Err(ModelError::ExpectedString),
                            AttrValue::Missing => Err(ModelError::ExpectedEquals),
                        }
                    }
                } else {
                    Err(ModelError::UnsupportedAttribute)
                }
            },
        }
    }
}

/// The table name the attributes choose (`table_name`, else `table`, else
/// none), or why they are refused; both keys together are refused.
pub open spec fn model_table_attr(args: Seq<ModelArg>) -> Result<Option<Seq<char>>, ModelError> {
    match model_args_scan(args, args.len() as int) {
        Err(e) => Err(e),
        Ok((Some(_), Some(_))) => Err(ModelError::BothTableNames),
        Ok((Some(t), None)) => Ok(Some(t)),
        Ok((None, t)) => Ok(t),
    }
}

fn text_opt(o: &Option<String>) -> (r: Option<String>)
    ensures
        match r {
            Some(x) => o is Some && x@ == o->Some_0@,
            None => o is None,
        },
{
    match o {
        Some(x) => Some(owned(x.as_str())),
        None => None,
    }
}

proof fn lemma_scan_error_stays(args: Seq<ModelArg>, k: int, n: int)
    requires
        0 <= k <= n,
        model_args_scan(args, k) is Err,
    ensures
        model_args_scan(args, n) == model_args_scan(args, k),
    decreases n - k,
{
    if n > k {
        lemma_scan_error_stays(args, k, n - 1);
    }
}

/// Reads the arguments of `#[model(...)]`: the table name they choose, or
/// the first reason they are refused.
pub fn parse_table_name(args: &Vec<ModelArg>) -> (r: Result<Option<String>, ModelError>)
    ensures
        match model_table_attr(args@) {
            Err(e) => r == Err::<Option<String>, ModelError>(e),
            Ok(t) => r matches Ok(x) && match x {
                Some(s) => t == Some(s@),
                None => t is None,
            },
        },
{
    let mut tn: Option<String> = None;
    let mut ta: Option<String> = None;
    let mut i: usize = 0;
    while i < args.len()
        invariant
            i <= args@.len(),
            model_args_scan(args@, i as int) matches Ok((a, b)) && a == match tn {
                Some(x) => Some(x@),
                None => None,
            } && b == match ta {
                Some(x) => Some(x@),
                None => None,
            },
        decreases args.len() - i,
    {
        let a = &args[i];
        if str_eq(a.key.as_str(), "table_name") {
            if tn.is_some() {
                proof {
                    lemma_scan_error_stays(args@, i + 1, args@.len() as int);
                }
                return Err(ModelError::DuplicateTableName);
            }
            match &a.value {
                AttrValue::Str(v) => {
                    tn = Some(owned(v.as_str()));
                },
                AttrValue::NotAString => {
                    proof {
                        lemma_scan_error_stays(args@, i + 1, args@.len() as int);
                    }
                    return Err(ModelError::ExpectedString);
                },
                AttrValue::Missing => {
                    proof {
                        lemma_scan_error_stays(args@, i + 1, args@.len() as int);
                    }
                    return Err(ModelError::ExpectedEquals);
                },
            }
        } else if str_eq(a.key.as_str(), "table") {
            if ta.is_some() {
                proof {
                    lemma_scan_error_stays(args@, i + 1, args@.len() as int);
                }
                return Err(ModelError::DuplicateTable);
            }
            match &a.value {
                AttrValue::Str(v) => {
                    ta = Some(owned(v.as_str()));
                },
                AttrValue::NotAString => {
                    proof {
                        lemma_scan_error_stays(args@, i + 1, args@.len() as int);
                    }
                    return Err(ModelError::ExpectedString);
                },
                AttrValue::Missing => {
                    proof {
                        lemma_scan_error_stays(args@, i + 1, args@.len() as int);
                    }
                    return Err(ModelError::ExpectedEquals);
                },
            }
        } else {
            proof {
                lemma_scan_error_stays(args@, i + 1, args@.len() as int);
            }
            return Err(ModelError::UnsupportedAttribute);
        }
        i = i + 1;
    }
    if tn.is_some() && ta.is_some() {
        return Err(ModelError::BothTableNames);
    }
    if tn.is_some() {
        Ok(text_opt(&tn))
    } else {
        Ok(text_opt(&ta))
    }
}

/// Why an item of this shape cannot derive `Model`, if it cannot.
pub open spec fn shape_error(shape: ItemShape) -> Option<ModelError> {
    match shape {
        ItemShape::NamedStruct => None,
        ItemShape::TupleStruct | ItemShape::UnitStruct => Some(ModelError::NamedFieldsRequired),
        ItemShape::NotAStruct => Some(ModelError::OnlyStructs),
    }
}

/// Derives the metadata of an item: first the `#[model(...)]` arguments are
/// read, then the item must be a struct with named fields, then the fields
/// are checked and the metadata derived as `derive_model_meta` does with the
/// chosen table name.
pub fn derive_model(struct_name: &str, shape: ItemShape, args: &Vec<ModelArg>, fields: &Vec<FieldSpec>) -> (r: Result<
    ModelMeta,
    ModelError,
>)
    requires
        fields@.len() + 2 <= usize::MAX,
    ensures
        match model_table_attr(args@) {
            Err(e) => r == Err::<ModelMeta, ModelError>(e),
            Ok(t) => match shape_error(shape) {
                Some(e) => r == Err::<ModelMeta, ModelError>(e),
                None => match meta_error(fields@, false) {
                    Some(e) => r == Err::<ModelMeta, ModelError>(e),
                    None => r matches Ok(m) && meta_of(m, struct_name@, t, None, fields@),
                },
            },
        },
{
    let table = match parse_table_name(args) {
        Err(e) => {
            return Err(e);
        },
        Ok(t) => t,
    };
    match shape {
        ItemShape::NamedStruct => {},
        ItemShape::TupleStruct | ItemShape::UnitStruct => {
            return Err(ModelError::NamedFieldsRequired);
        },
        ItemShape::NotAStruct => {
            return Err(ModelError::OnlyStructs);
        },
    }
    match &table {
        Some(t) => derive_model_meta(struct_name, Some(t.as_str()), None, fields),
        None => derive_model_meta(struct_name, None, None, fields),
    }
}

} // verus!
