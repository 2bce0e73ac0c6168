//! Table schemas and the `CREATE TABLE` statements they produce.
use vstd::prelude::*;
use crate::db::query::{escape_sql_literal, sql_escaped, DatabaseType};
use crate::text::{
    concat, decimal, join, join_strings, lemma_views_push, owned, push_str, u64_to_string, views,
};

verus! {

/// The type of a column.
#[derive(Debug, Clone, Copy, PartialEq, Eq, Structural)]
pub enum ColumnType {
    BigInt,
    Int,
    Text,
    Varchar(usize),
    Boolean,
    Float,
    DateTime,
    Json,
    Uuid,
}

/// The SQL type of a column type on a backend: SQLite stores booleans and
/// timestamps as integers and JSON and UUIDs as text; PostgreSQL stores
/// JSON as `JSONB`.
pub open spec fn column_sql(t: ColumnType, db: DatabaseType) -> Seq<char> {
    match t {
        ColumnType::BigInt => "BIGINT"@,
        ColumnType::Int => "INTEGER"@,
        ColumnType::Text => "TEXT"@,
        ColumnType::Varchar(size) => "VARCHAR("@ + decimal(size as nat) + ")"@,
        ColumnType::Boolean => if db == DatabaseType::Sqlite { "INTEGER"@ } else { "BOOLEAN"@ },
        ColumnType::Float => "DOUBLE PRECISION"@,
        ColumnType::DateTime => if db == DatabaseType::Sqlite { "INTEGER"@ } else { "TIMESTAMP"@ },
        ColumnType::Json => match db {
            DatabaseType::Sqlite => "TEXT"@,
            DatabaseType::Postgres => "JSONB"@,
            DatabaseType::MySql => "JSON"@,
        },
        ColumnType::Uuid => if db == DatabaseType::Sqlite { "TEXT"@ } else { "UUID"@ },
    }
}

impl ColumnType {
    /// The SQL type of this column type on `db_type`.
    pub fn to_sql(&self, db_type: DatabaseType) -> (r: String)
        ensures
            r@ == column_sql(*self, db_type),
    {
        match self {
            ColumnType::BigInt => owned("BIGINT"),
            ColumnType::Int => owned("INTEGER"),
            ColumnType::Text => owned("TEXT"),
            ColumnType::Varchar(size) => {
                let mut r = concat("VARCHAR(", u64_to_string(*size as u64).as_str());
                push_str(&mut r, ")");
                r
            },
            ColumnType::Boolean => match db_type {
                DatabaseType::Sqlite => owned("INTEGER"),
                _ => owned("BOOLEAN"),
            },
            ColumnType::Float => owned("DOUBLE PRECISION"),
            ColumnType::DateTime => match db_type {
                DatabaseType::Sqlite => owned("INTEGER"),
                _ => owned("TIMESTAMP"),
            },
            ColumnType::Json => match db_type {
                DatabaseType::Sqlite => owned("TEXT"),
                DatabaseType::Postgres => owned("JSONB"),
                DatabaseType::MySql => owned("JSON"),
            },
            ColumnType::Uuid => match db_type {
                DatabaseType::Sqlite => owned("TEXT"),
                _ => owned("UUID"),
            },
        }
    }
}

/// A column of a table.
#[derive(Debug)]
pub struct ColumnSchema {
    pub name: String,
    pub ty: ColumnType,
    pub nullable: bool,
    pub primary_key: bool,
    pub default: Option<String>,
}

/// A table and its columns, in order.
#[derive(Debug)]
pub struct TableSchema {
    pub name: String,
    pub columns: Vec<ColumnSchema>,
}

/// One column's line of a `CREATE TABLE` statement: name and type, then
/// `PRIMARY KEY` (with `AUTOINCREMENT` for a SQLite `BIGINT` key) or, for
/// other columns that are not nullable, `NOT NULL`; then the default.
pub open spec fn column_line(c: ColumnSchema, db: DatabaseType) -> Seq<char> {
    let base = "    "@ + c.name@ + " "@ + column_sql(c.ty, db);
    let key = if c.primary_key {
        " PRIMARY KEY"@ + if db == DatabaseType::Sqlite && c.ty == ColumnType::BigInt {
            " AUTOINCREMENT"@
        } else {
            Seq::empty()
        }
    } else if !c.nullable {
        " NOT NULL"@
    } else {
        Seq::empty()
    };
    let dflt = match c.default {
        Some(d) => " DEFAULT "@ + d@,
        None => Seq::empty(),
    };
    base + key + dflt
}

pub open spec fn column_lines(cols: Seq<ColumnSchema>, db: DatabaseType) -> Seq<Seq<char>> {
    cols.map_values(|c: ColumnSchema| column_line(c, db))
}

/// The `CREATE TABLE` statement of a table: one line per column, separated
/// by `,` and a newline.
pub open spec fn create_sql(t: TableSchema, db: DatabaseType) -> Seq<char> {
    "CREATE TABLE "@ + t.name@ + " (\n"@ + join(column_lines(t.columns@, db), ",\n"@) + "\n);"@
}

fn column_line_exec(c: &ColumnSchema, db: DatabaseType) -> (r: String)
    ensures
        r@ == column_line(*c, db),
{
    let mut r = concat("    ", c.name.as_str());
    push_str(&mut r, " ");
    let t = c.ty.to_sql(db);
    push_str(&mut r, t.as_str());
    if c.primary_key {
        push_str(&mut r, " PRIMARY KEY");
        let sqlite = match db {
            DatabaseType::Sqlite => true,
            _ => false,
        };
        let bigint = match c.ty {
            ColumnType::BigInt => true,
            _ => false,
        };
        if sqlite && bigint {
            push_str(&mut r, " AUTOINCREMENT");
        }
    } else if !c.nullable {
        push_str(&mut r, " NOT NULL");
    }
    match &c.default {
        Some(d) => {
            push_str(&mut r, " DEFAULT ");
            push_str(&mut r, d.as_str());
        },
        None => {},
    }
    r
}

impl TableSchema {
    /// The `CREATE TABLE` statement of this table on `db_type`.
    pub fn to_create_sql(&self, db_type: DatabaseType) -> (r: String)
        ensures
            r@ == create_sql(*self, db_type),
    {
        let mut lines: Vec<String> = Vec::new();
        let mut i: usize = 0;
        while i < self.columns.len()
            invariant
                i <= self.columns@.len(),
                views(lines@) == column_lines(self.columns@, db_type).take(i as int),
            decreases self.columns.len() - i,
        {
            let ghost old_lines = lines@;
            lines.push(column_line_exec(&self.columns[i], db_type));
            proof {
                lemma_views_push(old_lines, lines@.last());
                assert(lines@ == old_lines.push(lines@.last()));
                assert(column_lines(self.columns@, db_type).take(i + 1) =~= column_lines(
                    self.columns@,
                    db_type,
                ).take(i as int).push(column_line(self.columns@[i as int], db_type)));
            }
            i = i + 1;
        }
        assert(column_lines(self.columns@, db_type).take(self.columns@.len() as int) =~= column_lines(
            self.columns@,
            db_type,
        ));
        let mut sql = concat("CREATE TABLE ", self.name.as_str());
        push_str(&mut sql, " (\n");
        let body = join_strings(&lines, ",\n");
        push_str(&mut sql, body.as_str());
        push_str(&mut sql, "\n);");
        sql
    }
}

/// The query that lists the column names of the table `table`, in their
/// order, on each backend.
pub open spec fn column_names_sql(db: DatabaseType, table: Seq<char>) -> Seq<char> {
    match db {
        DatabaseType::Sqlite => "SELECT name FROM pragma_table_info('"@ + sql_escaped(table) + "')"@,
        DatabaseType::Postgres => "SELECT column_name FROM information_schema.columns WHERE table_name = '"@
            + sql_escaped(table) + "' ORDER BY ordinal_position"@,
        DatabaseType::MySql => "SELECT column_name FROM information_schema.columns WHERE table_schema = DATABASE() AND table_name = '"@
            + sql_escaped(table) + "' ORDER BY ordinal_position"@,
    }
}

/// The query that lists the column names of `table`.
pub fn column_names_query(db: DatabaseType, table: &str) -> (r: String)
    ensures
        r@ == column_names_sql(db, table@),
{
    let escaped = escape_sql_literal(table);
    let (head, tail) = match db {
        DatabaseType::Sqlite => ("SELECT name FROM pragma_table_info('", "')"),
        DatabaseType::Postgres => (
            "SELECT column_name FROM information_schema.columns WHERE table_name = '",
            "' ORDER BY ordinal_position",
        ),
        DatabaseType::MySql => (
            "SELECT column_name FROM information_schema.columns WHERE table_schema = DATABASE() AND table_name = '",
            "' ORDER BY ordinal_position",
        ),
    };
    let mut r = concat(head, escaped.as_str());
    push_str(&mut r, tail);
    r
}

} // verus!
