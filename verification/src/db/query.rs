//! SQL query building: identifiers, literals, the simple string query
//! builder, the typed model query, pagination and database URL schemes.
use vstd::prelude::*;
use crate::text::{
    chars_of, decimal, eq_ignore_ascii_case, is_alnum, is_ascii_alnum, join, join_strings,
    lower_seq, owned, push_str, starts_with, str_starts_with, string_push, u64_to_string, views,
    concat, i64_to_string, signed_decimal, contains, str_contains,
};

verus! {

// ---------------------------------------------------------------------------
// Identifiers and literals
// ---------------------------------------------------------------------------

/// A non-empty run of ASCII letters, digits and `_`.
pub open spec fn is_identifier(s: Seq<char>) -> bool {
    s.len() > 0 && forall|i: int| 0 <= i < s.len() ==> (is_ascii_alnum(#[trigger] s[i]) || s[i]
        == '_')
}

/// Whether `value` can be used as a table or column name.
pub fn is_valid_identifier(value: &str) -> (r: bool)
    ensures
        r == is_identifier(value@),
{
    let v = chars_of(value);
    if v.len() == 0 {
        return false;
    }
    let mut i: usize = 0;
    while i < v.len()
        invariant
            i <= v@.len(),
            v@ == value@,
            forall|k: int| 0 <= k < i ==> (is_ascii_alnum(#[trigger] v@[k]) || v@[k] == '_'),
        decreases v.len() - i,
    {
        let c = v[i];
        if !(is_alnum(c) || c == '_') {
            assert(!(is_ascii_alnum(value@[i as int]) || value@[i as int] == '_'));
            return false;
        }
        i = i + 1;
    }
    true
}

/// `s` with every `'` doubled.
pub open spec fn sql_escaped(s: Seq<char>) -> Seq<char>
    decreases s.len(),
{
    if s.len() == 0 {
        Seq::empty()
    } else if s.last() == '\'' {
        sql_escaped(s.drop_last()) + seq!['\'', '\'']
    } else {
        sql_escaped(s.drop_last()).push(s.last())
    }
}

/// Escapes a value for use inside a single-quoted SQL literal.
pub fn escape_sql_literal(value: &str) -> (r: String)
    ensures
        r@ == sql_escaped(value@),
{
    let v = chars_of(value);
    let mut r = String::new();
    let mut i: usize = 0;
    while i < v.len()
        invariant
            i <= v@.len(),
            v@ == value@,
            r@ == sql_escaped(v@.take(i as int)),
        decreases v.len() - i,
    {
        proof {
            assert(v@.take(i + 1).drop_last() =~= v@.take(i as int));
        }
        let c = v[i];
        string_push(&mut r, c);
        if c == '\'' {
            string_push(&mut r, '\'');
            proof {
                assert(r@ =~= sql_escaped(v@.take(i as int)) + seq!['\'', '\'']);
            }
        }
        i = i + 1;
    }
    assert(v@.take(v@.len() as int) =~= v@);
    r
}

// ---------------------------------------------------------------------------
// Database type from a URL
// ---------------------------------------------------------------------------

/// Database backend type.
#[derive(Clone, Copy, PartialEq, Eq, Structural, Debug)]
pub enum DatabaseType {
    Postgres,
    MySql,
    Sqlite,
}

/// Connection pool settings; timeouts are whole seconds.
#[derive(Clone, Debug)]
pub struct PoolOptions {
    pub max_connections: u32,
    pub min_connections: u32,
    pub connect_timeout_secs: u64,
    pub idle_timeout_secs: Option<u64>,
}

impl Default for PoolOptions {
    /// Ten connections at most, none kept open, a thirty second connect
    /// timeout and ten idle minutes.
    fn default() -> (r: Self)
        ensures
            r.max_connections == 10,
            r.min_connections == 0,
            r.connect_timeout_secs == 30,
            r.idle_timeout_secs == Some(600u64),
    {
        PoolOptions {
            max_connections: 10,
            min_connections: 0,
            connect_timeout_secs: 30,
            idle_timeout_secs: Some(600),
        }
    }
}

/// How many connections a pool opens at most: one for an in-memory
/// database, so that every query sees the same data, else what the options
/// say.
pub fn pool_max_connections(url: &str, options: &PoolOptions) -> (r: u32)
    ensures
        r == if contains(url@, ":memory:"@) {
            1
        } else {
            options.max_connections
        },
{
    if str_contains(url, ":memory:") {
        1
    } else {
        options.max_connections
    }
}

/// The backend named by a URL's scheme.
pub open spec fn database_type_of(url: Seq<char>) -> Option<DatabaseType> {
    if starts_with(url, "postgres://"@) || starts_with(url, "postgresql://"@) {
        Some(DatabaseType::Postgres)
    } else if starts_with(url, "mysql://"@) {
        Some(DatabaseType::MySql)
    } else if starts_with(url, "sqlite://"@) {
        Some(DatabaseType::Sqlite)
    } else {
        None
    }
}

/// The message for a URL whose scheme is not supported.
pub open spec fn unsupported_scheme(url: Seq<char>) -> Seq<char> {
    "unsupported database URL scheme for `"@ + url
        + "`; expected postgres://, postgresql://, mysql://, or sqlite://"@
}

/// The backend named by the scheme of `url`, or the message that rejects an
/// unsupported scheme.
pub fn parse_database_type(url: &str) -> (r: Result<DatabaseType, String>)
    ensures
        match database_type_of(url@) {
            Some(t) => r == Ok::<DatabaseType, String>(t),
            None => r is Err && r->Err_0@ == unsupported_scheme(url@),
        },
{
    if str_starts_with(url, "postgres://") || str_starts_with(url, "postgresql://") {
        return Ok(DatabaseType::Postgres);
    }
    if str_starts_with(url, "mysql://") {
        return Ok(DatabaseType::MySql);
    }
    if str_starts_with(url, "sqlite://") {
        return Ok(DatabaseType::Sqlite);
    }
    let mut r = owned("unsupported database URL scheme for `");
    push_str(&mut r, url);
    push_str(&mut r, "`; expected postgres://, postgresql://, mysql://, or sqlite://");
    Err(r)
}

// ---------------------------------------------------------------------------
// Pagination
// ---------------------------------------------------------------------------

/// Errors of the model layer.
#[derive(Clone, Debug, PartialEq, Eq)]
pub enum OrmError {
    /// The database refused a statement; the text is its message.
    Database(String),
    /// A model failed its validation.
    Validation(String),
    /// No row of the model has the id.
    NotFound { model: &'static str, id: i64 },
    /// A table or column name is not an identifier.
    InvalidIdentifier { kind: &'static str, value: String },
    /// A limit, page or selection is unusable.
    InvalidPagination(&'static str),
}

/// The text shown for an error.
pub open spec fn orm_error_text(e: OrmError) -> Seq<char> {
    match e {
        OrmError::Database(m) => m@,
        OrmError::Validation(m) => "validation failed: "@ + m@,
        OrmError::NotFound { model, id } => "model `"@ + model@ + "` with id `"@ + signed_decimal(
            id as int,
        ) + "` was not found"@,
        OrmError::InvalidIdentifier { kind, value } => "invalid SQL identifier `"@ + value@
            + "` for "@ + kind@,
        OrmError::InvalidPagination(m) => "invalid pagination: "@ + m@,
    }
}

impl OrmError {
    /// The message shown to the user.
    pub fn message(&self) -> (r: String)
        ensures
            r@ == orm_error_text(*self),
    {
        match self {
            OrmError::Database(m) => owned(m.as_str()),
            OrmError::Validation(m) => concat("validation failed: ", m.as_str()),
            OrmError::NotFound { model, id } => {
                let mut r = concat("model `", model);
                push_str(&mut r, "` with id `");
                let n = i64_to_string(*id);
                push_str(&mut r, n.as_str());
                push_str(&mut r, "` was not found");
                r
            },
            OrmError::InvalidIdentifier { kind, value } => {
                let mut r = concat("invalid SQL identifier `", value.as_str());
                push_str(&mut r, "` for ");
                push_str(&mut r, kind);
                r
            },
            OrmError::InvalidPagination(m) => concat("invalid pagination: ", m),
        }
    }
}

#[derive(Clone, Copy, PartialEq, Eq, Debug)]
pub struct Pagination {
    pub limit: usize,
    pub offset: usize,
}

impl Pagination {
    /// A window of `limit` rows starting at `offset`; `limit` must be positive.
    pub fn new(limit: usize, offset: usize) -> (r: Result<Pagination, OrmError>)
        ensures
            limit == 0 <==> r is Err,
            r is Ok ==> r->Ok_0 == (Pagination { limit, offset }),
            r is Err ==> r->Err_0 == OrmError::InvalidPagination("limit must be greater than 0"),
    {
        if limit == 0 {
            return Err(OrmError::InvalidPagination("limit must be greater than 0"));
        }
        Ok(Pagination { limit, offset })
    }

    /// Page `page` (counting from 1) of `per_page` rows.
    pub fn from_page(page: usize, per_page: usize) -> (r: Result<Pagination, OrmError>)
        requires
            page == 0 || (page - 1) * per_page <= usize::MAX,
        ensures
            (page == 0 || per_page == 0) <==> r is Err,
            page == 0 ==> r == Err::<Pagination, OrmError>(
                OrmError::InvalidPagination("page must be 1 or greater"),
            ),
            page != 0 && per_page == 0 ==> r == Err::<Pagination, OrmError>(
                OrmError::InvalidPagination("per_page must be greater than 0"),
            ),
            r is Ok ==> r->Ok_0 == (Pagination { limit: per_page, offset: ((page - 1) * per_page) as usize }),
    {
        if page == 0 {
            return Err(OrmError::InvalidPagination("page must be 1 or greater"));
        }
        if per_page == 0 {
            return Err(OrmError::InvalidPagination("per_page must be greater than 0"));
        }
        Ok(Pagination { limit: per_page, offset: (page - 1) * per_page })
    }
}

// ---------------------------------------------------------------------------
// The string query builder
// ---------------------------------------------------------------------------

/// A simple SELECT builder over strings.
#[derive(Debug)]
pub struct QueryBuilder {
    table: String,
    select_fields: Vec<String>,
    where_clauses: Vec<String>,
    order_by: Vec<String>,
    limit: Option<usize>,
    offset: Option<usize>,
}

/// The parts of a [`QueryBuilder`].
pub struct QueryBuilderView {
    pub table: Seq<char>,
    pub select: Seq<Seq<char>>,
    pub wheres: Seq<Seq<char>>,
    pub order: Seq<Seq<char>>,
    pub limit: Option<usize>,
    pub offset: Option<usize>,
}

impl View for QueryBuilder {
    type V = QueryBuilderView;

    closed spec fn view(&self) -> QueryBuilderView {
        QueryBuilderView {
            table: self.table@,
            select: views(self.select_fields@),
            wheres: views(self.where_clauses@),
            order: views(self.order_by@),
            limit: self.limit,
            offset: self.offset,
        }
    }
}

/// ` LIMIT n` / ` OFFSET n` when the value is present.
pub open spec fn opt_clause(keyword: Seq<char>, v: Option<usize>) -> Seq<char> {
    match v {
        Some(n) => keyword + decimal(n as nat),
        None => Seq::empty(),
    }
}

/// ` <keyword> <parts joined by sep>` when there are parts.
pub open spec fn list_clause(keyword: Seq<char>, parts: Seq<Seq<char>>, sep: Seq<char>) -> Seq<
    char,
> {
    if parts.len() > 0 {
        keyword + join(parts, sep)
    } else {
        Seq::empty()
    }
}

/// The SQL that a query builder produces.
pub open spec fn builder_sql(q: QueryBuilderView) -> Seq<char> {
    "SELECT "@ + join(q.select, ", "@) + " FROM "@ + q.table + list_clause(
        " WHERE "@,
        q.wheres,
        " AND "@,
    ) + list_clause(" ORDER BY "@, q.order, ", "@) + opt_clause(" LIMIT "@, q.limit)
        + opt_clause(" OFFSET "@, q.offset)
}

/// The clause `column = 'value'`, with the value escaped.
pub open spec fn eq_clause(column: Seq<char>, value: Seq<char>) -> Seq<char> {
    column + " = '"@ + sql_escaped(value) + "'"@
}

/// `column ASC` or, when `direction` is `desc` in any ASCII case, `column DESC`.
pub open spec fn order_clause(column: Seq<char>, direction: Seq<char>) -> Seq<char> {
    column + " "@ + if lower_seq(direction) == lower_seq("desc"@) {
        "DESC"@
    } else {
        "ASC"@
    }
}

/// Appends ` <keyword> <parts joined by sep>` when there are parts.
fn push_list_clause(sql: &mut String, keyword: &str, parts: &Vec<String>, sep: &str)
    ensures
        final(sql)@ == old(sql)@ + list_clause(keyword@, views(parts@), sep@),
{
    if parts.len() > 0 {
        push_str(sql, keyword);
        let joined = join_strings(parts, sep);
        push_str(sql, joined.as_str());
        proof {
            assert(old(sql)@ + keyword@ + joined@ =~= old(sql)@ + (keyword@ + joined@));
        }
    } else {
        assert(old(sql)@ + Seq::<char>::empty() =~= old(sql)@);
    }
}

/// Appends ` <keyword> n` when the value is present.
fn push_opt_clause(sql: &mut String, keyword: &str, v: Option<usize>)
    ensures
        final(sql)@ == old(sql)@ + opt_clause(keyword@, v),
{
    match v {
        Some(n) => {
            push_str(sql, keyword);
            let d = u64_to_string(n as u64);
            push_str(sql, d.as_str());
            proof {
                assert(old(sql)@ + keyword@ + d@ =~= old(sql)@ + (keyword@ + d@));
            }
        },
        None => {
            assert(old(sql)@ + Seq::<char>::empty() =~= old(sql)@);
        },
    }
}

/// Ordering, limit and offset only append to the SQL: a query's SQL is
/// the SQL of the same query without them, followed by ` ORDER BY` and the
/// orderings joined with `, `, ` LIMIT n` and ` OFFSET n` when present.
pub proof fn lemma_ordering_only_appends(q: QueryBuilderView)
    ensures
        builder_sql(q) == builder_sql(QueryBuilderView { order: Seq::empty(), limit: None, offset: None, ..q })
            + (if q.order.len() > 0 {
            " ORDER BY "@ + join(q.order, ", "@)
        } else {
            Seq::empty()
        }) + (match q.limit {
            Some(n) => " LIMIT "@ + decimal(n as nat),
            None => Seq::empty(),
        }) + (match q.offset {
            Some(n) => " OFFSET "@ + decimal(n as nat),
            None => Seq::empty(),
        }),
{
    let bare = QueryBuilderView { order: Seq::empty(), limit: None, offset: None, ..q };
    let head = "SELECT "@ + join(q.select, ", "@) + " FROM "@ + q.table + list_clause(
        " WHERE "@,
        q.wheres,
        " AND "@,
    );
    assert(builder_sql(bare) =~= head);
    assert(builder_sql(q) =~= head + list_clause(" ORDER BY "@, q.order, ", "@) + opt_clause(" LIMIT "@, q.limit)
        + opt_clause(" OFFSET "@, q.offset));
}

/// Conditions are joined with `AND`: adding `column = 'value'` to a query
/// without ordering, limit or offset appends ` WHERE ` and the condition to
/// its SQL when it had no condition yet, and ` AND ` and the condition when
/// it had one.
pub proof fn lemma_where_conditions_joined_with_and(q: QueryBuilderView, column: Seq<char>, value: Seq<char>)
    requires
        q.order.len() == 0,
        q.limit is None,
        q.offset is None,
    ensures
        builder_sql(QueryBuilderView { wheres: q.wheres.push(eq_clause(column, value)), ..q }) == builder_sql(q)
            + (if q.wheres.len() == 0 {
            " WHERE "@
        } else {
            " AND "@
        }) + column + " = '"@ + sql_escaped(value) + "'"@,
{
    let c = column + " = '"@ + sql_escaped(value) + "'"@;
    let w2 = q.wheres.push(c);
    assert(w2.drop_last() =~= q.wheres);
    assert(w2.last() == c);
    let head = "SELECT "@ + join(q.select, ", "@) + " FROM "@ + q.table;
    if q.wheres.len() == 0 {
        assert(join(w2, " AND "@) == c);
        assert(builder_sql(q) =~= head);
        assert(builder_sql(QueryBuilderView { wheres: w2, ..q }) =~= head + " WHERE "@ + c);
    } else {
        assert(join(w2, " AND "@) == join(q.wheres, " AND "@) + " AND "@ + c);
        assert(builder_sql(q) =~= head + " WHERE "@ + join(q.wheres, " AND "@));
        assert(builder_sql(QueryBuilderView { wheres: w2, ..q }) =~= head + " WHERE "@ + join(
            q.wheres,
            " AND "@,
        ) + " AND "@ + c);
    }
    assert(builder_sql(QueryBuilderView { wheres: w2, ..q }) =~= builder_sql(q) + (if q.wheres.len()
        == 0 {
        " WHERE "@
    } else {
        " AND "@
    }) + c);
    assert(c =~= column + " = '"@ + sql_escaped(value) + "'"@);
}

impl QueryBuilder {
    /// A builder selecting `*` from `table`.
    pub fn new(table: &str) -> (r: QueryBuilder)
        ensures
            r@.table == table@,
            r@.select == seq!["*"@],
            r@.wheres.len() == 0,
            r@.order.len() == 0,
            r@.limit is None,
            r@.offset is None,
    {
        let mut select_fields: Vec<String> = Vec::new();
        select_fields.push(owned("*"));
        let r = QueryBuilder {
            table: owned(table),
            select_fields,
            where_clauses: Vec::new(),
            order_by: Vec::new(),
            limit: None,
            offset: None,
        };
        assert(views(r.select_fields@) =~= seq!["*"@]);
        r
    }

    /// Selects exactly the given fields.
    pub fn select(self, fields: &[&str]) -> (r: QueryBuilder)
        ensures
            r@.select == fields@.map_values(|f: &str| f@),
            r@.table == self@.table,
            r@.wheres == self@.wheres,
            r@.order == self@.order,
            r@.limit == self@.limit,
            r@.offset == self@.offset,
    {
        let mut projected: Vec<String> = Vec::new();
        let mut i: usize = 0;
        while i < fields.len()
            invariant
                i <= fields@.len(),
                views(projected@) == fields@.take(i as int).map_values(|f: &str| f@),
            decreases fields.len() - i,
        {
            projected.push(owned(fields[i]));
            proof {
                assert(fields@.take(i + 1).map_values(|f: &str| f@) =~= fields@.take(
                    i as int,
                ).map_values(|f: &str| f@).push(fields@[i as int]@));
                assert(views(projected@) =~= views(projected@.drop_last()).push(
                    projected@.last()@,
                ));
            }
            i = i + 1;
        }
        assert(fields@.take(fields@.len() as int) =~= fields@);
        QueryBuilder { select_fields: projected, ..self }
    }

    /// Adds the condition `column = 'value'` with the value escaped.
    pub fn where_eq(self, column: &str, value: &str) -> (r: QueryBuilder)
        ensures
            r@.wheres == self@.wheres.push(eq_clause(column@, value@)),
            r@.table == self@.table,
            r@.select == self@.select,
            r@.order == self@.order,
            r@.limit == self@.limit,
            r@.offset == self@.offset,
    {
        let mut clause = owned(column);
        push_str(&mut clause, " = '");
        let esc = escape_sql_literal(value);
        push_str(&mut clause, esc.as_str());
        push_str(&mut clause, "'");
        let mut w = self.where_clauses;
        let ghost before = views(w@);
        w.push(clause);
        proof {
            assert(views(w@) =~= before.push(clause@));
        }
        QueryBuilder { where_clauses: w, ..self }
    }

    /// Orders by `column`, descending when `direction` is `desc` in any ASCII
    /// case and ascending otherwise.
    pub fn order_by(self, column: &str, direction: &str) -> (r: QueryBuilder)
        ensures
            r@.order == self@.order.push(order_clause(column@, direction@)),
            r@.table == self@.table,
            r@.select == self@.select,
            r@.wheres == self@.wheres,
            r@.limit == self@.limit,
            r@.offset == self@.offset,
    {
        let desc = eq_ignore_ascii_case(direction, "desc");
        let mut clause = owned(column);
        push_str(&mut clause, " ");
        if desc {
            push_str(&mut clause, "DESC");
        } else {
            push_str(&mut clause, "ASC");
        }
        let mut o = self.order_by;
        let ghost before = views(o@);
        o.push(clause);
        proof {
            assert(views(o@) =~= before.push(clause@));
        }
        QueryBuilder { order_by: o, ..self }
    }

    pub fn limit(self, limit: usize) -> (r: QueryBuilder)
        ensures
            r@.limit == Some(limit),
            r@.table == self@.table,
            r@.select == self@.select,
            r@.wheres == self@.wheres,
            r@.order == self@.order,
            r@.offset == self@.offset,
    {
        QueryBuilder { limit: Some(limit), ..self }
    }

    pub fn offset(self, offset: usize) -> (r: QueryBuilder)
        ensures
            r@.offset == Some(offset),
            r@.table == self@.table,
            r@.select == self@.select,
            r@.wheres == self@.wheres,
            r@.order == self@.order,
            r@.limit == self@.limit,
    {
        QueryBuilder { offset: Some(offset), ..self }
    }

    /// The SELECT statement.
    pub fn build(&self) -> (r: String)
        ensures
            r@ == builder_sql(self@),
    {
        let mut q = owned("SELECT ");
        let sel = join_strings(&self.select_fields, ", ");
        push_str(&mut q, sel.as_str());
        push_str(&mut q, " FROM ");
        push_str(&mut q, self.table.as_str());
        push_list_clause(&mut q, " WHERE ", &self.where_clauses, " AND ");
        push_list_clause(&mut q, " ORDER BY ", &self.order_by, ", ");
        push_opt_clause(&mut q, " LIMIT ", self.limit);
        push_opt_clause(&mut q, " OFFSET ", self.offset);
        q
    }
}

} // verus!
