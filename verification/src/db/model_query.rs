//! The typed model query: validated identifiers, soft-delete filtering,
//! filters with bound values, ordering and pagination.
use vstd::prelude::*;
use crate::text::{join, join_strings, owned, push_str, starts_with, views};
use crate::db::query::{
    is_identifier, is_valid_identifier, list_clause, opt_clause, Pagination, OrmError,
};

verus! {

/// Sort direction of an ORDER BY column.
#[derive(Clone, Copy, PartialEq, Eq, Debug)]
pub enum SortDirection {
    Asc,
    Desc,
}

pub open spec fn direction_sql(d: SortDirection) -> Seq<char> {
    match d {
        SortDirection::Asc => "ASC"@,
        SortDirection::Desc => "DESC"@,
    }
}

impl SortDirection {
    /// `ASC` or `DESC`.
    pub fn as_sql(self) -> (r: &'static str)
        ensures
            r@ == direction_sql(self),
    {
        match self {
            SortDirection::Asc => "ASC",
            SortDirection::Desc => "DESC",
        }
    }
}

/// A value bound to a `?` placeholder.  A floating-point value is carried as
/// its IEEE-754 bit pattern.
#[derive(Debug)]
pub enum QueryValue {
    I64(i64),
    String(String),
    Bool(bool),
    F64Bits(u64),
    Uuid(String),
    DateTimeUtc(i64),
    Json(String),
}

/// A bound value with its text as characters.
pub enum QueryValueView {
    I64(i64),
    String(Seq<char>),
    Bool(bool),
    F64Bits(u64),
    Uuid(Seq<char>),
    DateTimeUtc(i64),
    Json(Seq<char>),
}

impl View for QueryValue {
    type V = QueryValueView;

    open spec fn view(&self) -> QueryValueView {
        match self {
            QueryValue::I64(v) => QueryValueView::I64(*v),
            QueryValue::String(s) => QueryValueView::String(s@),
            QueryValue::Bool(b) => QueryValueView::Bool(*b),
            QueryValue::F64Bits(b) => QueryValueView::F64Bits(*b),
            QueryValue::Uuid(s) => QueryValueView::Uuid(s@),
            QueryValue::DateTimeUtc(t) => QueryValueView::DateTimeUtc(*t),
            QueryValue::Json(s) => QueryValueView::Json(s@),
        }
    }
}

impl QueryValue {
    /// A text value.
    pub fn text(s: &str) -> (r: QueryValue)
        ensures
            r@ == QueryValueView::String(s@),
    {
        QueryValue::String(owned(s))
    }

    /// A copy of the value.
    pub fn duplicate(&self) -> (r: QueryValue)
        ensures
            r@ == self@,
    {
        match self {
            QueryValue::I64(v) => QueryValue::I64(*v),
            QueryValue::String(s) => QueryValue::String(s.clone()),
            QueryValue::Bool(b) => QueryValue::Bool(*b),
            QueryValue::F64Bits(b) => QueryValue::F64Bits(*b),
            QueryValue::Uuid(s) => QueryValue::Uuid(s.clone()),
            QueryValue::DateTimeUtc(t) => QueryValue::DateTimeUtc(*t),
            QueryValue::Json(s) => QueryValue::Json(s.clone()),
        }
    }
}

/// A WHERE condition of a model query.
#[derive(Debug)]
#[allow(inconsistent_fields)]
pub enum Filter {
    Eq { column: String, value: QueryValue },
    Like { column: String, value: String },
    IsNull { column: String },
    IsNotNull { column: String },
}

#[allow(inconsistent_fields)]
pub enum FilterView {
    Eq { column: Seq<char>, value: QueryValueView },
    Like { column: Seq<char>, value: Seq<char> },
    IsNull { column: Seq<char> },
    IsNotNull { column: Seq<char> },
}

impl View for Filter {
    type V = FilterView;

    open spec fn view(&self) -> FilterView {
        match self {
            Filter::Eq { column, value } => FilterView::Eq { column: column@, value: value@ },
            Filter::Like { column, value } => FilterView::Like { column: column@, value: value@ },
            Filter::IsNull { column } => FilterView::IsNull { column: column@ },
            Filter::IsNotNull { column } => FilterView::IsNotNull { column: column@ },
        }
    }
}

/// The SQL condition of a filter.
pub open spec fn filter_clause(f: FilterView) -> Seq<char> {
    match f {
        FilterView::Eq { column, value } => column + " = ?"@,
        FilterView::Like { column, value } => column + " LIKE ?"@,
        FilterView::IsNull { column } => column + " IS NULL"@,
        FilterView::IsNotNull { column } => column + " IS NOT NULL"@,
    }
}

/// The values that the filters bind, in order.
pub open spec fn filter_binds(fs: Seq<FilterView>) -> Seq<QueryValueView>
    decreases fs.len(),
{
    if fs.len() == 0 {
        Seq::empty()
    } else {
        let prev = filter_binds(fs.drop_last());
        match fs.last() {
            FilterView::Eq { column, value } => prev.push(value),
            FilterView::Like { column, value } => prev.push(QueryValueView::String(value)),
            _ => prev,
        }
    }
}

/// A typed SELECT over one model's table.
#[derive(Debug)]
pub struct ModelQuery {
    table_name: String,
    has_soft_delete: bool,
    select_fields: Vec<String>,
    filters: Vec<Filter>,
    order_by: Vec<(String, SortDirection)>,
    limit: Option<usize>,
    offset: Option<usize>,
    include_soft_deleted: bool,
    build_error: Option<OrmError>,
}

pub struct ModelQueryView {
    pub table: Seq<char>,
    pub soft_delete: bool,
    pub select: Seq<Seq<char>>,
    pub filters: Seq<FilterView>,
    pub order: Seq<(Seq<char>, SortDirection)>,
    pub limit: Option<usize>,
    pub offset: Option<usize>,
    pub include_deleted: bool,
    pub error: Option<OrmError>,
}

impl View for ModelQuery {
    type V = ModelQueryView;

    closed spec fn view(&self) -> ModelQueryView {
        ModelQueryView {
            table: self.table_name@,
            soft_delete: self.has_soft_delete,
            select: views(self.select_fields@),
            filters: self.filters@.map_values(|f: Filter| f@),
            order: self.order_by@.map_values(|p: (String, SortDirection)| (p.0@, p.1)),
            limit: self.limit,
            offset: self.offset,
            include_deleted: self.include_soft_deleted,
            error: self.build_error,
        }
    }
}

/// The ORDER BY items of a query.
pub open spec fn order_items(o: Seq<(Seq<char>, SortDirection)>) -> Seq<Seq<char>> {
    o.map_values(|p: (Seq<char>, SortDirection)| p.0 + " "@ + direction_sql(p.1))
}

/// The WHERE conditions: the soft-delete guard first, then the filters.
pub open spec fn query_clauses(q: ModelQueryView) -> Seq<Seq<char>> {
    let guard: Seq<Seq<char>> = if q.soft_delete && !q.include_deleted {
        seq!["deleted_at IS NULL"@]
    } else {
        Seq::empty()
    };
    guard + q.filters.map_values(|f: FilterView| filter_clause(f))
}

/// The SQL text of a query; a counting query selects `COUNT(*) as count`
/// and has no ORDER BY, LIMIT or OFFSET.
pub open spec fn query_sql(q: ModelQueryView, count_only: bool) -> Seq<char> {
    let select = if count_only {
        "COUNT(*) as count"@
    } else {
        join(q.select, ", "@)
    };
    let base = "SELECT "@ + select + " FROM "@ + q.table + list_clause(
        " WHERE "@,
        query_clauses(q),
        " AND "@,
    );
    if count_only {
        base
    } else {
        base + list_clause(" ORDER BY "@, order_items(q.order), ", "@) + opt_clause(
            " LIMIT "@,
            q.limit,
        ) + opt_clause(" OFFSET "@, q.offset)
    }
}

/// Joined parts start with the first part.
proof fn lemma_join_head(parts: Seq<Seq<char>>, sep: Seq<char>) -> (y: Seq<char>)
    requires
        parts.len() > 0,
    ensures
        join(parts, sep) == parts[0] + y,
    decreases parts.len(),
{
    if parts.len() == 1 {
        assert(parts[0] + Seq::<char>::empty() =~= parts[0]);
        Seq::empty()
    } else {
        let y0 = lemma_join_head(parts.drop_last(), sep);
        assert(parts.drop_last()[0] == parts[0]);
        let y = y0 + sep + parts.last();
        assert(join(parts, sep) =~= parts[0] + y);
        y
    }
}

/// The text of a query up to its table: `SELECT`, the selection (or the
/// count) and `FROM` the table.
pub open spec fn select_head(q: ModelQueryView, count_only: bool) -> Seq<char> {
    "SELECT "@ + (if count_only {
        "COUNT(*) as count"@
    } else {
        join(q.select, ", "@)
    }) + " FROM "@ + q.table
}

/// Counting keeps the conditions: the counting SQL is its head followed by
/// exactly the text that follows the table in the full SQL, before the
/// ordering, limit and offset.
pub proof fn lemma_count_keeps_conditions(q: ModelQueryView)
    ensures
        exists|w: Seq<char>, tail: Seq<char>|
            query_sql(q, true) == select_head(q, true) + w && query_sql(q, false) == select_head(q, false)
                + w + tail,
{
    let w = list_clause(" WHERE "@, query_clauses(q), " AND "@);
    let tail = list_clause(" ORDER BY "@, order_items(q.order), ", "@) + opt_clause(" LIMIT "@, q.limit)
        + opt_clause(" OFFSET "@, q.offset);
    assert(query_sql(q, true) =~= select_head(q, true) + w);
    assert(query_sql(q, false) =~= select_head(q, false) + w + tail);
}

/// On a model with soft deletes whose deleted rows are not included, every
/// built query, counting or not, starts its conditions with
/// `deleted_at IS NULL`.
pub proof fn lemma_soft_delete_guard_always_first(q: ModelQueryView, count_only: bool)
    requires
        q.soft_delete,
        !q.include_deleted,
    ensures
        starts_with(query_sql(q, count_only), select_head(q, count_only) + " WHERE "@ + "deleted_at IS NULL"@),
{
    let clauses = query_clauses(q);
    assert(clauses[0] == "deleted_at IS NULL"@);
    let y = lemma_join_head(clauses, " AND "@);
    assert(list_clause(" WHERE "@, clauses, " AND "@) == " WHERE "@ + join(clauses, " AND "@));
    let p = select_head(q, count_only) + " WHERE "@ + "deleted_at IS NULL"@;
    let rest = if count_only {
        Seq::<char>::empty()
    } else {
        list_clause(" ORDER BY "@, order_items(q.order), ", "@) + opt_clause(" LIMIT "@, q.limit)
            + opt_clause(" OFFSET "@, q.offset)
    };
    assert(query_sql(q, count_only) =~= p + (y + rest));
    assert(query_sql(q, count_only).take(p.len() as int) =~= p);
}

/// Without the soft-delete guard and without filters, a count has no
/// conditions: it is just `SELECT COUNT(*) as count FROM` the table.
pub proof fn lemma_unfiltered_count(q: ModelQueryView)
    requires
        !(q.soft_delete && !q.include_deleted),
        q.filters.len() == 0,
    ensures
        query_sql(q, true) == select_head(q, true),
{
    assert(query_clauses(q) =~= Seq::<Seq<char>>::empty());
    assert(query_sql(q, true) =~= select_head(q, true));
}

/// Everything of `a` but the listed field is as in `b`.
pub open spec fn same_except_filters(a: ModelQueryView, b: ModelQueryView) -> bool {
    &&& a.table == b.table
    &&& a.soft_delete == b.soft_delete
    &&& a.select == b.select
    &&& a.order == b.order
    &&& a.limit == b.limit
    &&& a.offset == b.offset
    &&& a.include_deleted == b.include_deleted
}

/// The state after a builder call refused `column` as an identifier.
pub open spec fn refused_column(before: ModelQueryView, after: ModelQueryView, column: Seq<char>) -> bool {
    &&& same_except_filters(after, before)
    &&& after.filters == before.filters
    &&& after.error matches Some(OrmError::InvalidIdentifier { kind, value }) && kind == "column"
        && value@ == column
}

/// What of a builder call decides whether it is refused: the fields of
/// `select`, the column of a filter or of `order_by`, or nothing (`limit`,
/// `offset`, `paginate`, `with_deleted`).
pub enum QueryStep {
    Select(Seq<Seq<char>>),
    Column(Seq<char>),
    Other,
}

/// A call is refused when it selects no fields, or names a field or column
/// that is not an identifier.
pub open spec fn step_refuses(step: QueryStep) -> bool {
    match step {
        QueryStep::Select(fields) => fields.len() == 0 || exists|i: int|
            0 <= i < fields.len() && !is_identifier(#[trigger] fields[i]),
        QueryStep::Column(c) => !is_identifier(c),
        QueryStep::Other => false,
    }
}

/// A builder call keeps the table; a refused call records an error, any
/// other keeps the error (or its absence) as it was.
pub open spec fn records(before: ModelQueryView, after: ModelQueryView, step: QueryStep) -> bool {
    &&& after.table == before.table
    &&& if step_refuses(step) {
        after.error is Some
    } else {
        after.error == before.error
    }
}

/// `qs` are the states of a query through the calls `steps`, one call
/// between each two states.
pub open spec fn builder_chain(qs: Seq<ModelQueryView>, steps: Seq<QueryStep>) -> bool {
    &&& qs.len() == steps.len() + 1
    &&& forall|i: int| 0 <= i < steps.len() ==> records(#[trigger] qs[i], qs[i + 1], steps[i])
}

/// A query built from a fresh one by any chain of builder calls holds an
/// error exactly when some call in the chain was refused, and keeps its
/// table; so building its SQL fails exactly when a call was refused or the
/// table name is not an identifier.
pub proof fn lemma_chain_error_iff_refused(qs: Seq<ModelQueryView>, steps: Seq<QueryStep>)
    requires
        builder_chain(qs, steps),
        qs[0].error is None,
    ensures
        qs.last().table == qs[0].table,
        qs.last().error is Some <==> exists|i: int| 0 <= i < steps.len() && step_refuses(#[trigger] steps[i]),
    decreases steps.len(),
{
    if steps.len() > 0 {
        let n = steps.len() - 1;
        let qs0 = qs.drop_last();
        let st0 = steps.drop_last();
        assert forall|i: int| 0 <= i < st0.len() implies records(#[trigger] qs0[i], qs0[i + 1], st0[i]) by {
            assert(records(qs[i], qs[i + 1], steps[i]));
        }
        lemma_chain_error_iff_refused(qs0, st0);
        assert(records(qs[n], qs[n + 1], steps[n]));
        assert(qs0.last() == qs[n]);
        if qs.last().error is Some && !step_refuses(steps[n]) {
            let i = choose|i: int| 0 <= i < st0.len() && step_refuses(#[trigger] st0[i]);
            assert(steps[i] == st0[i]);
        }
        if exists|i: int| 0 <= i < steps.len() && step_refuses(#[trigger] steps[i]) {
            let i = choose|i: int| 0 <= i < steps.len() && step_refuses(#[trigger] steps[i]);
            if i < n {
                assert(st0[i] == steps[i]);
            }
        }
    }
}

impl ModelQuery {
    /// A query over `table_name` selecting `*`; rows whose `deleted_at` is set
    /// are left out when the model has soft deletes.
    pub fn new(table_name: &str, has_soft_delete: bool) -> (r: ModelQuery)
        ensures
            r@.table == table_name@,
            r@.soft_delete == has_soft_delete,
            r@.select == seq!["*"@],
            r@.filters.len() == 0,
            r@.order.len() == 0,
            r@.limit is None,
            r@.offset is None,
            !r@.include_deleted,
            r@.error is None,
    {
        let mut select_fields: Vec<String> = Vec::new();
        select_fields.push(owned("*"));
        let r = ModelQuery {
            table_name: owned(table_name),
            has_soft_delete,
            select_fields,
            filters: Vec::new(),
            order_by: Vec::new(),
            limit: None,
            offset: None,
            include_soft_deleted: false,
            build_error: None,
        };
        assert(r@.select =~= seq!["*"@]);
        assert(r@.filters =~= Seq::<FilterView>::empty());
        assert(r@.order =~= Seq::<(Seq<char>, SortDirection)>::empty());
        r
    }

    /// Selects the given columns.  An empty list, or a name that is not an
    /// identifier (the first such name), is recorded as the query's error and
    /// leaves the selection unchanged.
    pub fn select(self, fields: &[&str]) -> (r: ModelQuery)
        ensures
            r@.table == self@.table,
            r@.soft_delete == self@.soft_delete,
            r@.filters == self@.filters,
            r@.order == self@.order,
            r@.limit == self@.limit,
            r@.offset == self@.offset,
            r@.include_deleted == self@.include_deleted,
            fields@.len() == 0 ==> r@.select == self@.select && r@.error == Some(
                OrmError::InvalidPagination("select fields cannot be empty"),
            ),
            fields@.len() > 0 && (forall|i: int| 0 <= i < fields@.len() ==> is_identifier(
                #[trigger] fields@[i]@,
            )) ==> r@.select == fields@.map_values(|f: &str| f@) && r@.error == self@.error,
            fields@.len() > 0 && !(forall|i: int| 0 <= i < fields@.len() ==> is_identifier(
                #[trigger] fields@[i]@,
            )) ==> r@.select == self@.select && exists|i: int|
                0 <= i < fields@.len() && !is_identifier(#[trigger] fields@[i]@) && (forall|j: int|
                    0 <= j < i ==> is_identifier(#[trigger] fields@[j]@)) && (r@.error matches Some(
                    OrmError::InvalidIdentifier { kind, value },
                ) && kind == "column" && value@ == fields@[i]@),
            records(self@, r@, QueryStep::Select(fields@.map_values(|f: &str| f@))),
    {
        if fields.len() == 0 {
            return ModelQuery {
                build_error: Some(OrmError::InvalidPagination("select fields cannot be empty")),
                ..self
            };
        }
        let mut projected: Vec<String> = Vec::new();
        let mut i: usize = 0;
        while i < fields.len()
            invariant
                i <= fields@.len(),
                views(projected@) == fields@.take(i as int).map_values(|f: &str| f@),
                forall|j: int| 0 <= j < i ==> is_identifier(#[trigger] fields@[j]@),
            decreases fields.len() - i,
        {
            let field = fields[i];
            if !is_valid_identifier(field) {
                let r = ModelQuery {
                    build_error: Some(
                        OrmError::InvalidIdentifier { kind: "column", value: owned(field) },
                    ),
                    ..self
                };
                assert(!is_identifier(fields@[i as int]@));
                assert(fields@.map_values(|f: &str| f@)[i as int] == fields@[i as int]@);
                return r;
            }
            projected.push(owned(field));
            proof {
                assert(fields@.take(i + 1).map_values(|f: &str| f@) =~= fields@.take(
                    i as int,
                ).map_values(|f: &str| f@).push(fields@[i as int]@));
                assert(views(projected@) =~= views(projected@.drop_last()).push(
                    projected@.last()@,
                ));
            }
            i = i + 1;
        }
        assert(fields@.take(fields@.len() as int) =~= fields@);
        ModelQuery { select_fields: projected, ..self }
    }

    fn push_filter(self, column: &str, filter: Filter) -> (r: ModelQuery)
        ensures
            same_except_filters(r@, self@),
            is_identifier(column@) ==> r@.filters == self@.filters.push(filter@) && r@.error
                == self@.error,
            !is_identifier(column@) ==> refused_column(self@, r@, column@),
    {
        if !is_valid_identifier(column) {
            return ModelQuery {
                build_error: Some(OrmError::InvalidIdentifier { kind: "column", value: owned(column) }),
                ..self
            };
        }
        let mut fs = self.filters;
        let ghost before = fs@.map_values(|f: Filter| f@);
        fs.push(filter);
        proof {
            assert(fs@.map_values(|f: Filter| f@) =~= before.push(filter@));
        }
        ModelQuery { filters: fs, ..self }
    }

    /// Adds `column = ?` bound to `value`.
    pub fn filter_eq(self, column: &str, value: QueryValue) -> (r: ModelQuery)
        ensures
            same_except_filters(r@, self@),
            is_identifier(column@) ==> r@.filters == self@.filters.push(
                FilterView::Eq { column: column@, value: value@ },
            ) && r@.error == self@.error,
            !is_identifier(column@) ==> refused_column(self@, r@, column@),
            records(self@, r@, QueryStep::Column(column@)),
    {
        let f = Filter::Eq { column: owned(column), value };
        self.push_filter(column, f)
    }

    /// Adds `column LIKE ?` bound to `value`.
    pub fn filter_like(self, column: &str, value: &str) -> (r: ModelQuery)
        ensures
            same_except_filters(r@, self@),
            is_identifier(column@) ==> r@.filters == self@.filters.push(
                FilterView::Like { column: column@, value: value@ },
            ) && r@.error == self@.error,
            !is_identifier(column@) ==> refused_column(self@, r@, column@),
            records(self@, r@, QueryStep::Column(column@)),
    {
        let f = Filter::Like { column: owned(column), value: owned(value) };
        self.push_filter(column, f)
    }

    /// Adds `column IS NULL`.
    pub fn filter_is_null(self, column: &str) -> (r: ModelQuery)
        ensures
            same_except_filters(r@, self@),
            is_identifier(column@) ==> r@.filters == self@.filters.push(
                FilterView::IsNull { column: column@ },
            ) && r@.error == self@.error,
            !is_identifier(column@) ==> refused_column(self@, r@, column@),
            records(self@, r@, QueryStep::Column(column@)),
    {
        let f = Filter::IsNull { column: owned(column) };
        self.push_filter(column, f)
    }

    /// Adds `column IS NOT NULL`.
    pub fn filter_is_not_null(self, column: &str) -> (r: ModelQuery)
        ensures
            same_except_filters(r@, self@),
            is_identifier(column@) ==> r@.filters == self@.filters.push(
                FilterView::IsNotNull { column: column@ },
            ) && r@.error == self@.error,
            !is_identifier(column@) ==> refused_column(self@, r@, column@),
            records(self@, r@, QueryStep::Column(column@)),
    {
        let f = Filter::IsNotNull { column: owned(column) };
        self.push_filter(column, f)
    }

    /// Adds an ORDER BY column.
    pub fn order_by(self, column: &str, direction: SortDirection) -> (r: ModelQuery)
        ensures
            r@.table == self@.table,
            r@.soft_delete == self@.soft_delete,
            r@.select == self@.select,
            r@.filters == self@.filters,
            r@.limit == self@.limit,
            r@.offset == self@.offset,
            r@.include_deleted == self@.include_deleted,
            is_identifier(column@) ==> r@.order == self@.order.push((column@, direction))
                && r@.error == self@.error,
            !is_identifier(column@) ==> r@.order == self@.order && (r@.error matches Some(
                OrmError::InvalidIdentifier { kind, value },
            ) && kind == "column" && value@ == column@),
            records(self@, r@, QueryStep::Column(column@)),
    {
        if !is_valid_identifier(column) {
            return ModelQuery {
                build_error: Some(OrmError::InvalidIdentifier { kind: "column", value: owned(column) }),
                ..self
            };
        }
        let mut o = self.order_by;
        let ghost before = o@.map_values(|p: (String, SortDirection)| (p.0@, p.1));
        o.push((owned(column), direction));
        proof {
            assert(o@.map_values(|p: (String, SortDirection)| (p.0@, p.1)) =~= before.push(
                (column@, direction),
            ));
        }
        ModelQuery { order_by: o, ..self }
    }

    pub fn limit(self, limit: usize) -> (r: ModelQuery)
        ensures
            r@ == (ModelQueryView { limit: Some(limit), ..self@ }),
            records(self@, r@, QueryStep::Other),
    {
        ModelQuery { limit: Some(limit), ..self }
    }

    pub fn offset(self, offset: usize) -> (r: ModelQuery)
        ensures
            r@ == (ModelQueryView { offset: Some(offset), ..self@ }),
            records(self@, r@, QueryStep::Other),
    {
        ModelQuery { offset: Some(offset), ..self }
    }

    /// Limit and offset from a pagination window.
    pub fn paginate(self, pagination: Pagination) -> (r: ModelQuery)
        ensures
            r@ == (ModelQueryView {
                limit: Some(pagination.limit),
                offset: Some(pagination.offset),
                ..self@
            }),
            records(self@, r@, QueryStep::Other),
    {
        ModelQuery { limit: Some(pagination.limit), offset: Some(pagination.offset), ..self }
    }

    /// Includes soft-deleted rows.
    pub fn with_deleted(self) -> (r: ModelQuery)
        ensures
            r@ == (ModelQueryView { include_deleted: true, ..self@ }),
            records(self@, r@, QueryStep::Other),
    {
        ModelQuery { include_soft_deleted: true, ..self }
    }

    /// The SQL text and the bound values, or the error the query recorded, or
    /// an error when the table name is not an identifier.
    pub fn build_sql(&self, count_only: bool) -> (r: Result<(String, Vec<QueryValue>), OrmError>)
        ensures
            r is Err <==> (self@.error is Some || !is_identifier(self@.table)),
            self@.error is Some ==> r == Err::<(String, Vec<QueryValue>), OrmError>(
                self@.error->Some_0,
            ),
            self@.error is None && !is_identifier(self@.table) ==> (r matches Err(
                OrmError::InvalidIdentifier { kind, value },
            ) && kind == "table name" && value@ == self@.table),
            self@.error is None && is_identifier(self@.table) ==> (r matches Ok((sql, binds))
                && sql@ == query_sql(self@, count_only) && binds@.map_values(|b: QueryValue| b@)
                == filter_binds(self@.filters)),
    {
        match &self.build_error {
            Some(e) => {
                return Err(clone_error(e));
            },
            None => {},
        }
        if !is_valid_identifier(self.table_name.as_str()) {
            return Err(
                OrmError::InvalidIdentifier {
                    kind: "table name",
                    value: self.table_name.clone(),
                },
            );
        }
        let mut sql = owned("SELECT ");
        if count_only {
            push_str(&mut sql, "COUNT(*) as count");
        } else {
            let sel = join_strings(&self.select_fields, ", ");
            push_str(&mut sql, sel.as_str());
        }
        push_str(&mut sql, " FROM ");
        push_str(&mut sql, self.table_name.as_str());

        let mut clauses: Vec<String> = Vec::new();
        let mut binds: Vec<QueryValue> = Vec::new();
        if self.has_soft_delete && !self.include_soft_deleted {
            clauses.push(owned("deleted_at IS NULL"));
        }
        let ghost guard = views(clauses@);
        let ghost fv = self.filters@.map_values(|f: Filter| f@);
        let mut i: usize = 0;
        while i < self.filters.len()
            invariant
                i <= self.filters@.len(),
                fv == self.filters@.map_values(|f: Filter| f@),
                views(clauses@) == guard + fv.take(i as int).map_values(
                    |f: FilterView| filter_clause(f),
                ),
                binds@.map_values(|b: QueryValue| b@) == filter_binds(fv.take(i as int)),
            decreases self.filters.len() - i,
        {
            let ghost cl_before = views(clauses@);
            let ghost b_before = binds@.map_values(|b: QueryValue| b@);
            proof {
                assert(fv.take(i + 1).drop_last() =~= fv.take(i as int));
                assert(fv.take(i + 1).last() == self.filters@[i as int]@);
                assert(fv.take(i + 1).map_values(|f: FilterView| filter_clause(f)) =~= fv.take(
                    i as int,
                ).map_values(|f: FilterView| filter_clause(f)).push(
                    filter_clause(self.filters@[i as int]@),
                ));
            }
            match &self.filters[i] {
                Filter::Eq { column, value } => {
                    let mut c = column.clone();
                    push_str(&mut c, " = ?");
                    clauses.push(c);
                    binds.push(value.duplicate());
                },
                Filter::Like { column, value } => {
                    let mut c = column.clone();
                    push_str(&mut c, " LIKE ?");
                    clauses.push(c);
                    binds.push(QueryValue::String(value.clone()));
                },
                Filter::IsNull { column } => {
                    let mut c = column.clone();
                    push_str(&mut c, " IS NULL");
                    clauses.push(c);
                },
                Filter::IsNotNull { column } => {
                    let mut c = column.clone();
                    push_str(&mut c, " IS NOT NULL");
                    clauses.push(c);
                },
            }
            proof {
                assert(views(clauses@) =~= cl_before.push(clauses@.last()@));
                assert(binds@.map_values(|b: QueryValue| b@) =~= filter_binds(
                    fv.take(i + 1),
                ));
                assert(views(clauses@) =~= guard + fv.take(i + 1).map_values(
                    |f: FilterView| filter_clause(f),
                ));
            }
            i = i + 1;
        }
        proof {
            assert(fv.take(i as int) =~= fv);
            assert(views(clauses@) =~= query_clauses(self@));
        }
        push_where(&mut sql, &clauses);
        if !count_only {
            let mut items: Vec<String> = Vec::new();
            let ghost ov = self.order_by@.map_values(|p: (String, SortDirection)| (p.0@, p.1));
            let mut k: usize = 0;
            while k < self.order_by.len()
                invariant
                    k <= self.order_by@.len(),
                    ov == self.order_by@.map_values(|p: (String, SortDirection)| (p.0@, p.1)),
                    views(items@) == order_items(ov.take(k as int)),
                decreases self.order_by.len() - k,
            {
                let (col, dir) = &self.order_by[k];
                let mut item = col.clone();
                push_str(&mut item, " ");
                push_str(&mut item, dir.as_sql());
                let ghost before = views(items@);
                items.push(item);
                proof {
                    assert(order_items(ov.take(k + 1)) =~= order_items(ov.take(k as int)).push(
                        ov[k as int].0 + " "@ + direction_sql(ov[k as int].1),
                    ));
                    assert(views(items@) =~= before.push(item@));
                }
                k = k + 1;
            }
            proof {
                assert(ov.take(k as int) =~= ov);
            }
            push_order(&mut sql, &items);
            push_limit(&mut sql, " LIMIT ", self.limit);
            push_limit(&mut sql, " OFFSET ", self.offset);
        }
        Ok((sql, binds))
    }
}

fn clone_error(e: &OrmError) -> (r: OrmError)
    ensures
        r == *e,
{
    match e {
        OrmError::InvalidIdentifier { kind, value } => OrmError::InvalidIdentifier {
            kind: *kind,
            value: value.clone(),
        },
        OrmError::InvalidPagination(m) => OrmError::InvalidPagination(*m),
        OrmError::Database(m) => OrmError::Database(m.clone()),
        OrmError::Validation(m) => OrmError::Validation(m.clone()),
        OrmError::NotFound { model, id } => OrmError::NotFound { model: *model, id: *id },
    }
}

fn push_where(sql: &mut String, clauses: &Vec<String>)
    ensures
        final(sql)@ == old(sql)@ + list_clause(" WHERE "@, views(clauses@), " AND "@),
{
    if clauses.len() > 0 {
        push_str(sql, " WHERE ");
        let j = join_strings(clauses, " AND ");
        push_str(sql, j.as_str());
        assert(old(sql)@ + " WHERE "@ + j@ =~= old(sql)@ + (" WHERE "@ + j@));
    } else {
        assert(old(sql)@ + Seq::<char>::empty() =~= old(sql)@);
    }
}

fn push_order(sql: &mut String, items: &Vec<String>)
    ensures
        final(sql)@ == old(sql)@ + list_clause(" ORDER BY "@, views(items@), ", "@),
{
    if items.len() > 0 {
        push_str(sql, " ORDER BY ");
        let j = join_strings(items, ", ");
        push_str(sql, j.as_str());
        assert(old(sql)@ + " ORDER BY "@ + j@ =~= old(sql)@ + (" ORDER BY "@ + j@));
    } else {
        assert(old(sql)@ + Seq::<char>::empty() =~= old(sql)@);
    }
}

fn push_limit(sql: &mut String, keyword: &str, v: Option<usize>)
    ensures
        final(sql)@ == old(sql)@ + opt_clause(keyword@, v),
{
    match v {
        Some(n) => {
            push_str(sql, keyword);
            let d = crate::text::u64_to_string(n as u64);
            push_str(sql, d.as_str());
            assert(old(sql)@ + keyword@ + d@ =~= old(sql)@ + (keyword@ + d@));
        },
        None => {
            assert(old(sql)@ + Seq::<char>::empty() =~= old(sql)@);
        },
    }
}

} // verus!
