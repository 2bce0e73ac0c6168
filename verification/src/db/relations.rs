//! Relationships between models: the queries that load related rows and
//! how loaded rows are grouped by their parent.
use vstd::prelude::*;
use std::marker::PhantomData;
use crate::db::query::{is_identifier, is_valid_identifier};
use crate::text::{concat, join, owned, push_str};

verus! {

/// A foreign key that is not a plain identifier.
#[derive(Debug)]
pub enum RelationError {
    InvalidForeignKey(String),
}

impl RelationError {
    pub fn message(&self) -> (r: String)
        ensures
            match self {
                RelationError::InvalidForeignKey(k) => r@ == "invalid foreign key identifier `"@ + k@
                    + "`"@,
            },
    {
        match self {
            RelationError::InvalidForeignKey(k) => {
                let mut r = concat("invalid foreign key identifier `", k.as_str());
                push_str(&mut r, "`");
                r
            },
        }
    }
}

/// The query that loads the children of one parent.
pub open spec fn children_sql(table: Seq<char>, foreign_key: Seq<char>) -> Seq<char> {
    "SELECT * FROM "@ + table + " WHERE "@ + foreign_key + " = ?"@
}

/// `n` placeholders `?`, separated by `, `.
pub open spec fn placeholders(n: nat) -> Seq<char> {
    join(Seq::new(n, |i: int| "?"@), ", "@)
}

/// The query that loads the children of several parents at once.
pub open spec fn eager_sql(table: Seq<char>, foreign_key: Seq<char>, n: nat) -> Seq<char> {
    "SELECT * FROM "@ + table + " WHERE "@ + foreign_key + " IN ("@ + placeholders(n) + ")"@
}

fn children_sql_exec(table: &str, foreign_key: &str) -> (r: Result<String, RelationError>)
    ensures
        is_identifier(foreign_key@) <==> r is Ok,
        match r {
            Ok(q) => q@ == children_sql(table@, foreign_key@),
            Err(RelationError::InvalidForeignKey(k)) => k@ == foreign_key@,
        },
{
    if !is_valid_identifier(foreign_key) {
        return Err(RelationError::InvalidForeignKey(owned(foreign_key)));
    }
    let mut q = concat("SELECT * FROM ", table);
    push_str(&mut q, " WHERE ");
    push_str(&mut q, foreign_key);
    push_str(&mut q, " = ?");
    Ok(q)
}

pub(crate) fn placeholders_exec(n: usize) -> (r: String)
    ensures
        r@ == placeholders(n as nat),
{
    let mut r = String::new();
    let mut i: usize = 0;
    while i < n
        invariant
            i <= n,
            r@ == placeholders(i as nat),
        decreases n - i,
    {
        proof {
            let a = Seq::new((i + 1) as nat, |k: int| "?"@);
            let b = Seq::new(i as nat, |k: int| "?"@);
            assert(a.drop_last() =~= b);
        }
        if i > 0 {
            push_str(&mut r, ", ");
        }
        push_str(&mut r, "?");
        i = i + 1;
    }
    r
}

/// The query that loads the children of `count` parents in one round, or
/// nothing to load for no parents.
pub fn eager_load_sql(table: &str, foreign_key: &str, count: usize) -> (r: Result<
    Option<String>,
    RelationError,
>)
    ensures
        is_identifier(foreign_key@) <==> r is Ok,
        match r {
            Ok(None) => count == 0,
            Ok(Some(q)) => count > 0 && q@ == eager_sql(table@, foreign_key@, count as nat),
            Err(RelationError::InvalidForeignKey(k)) => k@ == foreign_key@,
        },
{
    if !is_valid_identifier(foreign_key) {
        return Err(RelationError::InvalidForeignKey(owned(foreign_key)));
    }
    if count == 0 {
        return Ok(None);
    }
    let mut q = concat("SELECT * FROM ", table);
    push_str(&mut q, " WHERE ");
    push_str(&mut q, foreign_key);
    push_str(&mut q, " IN (");
    let p = placeholders_exec(count);
    push_str(&mut q, p.as_str());
    push_str(&mut q, ")");
    Ok(Some(q))
}

/// A parent's children: the rows of `C` whose foreign key holds the
/// parent's id.
#[derive(Debug)]
pub struct HasMany<P, C> {
    parent_id: i64,
    foreign_key: String,
    marker: PhantomData<(P, C)>,
}

impl<P, C> HasMany<P, C> {
    pub closed spec fn spec_parent_id(&self) -> i64 {
        self.parent_id
    }

    pub closed spec fn spec_foreign_key(&self) -> Seq<char> {
        self.foreign_key@
    }

    pub fn new(parent_id: i64, foreign_key: &str) -> (r: Self)
        ensures
            r.spec_parent_id() == parent_id,
            r.spec_foreign_key() == foreign_key@,
    {
        HasMany { parent_id, foreign_key: owned(foreign_key), marker: PhantomData }
    }

    pub fn parent_id(&self) -> (r: i64)
        ensures
            r == self.spec_parent_id(),
    {
        self.parent_id
    }

    /// The query for the children, bound to `parent_id()`, in table
    /// `child_table`; refused for a foreign key that is not an identifier.
    pub fn query_sql(&self, child_table: &str) -> (r: Result<String, RelationError>)
        ensures
            is_identifier(self.spec_foreign_key()) <==> r is Ok,
            match r {
                Ok(q) => q@ == children_sql(child_table@, self.spec_foreign_key()),
                Err(RelationError::InvalidForeignKey(k)) => k@ == self.spec_foreign_key(),
            },
    {
        children_sql_exec(child_table, self.foreign_key.as_str())
    }
}

/// A parent's single child.
#[derive(Debug)]
pub struct HasOne<P, C> {
    parent_id: i64,
    foreign_key: String,
    marker: PhantomData<(P, C)>,
}

impl<P, C> HasOne<P, C> {
    pub closed spec fn spec_parent_id(&self) -> i64 {
        self.parent_id
    }

    pub closed spec fn spec_foreign_key(&self) -> Seq<char> {
        self.foreign_key@
    }

    pub fn new(parent_id: i64, foreign_key: &str) -> (r: Self)
        ensures
            r.spec_parent_id() == parent_id,
            r.spec_foreign_key() == foreign_key@,
    {
        HasOne { parent_id, foreign_key: owned(foreign_key), marker: PhantomData }
    }

    pub fn parent_id(&self) -> (r: i64)
        ensures
            r == self.spec_parent_id(),
    {
        self.parent_id
    }

    /// The query for the child, bound to `parent_id()`.
    pub fn query_sql(&self, child_table: &str) -> (r: Result<String, RelationError>)
        ensures
            is_identifier(self.spec_foreign_key()) <==> r is Ok,
            match r {
                Ok(q) => q@ == children_sql(child_table@, self.spec_foreign_key()),
                Err(RelationError::InvalidForeignKey(k)) => k@ == self.spec_foreign_key(),
            },
    {
        children_sql_exec(child_table, self.foreign_key.as_str())
    }
}

/// A child's parent, found by the child's foreign key value.
#[derive(Debug)]
pub struct BelongsTo<C, P> {
    foreign_key_value: i64,
    marker: PhantomData<(C, P)>,
}

impl<C, P> BelongsTo<C, P> {
    pub closed spec fn spec_value(&self) -> i64 {
        self.foreign_key_value
    }

    pub fn new(foreign_key_value: i64) -> (r: Self)
        ensures
            r.spec_value() == foreign_key_value,
    {
        BelongsTo { foreign_key_value, marker: PhantomData }
    }

    /// The id of the parent to find.
    pub fn foreign_key_value(&self) -> (r: i64)
        ensures
            r == self.spec_value(),
    {
        self.foreign_key_value
    }
}

/// Whether an association list has an entry for `k`.
pub open spec fn has_group<V>(g: Seq<(i64, V)>, k: i64) -> bool {
    exists|a: int| 0 <= a < g.len() && g[a].0 == k
}

/// The rows among the first `n` (by position) whose foreign key is `k`, in
/// order.
pub open spec fn rows_upto(fks: Seq<i64>, n: int, k: i64) -> Seq<usize>
    decreases n,
{
    if n <= 0 {
        Seq::empty()
    } else {
        let p = rows_upto(fks, n - 1, k);
        if fks[n - 1] == k {
            p.push((n - 1) as usize)
        } else {
            p
        }
    }
}

/// The rows whose foreign key is `k`.
pub open spec fn rows_of(fks: Seq<i64>, k: i64) -> Seq<usize> {
    rows_upto(fks, fks.len() as int, k)
}

fn find_key(keys: &Vec<i64>, k: i64) -> (r: Option<usize>)
    ensures
        match r {
            Some(i) => i < keys@.len() && keys@[i as int] == k,
            None => !keys@.contains(k),
        },
{
    let mut i: usize = 0;
    while i < keys.len()
        invariant
            i <= keys@.len(),
            forall|j: int| 0 <= j < i ==> keys@[j] != k,
        decreases keys.len() - i,
    {
        if keys[i] == k {
            return Some(i);
        }
        i = i + 1;
    }
    None
}

/// Groups loaded children by their parent: every parent id and every
/// foreign key that occurs has one entry, and an entry lists, in order, the
/// rows whose foreign key `fks[row]` is its key (none for a parent without
/// children).
pub fn group_many(parent_ids: &Vec<i64>, fks: &Vec<i64>) -> (r: Vec<(i64, Vec<usize>)>)
    ensures
        forall|a: int, b: int| 0 <= a < b < r@.len() ==> r@[a].0 != r@[b].0,
        forall|k: i64| #[trigger] has_group(r@, k) <==> (parent_ids@.contains(k) || fks@.contains(k)),
        forall|a: int| 0 <= a < r@.len() ==> (#[trigger] r@[a]).1@ == rows_of(fks@, r@[a].0),
{
    broadcast use vstd::seq_lib::lemma_seq_contains_after_push;

    let mut keys: Vec<i64> = Vec::new();
    let mut groups: Vec<Vec<usize>> = Vec::new();
    let mut i: usize = 0;
    assert(parent_ids@.take(0) =~= Seq::<i64>::empty());
    while i < parent_ids.len()
        invariant
            i <= parent_ids@.len(),
            keys@.len() == groups@.len(),
            forall|k: i64| keys@.contains(k) <==> parent_ids@.take(i as int).contains(k),
            forall|a: int, b: int| 0 <= a < b < keys@.len() ==> keys@[a] != keys@[b],
            forall|a: int| 0 <= a < groups@.len() ==> (#[trigger] groups@[a])@ == rows_upto(fks@, 0, keys@[a]),
        decreases parent_ids.len() - i,
    {
        let k = parent_ids[i];
        let ghost t = parent_ids@.take(i + 1);
        assert(t =~= parent_ids@.take(i as int).push(k));
        let ghost old_keys = keys@;
        match find_key(&keys, k) {
            Some(idx) => {
                assert(keys@[idx as int] == k);
                assert(keys@.contains(k));
            },
            None => {
                keys.push(k);
                groups.push(Vec::new());
                assert(keys@ == old_keys.push(k));
                assert(groups@[groups@.len() - 1]@ =~= rows_upto(fks@, 0, k));
            },
        }
        assert forall|x: i64| keys@.contains(x) <==> t.contains(x) by {
            vstd::seq_lib::lemma_seq_contains_after_push(parent_ids@.take(i as int), k, x);
            vstd::seq_lib::lemma_seq_contains_after_push(old_keys, k, x);
        }
        i = i + 1;
    }
    assert(parent_ids@.take(parent_ids@.len() as int) =~= parent_ids@);
    assert(fks@.take(0) =~= Seq::<i64>::empty());
    let mut j: usize = 0;
    while j < fks.len()
        invariant
            j <= fks@.len(),
            keys@.len() == groups@.len(),
            forall|k: i64|
                keys@.contains(k) <==> (parent_ids@.contains(k) || fks@.take(j as int).contains(k)),
            forall|a: int, b: int| 0 <= a < b < keys@.len() ==> keys@[a] != keys@[b],
            forall|a: int| 0 <= a < groups@.len() ==> (#[trigger] groups@[a])@ == rows_upto(fks@, j as int, keys@[a]),
        decreases fks.len() - j,
    {
        let k = fks[j];
        let ghost t = fks@.take(j + 1);
        assert(t =~= fks@.take(j as int).push(k));
        let ghost old_keys = keys@;
        let ghost old_groups = groups@;
        match find_key(&keys, k) {
            Some(idx) => {
                assert(old_keys[idx as int] == k);
                assert(old_keys.contains(k));
                let mut v = groups.remove(idx);
                v.push(j);
                groups.insert(idx, v);
                assert forall|a: int| 0 <= a < groups@.len() implies (#[trigger] groups@[a])@ == rows_upto(
                    fks@,
                    j + 1,
                    keys@[a],
                ) by {
                    if a == idx {
                        assert(groups@[a]@ == old_groups[a]@.push(j));
                    } else {
                        assert(groups@[a] == old_groups[a]);
                        assert(keys@[a] != k);
                    }
                }
            },
            None => {
                keys.push(k);
                let mut v: Vec<usize> = Vec::new();
                v.push(j);
                groups.push(v);
                assert(keys@ == old_keys.push(k));
                assert forall|a: int| 0 <= a < groups@.len() implies (#[trigger] groups@[a])@ == rows_upto(
                    fks@,
                    j + 1,
                    keys@[a],
                ) by {
                    if a == groups@.len() - 1 {
                        assert(keys@[a] == k);
                        lemma_rows_upto_none(fks@, j as int, k);
                        assert(groups@[a]@ =~= rows_upto(fks@, j as int, k).push(j));
                    } else {
                        assert(groups@[a] == old_groups[a]);
                        assert(keys@[a] == old_keys[a]);
                        assert(old_keys[a] != k);
                    }
                }
            },
        }
        assert forall|x: i64| #[trigger] keys@.contains(x) <==> (parent_ids@.contains(x) || t.contains(x)) by {
            vstd::seq_lib::lemma_seq_contains_after_push(fks@.take(j as int), k, x);
            vstd::seq_lib::lemma_seq_contains_after_push(old_keys, k, x);
            assert(old_keys.contains(x) <==> (parent_ids@.contains(x) || fks@.take(j as int).contains(x)));
            if x == k {
                assert(t.contains(k));
                assert(keys@.contains(k));
            } else {
                assert(keys@.contains(x) <==> old_keys.contains(x));
                assert(t.contains(x) <==> fks@.take(j as int).contains(x));
            }
        }
        j = j + 1;
    }
    assert(fks@.take(fks@.len() as int) =~= fks@);
    let mut r: Vec<(i64, Vec<usize>)> = Vec::new();
    let n = keys.len();
    let mut a: usize = 0;
    while a < n
        invariant
            n == keys@.len(),
            a <= n,
            keys@.len() == groups@.len() + a,
            r@.len() == a,
            forall|b: int| 0 <= b < a ==> (#[trigger] r@[b]).0 == keys@[b],
            forall|b: int| 0 <= b < a ==> (#[trigger] r@[b]).1@ == rows_of(fks@, keys@[b]),
            forall|b: int| 0 <= b < groups@.len() ==> (#[trigger] groups@[b])@ == rows_of(fks@, keys@[b + a]),
        decreases n - a,
    {
        let v = groups.remove(0);
        r.push((keys[a], v));
        a = a + 1;
    }
    assert forall|k: i64| #[trigger] has_group(r@, k) <==> keys@.contains(k) by {
        if keys@.contains(k) {
            let w = choose|w: int| 0 <= w < keys@.len() && keys@[w] == k;
            assert(r@[w].0 == k);
        }
    }
    r
}

proof fn lemma_rows_upto_none(fks: Seq<i64>, n: int, k: i64)
    requires
        0 <= n <= fks.len(),
        !fks.take(n).contains(k),
    ensures
        rows_upto(fks, n, k) == Seq::<usize>::empty(),
    decreases n,
{
    if n > 0 {
        let whole = fks.take(n);
        let part = fks.take(n - 1);
        assert(whole[n - 1] == fks[n - 1]);
        assert forall|x: i64| part.contains(x) implies whole.contains(x) by {
            let w = choose|w: int| 0 <= w < part.len() && part[w] == x;
            assert(whole[w] == x);
        }
        lemma_rows_upto_none(fks, n - 1, k);
    }
}

/// For one-to-one relations: every parent id and every foreign key that
/// occurs has one entry, holding the first row whose foreign key is its
/// key, or none.
pub fn group_one(parent_ids: &Vec<i64>, fks: &Vec<i64>) -> (r: Vec<(i64, Option<usize>)>)
    ensures
        forall|a: int, b: int| 0 <= a < b < r@.len() ==> r@[a].0 != r@[b].0,
        forall|k: i64| #[trigger] has_group(r@, k) <==> (parent_ids@.contains(k) || fks@.contains(k)),
        forall|a: int|
            0 <= a < r@.len() ==> (#[trigger] r@[a]).1 == (if rows_of(fks@, r@[a].0).len() > 0 {
                Some(rows_of(fks@, r@[a].0)[0])
            } else {
                None
            }),
{
    let many = group_many(parent_ids, fks);
    let mut r: Vec<(i64, Option<usize>)> = Vec::new();
    let mut i: usize = 0;
    while i < many.len()
        invariant
            i <= many@.len(),
            r@.len() == i,
            forall|a: int| 0 <= a < i ==> (#[trigger] r@[a]).0 == many@[a].0,
            forall|a: int|
                0 <= a < i ==> (#[trigger] r@[a]).1 == (if many@[a].1@.len() > 0 {
                    Some(many@[a].1@[0])
                } else {
                    None
                }),
        decreases many.len() - i,
    {
        let first = if many[i].1.len() > 0 {
            Some(many[i].1[0])
        } else {
            None
        };
        r.push((many[i].0, first));
        i = i + 1;
    }
    assert forall|k: i64| #[trigger] has_group(r@, k) <==> has_group(many@, k) by {
        if has_group(many@, k) {
            let w = choose|a: int| 0 <= a < many@.len() && many@[a].0 == k;
            assert(r@[w].0 == k);
        }
    }
    r
}

} // verus!
