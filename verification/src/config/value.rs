//! Configuration values: the tree of a configuration file, how an
//! environment variable's text becomes a value, and how a value is written
//! into a nested table.
use vstd::prelude::*;
use crate::text::{
    eq_ignore_ascii_case, has_char, has_char_exec, chars_of, lower_seq, owned, parse_i64,
    signed_value, str_eq, to_lowercase, trim, trim_str, unicode_lowercase, signed_decimal,
    lemma_signed_decimal_round_trip,
};

verus! {

/// A configuration value. Floats are held by their IEEE-754 bits.
#[derive(Debug)]
pub enum ConfigValue {
    Str(String),
    Integer(i64),
    Float(u64),
    Boolean(bool),
    Datetime(String),
    Array(Vec<ConfigValue>),
    Table(Vec<(String, ConfigValue)>),
}

/// The mathematical value of a `ConfigValue`.
pub enum ValueView {
    Str(Seq<char>),
    Integer(i64),
    Float(u64),
    Boolean(bool),
    Datetime(Seq<char>),
    Array(Seq<ValueView>),
    Table(Seq<(Seq<char>, ValueView)>),
}

/// A table as key/value pairs in order.
pub type TableView = Seq<(Seq<char>, ValueView)>;

pub open spec fn value_view(v: ConfigValue) -> ValueView
    decreases v,
{
    match v {
        ConfigValue::Str(s) => ValueView::Str(s@),
        ConfigValue::Integer(n) => ValueView::Integer(n),
        ConfigValue::Float(b) => ValueView::Float(b),
        ConfigValue::Boolean(b) => ValueView::Boolean(b),
        ConfigValue::Datetime(s) => ValueView::Datetime(s@),
        ConfigValue::Array(a) => ValueView::Array(values_view(a@)),
        ConfigValue::Table(t) => ValueView::Table(entries_view(t@)),
    }
}

pub open spec fn values_view(s: Seq<ConfigValue>) -> Seq<ValueView>
    decreases s,
{
    if s.len() == 0 {
        Seq::empty()
    } else {
        proof {
            assert(decreases_to!(s => s.last()));
        }
        values_view(s.drop_last()).push(value_view(s.last()))
    }
}

pub open spec fn entries_view(s: Seq<(String, ConfigValue)>) -> TableView
    decreases s,
{
    if s.len() == 0 {
        Seq::empty()
    } else {
        proof {
            assert(decreases_to!(s => s.last()));
        }
        entries_view(s.drop_last()).push((s.last().0@, value_view(s.last().1)))
    }
}

impl View for ConfigValue {
    type V = ValueView;

    open spec fn view(&self) -> ValueView {
        value_view(*self)
    }
}

/// `entries_view` element by element.
pub proof fn lemma_entries_view(s: Seq<(String, ConfigValue)>)
    ensures
        entries_view(s).len() == s.len(),
        forall|i: int|
            0 <= i < s.len() ==> #[trigger] entries_view(s)[i] == (s[i].0@, value_view(s[i].1)),
    decreases s.len(),
{
    if s.len() > 0 {
        lemma_entries_view(s.drop_last());
        assert forall|i: int| 0 <= i < s.len() - 1 implies s.drop_last()[i] == s[i] by {}
    }
}

/// The position of the first entry named `k`, or -1.
pub open spec fn key_index(t: TableView, k: Seq<char>) -> int
    decreases t.len(),
{
    if t.len() == 0 {
        -1
    } else if t[0].0 == k {
        0
    } else {
        let r = key_index(t.drop_first(), k);
        if r < 0 {
            -1
        } else {
            r + 1
        }
    }
}

pub proof fn lemma_key_index(t: TableView, k: Seq<char>)
    ensures
        -1 <= key_index(t, k) < t.len(),
        key_index(t, k) >= 0 ==> t[key_index(t, k)].0 == k,
        forall|j: int| 0 <= j < t.len() && (key_index(t, k) < 0 || j < key_index(t, k)) ==> t[j].0 != k,
    decreases t.len(),
{
    if t.len() > 0 && t[0].0 != k {
        lemma_key_index(t.drop_first(), k);
        assert forall|j: int| 0 < j < t.len() implies t[j] == t.drop_first()[j - 1] by {}
    }
}

/// The entry of `t` named `k`.
pub open spec fn table_get(t: TableView, k: Seq<char>) -> Option<ValueView> {
    let i = key_index(t, k);
    if i >= 0 {
        Some(t[i].1)
    } else {
        None
    }
}

/// `t` with `k` set to `v`: an entry named `k` keeps its place and takes
/// the new value; otherwise the entry is added.
pub open spec fn table_insert(t: TableView, k: Seq<char>, v: ValueView) -> TableView {
    let i = key_index(t, k);
    if i >= 0 {
        t.update(i, (k, v))
    } else {
        t.push((k, v))
    }
}

/// Replacing the value of an entry keeps where every key is found.
proof fn lemma_key_index_update(t: TableView, i: int, w: ValueView, k: Seq<char>)
    requires
        0 <= i < t.len(),
    ensures
        key_index(t.update(i, (t[i].0, w)), k) == key_index(t, k),
    decreases t.len(),
{
    let u = t.update(i, (t[i].0, w));
    if t[0].0 != k {
        if i == 0 {
            assert(u.drop_first() =~= t.drop_first());
        } else {
            assert(u.drop_first() =~= t.drop_first().update(i - 1, (t.drop_first()[i - 1].0, w)));
            lemma_key_index_update(t.drop_first(), i - 1, w, k);
        }
    }
}

/// A key that is not there is found at the end once it is added.
proof fn lemma_key_index_push(t: TableView, k: Seq<char>, v: ValueView)
    requires
        key_index(t, k) < 0,
    ensures
        key_index(t.push((k, v)), k) == t.len(),
    decreases t.len(),
{
    if t.len() > 0 {
        assert(t.push((k, v)).drop_first() =~= t.drop_first().push((k, v)));
        lemma_key_index_push(t.drop_first(), k, v);
    }
}

/// A value set in a table is the one read back for its key.
pub proof fn lemma_table_get_after_insert(t: TableView, k: Seq<char>, v: ValueView)
    ensures
        table_get(table_insert(t, k, v), k) == Some(v),
{
    lemma_key_index(t, k);
    let i = key_index(t, k);
    if i >= 0 {
        lemma_key_index_update(t, i, v, k);
        assert(t.update(i, (k, v)) == t.update(i, (t[i].0, v)));
    } else {
        lemma_key_index_push(t, k, v);
    }
}

/// Whether every step of `path` from `t` is a table.
pub open spec fn reaches_table(t: TableView, path: Seq<Seq<char>>) -> bool
    decreases path.len(),
{
    if path.len() == 0 {
        true
    } else {
        match table_get(t, path[0]) {
            Some(ValueView::Table(inner)) => reaches_table(inner, path.drop_first()),
            _ => false,
        }
    }
}

/// A field written under a path of tables is the value read back at the
/// path followed by the field.
pub proof fn lemma_inject_path_read_back(t: TableView, path: Seq<Seq<char>>, field: Seq<char>, v: ValueView)
    requires
        reaches_table(t, path),
    ensures
        value_path(ValueView::Table(inject_path(t, path, field, v)), path.push(field)) == Some(v),
    decreases path.len(),
{
    if path.len() == 0 {
        lemma_table_get_after_insert(t, field, v);
        let parts = path.push(field);
        assert(parts.drop_first() =~= Seq::<Seq<char>>::empty());
        assert(parts[0] == field);
        let ti = table_insert(t, field, v);
        assert(inject_path(t, path, field, v) == ti);
        assert(value_path(ValueView::Table(ti), parts) == value_path(v, parts.drop_first()));
        assert(value_path(v, parts.drop_first()) == Some(v));
    } else {
        lemma_key_index(t, path[0]);
        let i = key_index(t, path[0]);
        let inner = t[i].1->Table_0;
        let w = ValueView::Table(inject_path(inner, path.drop_first(), field, v));
        lemma_key_index_update(t, i, w, path[0]);
        lemma_inject_path_read_back(inner, path.drop_first(), field, v);
        let u = t.update(i, (t[i].0, w));
        assert(inject_path(t, path, field, v) == u);
        assert(u[i] == (t[i].0, w));
        assert(table_get(u, path[0]) == Some(w));
        let parts = path.push(field);
        assert(parts.drop_first() =~= path.drop_first().push(field));
        assert(parts[0] == path[0]);
        assert(parts.len() > 0);
        assert(value_path(ValueView::Table(u), parts) == value_path(w, parts.drop_first()));
    }
}

/// `t` with `field` set to `value` in the table reached from `t` through
/// the sub-tables named by `path`; unchanged when some step of the path is
/// missing or is not a table.
pub open spec fn inject_path(
    t: TableView,
    path: Seq<Seq<char>>,
    field: Seq<char>,
    value: ValueView,
) -> TableView
    decreases path.len(),
{
    if path.len() == 0 {
        table_insert(t, field, value)
    } else {
        let i = key_index(t, path[0]);
        if i >= 0 {
            match t[i].1 {
                ValueView::Table(inner) => t.update(
                    i,
                    (t[i].0, ValueView::Table(inject_path(inner, path.drop_first(), field, value))),
                ),
                _ => t,
            }
        } else {
            t
        }
    }
}

/// The custom tables after an override of `field` under `config_path`:
/// nothing happens for an empty path.
pub open spec fn override_custom(
    custom: TableView,
    config_path: Seq<Seq<char>>,
    field: Seq<char>,
    value: ValueView,
) -> TableView {
    if config_path.len() == 0 {
        custom
    } else {
        inject_path(custom, config_path, field, value)
    }
}

fn find_key(t: &Vec<(String, ConfigValue)>, k: &str) -> (r: Option<usize>)
    ensures
        match r {
            Some(i) => i as int == key_index(entries_view(t@), k@),
            None => key_index(entries_view(t@), k@) < 0,
        },
{
    proof {
        lemma_entries_view(t@);
        lemma_key_index(entries_view(t@), k@);
    }
    let ghost tv = entries_view(t@);
    let mut i: usize = 0;
    while i < t.len()
        invariant
            i <= t@.len(),
            tv == entries_view(t@),
            tv.len() == t@.len(),
            forall|j: int| 0 <= j < t@.len() ==> #[trigger] tv[j] == (t@[j].0@, value_view(t@[j].1)),
            forall|j: int| 0 <= j < i ==> tv[j].0 != k@,
            -1 <= key_index(tv, k@) < tv.len(),
            key_index(tv, k@) >= 0 ==> tv[key_index(tv, k@)].0 == k@,
            forall|j: int|
                0 <= j < tv.len() && (key_index(tv, k@) < 0 || j < key_index(tv, k@)) ==> tv[j].0 != k@,
        decreases t.len() - i,
    {
        if str_eq(t[i].0.as_str(), k) {
            assert(tv[i as int].0 == k@);
            return Some(i);
        }
        i = i + 1;
    }
    None
}

proof fn lemma_entries_update(s: Seq<(String, ConfigValue)>, i: int, e: (String, ConfigValue))
    requires
        0 <= i < s.len(),
    ensures
        entries_view(s.update(i, e)) == entries_view(s).update(i, (e.0@, value_view(e.1))),
{
    lemma_entries_view(s);
    lemma_entries_view(s.update(i, e));
    assert(entries_view(s.update(i, e)) =~= entries_view(s).update(i, (e.0@, value_view(e.1))));
}

proof fn lemma_entries_push(s: Seq<(String, ConfigValue)>, e: (String, ConfigValue))
    ensures
        entries_view(s.push(e)) == entries_view(s).push((e.0@, value_view(e.1))),
{
    assert(s.push(e).drop_last() =~= s);
}

fn table_set(t: &mut Vec<(String, ConfigValue)>, k: &str, v: ConfigValue)
    ensures
        entries_view(final(t)@) == table_insert(entries_view(old(t)@), k@, value_view(v)),
{
    proof {
        lemma_entries_view(t@);
        lemma_key_index(entries_view(t@), k@);
    }
    match find_key(t, k) {
        Some(i) => {
            let e = (owned(k), v);
            let ghost old_t = t@;
            t.set(i, e);
            proof {
                lemma_entries_update(old_t, i as int, e);
            }
        },
        None => {
            let e = (owned(k), v);
            let ghost old_t = t@;
            t.push(e);
            proof {
                lemma_entries_push(old_t, e);
            }
        },
    }
}

fn inject_into(
    t: &mut Vec<(String, ConfigValue)>,
    path: &Vec<String>,
    from: usize,
    field: &str,
    value: ConfigValue,
)
    requires
        from <= path@.len(),
    ensures
        entries_view(final(t)@) == inject_path(
            entries_view(old(t)@),
            crate::text::views(path@).skip(from as int),
            field@,
            value_view(value),
        ),
    decreases path@.len() - from,
{
    let ghost p = crate::text::views(path@).skip(from as int);
    if from == path.len() {
        assert(p =~= Seq::<Seq<char>>::empty());
        table_set(t, field, value);
    } else {
        assert(p[0] == path@[from as int]@);
        assert(p.drop_first() =~= crate::text::views(path@).skip(from + 1));
        proof {
            lemma_entries_view(t@);
            lemma_key_index(entries_view(t@), path@[from as int]@);
        }
        match find_key(t, path[from].as_str()) {
            Some(i) => {
                proof {
                    lemma_entries_view(t@);
                }
                let is_table = match &t[i].1 {
                    ConfigValue::Table(_) => true,
                    _ => false,
                };
                if is_table {
                    let ghost old_t = t@;
                    let (k, inner_v) = t.remove(i);
                    match inner_v {
                        ConfigValue::Table(mut inner) => {
                            let ghost old_inner = inner@;
                            inject_into(&mut inner, path, from + 1, field, value);
                            let e = (k, ConfigValue::Table(inner));
                            t.insert(i, e);
                            proof {
                                assert(t@ =~= old_t.update(i as int, e));
                                lemma_entries_update(old_t, i as int, e);
                                assert(entries_view(old_t)[i as int] == (k@, ValueView::Table(
                                    entries_view(old_inner),
                                )));
                            }
                        },
                        other => {
                            t.insert(i, (k, other));
                        },
                    }
                }
            },
            None => {},
        }
    }
}

/// Writes `value` as `field_key` into the table that `config_path` names
/// inside the custom tables; nothing happens for an empty path or when some
/// step of the path is missing or not a table.
pub fn inject_env_override(
    custom: &mut Vec<(String, ConfigValue)>,
    config_path: &Vec<String>,
    field_key: &str,
    value: ConfigValue,
)
    ensures
        entries_view(final(custom)@) == override_custom(
            entries_view(old(custom)@),
            crate::text::views(config_path@),
            field_key@,
            value_view(value),
        ),
{
    if config_path.len() > 0 {
        inject_into(custom, config_path, 0, field_key, value);
        assert(crate::text::views(config_path@).skip(0) =~= crate::text::views(config_path@));
    }
}

/// Whether an environment value looks like a float: it holds `.`, `e` or
/// `E`, or it is `inf`, `-inf` or `nan` in any ASCII case.
pub open spec fn is_float_candidate(t: Seq<char>) -> bool {
    ||| has_char(t, '.')
    ||| has_char(t, 'e')
    ||| has_char(t, 'E')
    ||| lower_seq(t) == lower_seq("inf"@)
    ||| lower_seq(t) == lower_seq("-inf"@)
    ||| lower_seq(t) == lower_seq("nan"@)
}

/// The value of an environment override with text `raw`, given `lowered`,
/// the lowercase of the trimmed text, and `float_bits`, the bits of the
/// float that the trimmed text parses to, if any: a boolean for `true` or
/// `false`, else an integer when the trimmed text is one, else a float when
/// it looks like one and parses, else the text itself, untrimmed.
pub open spec fn coerced(raw: Seq<char>, lowered: Seq<char>, float_bits: Option<u64>) -> ValueView {
    let t = trim(raw);
    if lowered == "true"@ {
        ValueView::Boolean(true)
    } else if lowered == "false"@ {
        ValueView::Boolean(false)
    } else if signed_value(t) is Some {
        ValueView::Integer(signed_value(t)->0 as i64)
    } else if is_float_candidate(t) && float_bits is Some {
        ValueView::Float(float_bits->0)
    } else {
        ValueView::Str(raw)
    }
}

/// Only `true` and `false` become booleans: an environment value is typed
/// as a boolean exactly when the lowercase of its trimmed text is one of
/// them, and then as that boolean.
pub proof fn lemma_only_true_false_are_booleans(raw: Seq<char>, lowered: Seq<char>, float_bits: Option<u64>)
    ensures
        coerced(raw, lowered, float_bits) is Boolean <==> (lowered == "true"@ || lowered == "false"@),
        coerced(raw, lowered, float_bits) == ValueView::Boolean(true) <==> lowered == "true"@,
        coerced(raw, lowered, float_bits) == ValueView::Boolean(false) <==> lowered == "false"@,
{
    reveal_strlit("true");
    reveal_strlit("false");
    assert("true"@.len() != "false"@.len());
}

/// The decimal text of any `i64` (which is neither `true` nor `false` in
/// any case) is typed as that integer, whatever float it would also parse to.
pub proof fn lemma_integer_text_is_integer(n: i64, lowered: Seq<char>, float_bits: Option<u64>)
    requires
        lowered != "true"@,
        lowered != "false"@,
    ensures
        coerced(signed_decimal(n as int), lowered, float_bits) == ValueView::Integer(n),
{
    lemma_signed_decimal_round_trip(n as int);
}

/// Types an environment value, given the lowercase of its trimmed text.
pub fn coerce_lowered(raw: &str, lowered: &str, float_bits: Option<u64>) -> (r: ConfigValue)
    ensures
        r@ == coerced(raw@, lowered@, float_bits),
{
    if str_eq(lowered, "true") {
        return ConfigValue::Boolean(true);
    }
    if str_eq(lowered, "false") {
        return ConfigValue::Boolean(false);
    }
    let t = trim_str(raw);
    match parse_i64(t.as_str()) {
        Some(n) => {
            return ConfigValue::Integer(n);
        },
        None => {},
    }
    let v = chars_of(t.as_str());
    let candidate = has_char_exec(v.as_slice(), '.') || has_char_exec(v.as_slice(), 'e')
        || has_char_exec(v.as_slice(), 'E') || eq_ignore_ascii_case(t.as_str(), "inf")
        || eq_ignore_ascii_case(t.as_str(), "-inf") || eq_ignore_ascii_case(t.as_str(), "nan");
    if candidate {
        match float_bits {
            Some(b) => {
                return ConfigValue::Float(b);
            },
            None => {},
        }
    }
    ConfigValue::Str(owned(raw))
}

/// Types an environment value: boolean, then integer, then float, then
/// text. `float_bits` are the bits of the float that the trimmed text
/// parses to, if it parses.
pub fn coerce_env_value(raw: &str, float_bits: Option<u64>) -> (r: ConfigValue)
    ensures
        r@ == coerced(raw@, unicode_lowercase(trim(raw@)), float_bits),
{
    let t = trim_str(raw);
    let lowered = to_lowercase(t.as_str());
    coerce_lowered(raw, lowered.as_str(), float_bits)
}

/// The value reached from table `t` through the keys `parts`: every step
/// must be a table that holds the key.
pub open spec fn path_get(t: TableView, parts: Seq<Seq<char>>) -> Option<ValueView>
    decreases parts.len(),
{
    if parts.len() == 0 {
        Some(ValueView::Table(t))
    } else {
        match table_get(t, parts[0]) {
            None => None,
            Some(v) => if parts.len() == 1 {
                Some(v)
            } else {
                match v {
                    ValueView::Table(inner) => path_get(inner, parts.drop_first()),
                    _ => None,
                }
            },
        }
    }
}

/// A copy of a value.
pub fn copy_value(v: &ConfigValue) -> (r: ConfigValue)
    ensures
        value_view(r) == value_view(*v),
    decreases v,
{
    match v {
        ConfigValue::Str(s) => ConfigValue::Str(owned(s.as_str())),
        ConfigValue::Integer(n) => ConfigValue::Integer(*n),
        ConfigValue::Float(b) => ConfigValue::Float(*b),
        ConfigValue::Boolean(b) => ConfigValue::Boolean(*b),
        ConfigValue::Datetime(s) => ConfigValue::Datetime(owned(s.as_str())),
        ConfigValue::Array(a) => {
            let mut out: Vec<ConfigValue> = Vec::new();
            let mut i: usize = 0;
            while i < a.len()
                invariant
                    i <= a@.len(),
                    *v == ConfigValue::Array(*a),
                    values_view(out@) == values_view(a@.take(i as int)),
                decreases a.len() - i,
            {
                proof {
                    assert(decreases_to!(*v => (*v)->Array_0));
                    assert(decreases_to!(*a => a@));
                    assert(decreases_to!(a@ => a@[i as int]));
                }
                let c = copy_value(&a[i]);
                let ghost before = out@;
                out.push(c);
                proof {
                    assert(out@.drop_last() =~= before);
                    assert(a@.take(i + 1).drop_last() =~= a@.take(i as int));
                }
                i = i + 1;
            }
            assert(a@.take(a@.len() as int) =~= a@);
            ConfigValue::Array(out)
        },
        ConfigValue::Table(t) => {
            let mut out: Vec<(String, ConfigValue)> = Vec::new();
            let mut i: usize = 0;
            while i < t.len()
                invariant
                    i <= t@.len(),
                    *v == ConfigValue::Table(*t),
                    entries_view(out@) == entries_view(t@.take(i as int)),
                decreases t.len() - i,
            {
                proof {
                    assert(decreases_to!(*v => (*v)->Table_0));
                    assert(decreases_to!(*t => t@));
                    assert(decreases_to!(t@ => t@[i as int]));
                    assert(decreases_to!(t@[i as int] => t@[i as int].1));
                }
                let c = copy_value(&t[i].1);
                let k = owned(t[i].0.as_str());
                let ghost before = out@;
                out.push((k, c));
                proof {
                    assert(out@.drop_last() =~= before);
                    assert(t@.take(i + 1).drop_last() =~= t@.take(i as int));
                }
                i = i + 1;
            }
            assert(t@.take(t@.len() as int) =~= t@);
            ConfigValue::Table(out)
        },
    }
}

/// The value reached from a table through `parts`, copied.
pub fn lookup_path(t: &Vec<(String, ConfigValue)>, parts: &Vec<String>) -> (r: Option<ConfigValue>)
    ensures
        match r {
            Some(v) => path_get(entries_view(t@), crate::text::views(parts@)) == Some(value_view(v)),
            None => path_get(entries_view(t@), crate::text::views(parts@)) is None,
        },
{
    assert(crate::text::views(parts@).skip(0) =~= crate::text::views(parts@));
    lookup_from(t, parts, 0)
}

fn lookup_from(t: &Vec<(String, ConfigValue)>, parts: &Vec<String>, from: usize) -> (r: Option<ConfigValue>)
    requires
        from <= parts@.len(),
    ensures
        match r {
            Some(v) => path_get(entries_view(t@), crate::text::views(parts@).skip(from as int)) == Some(
                value_view(v),
            ),
            None => path_get(entries_view(t@), crate::text::views(parts@).skip(from as int)) is None,
        },
    decreases parts@.len() - from,
{
    let ghost p = crate::text::views(parts@).skip(from as int);
    proof {
        lemma_entries_view(t@);
        lemma_key_index(entries_view(t@), if p.len() > 0 { p[0] } else { Seq::empty() });
    }
    if from == parts.len() {
        assert(p.len() == 0);
        let mut out: Vec<(String, ConfigValue)> = Vec::new();
        let mut i: usize = 0;
        while i < t.len()
            invariant
                i <= t@.len(),
                entries_view(out@) == entries_view(t@.take(i as int)),
            decreases t.len() - i,
        {
            let c = copy_value(&t[i].1);
            let k = owned(t[i].0.as_str());
            let ghost before = out@;
            out.push((k, c));
            proof {
                assert(out@.drop_last() =~= before);
                assert(t@.take(i + 1).drop_last() =~= t@.take(i as int));
            }
            i = i + 1;
        }
        assert(t@.take(t@.len() as int) =~= t@);
        return Some(ConfigValue::Table(out));
    }
    assert(p[0] == parts@[from as int]@);
    assert(p.drop_first() =~= crate::text::views(parts@).skip(from + 1));
    match find_key(t, parts[from].as_str()) {
        None => None,
        Some(i) => {
            let v = &t[i].1;
            assert(entries_view(t@)[i as int] == (t@[i as int].0@, value_view(*v)));
            if from + 1 == parts.len() {
                Some(copy_value(v))
            } else {
                match v {
                    ConfigValue::Table(inner) => lookup_from(inner, parts, from + 1),
                    _ => None,
                }
            }
        },
    }
}

/// The value reached from `v` through the keys `parts` (as `toml::Value::get`
/// steps): each step needs a table holding the key.
pub open spec fn value_path(v: ValueView, parts: Seq<Seq<char>>) -> Option<ValueView>
    decreases parts.len(),
{
    if parts.len() == 0 {
        Some(v)
    } else {
        match v {
            ValueView::Table(t) => match table_get(t, parts[0]) {
                Some(w) => value_path(w, parts.drop_first()),
                None => None,
            },
            _ => None,
        }
    }
}

/// The value reached from `v` through `parts[from..]`, copied.
pub fn walk_value(v: &ConfigValue, parts: &Vec<String>, from: usize) -> (r: Option<ConfigValue>)
    requires
        from <= parts@.len(),
    ensures
        match r {
            Some(w) => value_path(value_view(*v), crate::text::views(parts@).skip(from as int)) == Some(
                value_view(w),
            ),
            None => value_path(value_view(*v), crate::text::views(parts@).skip(from as int)) is None,
        },
    decreases parts@.len() - from,
{
    let ghost p = crate::text::views(parts@).skip(from as int);
    if from == parts.len() {
        assert(p.len() == 0);
        return Some(copy_value(v));
    }
    assert(p[0] == parts@[from as int]@);
    assert(p.drop_first() =~= crate::text::views(parts@).skip(from + 1));
    match v {
        ConfigValue::Table(t) => {
            proof {
                lemma_entries_view(t@);
                lemma_key_index(entries_view(t@), p[0]);
            }
            match find_key(t, parts[from].as_str()) {
                None => None,
                Some(i) => {
                    assert(entries_view(t@)[i as int] == (t@[i as int].0@, value_view(t@[i as int].1)));
                    walk_value(&t[i].1, parts, from + 1)
                },
            }
        },
        _ => None,
    }
}

} // verus!
