//! Namespaced environment overrides. Every table of the configuration file
//! gets an environment prefix (`[demo.service]` gives `DEMO_SERVICE_`); a
//! variable that starts with a prefix sets a field of that table, the
//! longest matching prefix winning.
use vstd::prelude::*;
use crate::text::{
    join, join_strings, owned, push_str, split_by_char, split_char, starts_with, str_eq,
    str_starts_with, string_of_range, chars_of, to_lowercase, to_uppercase, trim,
    unicode_lowercase, unicode_uppercase, views,
};
use crate::config::ConfigError;
use crate::config::value::{
    coerce_env_value, coerced, entries_view, inject_env_override, inject_path, lemma_entries_view,
    lemma_inject_path_read_back, override_custom, reaches_table, value_path, value_view, ConfigValue,
    TableView, ValueView,
};

verus! {

/// The paths of the tables in `key = v` below `ancestors`, the table itself
/// first; a dotted key stands for nested tables.
pub open spec fn table_paths(key: Seq<char>, v: ValueView, ancestors: Seq<Seq<char>>) -> Seq<
    Seq<Seq<char>>,
>
    decreases v,
{
    match v {
        ValueView::Table(t) => {
            let path = ancestors + split_char(key, '.');
            seq![path] + entries_paths(t, path)
        },
        _ => Seq::empty(),
    }
}

/// The paths of the tables among the entries of a table at `path`.
pub open spec fn entries_paths(t: TableView, path: Seq<Seq<char>>) -> Seq<Seq<Seq<char>>>
    decreases t,
{
    if t.len() == 0 {
        Seq::empty()
    } else {
        proof {
            assert(decreases_to!(t => t.last()));
        }
        entries_paths(t.drop_last(), path) + table_paths(t.last().0, t.last().1, path)
    }
}

/// The environment prefix of a table path: its segments uppercased, joined
/// with `_`, and a final `_`.
pub open spec fn prefix_of(path: Seq<Seq<char>>) -> Seq<char> {
    join(path.map_values(|s: Seq<char>| unicode_uppercase(s)), "_"@) + "_"@
}

/// A table path written with dots.
pub open spec fn dotted(path: Seq<Seq<char>>) -> Seq<char> {
    join(path, "."@)
}

/// One table and its environment prefix.
#[derive(Debug)]
pub struct NamespaceEntry {
    pub env_prefix: String,
    pub config_path: Vec<String>,
}

pub open spec fn entry_path(e: NamespaceEntry) -> Seq<Seq<char>> {
    views(e.config_path@)
}

pub open spec fn registry_paths(r: Seq<NamespaceEntry>) -> Seq<Seq<Seq<char>>> {
    r.map_values(|e: NamespaceEntry| entry_path(e))
}

pub open spec fn registry_prefixes(r: Seq<NamespaceEntry>) -> Seq<Seq<char>> {
    r.map_values(|e: NamespaceEntry| e.env_prefix@)
}

/// Every entry's prefix is the prefix of its path.
pub open spec fn registry_wf(r: Seq<NamespaceEntry>) -> bool {
    forall|i: int| 0 <= i < r.len() ==> #[trigger] r[i].env_prefix@ == prefix_of(entry_path(r[i]))
}

/// Two table paths share a prefix but are different tables.
pub open spec fn conflict(paths: Seq<Seq<Seq<char>>>, i: int, j: int) -> bool {
    &&& 0 <= i < paths.len()
    &&& 0 <= j < paths.len()
    &&& prefix_of(paths[i]) == prefix_of(paths[j])
    &&& dotted(paths[i]) != dotted(paths[j])
}

pub open spec fn has_conflict(paths: Seq<Seq<Seq<char>>>) -> bool {
    exists|i: int, j: int| conflict(paths, i, j)
}

fn copy_strings(v: &Vec<String>) -> (r: Vec<String>)
    ensures
        views(r@) == views(v@),
        r@.len() == v@.len(),
{
    let mut r: Vec<String> = Vec::new();
    let mut i: usize = 0;
    while i < v.len()
        invariant
            i <= v@.len(),
            r@.len() == i,
            views(r@) == views(v@).take(i as int),
        decreases v.len() - i,
    {
        let ghost old_r = r@;
        r.push(owned(v[i].as_str()));
        proof {
            assert forall|j: int| 0 <= j < i + 1 implies views(r@)[j] == views(v@).take(i + 1)[j] by {
                if j < i {
                    assert(r@[j] == old_r[j]);
                    assert(views(old_r)[j] == views(v@).take(i as int)[j]);
                }
            }
            assert(views(r@) =~= views(v@).take(i + 1));
        }
        i = i + 1;
    }
    assert(views(v@).take(v@.len() as int) =~= views(v@));
    r
}

fn env_prefix(path: &Vec<String>) -> (r: String)
    ensures
        r@ == prefix_of(views(path@)),
{
    let mut uppers: Vec<String> = Vec::new();
    let mut i: usize = 0;
    while i < path.len()
        invariant
            i <= path@.len(),
            uppers@.len() == i,
            views(uppers@) == views(path@).take(i as int).map_values(
                |s: Seq<char>| unicode_uppercase(s),
            ),
        decreases path.len() - i,
    {
        let ghost old_u = uppers@;
        uppers.push(to_uppercase(path[i].as_str()));
        proof {
            assert forall|j: int| 0 <= j < i + 1 implies views(uppers@)[j] == views(path@).take(
                i + 1,
            ).map_values(|s: Seq<char>| unicode_uppercase(s))[j] by {
                if j < i {
                    assert(uppers@[j] == old_u[j]);
                    assert(views(old_u)[j] == views(path@).take(i as int).map_values(
                        |s: Seq<char>| unicode_uppercase(s),
                    )[j]);
                }
            }
            assert(views(uppers@) =~= views(path@).take(i + 1).map_values(
                |s: Seq<char>| unicode_uppercase(s),
            ));
        }
        i = i + 1;
    }
    assert(views(path@).take(path@.len() as int) =~= views(path@));
    let mut r = join_strings(&uppers, "_");
    push_str(&mut r, "_");
    r
}

fn collect_custom_paths(
    key: &str,
    value: &ConfigValue,
    ancestors: &Vec<String>,
    registry: &mut Vec<NamespaceEntry>,
)
    requires
        registry_wf(old(registry)@),
    ensures
        registry_wf(final(registry)@),
        registry_paths(final(registry)@) == registry_paths(old(registry)@) + table_paths(
            key@,
            value_view(*value),
            views(ancestors@),
        ),
    decreases value,
{
    match value {
        ConfigValue::Table(t) => {
            let mut path = copy_strings(ancestors);
            assert(path@.len() == views(path@).len());
            let segments = split_by_char(key, '.');
            let mut k: usize = 0;
            while k < segments.len()
                invariant
                    k <= segments@.len(),
                    path@.len() == ancestors@.len() + k,
                    views(path@) == views(ancestors@) + views(segments@).take(k as int),
                decreases segments.len() - k,
            {
                let ghost old_p = path@;
                path.push(owned(segments[k].as_str()));
                proof {
                    assert forall|j: int| 0 <= j < path@.len() implies views(path@)[j] == (views(
                        ancestors@,
                    ) + views(segments@).take(k + 1))[j] by {
                        if j < old_p.len() {
                            assert(path@[j] == old_p[j]);
                            assert(views(old_p)[j] == (views(ancestors@) + views(segments@).take(
                                k as int,
                            ))[j]);
                        }
                    }
                    assert(views(path@) =~= views(ancestors@) + views(segments@).take(k + 1));
                }
                k = k + 1;
            }
            assert(views(segments@).take(segments@.len() as int) =~= views(segments@));
            let ghost p = views(path@);
            let ghost tv = entries_view(t@);
            proof {
                lemma_entries_view(t@);
            }
            let prefix = env_prefix(&path);
            let ghost before = registry@;
            registry.push(NamespaceEntry { env_prefix: prefix, config_path: copy_strings(&path) });
            proof {
                assert(registry_paths(registry@) =~= registry_paths(before).push(p));
                assert(tv.take(0) =~= Seq::<(Seq<char>, ValueView)>::empty());
            }
            let mut i: usize = 0;
            while i < t.len()
                invariant
                    i <= t@.len(),
                    *value == ConfigValue::Table(*t),
                    tv == entries_view(t@),
                    tv.len() == t@.len(),
                    forall|j: int|
                        0 <= j < t@.len() ==> #[trigger] tv[j] == (t@[j].0@, value_view(t@[j].1)),
                    p == views(path@),
                    registry_wf(registry@),
                    registry_paths(registry@) == registry_paths(before) + seq![p] + entries_paths(
                        tv.take(i as int),
                        p,
                    ),
                decreases t.len() - i,
            {
                proof {
                    assert(decreases_to!(*value => (*value)->Table_0));
                    assert(decreases_to!(*t => t@));
                    assert(decreases_to!(t@ => t@[i as int]));
                    assert(decreases_to!(t@[i as int] => t@[i as int].1));
                }
                collect_custom_paths(t[i].0.as_str(), &t[i].1, &path, registry);
                proof {
                    let next = tv.take(i + 1);
                    assert(next.drop_last() =~= tv.take(i as int));
                    assert(next.last() == tv[i as int]);
                }
                i = i + 1;
            }
            assert(tv.take(t@.len() as int) =~= tv);
            assert(table_paths(key@, value_view(*value), views(ancestors@)) == seq![p] + entries_paths(tv, p));
        },
        _ => {
            assert(registry_paths(registry@) =~= registry_paths(registry@) + Seq::<Seq<Seq<char>>>::empty());
        },
    }
}

/// The paths of every table among the custom root tables.
pub open spec fn custom_table_paths(custom: Seq<(String, ConfigValue)>) -> Seq<Seq<Seq<char>>> {
    entries_paths(entries_view(custom), Seq::empty())
}

/// `cands` lists, once each, the dotted paths of the tables whose prefix
/// is `prefix`.
pub open spec fn candidates_of(paths: Seq<Seq<Seq<char>>>, prefix: Seq<char>, cands: Seq<Seq<char>>) -> bool {
    &&& cands.no_duplicates()
    &&& candidates_sound(paths, prefix, cands)
    &&& candidates_complete(paths, prefix, cands)
}

/// Every listed path is the dotted path of a table with prefix `prefix`.
pub open spec fn candidates_sound(paths: Seq<Seq<Seq<char>>>, prefix: Seq<char>, cands: Seq<Seq<char>>) -> bool {
    forall|c: int| 0 <= c < cands.len() ==> is_candidate(paths, prefix, #[trigger] cands[c])
}

/// `s` is the dotted path of a table with prefix `prefix`.
pub open spec fn is_candidate(paths: Seq<Seq<Seq<char>>>, prefix: Seq<char>, s: Seq<char>) -> bool {
    exists|k: int| 0 <= k < paths.len() && prefix_of(paths[k]) == prefix && dotted(paths[k]) == s
}

/// Every table with prefix `prefix` is listed.
pub open spec fn candidates_complete(paths: Seq<Seq<Seq<char>>>, prefix: Seq<char>, cands: Seq<Seq<char>>) -> bool {
    forall|k: int|
        0 <= k < paths.len() && prefix_of(paths[k]) == prefix ==> cands.contains(#[trigger] dotted(paths[k]))
}

fn contains_string(v: &Vec<String>, s: &str) -> (r: bool)
    ensures
        r == views(v@).contains(s@),
{
    let mut i: usize = 0;
    while i < v.len()
        invariant
            i <= v@.len(),
            forall|j: int| 0 <= j < i ==> v@[j]@ != s@,
        decreases v.len() - i,
    {
        if str_eq(v[i].as_str(), s) {
            assert(views(v@)[i as int] == s@);
            return true;
        }
        i = i + 1;
    }
    assert forall|j: int| 0 <= j < views(v@).len() implies views(v@)[j] != s@ by {
        assert(views(v@)[j] == v@[j]@);
    }
    false
}

fn dotted_paths(registry: &Vec<NamespaceEntry>) -> (r: Vec<String>)
    ensures
        r@.len() == registry@.len(),
        forall|i: int| 0 <= i < r@.len() ==> #[trigger] r@[i]@ == dotted(entry_path(registry@[i])),
{
    let mut r: Vec<String> = Vec::new();
    let mut i: usize = 0;
    while i < registry.len()
        invariant
            i <= registry@.len(),
            r@.len() == i,
            forall|j: int| 0 <= j < i ==> #[trigger] r@[j]@ == dotted(entry_path(registry@[j])),
        decreases registry.len() - i,
    {
        r.push(join_strings(&registry[i].config_path, "."));
        i = i + 1;
    }
    r
}

fn ambiguity_error(registry: &Vec<NamespaceEntry>, dots: &Vec<String>, i: usize) -> (r: ConfigError)
    requires
        i < registry@.len(),
        dots@.len() == registry@.len(),
        registry_wf(registry@),
        forall|k: int| 0 <= k < dots@.len() ==> #[trigger] dots@[k]@ == dotted(entry_path(registry@[k])),
    ensures
        r matches ConfigError::AmbiguousNamespace { prefix, candidates } && prefix@ == prefix_of(
            entry_path(registry@[i as int]),
        ) && candidates_of(registry_paths(registry@), prefix@, views(candidates@)),
{
    let ghost paths = registry_paths(registry@);
    let ghost want = prefix_of(entry_path(registry@[i as int]));
    let mut cands: Vec<String> = Vec::new();
    let mut k: usize = 0;
    while k < registry.len()
        invariant
            k <= registry@.len(),
            i < registry@.len(),
            dots@.len() == registry@.len(),
            paths == registry_paths(registry@),
            paths.len() == registry@.len(),
            registry_wf(registry@),
            want == prefix_of(entry_path(registry@[i as int])),
            forall|m: int| 0 <= m < dots@.len() ==> #[trigger] dots@[m]@ == dotted(entry_path(registry@[m])),
            views(cands@).no_duplicates(),
            candidates_sound(paths, want, views(cands@)),
            forall|m: int|
                0 <= m < k && prefix_of(paths[m]) == want ==> views(cands@).contains(
                    #[trigger] dotted(paths[m]),
                ),
        decreases registry.len() - k,
    {
        assert(paths[k as int] == entry_path(registry@[k as int]));
        assert(registry@[k as int].env_prefix@ == prefix_of(paths[k as int]));
        assert(registry@[i as int].env_prefix@ == want);
        if str_eq(registry[k].env_prefix.as_str(), registry[i].env_prefix.as_str()) && !contains_string(
            &cands,
            dots[k].as_str(),
        ) {
            let ghost old_c = views(cands@);
            cands.push(owned(dots[k].as_str()));
            proof {
                assert(views(cands@) =~= old_c.push(dots@[k as int]@));
                assert forall|c: int|
                    0 <= c < views(cands@).len() implies is_candidate(paths, want, #[trigger] views(cands@)[c]) by {
                    if c < old_c.len() {
                        assert(views(cands@)[c] == old_c[c]);
                    } else {
                        assert(dotted(paths[k as int]) == views(cands@)[c]);
                    }
                }
                assert(views(cands@).no_duplicates());
                assert forall|m: int|
                    0 <= m < k + 1 && prefix_of(paths[m]) == want implies views(cands@).contains(
                    #[trigger] dotted(paths[m]),
                ) by {
                    if m < k {
                        assert(old_c.contains(dotted(paths[m])));
                        let c = choose|c: int| 0 <= c < old_c.len() && old_c[c] == dotted(paths[m]);
                        assert(views(cands@)[c] == dotted(paths[m]));
                    } else {
                        assert(views(cands@)[old_c.len() as int] == dotted(paths[m]));
                    }
                }
            }
        } else {
            proof {
                assert forall|m: int|
                    0 <= m < k + 1 && prefix_of(paths[m]) == want implies views(cands@).contains(
                    #[trigger] dotted(paths[m]),
                ) by {
                    if m == k {
                        assert(dots@[k as int]@ == dotted(paths[m]));
                    }
                }
            }
        }
        k = k + 1;
    }
    let prefix = owned(registry[i].env_prefix.as_str());
    assert(views(cands@).no_duplicates());
    assert(forall|m: int|
        0 <= m < paths.len() && prefix_of(paths[m]) == want ==> views(cands@).contains(
            #[trigger] dotted(paths[m]),
        ));
    assert(candidates_sound(paths, want, views(cands@)));
    assert(candidates_complete(paths, want, views(cands@)));
    assert(candidates_of(paths, want, views(cands@)));
    assert(prefix@ == want);
    ConfigError::AmbiguousNamespace { prefix, candidates: cands }
}

/// The tables of the custom root tables with their environment prefixes.
/// Two different tables with the same prefix make the configuration
/// ambiguous.
pub fn build_namespace_registry(custom: &Vec<(String, ConfigValue)>) -> (r: Result<
    Vec<NamespaceEntry>,
    ConfigError,
>)
    ensures
        r is Ok <==> !has_conflict(custom_table_paths(custom@)),
        match r {
            Ok(reg) => registry_wf(reg@) && registry_paths(reg@) == custom_table_paths(custom@),
            Err(e) => e matches ConfigError::AmbiguousNamespace { prefix, candidates } && (exists|
                i: int,
                j: int,
            |
                conflict(custom_table_paths(custom@), i, j) && prefix@ == prefix_of(
                    custom_table_paths(custom@)[i],
                )) && candidates_of(custom_table_paths(custom@), prefix@, views(candidates@)),
        },
{
    let mut registry: Vec<NamespaceEntry> = Vec::new();
    let ghost tv = entries_view(custom@);
    proof {
        lemma_entries_view(custom@);
        assert(registry_paths(registry@) =~= entries_paths(tv.take(0), Seq::empty()));
    }
    let empty: Vec<String> = Vec::new();
    assert(views(empty@) =~= Seq::<Seq<char>>::empty());
    let mut i: usize = 0;
    while i < custom.len()
        invariant
            i <= custom@.len(),
            tv == entries_view(custom@),
            tv.len() == custom@.len(),
            forall|j: int|
                0 <= j < custom@.len() ==> #[trigger] tv[j] == (custom@[j].0@, value_view(custom@[j].1)),
            views(empty@) == Seq::<Seq<char>>::empty(),
            registry_wf(registry@),
            registry_paths(registry@) == entries_paths(tv.take(i as int), Seq::empty()),
        decreases custom.len() - i,
    {
        collect_custom_paths(custom[i].0.as_str(), &custom[i].1, &empty, &mut registry);
        proof {
            let next = tv.take(i + 1);
            assert(next.drop_last() =~= tv.take(i as int));
            assert(next.last() == tv[i as int]);
        }
        i = i + 1;
    }
    assert(tv.take(custom@.len() as int) =~= tv);
    let ghost paths = custom_table_paths(custom@);
    assert(registry_paths(registry@) == paths);
    let dots = dotted_paths(&registry);
    let n = registry.len();
    let mut a: usize = 0;
    while a < n
        invariant
            n == registry@.len(),
            a <= n,
            dots@.len() == n,
            paths == registry_paths(registry@),
            paths == custom_table_paths(custom@),
            paths.len() == n,
            registry_wf(registry@),
            forall|m: int| 0 <= m < dots@.len() ==> #[trigger] dots@[m]@ == dotted(entry_path(registry@[m])),
            forall|x: int, y: int| 0 <= x < a && 0 <= y < n ==> !conflict(paths, x, y),
        decreases n - a,
    {
        let mut b: usize = 0;
        while b < n
            invariant
                n == registry@.len(),
                a < n,
                b <= n,
                dots@.len() == n,
                paths == registry_paths(registry@),
                paths == custom_table_paths(custom@),
                paths.len() == n,
                registry_wf(registry@),
                forall|m: int| 0 <= m < dots@.len() ==> #[trigger] dots@[m]@ == dotted(entry_path(registry@[m])),
                forall|x: int, y: int| 0 <= x < a && 0 <= y < n ==> !conflict(paths, x, y),
                forall|y: int| 0 <= y < b ==> !conflict(paths, a as int, y),
            decreases n - b,
        {
            assert(paths[a as int] == entry_path(registry@[a as int]));
            assert(paths[b as int] == entry_path(registry@[b as int]));
            assert(registry@[a as int].env_prefix@ == prefix_of(paths[a as int]));
            assert(registry@[b as int].env_prefix@ == prefix_of(paths[b as int]));
            if str_eq(registry[a].env_prefix.as_str(), registry[b].env_prefix.as_str()) && !str_eq(
                dots[a].as_str(),
                dots[b].as_str(),
            ) {
                assert(conflict(paths, a as int, b as int));
                assert(has_conflict(paths));
                let e = ambiguity_error(&registry, &dots, a);
                assert(conflict(paths, a as int, b as int) && (e->AmbiguousNamespace_prefix)@ == prefix_of(paths[a as int]));
                return Err(e);
            }
            b = b + 1;
        }
        a = a + 1;
    }
    assert(!has_conflict(paths));
    Ok(registry)
}

/// `s` without the copies of `c` at its end.
pub open spec fn trim_trailing(s: Seq<char>, c: char) -> Seq<char>
    decreases s.len(),
{
    if s.len() > 0 && s.last() == c {
        trim_trailing(s.drop_last(), c)
    } else {
        s
    }
}

/// A variable named `env` belongs to the table with prefix `prefix` when
/// it starts with the prefix or is the prefix without its final `_`s.
pub open spec fn prefix_matches(prefix: Seq<char>, env: Seq<char>) -> bool {
    starts_with(env, prefix) || env == trim_trailing(prefix, '_')
}

/// Entry `i` is the one a variable named `env` selects: it matches, no
/// matching prefix is longer, and no earlier matching prefix is as long.
pub open spec fn chosen_entry(prefixes: Seq<Seq<char>>, env: Seq<char>, i: int) -> bool {
    &&& 0 <= i < prefixes.len()
    &&& prefix_matches(prefixes[i], env)
    &&& forall|j: int|
        0 <= j < prefixes.len() && prefix_matches(#[trigger] prefixes[j], env) ==> prefixes[j].len()
            <= prefixes[i].len()
    &&& forall|j: int|
        0 <= j < i && prefix_matches(#[trigger] prefixes[j], env) ==> prefixes[j].len() < prefixes[i].len()
}

/// At most one entry is chosen.
pub proof fn lemma_chosen_unique(prefixes: Seq<Seq<char>>, env: Seq<char>, i: int, j: int)
    requires
        chosen_entry(prefixes, env, i),
        chosen_entry(prefixes, env, j),
    ensures
        i == j,
{
    if i < j {
        assert(prefix_matches(prefixes[i], env));
    } else if j < i {
        assert(prefix_matches(prefixes[j], env));
    }
}

/// What a variable named `env` overrides: the chosen entry and the rest of
/// the name after its prefix; nothing when no entry matches or the rest is
/// empty.
pub open spec fn override_target(prefixes: Seq<Seq<char>>, env: Seq<char>) -> Option<(int, Seq<char>)> {
    if exists|i: int| chosen_entry(prefixes, env, i) {
        let i = choose|i: int| chosen_entry(prefixes, env, i);
        let rest = if starts_with(env, prefixes[i]) {
            env.skip(prefixes[i].len() as int)
        } else {
            Seq::empty()
        };
        if rest.len() == 0 {
            None
        } else {
            Some((i, rest))
        }
    } else {
        None
    }
}

fn trim_trailing_str(s: &str, c: char) -> (r: String)
    ensures
        r@ == trim_trailing(s@, c),
{
    let v = chars_of(s);
    let mut j = v.len();
    assert(v@.take(j as int) =~= v@);
    while j > 0 && v[j - 1] == c
        invariant
            j <= v@.len(),
            trim_trailing(v@, c) == trim_trailing(v@.take(j as int), c),
        decreases j,
    {
        assert(v@.take(j as int).drop_last() =~= v@.take(j - 1));
        j = j - 1;
    }
    assert(v@.subrange(0, j as int) =~= v@.take(j as int));
    string_of_range(&v, 0, j)
}

proof fn lemma_registry_prefixes(r: Seq<NamespaceEntry>)
    requires
        registry_wf(r),
    ensures
        registry_prefixes(r) == registry_paths(r).map_values(|p: Seq<Seq<char>>| prefix_of(p)),
{
    assert(registry_prefixes(r) =~= registry_paths(r).map_values(|p: Seq<Seq<char>>| prefix_of(p)));
}

fn find_namespace(registry: &Vec<NamespaceEntry>, env: &str) -> (r: Option<usize>)
    ensures
        match r {
            Some(i) => chosen_entry(registry_prefixes(registry@), env@, i as int),
            None => forall|i: int|
                0 <= i < registry@.len() ==> !prefix_matches(
                    #[trigger] registry_prefixes(registry@)[i],
                    env@,
                ),
        },
{
    let ghost ps = registry_prefixes(registry@);
    let mut best: Option<usize> = None;
    let mut best_len: usize = 0;
    let mut i: usize = 0;
    while i < registry.len()
        invariant
            i <= registry@.len(),
            ps == registry_prefixes(registry@),
            ps.len() == registry@.len(),
            match best {
                Some(b) => b < i && best_len == ps[b as int].len() && chosen_entry(ps.take(i as int), env@, b as int),
                None => forall|j: int| 0 <= j < i ==> !prefix_matches(#[trigger] ps[j], env@),
            },
        decreases registry.len() - i,
    {
        let p = registry[i].env_prefix.as_str();
        assert(ps[i as int] == p@);
        let trimmed = trim_trailing_str(p, '_');
        let m = str_starts_with(env, p) || str_eq(env, trimmed.as_str());
        let plen = chars_of(p).len();
        let ghost t = ps.take(i + 1);
        assert forall|j: int| 0 <= j < i implies #[trigger] t[j] == ps.take(i as int)[j] by {}
        if m {
            match best {
                None => {
                    best = Some(i);
                    best_len = plen;
                },
                Some(b) => {
                    if plen > best_len {
                        best = Some(i);
                        best_len = plen;
                    }
                },
            }
        }
        i = i + 1;
    }
    assert(ps.take(registry@.len() as int) =~= ps);
    best
}

/// The table entry and the remaining name that a variable named `env_name`
/// overrides.
pub fn match_override(registry: &Vec<NamespaceEntry>, env_name: &str) -> (r: Option<(usize, String)>)
    ensures
        match r {
            Some((i, rest)) => override_target(registry_prefixes(registry@), env_name@) == Some(
                (i as int, rest@),
            ),
            None => override_target(registry_prefixes(registry@), env_name@) is None,
        },
{
    let ghost ps = registry_prefixes(registry@);
    match find_namespace(registry, env_name) {
        None => {
            assert(!exists|i: int| chosen_entry(ps, env_name@, i));
            None
        },
        Some(i) => {
            proof {
                let c = choose|c: int| chosen_entry(ps, env_name@, c);
                lemma_chosen_unique(ps, env_name@, c, i as int);
            }
            let p = registry[i].env_prefix.as_str();
            let v = chars_of(env_name);
            let plen = chars_of(p).len();
            let rest = if str_starts_with(env_name, p) {
                assert(v@.subrange(plen as int, v@.len() as int) =~= env_name@.skip(plen as int));
                string_of_range(&v, plen, v.len())
            } else {
                String::new()
            };
            if v.len() == plen || !str_starts_with(env_name, p) {
                assert(rest@.len() == 0);
                None
            } else {
                Some((i, rest))
            }
        },
    }
}

/// An environment variable as the loader sees it: its name, its text, and
/// the bits of the float that its trimmed text parses to, if it parses.
#[derive(Debug)]
pub struct EnvVar {
    pub name: String,
    pub value: String,
    pub float_bits: Option<u64>,
}

/// The custom tables after the namespaced overrides of `vars`, in order.
/// Variables named in `preset` were set before the `.env` file was read and
/// are skipped; the field name is the rest of the variable's name,
/// lowercased.
pub open spec fn apply_vars(
    custom: TableView,
    paths: Seq<Seq<Seq<char>>>,
    vars: Seq<EnvVar>,
    preset: Seq<Seq<char>>,
) -> TableView
    decreases vars.len(),
{
    if vars.len() == 0 {
        custom
    } else {
        let prev = apply_vars(custom, paths, vars.drop_last(), preset);
        let v = vars.last();
        if preset.contains(v.name@) {
            prev
        } else {
            match override_target(paths.map_values(|p: Seq<Seq<char>>| prefix_of(p)), v.name@) {
                None => prev,
                Some((i, rest)) => override_custom(
                    prev,
                    paths[i],
                    unicode_lowercase(rest),
                    coerced(v.value@, unicode_lowercase(trim(v.value@)), v.float_bits),
                ),
            }
        }
    }
}

/// A variable that selects a table reached through tables sets the field
/// its name ends with: reading the table's path and that field, lowercased,
/// gives the typed value of the variable.
pub proof fn lemma_override_read_back(
    custom: TableView,
    paths: Seq<Seq<Seq<char>>>,
    v: EnvVar,
    preset: Seq<Seq<char>>,
    i: int,
    rest: Seq<char>,
)
    requires
        !preset.contains(v.name@),
        override_target(paths.map_values(|p: Seq<Seq<char>>| prefix_of(p)), v.name@) == Some((i, rest)),
        paths[i].len() > 0,
        reaches_table(custom, paths[i]),
    ensures
        value_path(
            ValueView::Table(apply_vars(custom, paths, seq![v], preset)),
            paths[i].push(unicode_lowercase(rest)),
        ) == Some(coerced(v.value@, unicode_lowercase(trim(v.value@)), v.float_bits)),
{
    let vars = seq![v];
    assert(vars.drop_last() =~= Seq::<EnvVar>::empty());
    assert(vars.last() == v);
    let value = coerced(v.value@, unicode_lowercase(trim(v.value@)), v.float_bits);
    assert(apply_vars(custom, paths, vars.drop_last(), preset) == custom);
    assert(apply_vars(custom, paths, vars, preset) == override_custom(
        custom,
        paths[i],
        unicode_lowercase(rest),
        value,
    ));
    lemma_inject_path_read_back(custom, paths[i], unicode_lowercase(rest), value);
}

fn contains_name(v: &Vec<String>, s: &str) -> (r: bool)
    ensures
        r == views(v@).contains(s@),
{
    contains_string(v, s)
}

impl crate::config::Config {
    /// Reads the namespaced overrides of `vars` into the custom tables. An
    /// ambiguous set of tables is an error and changes nothing.
    pub fn collect_env_overrides(&mut self, vars: &Vec<EnvVar>, preset: &Vec<String>) -> (r: Result<(), ConfigError>)
        ensures
            r is Ok <==> !has_conflict(custom_table_paths(old(self).custom@)),
            r is Err ==> final(self).custom == old(self).custom,
            match r {
                Err(e) => e matches ConfigError::AmbiguousNamespace { prefix, candidates } && (exists|
                    i: int,
                    j: int,
                |
                    conflict(custom_table_paths(old(self).custom@), i, j) && prefix@ == prefix_of(
                        custom_table_paths(old(self).custom@)[i],
                    )) && candidates_of(custom_table_paths(old(self).custom@), prefix@, views(candidates@)),
                Ok(_) => true,
            },
            r is Ok ==> entries_view(final(self).custom@) == apply_vars(
                entries_view(old(self).custom@),
                custom_table_paths(old(self).custom@),
                vars@,
                views(preset@),
            ),
            final(self).env == old(self).env,
            final(self).app == old(self).app,
            final(self).server == old(self).server,
            final(self).database == old(self).database,
            final(self).cache == old(self).cache,
            final(self).queue == old(self).queue,
            final(self).security == old(self).security,
    {
        let registry = match build_namespace_registry(&self.custom) {
            Ok(reg) => reg,
            Err(e) => {
                return Err(e);
            },
        };
        let ghost paths = custom_table_paths(self.custom@);
        let ghost start = entries_view(self.custom@);
        proof {
            lemma_registry_prefixes(registry@);
            assert(vars@.take(0) =~= Seq::<EnvVar>::empty());
        }
        let mut i: usize = 0;
        while i < vars.len()
            invariant
                i <= vars@.len(),
                registry_wf(registry@),
                registry_paths(registry@) == paths,
                registry_prefixes(registry@) == paths.map_values(|p: Seq<Seq<char>>| prefix_of(p)),
                entries_view(self.custom@) == apply_vars(start, paths, vars@.take(i as int), views(preset@)),
                self.env == old(self).env,
                self.app == old(self).app,
                self.server == old(self).server,
                self.database == old(self).database,
                self.cache == old(self).cache,
                self.queue == old(self).queue,
                self.security == old(self).security,
            decreases vars.len() - i,
        {
            let ghost before = vars@.take(i as int);
            let ghost next = vars@.take(i + 1);
            assert(next.drop_last() =~= before);
            assert(next.last() == vars@[i as int]);
            let var = &vars[i];
            if !contains_name(preset, var.name.as_str()) {
                match match_override(&registry, var.name.as_str()) {
                    Some((k, rest)) => {
                        proof {
                            lemma_chosen_in_range(registry_prefixes(registry@), var.name@, k as int);
                        }
                        let field = to_lowercase(rest.as_str());
                        let value = coerce_env_value(var.value.as_str(), var.float_bits);
                        assert(paths[k as int] == views(registry@[k as int].config_path@));
                        inject_env_override(&mut self.custom, &registry[k].config_path, field.as_str(), value);
                    },
                    None => {},
                }
            }
            i = i + 1;
        }
        assert(vars@.take(vars@.len() as int) =~= vars@);
        Ok(())
    }
}

proof fn lemma_chosen_in_range(prefixes: Seq<Seq<char>>, env: Seq<char>, k: int)
    requires
        override_target(prefixes, env) matches Some((i, _)) && i == k,
    ensures
        0 <= k < prefixes.len(),
{
}

} // verus!
