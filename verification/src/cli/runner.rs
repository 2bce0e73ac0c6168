//! Running single Rust files: which dependencies a script gets, the
//! manifest of its cached project, and how extra dependencies are written
//! into a project's manifest.
use vstd::prelude::*;
use crate::cli::dev::name_extension;
use crate::text::{
    chars_of, concat, contains, file_name_of, join, join_strings, lemma_views_push, owned,
    path_file_name, push_str, split_by_char, split_char, split_once_by_char, split_once_char,
    starts_with, str_contains, str_eq, str_starts_with, string_of_range, trim, trim_str, views,
};

verus! {

/// Whether `path` names a Rust source file (extension `rs`).
pub open spec fn is_rust_file(path: Seq<char>) -> bool {
    match path_file_name(path) {
        Some(f) => name_extension(f) == Some("rs"@),
        None => false,
    }
}

pub fn is_rust_script(path: &str) -> (r: bool)
    ensures
        r == is_rust_file(path@),
{
    match file_name_of(path) {
        None => false,
        Some(f) => match crate::cli::dev::extension_of_name(f.as_str()) {
            Some(e) => str_eq(e.as_str(), "rs"),
            None => false,
        },
    }
}

/// The dependencies that every script gets, as `(name, version text)`.
pub open spec fn base_script_deps() -> Seq<(Seq<char>, Seq<char>)> {
    seq![
        ("oxidite"@, "\"2.3.4\""@),
        ("tokio"@, "{ version = \"1\", features = [\"full\"] }"@),
        ("oxidite-core"@, "\"*\""@),
        ("oxidite-middleware"@, "\"*\""@),
        ("oxidite-config"@, "\"*\""@),
        ("oxidite-db"@, "\"*\""@),
        ("oxidite-auth"@, "\"*\""@),
        ("oxidite-queue"@, "\"*\""@),
        ("oxidite-cache"@, "\"*\""@),
        ("oxidite-realtime"@, "\"*\""@),
        ("oxidite-template"@, "\"*\""@),
        ("oxidite-mail"@, "\"*\""@),
        ("oxidite-storage"@, "\"*\""@),
        ("oxidite-security"@, "\"*\""@),
        ("oxidite-macros"@, "\"*\""@),
        ("oxidite-utils"@, "\"*\""@),
        ("oxidite-openapi"@, "\"*\""@),
        ("oxidite-graphql"@, "\"*\""@),
        ("oxidite-plugin"@, "\"*\""@),
        ("serde"@, "{ version = \"1\", features = [\"derive\"] }"@),
        ("serde_json"@, "\"1\""@),
    ]
}

/// One `--deps` entry: `name@version` gives that version, a bare name any
/// version.
pub open spec fn dep_entry(dep: Seq<char>) -> (Seq<char>, Seq<char>) {
    match split_once_char(dep, '@') {
        Some((n, v)) => (trim(n), "\""@ + trim(v) + "\""@),
        None => (dep, "\"*\""@),
    }
}

/// The entries of a comma-separated `--deps` list, trimmed, empty ones
/// skipped.
pub open spec fn extra_deps(pieces: Seq<Seq<char>>) -> Seq<(Seq<char>, Seq<char>)>
    decreases pieces.len(),
{
    if pieces.len() == 0 {
        Seq::empty()
    } else {
        let p = extra_deps(pieces.drop_last());
        let d = trim(pieces.last());
        if d.len() == 0 {
            p
        } else {
            p.push(dep_entry(d))
        }
    }
}

/// All dependencies of a script run with `--deps extra`.
pub open spec fn script_deps(extra: Option<Seq<char>>) -> Seq<(Seq<char>, Seq<char>)> {
    base_script_deps() + match extra {
        Some(e) => extra_deps(split_char(e, ',')),
        None => Seq::empty(),
    }
}

pub open spec fn pair_views(v: Seq<(String, String)>) -> Seq<(Seq<char>, Seq<char>)> {
    v.map_values(|p: (String, String)| (p.0@, p.1@))
}

fn push_pair(v: &mut Vec<(String, String)>, a: &str, b: &str)
    ensures
        pair_views(final(v)@) == pair_views(old(v)@).push((a@, b@)),
{
    let ghost before = v@;
    v.push((owned(a), owned(b)));
    assert(pair_views(v@) =~= pair_views(before).push((a@, b@)));
}

/// The dependencies of a script: the base ones, then those of `--deps`.
pub fn script_dependencies(extra: Option<&str>) -> (r: Vec<(String, String)>)
    ensures
        pair_views(r@) == script_deps(match extra {
            Some(e) => Some(e@),
            None => None,
        }),
{
    let mut r: Vec<(String, String)> = Vec::new();
    push_pair(&mut r, "oxidite", "\"2.3.4\"");
    push_pair(&mut r, "tokio", "{ version = \"1\", features = [\"full\"] }");
    push_pair(&mut r, "oxidite-core", "\"*\"");
    push_pair(&mut r, "oxidite-middleware", "\"*\"");
    push_pair(&mut r, "oxidite-config", "\"*\"");
    push_pair(&mut r, "oxidite-db", "\"*\"");
    push_pair(&mut r, "oxidite-auth", "\"*\"");
    push_pair(&mut r, "oxidite-queue", "\"*\"");
    push_pair(&mut r, "oxidite-cache", "\"*\"");
    push_pair(&mut r, "oxidite-realtime", "\"*\"");
    push_pair(&mut r, "oxidite-template", "\"*\"");
    push_pair(&mut r, "oxidite-mail", "\"*\"");
    push_pair(&mut r, "oxidite-storage", "\"*\"");
    push_pair(&mut r, "oxidite-security", "\"*\"");
    push_pair(&mut r, "oxidite-macros", "\"*\"");
    push_pair(&mut r, "oxidite-utils", "\"*\"");
    push_pair(&mut r, "oxidite-openapi", "\"*\"");
    push_pair(&mut r, "oxidite-graphql", "\"*\"");
    push_pair(&mut r, "oxidite-plugin", "\"*\"");
    push_pair(&mut r, "serde", "{ version = \"1\", features = [\"derive\"] }");
    push_pair(&mut r, "serde_json", "\"1\"");
    assert(pair_views(r@) =~= base_script_deps());
    match extra {
        None => {
            assert(pair_views(r@) =~= base_script_deps() + Seq::<(Seq<char>, Seq<char>)>::empty());
        },
        Some(e) => {
            let pieces = split_by_char(e, ',');
            let ghost pv = views(pieces@);
            let ghost base = pair_views(r@);
            let mut i: usize = 0;
            assert(pv.take(0) =~= Seq::<Seq<char>>::empty());
            assert(base =~= base + extra_deps(pv.take(0)));
            while i < pieces.len()
                invariant
                    i <= pieces@.len(),
                    pv == views(pieces@),
                    pv == split_char(e@, ','),
                    pair_views(r@) == base + extra_deps(pv.take(i as int)),
                decreases pieces.len() - i,
            {
                let ghost t = pv.take(i + 1);
                assert(t.drop_last() =~= pv.take(i as int));
                assert(t.last() == pieces@[i as int]@);
                let d = trim_str(pieces[i].as_str());
                if chars_of(d.as_str()).len() > 0 {
                    match split_once_by_char(d.as_str(), '@') {
                        Some((n, v)) => {
                            let name = trim_str(n.as_str());
                            let mut version = concat("\"", trim_str(v.as_str()).as_str());
                            push_str(&mut version, "\"");
                            push_pair(&mut r, name.as_str(), version.as_str());
                        },
                        None => {
                            push_pair(&mut r, d.as_str(), "\"*\"");
                        },
                    }
                }
                i = i + 1;
            }
            assert(pv.take(pieces@.len() as int) =~= pv);
        },
    }
    r
}

/// The manifest of a script's cached project.
pub open spec fn script_manifest(deps: Seq<(Seq<char>, Seq<char>)>) -> Seq<char> {
    "[package]\nname = \"oxidite-script\"\nversion = \"0.1.0\"\nedition = \"2021\"\n\n[dependencies]\n"@
        + join(deps.map_values(|d: (Seq<char>, Seq<char>)| d.0 + " = "@ + d.1), "\n"@) + "\n"@
}

pub fn script_cargo_toml(deps: &Vec<(String, String)>) -> (r: String)
    ensures
        r@ == script_manifest(pair_views(deps@)),
{
    let mut lines: Vec<String> = Vec::new();
    let mut i: usize = 0;
    while i < deps.len()
        invariant
            i <= deps@.len(),
            views(lines@) == pair_views(deps@).take(i as int).map_values(
                |d: (Seq<char>, Seq<char>)| d.0 + " = "@ + d.1,
            ),
        decreases deps.len() - i,
    {
        let ghost old_l = lines@;
        let mut line = concat(deps[i].0.as_str(), " = ");
        push_str(&mut line, deps[i].1.as_str());
        lines.push(line);
        proof {
            lemma_views_push(old_l, line);
            assert(views(lines@) =~= pair_views(deps@).take(i + 1).map_values(
                |d: (Seq<char>, Seq<char>)| d.0 + " = "@ + d.1,
            ));
        }
        i = i + 1;
    }
    assert(pair_views(deps@).take(deps@.len() as int) =~= pair_views(deps@));
    let mut r = owned(
        "[package]\nname = \"oxidite-script\"\nversion = \"0.1.0\"\nedition = \"2021\"\n\n[dependencies]\n",
    );
    let body = join_strings(&lines, "\n");
    push_str(&mut r, body.as_str());
    push_str(&mut r, "\n");
    r
}

/// Whether a file must be written: it is missing or holds other text.
pub fn needs_write(existing: Option<&str>, content: &str) -> (r: bool)
    ensures
        r == match existing {
            Some(e) => e@ != content@,
            None => true,
        },
{
    match existing {
        Some(e) => !str_eq(e, content),
        None => true,
    }
}

/// `str::lines`: the pieces between `\n`s, a `\r` before a `\n` dropped,
/// and no final empty line after a final `\n`.
pub open spec fn text_lines(s: Seq<char>) -> Seq<Seq<char>> {
    let pieces = split_char(s, '\n');
    let n = pieces.len();
    let body = Seq::new(
        (n - 1) as nat,
        |i: int|
            if pieces[i].len() > 0 && pieces[i].last() == '\r' {
                pieces[i].drop_last()
            } else {
                pieces[i]
            },
    );
    if pieces[n - 1].len() == 0 {
        body
    } else {
        body.push(pieces[n - 1])
    }
}

/// The lines of a text.
pub fn lines_of(s: &str) -> (r: Vec<String>)
    ensures
        views(r@) == text_lines(s@),
{
    let pieces = split_by_char(s, '\n');
    proof {
        crate::text::lemma_split_from_len(Seq::empty(), s@, '\n');
    }
    let ghost pv = views(pieces@);
    let n = pieces.len();
    let mut r: Vec<String> = Vec::new();
    let mut i: usize = 0;
    while i + 1 < n
        invariant
            n == pieces@.len(),
            n >= 1,
            i + 1 <= n,
            pv == views(pieces@),
            pv == split_char(s@, '\n'),
            views(r@) == Seq::new(
                i as nat,
                |k: int|
                    if pv[k].len() > 0 && pv[k].last() == '\r' {
                        pv[k].drop_last()
                    } else {
                        pv[k]
                    },
            ),
        decreases n - i,
    {
        let ghost old_r = r@;
        let v = chars_of(pieces[i].as_str());
        assert(v@ == pv[i as int]);
        let line = if v.len() > 0 && v[v.len() - 1] == '\r' {
            assert(v@.subrange(0, v@.len() - 1) =~= pv[i as int].drop_last());
            string_of_range(&v, 0, v.len() - 1)
        } else {
            owned(pieces[i].as_str())
        };
        r.push(line);
        proof {
            lemma_views_push(old_r, line);
            assert(views(r@) =~= Seq::new(
                (i + 1) as nat,
                |k: int|
                    if pv[k].len() > 0 && pv[k].last() == '\r' {
                        pv[k].drop_last()
                    } else {
                        pv[k]
                    },
            ));
        }
        i = i + 1;
    }
    let last = pieces[n - 1].as_str();
    assert(pv[n - 1] == last@);
    if chars_of(last).len() > 0 {
        let ghost old_r = r@;
        let l = owned(last);
        r.push(l);
        proof {
            lemma_views_push(old_r, l);
        }
    }
    r
}

/// The loop that writes a dependency line: it goes right before the first
/// section header after `[dependencies]`; the state is the lines written,
/// whether the scan is inside `[dependencies]`, and whether the line was
/// written.
pub open spec fn dep_fold(lines: Seq<Seq<char>>, dep_line: Seq<char>) -> (Seq<Seq<char>>, bool, bool)
    decreases lines.len(),
{
    if lines.len() == 0 {
        (Seq::empty(), false, false)
    } else {
        let (out, in_deps, inserted) = dep_fold(lines.drop_last(), dep_line);
        let line = lines.last();
        let t = trim(line);
        let header = t.len() > 0 && t[0] == '[';
        let before = header && in_deps && !inserted;
        let out1 = if before {
            out.push(dep_line)
        } else {
            out
        };
        let in1 = if before {
            false
        } else {
            in_deps
        };
        let ins1 = inserted || before;
        let in2 = if t == "[dependencies]"@ {
            true
        } else {
            in1
        };
        (out1.push(line), in2, ins1)
    }
}

/// The manifest with the line `dep = "*"` added to `[dependencies]` (at the
/// end when that section is last), lines joined with `\n`.
pub open spec fn insert_dep(toml: Seq<char>, dep: Seq<char>) -> Seq<char> {
    let dep_line = dep + " = \"*\""@;
    let (out, _, inserted) = dep_fold(text_lines(toml), dep_line);
    join(
        if inserted {
            out
        } else {
            out.push(dep_line)
        },
        "\n"@,
    )
}

/// The manifest after adding each dependency of a comma-separated list
/// that it does not mention yet (as `dep = ` or `dep=`), when it has a
/// `[dependencies]` section; and whether it changed.
pub open spec fn add_deps(toml: Seq<char>, pieces: Seq<Seq<char>>) -> (Seq<char>, bool)
    decreases pieces.len(),
{
    if pieces.len() == 0 {
        (toml, false)
    } else {
        let (t, changed) = add_deps(toml, pieces.drop_last());
        let dep = trim(pieces.last());
        if dep.len() > 0 && !contains(t, dep + " = "@) && !contains(t, dep + "="@) && contains(
            t,
            "[dependencies]"@,
        ) {
            (insert_dep(t, dep), true)
        } else {
            (t, changed)
        }
    }
}

fn insert_dep_exec(toml: &str, dep: &str) -> (r: String)
    ensures
        r@ == insert_dep(toml@, dep@),
{
    let dep_line = concat(dep, " = \"*\"");
    let lines = lines_of(toml);
    let ghost lv = views(lines@);
    let mut out: Vec<String> = Vec::new();
    let mut in_deps = false;
    let mut inserted = false;
    let mut i: usize = 0;
    assert(lv.take(0) =~= Seq::<Seq<char>>::empty());
    while i < lines.len()
        invariant
            i <= lines@.len(),
            lv == views(lines@),
            lv == text_lines(toml@),
            dep_line@ == dep@ + " = \"*\""@,
            dep_fold(lv.take(i as int), dep_line@) == (views(out@), in_deps, inserted),
        decreases lines.len() - i,
    {
        let ghost t = lv.take(i + 1);
        assert(t.drop_last() =~= lv.take(i as int));
        assert(t.last() == lines@[i as int]@);
        let line = lines[i].as_str();
        let tl = trim_str(line);
        let tv = chars_of(tl.as_str());
        let header = tv.len() > 0 && tv[0] == '[';
        if header && in_deps && !inserted {
            let ghost old_o = out@;
            let d = owned(dep_line.as_str());
            out.push(d);
            proof {
                lemma_views_push(old_o, d);
            }
            inserted = true;
            in_deps = false;
        }
        if str_eq(tl.as_str(), "[dependencies]") {
            in_deps = true;
        }
        let ghost old_o = out@;
        let l = owned(line);
        out.push(l);
        proof {
            lemma_views_push(old_o, l);
        }
        i = i + 1;
    }
    assert(lv.take(lines@.len() as int) =~= lv);
    if !inserted {
        let ghost old_o = out@;
        let d = owned(dep_line.as_str());
        out.push(d);
        proof {
            lemma_views_push(old_o, d);
        }
    }
    join_strings(&out, "\n")
}

/// Adds the dependencies of a comma-separated list to a manifest's text;
/// `None` when nothing was added.
pub fn with_dependencies(cargo_toml: &str, deps: &str) -> (r: Option<String>)
    ensures
        match r {
            Some(t) => add_deps(cargo_toml@, split_char(deps@, ',')) == (t@, true),
            None => add_deps(cargo_toml@, split_char(deps@, ',')).1 == false,
        },
{
    let pieces = split_by_char(deps, ',');
    let ghost pv = views(pieces@);
    let mut toml = owned(cargo_toml);
    let mut changed = false;
    let mut i: usize = 0;
    assert(pv.take(0) =~= Seq::<Seq<char>>::empty());
    while i < pieces.len()
        invariant
            i <= pieces@.len(),
            pv == views(pieces@),
            pv == split_char(deps@, ','),
            add_deps(cargo_toml@, pv.take(i as int)) == (toml@, changed),
        decreases pieces.len() - i,
    {
        let ghost t = pv.take(i + 1);
        assert(t.drop_last() =~= pv.take(i as int));
        assert(t.last() == pieces@[i as int]@);
        let dep = trim_str(pieces[i].as_str());
        if chars_of(dep.as_str()).len() > 0 {
            let a = concat(dep.as_str(), " = ");
            let b = concat(dep.as_str(), "=");
            if !str_contains(toml.as_str(), a.as_str()) && !str_contains(toml.as_str(), b.as_str())
                && str_contains(toml.as_str(), "[dependencies]") {
                toml = insert_dep_exec(toml.as_str(), dep.as_str());
                changed = true;
            }
        }
        i = i + 1;
    }
    assert(pv.take(pieces@.len() as int) =~= pv);
    if changed {
        Some(toml)
    } else {
        None
    }
}

} // verus!
