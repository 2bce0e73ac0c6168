//! The development server's decisions: which file changes trigger a
//! rebuild, when a rebuild starts, which binary runs, and the environment it
//! gets.
use vstd::prelude::*;
use crate::cli::args::{last_index_of, RunOptions};
use crate::text::{
    chars_of, contains, file_name_of, lemma_views_push, owned, path_file_name, str_contains,
    str_eq, string_of_range, trim, trim_str, views, decimal, u64_to_string, starts_with,
    str_starts_with,
};

verus! {

/// Options of the development server: how to run the application, the
/// paths to watch, extra ignore patterns, and whether to reload on change.
#[derive(Clone, Debug)]
pub struct DevOptions {
    pub run: RunOptions,
    pub watch: Vec<String>,
    pub ignore: Vec<String>,
    pub hot_reload: bool,
}

impl Default for DevOptions {
    /// No run options, nothing extra to watch or ignore, no hot reload.
    fn default() -> (r: Self)
        ensures
            r.run.host is None,
            r.run.port is None,
            r.run.env is None,
            r.run.bin is None,
            r.watch@.len() == 0,
            r.ignore@.len() == 0,
            !r.hot_reload,
    {
        DevOptions {
            run: RunOptions { host: None, port: None, env: None, bin: None },
            watch: Vec::new(),
            ignore: Vec::new(),
            hot_reload: false,
        }
    }
}

/// The patterns that are always ignored: build output, dependencies and
/// version control, with either path separator.
pub open spec fn base_ignore_patterns() -> Seq<Seq<char>> {
    seq![
        "/target/"@,
        "\\target\\"@,
        "/node_modules/"@,
        "\\node_modules\\"@,
        "/.git/"@,
        "\\.git\\"@,
    ]
}

/// `pats` extended by the non-empty patterns of `extra` that are not in it
/// yet, in order.
pub open spec fn extend_patterns(pats: Seq<Seq<char>>, extra: Seq<Seq<char>>) -> Seq<Seq<char>>
    decreases extra.len(),
{
    if extra.len() == 0 {
        pats
    } else {
        let p = extend_patterns(pats, extra.drop_last());
        let e = extra.last();
        if e.len() > 0 && !p.contains(e) {
            p.push(e)
        } else {
            p
        }
    }
}

fn contains_str(v: &Vec<String>, s: &str) -> (r: bool)
    ensures
        r == views(v@).contains(s@),
{
    let mut i: usize = 0;
    while i < v.len()
        invariant
            i <= v@.len(),
            forall|j: int| 0 <= j < i ==> v@[j]@ != s@,
        decreases v.len() - i,
    {
        if str_eq(v[i].as_str(), s) {
            assert(views(v@)[i as int] == s@);
            return true;
        }
        i = i + 1;
    }
    assert forall|j: int| 0 <= j < views(v@).len() implies views(v@)[j] != s@ by {
        assert(views(v@)[j] == v@[j]@);
    }
    false
}

/// The patterns that the watcher ignores: the base ones and the extra ones.
pub fn default_ignore_patterns(extra: &Vec<String>) -> (r: Vec<String>)
    ensures
        views(r@) == extend_patterns(base_ignore_patterns(), views(extra@)),
{
    let mut r: Vec<String> = Vec::new();
    r.push(owned("/target/"));
    r.push(owned("\\target\\"));
    r.push(owned("/node_modules/"));
    r.push(owned("\\node_modules\\"));
    r.push(owned("/.git/"));
    r.push(owned("\\.git\\"));
    assert(views(r@) =~= base_ignore_patterns());
    let mut i: usize = 0;
    while i < extra.len()
        invariant
            i <= extra@.len(),
            views(r@) == extend_patterns(base_ignore_patterns(), views(extra@).take(i as int)),
        decreases extra.len() - i,
    {
        let ghost t = views(extra@).take(i + 1);
        assert(t.drop_last() =~= views(extra@).take(i as int));
        assert(t.last() == extra@[i as int]@);
        let e = extra[i].as_str();
        let nonempty = chars_of(e).len() > 0;
        if nonempty && !contains_str(&r, e) {
            let ghost old_r = r@;
            let x = owned(e);
            r.push(x);
            proof {
                lemma_views_push(old_r, x);
            }
        }
        i = i + 1;
    }
    assert(views(extra@).take(extra@.len() as int) =~= views(extra@));
    r
}

/// A path is ignored when it runs through build output, dependencies or
/// version control, or contains a non-empty ignore pattern.
pub open spec fn ignored(path: Seq<char>, patterns: Seq<Seq<char>>) -> bool {
    ||| contains(path, "/target/"@)
    ||| contains(path, "\\target\\"@)
    ||| contains(path, "/node_modules/"@)
    ||| contains(path, "\\node_modules\\"@)
    ||| contains(path, "/.git/"@)
    ||| contains(path, "\\.git\\"@)
    ||| exists|i: int| 0 <= i < patterns.len() && patterns[i].len() > 0 && contains(path, #[trigger] patterns[i])
}

/// Whether the watcher ignores a change of `path`.
pub fn should_ignore_path(path: &str, patterns: &Vec<String>) -> (r: bool)
    ensures
        r == ignored(path@, views(patterns@)),
{
    if str_contains(path, "/target/") || str_contains(path, "\\target\\") || str_contains(
        path,
        "/node_modules/",
    ) || str_contains(path, "\\node_modules\\") || str_contains(path, "/.git/") || str_contains(
        path,
        "\\.git\\",
    ) {
        return true;
    }
    let ghost pv = views(patterns@);
    let mut i: usize = 0;
    while i < patterns.len()
        invariant
            i <= patterns@.len(),
            pv == views(patterns@),
            forall|j: int| 0 <= j < i ==> !(pv[j].len() > 0 && contains(path@, #[trigger] pv[j])),
        decreases patterns.len() - i,
    {
        assert(pv[i as int] == patterns@[i as int]@);
        let p = patterns[i].as_str();
        if chars_of(p).len() > 0 && str_contains(path, p) {
            return true;
        }
        i = i + 1;
    }
    false
}

/// The extension of a file name, as `Path::extension` documents it: what
/// follows the last `.`, unless the name has no `.` or only a leading one.
pub open spec fn name_extension(name: Seq<char>) -> Option<Seq<char>> {
    if name == ".."@ {
        None
    } else {
        match last_index_of(name, '.') {
            None => None,
            Some(i) => if i == 0 {
                None
            } else {
                Some(name.skip(i + 1))
            },
        }
    }
}

/// The extensions of source and configuration files that a change of
/// triggers a reload.
pub open spec fn reload_extension(e: Seq<char>) -> bool {
    e == "rs"@ || e == "toml"@ || e == "html"@ || e == "css"@ || e == "js"@ || e == "sql"@ || e
        == "md"@ || e == "yaml"@ || e == "yml"@ || e == "json"@ || e == "env"@
}

/// Whether a change of `path` reloads the server: a manifest, lock file,
/// `oxidite.toml` or `.env` by name, or a file with a reload extension.
pub open spec fn reloadable(path: Seq<char>) -> bool {
    match path_file_name(path) {
        Some(f) => f == "Cargo.toml"@ || f == "Cargo.lock"@ || f == "oxidite.toml"@ || f == ".env"@
            || match name_extension(f) {
            Some(e) => reload_extension(e),
            None => false,
        },
        None => false,
    }
}

fn last_index_exec(s: &Vec<char>, c: char) -> (r: Option<usize>)
    ensures
        match r {
            Some(i) => last_index_of(s@, c) == Some(i as int) && i < s@.len(),
            None => last_index_of(s@, c) is None,
        },
{
    let mut i = s.len();
    assert(s@.take(i as int) =~= s@);
    while i > 0 && s[i - 1] != c
        invariant
            i <= s@.len(),
            last_index_of(s@, c) == last_index_of(s@.take(i as int), c),
        decreases i,
    {
        assert(s@.take(i as int).drop_last() =~= s@.take(i - 1));
        i = i - 1;
    }
    if i == 0 {
        assert(s@.take(0) =~= Seq::<char>::empty());
        None
    } else {
        assert(s@.take(i as int).last() == c);
        Some(i - 1)
    }
}

pub fn extension_of_name(name: &str) -> (r: Option<String>)
    ensures
        match r {
            Some(e) => name_extension(name@) == Some(e@),
            None => name_extension(name@) is None,
        },
{
    if str_eq(name, "..") {
        return None;
    }
    let v = chars_of(name);
    match last_index_exec(&v, '.') {
        None => None,
        Some(i) => {
            if i == 0 {
                None
            } else {
                assert(i < v.len());
                let e = string_of_range(&v, i + 1, v.len());
                assert(v@.subrange(i + 1, v@.len() as int) =~= name@.skip(i + 1));
                Some(e)
            }
        },
    }
}

/// Whether a change of `path` reloads the server.
pub fn is_reloadable_path(path: &str) -> (r: bool)
    ensures
        r == reloadable(path@),
{
    match file_name_of(path) {
        None => false,
        Some(f) => {
            let n = f.as_str();
            if str_eq(n, "Cargo.toml") || str_eq(n, "Cargo.lock") || str_eq(n, "oxidite.toml")
                || str_eq(n, ".env") {
                return true;
            }
            match extension_of_name(n) {
                None => false,
                Some(e) => {
                    let x = e.as_str();
                    str_eq(x, "rs") || str_eq(x, "toml") || str_eq(x, "html") || str_eq(x, "css")
                        || str_eq(x, "js") || str_eq(x, "sql") || str_eq(x, "md") || str_eq(x, "yaml")
                        || str_eq(x, "yml") || str_eq(x, "json") || str_eq(x, "env")
                },
            }
        },
    }
}

/// The kind of a file system event, as far as reloading cares.
#[derive(Debug, Clone, Copy, PartialEq, Eq, Structural)]
pub enum WatchEventKind {
    /// A file's data changed.
    DataModified,
    Created,
    Removed,
    /// Anything else (metadata, access, renames).
    Other,
}

/// A relevant event reloads when one of its paths is not ignored and is
/// reloadable.
pub open spec fn reloads(kind: WatchEventKind, paths: Seq<Seq<char>>, patterns: Seq<Seq<char>>) -> bool {
    kind != WatchEventKind::Other && exists|i: int|
        0 <= i < paths.len() && !ignored(#[trigger] paths[i], patterns) && reloadable(paths[i])
}

/// Whether a file system event should rebuild and restart the server.
pub fn should_reload(kind: WatchEventKind, paths: &Vec<String>, patterns: &Vec<String>) -> (r: bool)
    ensures
        r == reloads(kind, views(paths@), views(patterns@)),
{
    match kind {
        WatchEventKind::Other => {
            return false;
        },
        _ => {},
    }
    let ghost pv = views(paths@);
    let mut i: usize = 0;
    while i < paths.len()
        invariant
            i <= paths@.len(),
            pv == views(paths@),
            kind != WatchEventKind::Other,
            forall|j: int|
                0 <= j < i ==> !(!ignored(#[trigger] pv[j], views(patterns@)) && reloadable(pv[j])),
        decreases paths.len() - i,
    {
        assert(pv[i as int] == paths@[i as int]@);
        let p = paths[i].as_str();
        if !should_ignore_path(p, patterns) && is_reloadable_path(p) {
            assert(!ignored(pv[i as int], views(patterns@)) && reloadable(pv[i as int]));
            return true;
        }
        i = i + 1;
    }
    false
}

/// The rebuild state of the development server.
#[derive(Debug)]
pub struct DevState {
    /// A change asked for a rebuild.
    pub should_rebuild: bool,
    /// A rebuild is running.
    pub build_in_progress: bool,
    /// When the last rebuild was asked for, in milliseconds.
    pub last_restart_ms: u64,
}

/// Changes closer together than this are one change.
pub const DEBOUNCE_MS: u64 = 200;

impl DevState {
    /// The state after the first build, at time `now_ms`.
    pub fn new(now_ms: u64) -> (r: DevState)
        ensures
            !r.should_rebuild,
            !r.build_in_progress,
            r.last_restart_ms == now_ms,
    {
        DevState { should_rebuild: false, build_in_progress: false, last_restart_ms: now_ms }
    }

    /// Records an event at `now_ms`: a reloading event asks for a rebuild
    /// unless it comes within the debounce time of the last one. Then, when
    /// a rebuild is asked for and none runs, one starts: the answer says so.
    pub fn on_event(&mut self, reload: bool, now_ms: u64) -> (start: bool)
        ensures
            ({
                let asked = old(self).should_rebuild || (reload && now_ms > old(self).last_restart_ms
                    && now_ms - old(self).last_restart_ms > DEBOUNCE_MS);
                &&& final(self).last_restart_ms == if reload && now_ms > old(self).last_restart_ms
                    && now_ms - old(self).last_restart_ms > DEBOUNCE_MS {
                    now_ms
                } else {
                    old(self).last_restart_ms
                }
                &&& start == (asked && !old(self).build_in_progress)
                &&& final(self).should_rebuild == (asked && old(self).build_in_progress)
                &&& final(self).build_in_progress == (old(self).build_in_progress || start)
            }),
    {
        if reload && now_ms > self.last_restart_ms && now_ms - self.last_restart_ms > DEBOUNCE_MS {
            self.should_rebuild = true;
            self.last_restart_ms = now_ms;
        }
        if self.should_rebuild && !self.build_in_progress {
            self.should_rebuild = false;
            self.build_in_progress = true;
            true
        } else {
            false
        }
    }

    /// Records that the running rebuild ended.
    pub fn on_build_finished(&mut self)
        ensures
            !final(self).build_in_progress,
            final(self).should_rebuild == old(self).should_rebuild,
            final(self).last_restart_ms == old(self).last_restart_ms,
    {
        self.build_in_progress = false;
    }
}

/// The package name in a manifest: the first line that starts with
/// `name = `, without surrounding quotes and then whitespace.
pub open spec fn manifest_name(lines: Seq<Seq<char>>) -> Option<Seq<char>>
    decreases lines.len(),
{
    if lines.len() == 0 {
        None
    } else if starts_with(lines[0], "name = "@) {
        Some(trim(trim_quotes(lines[0].skip(7))))
    } else {
        manifest_name(lines.drop_first())
    }
}

/// `s` without the `"` characters at either end.
pub open spec fn trim_quotes(s: Seq<char>) -> Seq<char>
    decreases s.len(),
{
    if s.len() > 0 && s[0] == '"' {
        trim_quotes(s.drop_first())
    } else if s.len() > 0 && s.last() == '"' {
        trim_quotes(s.drop_last())
    } else {
        s
    }
}

fn trim_quotes_exec(s: &str) -> (r: String)
    ensures
        r@ == trim_quotes(s@),
{
    let v = chars_of(s);
    let mut a: usize = 0;
    let mut b: usize = v.len();
    assert(v@.subrange(0, v@.len() as int) =~= v@);
    while a < b && (v[a] == '"' || v[b - 1] == '"')
        invariant
            a <= b <= v@.len(),
            trim_quotes(s@) == trim_quotes(v@.subrange(a as int, b as int)),
            v@ == s@,
        decreases b - a,
    {
        let ghost t = v@.subrange(a as int, b as int);
        if v[a] == '"' {
            assert(t.drop_first() =~= v@.subrange(a + 1, b as int));
            a = a + 1;
        } else {
            assert(t.drop_last() =~= v@.subrange(a as int, b - 1));
            b = b - 1;
        }
    }
    proof {
        assert(v@.subrange(0, v@.len() as int) =~= v@);
    }
    string_of_range(&v, a, b)
}

/// The binary to run: the one asked for, else the package named in the
/// manifest (its lines), else `app`.
pub fn binary_name(bin: Option<&str>, manifest_lines: &Vec<String>) -> (r: String)
    ensures
        r@ == match bin {
            Some(b) => b@,
            None => match manifest_name(views(manifest_lines@)) {
                Some(n) => n,
                None => "app"@,
            },
        },
{
    match bin {
        Some(b) => owned(b),
        None => {
            let ghost lv = views(manifest_lines@);
            let mut i: usize = 0;
            assert(lv.skip(0) =~= lv);
            while i < manifest_lines.len()
                invariant
                    i <= manifest_lines@.len(),
                    bin is None,
                    lv == views(manifest_lines@),
                    manifest_name(lv) == manifest_name(lv.skip(i as int)),
                decreases manifest_lines.len() - i,
            {
                let line = manifest_lines[i].as_str();
                assert(lv.skip(i as int)[0] == line@);
                proof {
                    reveal_strlit("name = ");
                }
                if str_starts_with(line, "name = ") {
                    let v = chars_of(line);
                    let rest = string_of_range(&v, 7, v.len());
                    proof {
                        reveal_strlit("name = ");
                        assert(rest@ =~= line@.skip(7));
                    }
                    let unquoted = trim_quotes_exec(rest.as_str());
                    return trim_str(unquoted.as_str());
                }
                assert(lv.skip(i as int).drop_first() =~= lv.skip(i + 1));
                i = i + 1;
            }
            assert(lv.skip(manifest_lines@.len() as int) =~= Seq::<Seq<char>>::empty());
            owned("app")
        },
    }
}

/// The environment that a run passes to the application: `SERVER_HOST`,
/// `SERVER_PORT` and `OXIDITE_ENV` from the options that are set, in that
/// order.
pub open spec fn run_env(o: RunOptions) -> Seq<(Seq<char>, Seq<char>)> {
    (match o.host {
        Some(h) => seq![("SERVER_HOST"@, h@)],
        None => Seq::empty(),
    }) + (match o.port {
        Some(p) => seq![("SERVER_PORT"@, decimal(p as nat))],
        None => Seq::empty(),
    }) + (match o.env {
        Some(e) => seq![("OXIDITE_ENV"@, e@)],
        None => Seq::empty(),
    })
}

pub fn run_env_vars(options: &RunOptions) -> (r: Vec<(String, String)>)
    ensures
        r@.map_values(|p: (String, String)| (p.0@, p.1@)) == run_env(*options),
{
    let mut r: Vec<(String, String)> = Vec::new();
    match &options.host {
        Some(h) => r.push((owned("SERVER_HOST"), owned(h.as_str()))),
        None => {},
    }
    let ghost a = r@.map_values(|p: (String, String)| (p.0@, p.1@));
    match options.port {
        Some(p) => r.push((owned("SERVER_PORT"), u64_to_string(p as u64))),
        None => {},
    }
    let ghost b = r@.map_values(|p: (String, String)| (p.0@, p.1@));
    match &options.env {
        Some(e) => r.push((owned("OXIDITE_ENV"), owned(e.as_str()))),
        None => {},
    }
    proof {
        let host_part: Seq<(Seq<char>, Seq<char>)> = match &options.host {
            Some(h) => seq![("SERVER_HOST"@, h@)],
            None => Seq::empty(),
        };
        let port_part: Seq<(Seq<char>, Seq<char>)> = match options.port {
            Some(p) => seq![("SERVER_PORT"@, decimal(p as nat))],
            None => Seq::empty(),
        };
        assert(a =~= host_part);
        assert(b =~= host_part + port_part);
        assert(r@.map_values(|p: (String, String)| (p.0@, p.1@)) =~= run_env(*options));
    }
    r
}

} // verus!
