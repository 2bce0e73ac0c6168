//! Migration files: their names, their text, their order and which of them
//! are still to run.
use vstd::prelude::*;
use crate::cli::args::last_index_of;
use crate::cli::dev::{extension_of_name, name_extension};
use crate::text::{
    chars_of, concat, find_spec, occurs_at, find_str_from, i64_to_string, lemma_find_spec, owned, push_str,
    remove_all, remove_all_str, signed_decimal, split_once_by_char, split_once_char,
    string_of_range, str_eq, trim, trim_str, views, all_newlines, contains, lemma_find_first,
    lemma_find_none, lemma_occurs_char, lemma_padded_no_occurrence, lemma_trim_padded, no_newline,
};

verus! {

/// A migration: its version (the file name without `.sql`), its name and
/// the SQL that applies and reverts it.
#[derive(Debug)]
pub struct Migration {
    pub version: String,
    pub name: String,
    pub up_sql: String,
    pub down_sql: String,
}

/// Why a migration file was not read.
#[derive(Debug, PartialEq, Eq)]
pub enum MigrationError {
    /// The file name has no `_` between version and name.
    InvalidFilename,
}

impl MigrationError {
    pub fn message(&self) -> (r: &'static str)
        ensures
            r@ == "Invalid migration filename"@,
    {
        "Invalid migration filename"
    }
}

/// The version of a migration created at `stamp`.
pub open spec fn version_of(stamp: Seq<char>, name: Seq<char>) -> Seq<char> {
    stamp + "_"@ + name
}

/// The shape of a `%Y%m%d%H%M%S` time stamp: the year in at least four
/// digits, with a leading sign only outside years 0 to 9999, then two digits
/// each for month, day, hour, minute and second.
pub open spec fn is_clock_stamp(s: Seq<char>) -> bool {
    &&& s.len() >= 14
    &&& ('0' <= s[0] <= '9' || s[0] == '+' || s[0] == '-')
    &&& forall|i: int| 1 <= i < s.len() ==> '0' <= #[trigger] s[i] <= '9'
}

/// `chrono::Utc::now().format("%Y%m%d%H%M%S").to_string()`: the current UTC
/// time. Which time it is comes from the clock and is not stated; the shape
/// of the text is what chrono's `%Y` (zero-padded to four digits, signed
/// beyond 0..=9999) and its two-digit zero-padded `%m %d %H %M %S` write.
#[verifier::external_body]
pub(crate) fn utc_stamp() -> (r: String)
    ensures
        is_clock_stamp(r@),
{
    chrono::Utc::now().format("%Y%m%d%H%M%S").to_string()
}

/// The text before the first `p` in `s`, or all of `s`.
pub open spec fn before_marker(s: Seq<char>, p: Seq<char>) -> Seq<char> {
    match find_spec(s, p, 0) {
        Some(i) => s.take(i),
        None => s,
    }
}

/// The text between the first and the second `p` in `s` (or the end), if
/// `p` occurs.
pub open spec fn after_marker(s: Seq<char>, p: Seq<char>) -> Option<Seq<char>> {
    match find_spec(s, p, 0) {
        Some(i) => Some(before_marker(s.skip(i + p.len()), p)),
        None => None,
    }
}

/// The SQL that applies a migration file's text: what precedes the first
/// `-- migrate:down`, without any `-- migrate:up`, trimmed.
pub open spec fn up_section(content: Seq<char>) -> Seq<char> {
    trim(remove_all(before_marker(content, "-- migrate:down"@), "-- migrate:up"@))
}

/// The SQL that reverts it: what follows the first `-- migrate:down` up to
/// a second one, trimmed; empty without a marker.
pub open spec fn down_section(content: Seq<char>) -> Seq<char> {
    match after_marker(content, "-- migrate:down"@) {
        Some(d) => trim(d),
        None => Seq::empty(),
    }
}

/// The text of a migration file.
pub open spec fn file_text(up: Seq<char>, down: Seq<char>) -> Seq<char> {
    "-- migrate:up\n"@ + up + "\n\n-- migrate:down\n"@ + down + "\n"@
}

fn before_marker_str(s: &str, p: &str) -> (r: String)
    ensures
        r@ == before_marker(s@, p@),
{
    let vs = chars_of(s);
    let vp = chars_of(p);
    match find_str_from(&vs, &vp, 0) {
        Some(i) => {
            proof {
                lemma_find_spec(s@, p@, 0);
            }
            let r = string_of_range(&vs, 0, i);
            assert(vs@.subrange(0, i as int) =~= s@.take(i as int));
            r
        },
        None => owned(s),
    }
}

fn after_marker_str(s: &str, p: &str) -> (r: Option<String>)
    ensures
        match r {
            Some(x) => after_marker(s@, p@) == Some(x@),
            None => after_marker(s@, p@) is None,
        },
{
    let vs = chars_of(s);
    let vp = chars_of(p);
    match find_str_from(&vs, &vp, 0) {
        Some(i) => {
            proof {
                lemma_find_spec(s@, p@, 0);
                assert(occurs_at(s@, p@, i as int));
                assert(i + vp@.len() <= vs@.len());
            }
            assert(vp.len() == vp@.len());
            assert(i + vp.len() <= vs.len());
            let rest = string_of_range(&vs, i + vp.len(), vs.len());
            assert(vs@.subrange(i + vp@.len(), vs@.len() as int) =~= s@.skip(i + p@.len()));
            Some(before_marker_str(rest.as_str(), p))
        },
        None => None,
    }
}

impl Migration {
    /// A new, empty migration named `name`, versioned by the current time.
    pub fn new(name: &str) -> (r: Migration)
        ensures
            exists|stamp: Seq<char>| is_clock_stamp(stamp) && r.version@ == version_of(stamp, name@),
            r.name@ == name@,
            r.up_sql@.len() == 0,
            r.down_sql@.len() == 0,
    {
        let stamp = utc_stamp();
        Migration::with_stamp(stamp.as_str(), name)
    }

    /// A new, empty migration named `name`, created at `stamp`.
    pub fn with_stamp(stamp: &str, name: &str) -> (r: Migration)
        ensures
            r.version@ == version_of(stamp@, name@),
            r.name@ == name@,
            r.up_sql@.len() == 0,
            r.down_sql@.len() == 0,
    {
        let mut version = concat(stamp, "_");
        push_str(&mut version, name);
        Migration { version, name: owned(name), up_sql: String::new(), down_sql: String::new() }
    }

    /// Reads a migration from the stem of its file name (`20240101120000_create_users`)
    /// and its text. The name is what follows the first `_`.
    pub fn parse(file_stem: &str, content: &str) -> (r: Result<Migration, MigrationError>)
        ensures
            match split_once_char(file_stem@, '_') {
                None => r == Err::<Migration, MigrationError>(MigrationError::InvalidFilename),
                Some((_, name)) => r matches Ok(m) && m.version@ == file_stem@ && m.name@ == name
                    && m.up_sql@ == up_section(content@) && m.down_sql@ == down_section(content@),
            },
    {
        let name = match split_once_by_char(file_stem, '_') {
            Some((_, n)) => n,
            None => {
                return Err(MigrationError::InvalidFilename);
            },
        };
        let head = before_marker_str(content, "-- migrate:down");
        let up_raw = remove_all_str(head.as_str(), "-- migrate:up");
        let up_sql = trim_str(up_raw.as_str());
        let down_sql = match after_marker_str(content, "-- migrate:down") {
            Some(d) => trim_str(d.as_str()),
            None => String::new(),
        };
        Ok(Migration { version: owned(file_stem), name, up_sql, down_sql })
    }

    /// The name of the migration's file.
    pub fn file_name(&self) -> (r: String)
        ensures
            r@ == self.version@ + ".sql"@,
    {
        concat(self.version.as_str(), ".sql")
    }

    /// The text of the migration's file.
    pub fn file_content(&self) -> (r: String)
        ensures
            r@ == file_text(self.up_sql@, self.down_sql@),
    {
        let mut r = concat("-- migrate:up\n", self.up_sql.as_str());
        push_str(&mut r, "\n\n-- migrate:down\n");
        push_str(&mut r, self.down_sql.as_str());
        push_str(&mut r, "\n");
        r
    }
}

/// A migration file written from trimmed SQL that holds no marker reads
/// back as the same SQL: the applying part before the `-- migrate:down`
/// marker and the reverting part after it.
pub proof fn lemma_migration_file_round_trip(up: Seq<char>, down: Seq<char>)
    requires
        trim(up) == up,
        trim(down) == down,
        !contains(up, "-- migrate:down"@),
        !contains(up, "-- migrate:up"@),
        !contains(down, "-- migrate:down"@),
    ensures
        up_section(file_text(up, down)) == up,
        down_section(file_text(up, down)) == down,
{
    let x = "-- migrate:up\n"@;
    let md = "-- migrate:down"@;
    let mu = "-- migrate:up"@;
    let nl = "\n"@;
    let nl2 = "\n\n"@;
    reveal_strlit("-- migrate:up\n");
    reveal_strlit("-- migrate:down");
    reveal_strlit("-- migrate:up");
    reveal_strlit("\n");
    reveal_strlit("\n\n");
    reveal_strlit("\n\n-- migrate:down\n");
    let content = file_text(up, down);
    let tail = md + nl + down + nl;
    let r = up + nl2 + tail;
    assert(content =~= x + r);
    assert(no_newline(md));
    assert(no_newline(mu));
    assert(all_newlines(nl));
    assert(all_newlines(nl2));
    let e = Seq::<char>::empty();
    assert(all_newlines(e));
    // The first `-- migrate:down` is the one after the applying SQL.
    let k: int = x.len() + up.len() + 2int;
    assert(content.subrange(k, k + md.len()) =~= md);
    assert forall|j: int| 0 <= j < k implies !occurs_at(content, md, j) by {
        if occurs_at(content, md, j) {
            if j < x.len() {
                lemma_occurs_char(content, md, j, 0);
                if j == 0 {
                    lemma_occurs_char(content, md, j, 11);
                } else if j == 1 {
                    lemma_occurs_char(content, md, j, 1);
                }
            } else if j + md.len() <= x.len() + up.len() {
                assert(up.subrange(j - x.len(), j - x.len() + md.len()) =~= content.subrange(j, j + md.len()));
                assert(occurs_at(up, md, j - x.len()));
            } else if j < x.len() + up.len() {
                let m = x.len() + up.len() - j;
                lemma_occurs_char(content, md, j, m);
            } else {
                lemma_occurs_char(content, md, j, 0);
            }
        }
    }
    lemma_find_first(content, md, k);
    let head = content.take(k);
    assert(head =~= x + up + nl2);
    // Taking out `-- migrate:up` leaves the applying SQL between line breaks.
    assert(head.subrange(0, mu.len() as int) =~= mu);
    lemma_find_first(head, mu, 0);
    let rest = head.skip(mu.len() as int);
    assert(rest =~= nl + up + nl2);
    lemma_padded_no_occurrence(nl, up, nl2, mu);
    lemma_find_none(rest, mu);
    assert(remove_all(rest, mu) == rest);
    assert(remove_all(head, mu) =~= head.take(0) + remove_all(rest, mu));
    assert(head.take(0) + rest =~= rest);
    lemma_trim_padded(nl, up, nl2);
    // The reverting SQL follows the marker up to the end.
    let after = content.skip(k + md.len());
    assert(after =~= nl + down + nl);
    lemma_padded_no_occurrence(nl, down, nl, md);
    lemma_find_none(after, md);
    lemma_trim_padded(nl, down, nl);
}

/// `Path::join` of a relative file name onto a directory: the name alone
/// for an empty directory, else the directory, a `/` unless it already ends
/// with one, and the name.
pub open spec fn join_path(dir: Seq<char>, file: Seq<char>) -> Seq<char> {
    if dir.len() == 0 {
        file
    } else if dir.last() == '/' {
        dir + file
    } else {
        dir + "/"@ + file
    }
}

pub fn join_path_str(dir: &str, file: &str) -> (r: String)
    ensures
        r@ == join_path(dir@, file@),
{
    let v = chars_of(dir);
    if v.len() == 0 {
        owned(file)
    } else if v[v.len() - 1] == '/' {
        concat(dir, file)
    } else {
        let mut r = concat(dir, "/");
        push_str(&mut r, file);
        r
    }
}

/// A file to write: where, and what.
#[derive(Debug)]
pub struct PlannedFile {
    pub path: String,
    pub content: String,
}

/// Manages the migrations of one directory.
#[derive(Debug)]
pub struct MigrationManager {
    pub migrations_dir: String,
}

impl MigrationManager {
    pub fn new(migrations_dir: &str) -> (r: MigrationManager)
        ensures
            r.migrations_dir@ == migrations_dir@,
    {
        MigrationManager { migrations_dir: owned(migrations_dir) }
    }

    /// The file that saves `m` in this manager's directory.
    pub fn file_for(&self, m: &Migration) -> (r: PlannedFile)
        ensures
            r.path@ == join_path(self.migrations_dir@, m.version@ + ".sql"@),
            r.content@ == file_text(m.up_sql@, m.down_sql@),
    {
        let name = m.file_name();
        PlannedFile { path: join_path_str(self.migrations_dir.as_str(), name.as_str()), content: m.file_content() }
    }

    /// A new empty migration named `name` and the file that holds it.
    pub fn create_migration(&self, name: &str) -> (r: PlannedFile)
        ensures
            exists|stamp: Seq<char>|
                is_clock_stamp(stamp) && r.path@ == join_path(
                    self.migrations_dir@,
                    version_of(stamp, name@) + ".sql"@,
                ),
            r.content@ == file_text(Seq::empty(), Seq::empty()),
    {
        let m = Migration::new(name);
        assert(m.up_sql@ =~= Seq::<char>::empty());
        assert(m.down_sql@ =~= Seq::<char>::empty());
        self.file_for(&m)
    }
}

/// `a` comes strictly before `b` in the order of `str::cmp`, character by
/// character (UTF-8 bytes order characters by code point).
pub open spec fn text_lt(a: Seq<char>, b: Seq<char>) -> bool
    decreases a.len(),
{
    if a.len() == 0 {
        b.len() > 0
    } else if b.len() == 0 {
        false
    } else if a[0] != b[0] {
        a[0] < b[0]
    } else {
        text_lt(a.drop_first(), b.drop_first())
    }
}

fn text_lt_exec(a: &str, b: &str) -> (r: bool)
    ensures
        r == text_lt(a@, b@),
{
    let va = chars_of(a);
    let vb = chars_of(b);
    let mut i: usize = 0;
    assert(va@.skip(0) =~= va@);
    assert(vb@.skip(0) =~= vb@);
    while i < va.len() && i < vb.len() && va[i] == vb[i]
        invariant
            i <= va@.len(),
            i <= vb@.len(),
            text_lt(va@, vb@) == text_lt(va@.skip(i as int), vb@.skip(i as int)),
        decreases va.len() - i,
    {
        assert(va@.skip(i as int).drop_first() =~= va@.skip(i + 1));
        assert(vb@.skip(i as int).drop_first() =~= vb@.skip(i + 1));
        i = i + 1;
    }
    if i == va.len() {
        i < vb.len()
    } else if i == vb.len() {
        false
    } else {
        va[i] < vb[i]
    }
}

pub open spec fn versions(ms: Seq<Migration>) -> Seq<Seq<char>> {
    ms.map_values(|m: Migration| m.version@)
}

/// Migrations ordered by version, no version after a larger one.
pub open spec fn sorted_by_version(ms: Seq<Migration>) -> bool {
    forall|i: int, j: int| 0 <= i < j < ms.len() ==> !text_lt(#[trigger] ms[j].version@, #[trigger] ms[i].version@)
}

proof fn lemma_text_lt_total(a: Seq<char>, b: Seq<char>)
    ensures
        !text_lt(a, b) ==> (a == b || text_lt(b, a)),
    decreases a.len(),
{
    if a.len() > 0 && b.len() > 0 && a[0] == b[0] {
        lemma_text_lt_total(a.drop_first(), b.drop_first());
        if a.drop_first() == b.drop_first() {
            assert(a =~= seq![a[0]] + a.drop_first());
            assert(b =~= seq![b[0]] + b.drop_first());
        }
    } else if a.len() == 0 && b.len() == 0 {
        assert(a =~= b);
    }
}

proof fn lemma_text_lt_trans(a: Seq<char>, b: Seq<char>, c: Seq<char>)
    requires
        !text_lt(b, a),
        !text_lt(c, b),
    ensures
        !text_lt(c, a),
    decreases a.len(),
{
    if a.len() > 0 && b.len() > 0 && c.len() > 0 && a[0] == b[0] && b[0] == c[0] {
        lemma_text_lt_trans(a.drop_first(), b.drop_first(), c.drop_first());
    }
}

/// The migrations found in a directory, ordered by version (`sort_by` on
/// the versions, which is stable).
pub fn order_migrations(found: Vec<Migration>) -> (r: Vec<Migration>)
    ensures
        r@.to_multiset() == found@.to_multiset(),
        sorted_by_version(r@),
{
    broadcast use vstd::seq_lib::group_to_multiset_ensures;

    let mut r: Vec<Migration> = Vec::new();
    let mut rest = found;
    let ghost all = rest@.to_multiset();
    assert(r@.to_multiset() =~= vstd::multiset::Multiset::<Migration>::empty());
    assert(r@.to_multiset().add(rest@.to_multiset()) =~= all);
    while rest.len() > 0
        invariant
            r@.to_multiset().add(rest@.to_multiset()) == all,
            sorted_by_version(r@),
        decreases rest.len(),
    {
        let ghost rest_before = rest@;
        let m = rest.pop().unwrap();
        assert(rest_before =~= rest@.push(m));
        proof {
            rest@.to_multiset_ensures();
        }
        let ghost before = r@;
        let mut pos = r.len();
        while pos > 0 && text_lt_exec(m.version.as_str(), r[pos - 1].version.as_str())
            invariant
                pos <= r@.len(),
                r@ == before,
                forall|k: int| pos <= k < r@.len() ==> text_lt(m.version@, #[trigger] r@[k].version@),
            decreases pos,
        {
            pos = pos - 1;
        }
        proof {
            if pos > 0 {
                lemma_text_lt_total(m.version@, r@[pos - 1].version@);
            }
        }
        r.insert(pos, m);
        proof {
            assert(r@ == before.insert(pos as int, m));
            assert forall|i: int, j: int| 0 <= i < j < r@.len() implies !text_lt(
                #[trigger] r@[j].version@,
                #[trigger] r@[i].version@,
            ) by {
                if i < pos && j == pos {
                    if i < pos - 1 {
                        assert(!text_lt(before[pos - 1].version@, before[i].version@));
                        lemma_text_lt_total(m.version@, before[pos - 1].version@);
                        if m.version@ == before[pos - 1].version@ {
                        } else {
                            lemma_text_lt_trans(before[i].version@, before[pos - 1].version@, m.version@);
                        }
                    }
                } else if i == pos && j > pos {
                    assert(text_lt(m.version@, before[j - 1].version@));
                    lemma_text_lt_total(before[j - 1].version@, m.version@);
                    lemma_text_lt_asym(m.version@, before[j - 1].version@);
                } else if i < pos && j > pos {
                    assert(!text_lt(before[j - 1].version@, before[i].version@));
                } else if i > pos {
                    assert(!text_lt(before[j - 1].version@, before[i - 1].version@));
                } else {
                    assert(!text_lt(before[j].version@, before[i].version@));
                }
            }
            assert(r@.remove(pos as int) =~= before);
            assert(r@[pos as int] == m);
            assert(r@.contains(m));
            r@.to_multiset_ensures();
            before.to_multiset_ensures();
            assert(r@.to_multiset().count(m) > 0);
            assert(before.to_multiset() =~= r@.to_multiset().remove(m));
            assert(r@.to_multiset() =~= before.to_multiset().insert(m));
            assert(r@.to_multiset().add(rest@.to_multiset()) =~= all);
        }
    }
    r
}

proof fn lemma_text_lt_asym(a: Seq<char>, b: Seq<char>)
    requires
        text_lt(a, b),
    ensures
        !text_lt(b, a),
    decreases a.len(),
{
    if a.len() > 0 && b.len() > 0 && a[0] == b[0] {
        lemma_text_lt_asym(a.drop_first(), b.drop_first());
    }
}

/// Texts in `str::cmp` order, none after a larger one.
pub open spec fn sorted_texts(v: Seq<String>) -> bool {
    forall|i: int, j: int| 0 <= i < j < v.len() ==> !text_lt(#[trigger] v[j]@, #[trigger] v[i]@)
}

/// Texts put in `str::cmp` order.
pub fn order_texts(found: Vec<String>) -> (r: Vec<String>)
    ensures
        r@.to_multiset() == found@.to_multiset(),
        sorted_texts(r@),
{
    broadcast use vstd::seq_lib::group_to_multiset_ensures;

    let mut r: Vec<String> = Vec::new();
    let mut rest = found;
    let ghost all = rest@.to_multiset();
    assert(r@.to_multiset() =~= vstd::multiset::Multiset::<String>::empty());
    assert(r@.to_multiset().add(rest@.to_multiset()) =~= all);
    while rest.len() > 0
        invariant
            r@.to_multiset().add(rest@.to_multiset()) == all,
            sorted_texts(r@),
        decreases rest.len(),
    {
        let ghost rest_before = rest@;
        let m = rest.pop().unwrap();
        assert(rest_before =~= rest@.push(m));
        proof {
            rest@.to_multiset_ensures();
        }
        let ghost before = r@;
        let mut pos = r.len();
        while pos > 0 && text_lt_exec(m.as_str(), r[pos - 1].as_str())
            invariant
                pos <= r@.len(),
                r@ == before,
                forall|k: int| pos <= k < r@.len() ==> text_lt(m@, #[trigger] r@[k]@),
            decreases pos,
        {
            pos = pos - 1;
        }
        proof {
            if pos > 0 {
                lemma_text_lt_total(m@, r@[pos - 1]@);
            }
        }
        let ghost mv = m@;
        r.insert(pos, m);
        proof {
            assert(r@ == before.insert(pos as int, r@[pos as int]));
            assert forall|i: int, j: int| 0 <= i < j < r@.len() implies !text_lt(
                #[trigger] r@[j]@,
                #[trigger] r@[i]@,
            ) by {
                if i < pos && j == pos {
                    if i < pos - 1 {
                        assert(!text_lt(before[pos - 1]@, before[i]@));
                        lemma_text_lt_total(mv, before[pos - 1]@);
                        if mv == before[pos - 1]@ {
                        } else {
                            lemma_text_lt_trans(before[i]@, before[pos - 1]@, mv);
                        }
                    }
                } else if i == pos && j > pos {
                    assert(text_lt(mv, before[j - 1]@));
                    lemma_text_lt_total(before[j - 1]@, mv);
                    lemma_text_lt_asym(mv, before[j - 1]@);
                } else if i < pos && j > pos {
                    assert(!text_lt(before[j - 1]@, before[i]@));
                } else if i > pos {
                    assert(!text_lt(before[j - 1]@, before[i - 1]@));
                } else {
                    assert(!text_lt(before[j]@, before[i]@));
                }
            }
            let x = r@[pos as int];
            assert(r@.remove(pos as int) =~= before);
            assert(r@.contains(x));
            r@.to_multiset_ensures();
            before.to_multiset_ensures();
            assert(r@.to_multiset().count(x) > 0);
            assert(before.to_multiset() =~= r@.to_multiset().remove(x));
            assert(r@.to_multiset() =~= before.to_multiset().insert(x));
            assert(rest_before.to_multiset() =~= rest@.to_multiset().insert(x));
            assert(r@.to_multiset().add(rest@.to_multiset()) =~= all);
        }
    }
    r
}

/// A file name whose extension is `sql`.
pub open spec fn is_sql_name(name: Seq<char>) -> bool {
    name_extension(name) == Some("sql"@)
}

/// The stem of a file name that ends in `.sql`.
pub open spec fn sql_stem(name: Seq<char>) -> Seq<char> {
    name.take(name.len() - 4)
}

/// `m` is what reading the migration file with stem `stem` and text
/// `content` gives.
pub open spec fn parses_to(stem: Seq<char>, content: Seq<char>, m: Migration) -> bool {
    match split_once_char(stem, '_') {
        Some((_, name)) => m.version@ == stem && m.name@ == name && m.up_sql@ == up_section(content)
            && m.down_sql@ == down_section(content),
        None => false,
    }
}

/// `found` holds, in the order of `files`, the migration of each file that
/// is named `<version>.sql` with a `_` in its version; other files are
/// passed over.
pub open spec fn listed(files: Seq<(String, String)>, found: Seq<Migration>) -> bool
    decreases files.len(),
{
    if files.len() == 0 {
        found.len() == 0
    } else {
        let (n, c) = files.last();
        if is_sql_name(n@) && split_once_char(sql_stem(n@), '_') is Some {
            &&& found.len() > 0
            &&& parses_to(sql_stem(n@), c@, found.last())
            &&& listed(files.drop_last(), found.drop_last())
        } else {
            listed(files.drop_last(), found)
        }
    }
}

/// The migrations of a directory, from the name and text of each of its
/// files, ordered by version.
pub fn list_migrations(files: &Vec<(String, String)>) -> (r: Vec<Migration>)
    ensures
        sorted_by_version(r@),
        exists|found: Seq<Migration>| listed(files@, found) && r@.to_multiset() == found.to_multiset(),
{
    let mut found: Vec<Migration> = Vec::new();
    let mut i: usize = 0;
    assert(files@.take(0) =~= Seq::<(String, String)>::empty());
    while i < files.len()
        invariant
            i <= files@.len(),
            listed(files@.take(i as int), found@),
        decreases files.len() - i,
    {
        let ghost t = files@.take(i + 1);
        assert(t.drop_last() =~= files@.take(i as int));
        assert(t.last() == files@[i as int]);
        let name = files[i].0.as_str();
        let content = files[i].1.as_str();
        match extension_of_name(name) {
            Some(e) => {
                if str_eq(e.as_str(), "sql") {
                    let v = chars_of(name);
                    proof {
                        reveal_strlit("sql");
                        lemma_sql_name_len(name@);
                    }
                    let stem = string_of_range(&v, 0, v.len() - 4);
                    assert(stem@ =~= sql_stem(name@));
                    match Migration::parse(stem.as_str(), content) {
                        Ok(m) => {
                            let ghost before = found@;
                            found.push(m);
                            assert(found@.drop_last() =~= before);
                        },
                        Err(_) => {},
                    }
                }
            },
            None => {},
        }
        i = i + 1;
    }
    assert(files@.take(files@.len() as int) =~= files@);
    order_migrations(found)
}

proof fn lemma_last_index_bound(s: Seq<char>, c: char)
    ensures
        match last_index_of(s, c) {
            Some(i) => 0 <= i < s.len(),
            None => true,
        },
    decreases s.len(),
{
    if s.len() > 0 && s.last() != c {
        lemma_last_index_bound(s.drop_last(), c);
    }
}

proof fn lemma_sql_name_len(name: Seq<char>)
    requires
        is_sql_name(name),
    ensures
        name.len() >= 4,
{
    reveal_strlit("sql");
    reveal_strlit("..");
    lemma_last_index_bound(name, '.');
    let i = last_index_of(name, '.').unwrap();
    assert(name.skip(i + 1) == "sql"@);
    assert(name.skip(i + 1).len() == name.len() - (i + 1));
}

/// The migrations whose version has not been applied, in order.
pub open spec fn pending(all: Seq<Migration>, applied: Seq<Seq<char>>) -> Seq<Migration> {
    all.filter(|m: Migration| !applied.contains(m.version@))
}

fn contains_text(v: &Vec<String>, s: &str) -> (r: bool)
    ensures
        r == views(v@).contains(s@),
{
    let mut i: usize = 0;
    while i < v.len()
        invariant
            i <= v@.len(),
            forall|j: int| 0 <= j < i ==> v@[j]@ != s@,
        decreases v.len() - i,
    {
        if str_eq(v[i].as_str(), s) {
            assert(views(v@)[i as int] == s@);
            return true;
        }
        i = i + 1;
    }
    assert forall|j: int| 0 <= j < views(v@).len() implies views(v@)[j] != s@ by {
        assert(views(v@)[j] == v@[j]@);
    }
    false
}

/// Keeps the migrations that have not been applied yet.
pub fn pending_migrations(all: Vec<Migration>, applied: &Vec<String>) -> (r: Vec<Migration>)
    ensures
        r@ == pending(all@, views(applied@)),
{
    let ghost a = all@;
    let ghost pred = |m: Migration| !views(applied@).contains(m.version@);
    let n = all.len();
    let mut items = all;
    let mut kept: Vec<Migration> = Vec::new();
    let mut i: usize = 0;
    assert(a.skip(0) =~= a);
    assert(a.take(0) =~= Seq::<Migration>::empty());
    proof {
        reveal(Seq::filter);
    }
    while i < n
        invariant
            n == a.len(),
            i <= n,
            items@ == a.skip(i as int),
            pred == (|m: Migration| !views(applied@).contains(m.version@)),
            kept@ == a.take(i as int).filter(pred),
        decreases n - i,
    {
        let m = items.remove(0);
        assert(items@ =~= a.skip(i + 1));
        let ghost t = a.take(i + 1);
        assert(t.drop_last() =~= a.take(i as int));
        assert(t.last() == m);
        proof {
            reveal(Seq::filter);
        }
        if !contains_text(applied, m.version.as_str()) {
            kept.push(m);
        }
        i = i + 1;
    }
    assert(a.take(n as int) =~= a);
    kept
}

/// Records that a migration was applied at `timestamp`.
pub fn mark_applied_sql(version: &str, timestamp: i64) -> (r: String)
    ensures
        r@ == "INSERT INTO _migrations (version, applied_at) VALUES ('"@ + version@ + "', "@
            + signed_decimal(timestamp as int) + ")"@,
{
    let mut r = concat("INSERT INTO _migrations (version, applied_at) VALUES ('", version);
    push_str(&mut r, "', ");
    let t = i64_to_string(timestamp);
    push_str(&mut r, t.as_str());
    push_str(&mut r, ")");
    r
}

/// Forgets that a migration was applied.
pub fn mark_reverted_sql(version: &str) -> (r: String)
    ensures
        r@ == "DELETE FROM _migrations WHERE version = '"@ + version@ + "'"@,
{
    let mut r = concat("DELETE FROM _migrations WHERE version = '", version);
    push_str(&mut r, "'");
    r
}

} // verus!
