//! The decisions of the maintenance commands: how `doctor` shows a
//! variable, which statements a seed file runs, what `migrate status` and
//! `migrate revert` report, the latency figures of a profile run, and a few
//! prompts and hints.
use vstd::prelude::*;
use crate::cli::dev::extension_of_name;
use crate::db::migrations::{is_clock_stamp, is_sql_name, order_texts, sorted_texts, utc_stamp, Migration};
use crate::text::{
    chars_of, concat, contains, decimal, ends_with, has_char, lemma_views_push, owned, push_str, split_by_char,
    split_char, starts_with, str_contains, str_eq, str_starts_with, string_of_range, to_lowercase,
    trim, trim_str, u64_to_string, unicode_lowercase, views, utf8_len, utf8_width, utf8_width_exec,
};

verus! {

/// The number of characters that make up the first 27 bytes of a text.
pub open spec fn byte_cut(s: Seq<char>) -> int {
    choose|k: int| 0 <= k <= s.len() && utf8_len(#[trigger] s.take(k)) == 27
}

/// How `doctor` shows a variable's value: masked when the name speaks of a
/// secret or password, else cut to its first 27 bytes and `...` when longer
/// than 30 bytes, else whole.
pub open spec fn shown_value(name: Seq<char>, value: Seq<char>) -> Seq<char> {
    if contains(name, "SECRET"@) || contains(name, "PASSWORD"@) {
        "***"@
    } else if utf8_len(value) > 30 {
        value.take(byte_cut(value)) + "..."@
    } else {
        value
    }
}

proof fn lemma_utf8_len_mono(s: Seq<char>, a: int, b: int)
    requires
        0 <= a <= b <= s.len(),
    ensures
        utf8_len(s.take(a)) <= utf8_len(s.take(b)),
        a < b ==> utf8_len(s.take(a)) < utf8_len(s.take(b)),
    decreases b - a,
{
    if a < b {
        lemma_utf8_len_mono(s, a, b - 1);
        assert(s.take(b).drop_last() =~= s.take(b - 1));
    }
}

/// The value `doctor` prints for variable `name`. A value longer than 30
/// bytes is cut at byte 27, which must fall between characters.
pub fn mask_env_value(name: &str, value: &str) -> (r: String)
    requires
        utf8_len(value@) > 30 ==> exists|k: int| 0 <= k <= value@.len() && utf8_len(#[trigger] value@.take(k)) == 27,
    ensures
        r@ == shown_value(name@, value@),
{
    if str_contains(name, "SECRET") || str_contains(name, "PASSWORD") {
        return owned("***");
    }
    let v = chars_of(value);
    let mut total: usize = 0;
    let mut cut: usize = 0;
    let mut i: usize = 0;
    assert(v@.take(0) =~= Seq::<char>::empty());
    while i < v.len()
        invariant
            i <= v@.len(),
            v@ == value@,
            total <= 34,
            utf8_len(v@.take(i as int)) <= 30 ==> total == utf8_len(v@.take(i as int)),
            utf8_len(v@.take(i as int)) > 30 ==> total > 30,
            cut <= i,
            utf8_len(v@.take(cut as int)) <= 27,
            cut < i ==> utf8_len(v@.take(cut + 1)) > 27,
        decreases v.len() - i,
    {
        assert(v@.take(i + 1).drop_last() =~= v@.take(i as int));
        assert(v@.take(i + 1).last() == v@[i as int]);
        let w = utf8_width_exec(v[i]);
        if total <= 30 {
            total = total + w;
        }
        if cut == i && total <= 27 {
            cut = i + 1;
        }
        proof {
            if cut < i + 1 {
                lemma_utf8_len_mono(v@, cut + 1, i + 1);
            }
        }
        i = i + 1;
    }
    assert(v@.take(v@.len() as int) =~= v@);
    if total > 30 {
        proof {
            let k = byte_cut(value@);
            assert(0 <= k <= value@.len() && utf8_len(value@.take(k)) == 27);
            if cut < k {
                lemma_utf8_len_mono(v@, cut + 1, k);
            }
            if k < cut {
                lemma_utf8_len_mono(v@, k, cut as int);
            }
            assert(cut == k);
        }
        let mut r = string_of_range(&v, 0, cut);
        push_str(&mut r, "...");
        assert(v@.subrange(0, cut as int) =~= value@.take(cut as int));
        r
    } else {
        owned(value)
    }
}

/// The statements a seed file runs: the pieces between `;`s, trimmed,
/// without empty ones and those that start with `--`.
pub open spec fn seed_statements_of(pieces: Seq<Seq<char>>) -> Seq<Seq<char>>
    decreases pieces.len(),
{
    if pieces.len() == 0 {
        Seq::empty()
    } else {
        let p = seed_statements_of(pieces.drop_last());
        let t = trim(pieces.last());
        if t.len() > 0 && !starts_with(t, "--"@) {
            p.push(t)
        } else {
            p
        }
    }
}

pub fn seed_statements(sql: &str) -> (r: Vec<String>)
    ensures
        views(r@) == seed_statements_of(split_char(sql@, ';')),
{
    let pieces = split_by_char(sql, ';');
    let ghost pv = views(pieces@);
    let mut r: Vec<String> = Vec::new();
    let mut i: usize = 0;
    assert(pv.take(0) =~= Seq::<Seq<char>>::empty());
    while i < pieces.len()
        invariant
            i <= pieces@.len(),
            pv == views(pieces@),
            views(r@) == seed_statements_of(pv.take(i as int)),
        decreases pieces.len() - i,
    {
        let ghost t = pv.take(i + 1);
        assert(t.drop_last() =~= pv.take(i as int));
        assert(t.last() == pieces@[i as int]@);
        let st = trim_str(pieces[i].as_str());
        if chars_of(st.as_str()).len() > 0 && !str_starts_with(st.as_str(), "--") {
            let ghost before = r@;
            r.push(st);
            proof {
                lemma_views_push(before, r@.last());
                assert(r@ == before.push(r@.last()));
            }
        }
        i = i + 1;
    }
    assert(pv.take(pieces@.len() as int) =~= pv);
    r
}

/// The seed files of a directory, from their names: those named `*.sql`,
/// in `str::cmp` order.
pub fn seed_file_order(names: Vec<String>) -> (r: Vec<String>)
    ensures
        r@.to_multiset() == names@.filter(|n: String| is_sql_name(n@)).to_multiset(),
        sorted_texts(r@),
{
    let ghost a = names@;
    let ghost pred = |n: String| is_sql_name(n@);
    let n = names.len();
    let mut items = names;
    let mut kept: Vec<String> = Vec::new();
    let mut i: usize = 0;
    assert(a.skip(0) =~= a);
    assert(a.take(0) =~= Seq::<String>::empty());
    proof {
        reveal(Seq::filter);
    }
    while i < n
        invariant
            n == a.len(),
            i <= n,
            items@ == a.skip(i as int),
            pred == (|n: String| is_sql_name(n@)),
            kept@ == a.take(i as int).filter(pred),
        decreases n - i,
    {
        let s = items.remove(0);
        assert(items@ =~= a.skip(i + 1));
        let ghost t = a.take(i + 1);
        assert(t.drop_last() =~= a.take(i as int));
        assert(t.last() == s);
        proof {
            reveal(Seq::filter);
            reveal_strlit("sql");
        }
        let sql = match extension_of_name(s.as_str()) {
            Some(e) => str_eq(e.as_str(), "sql"),
            None => false,
        };
        if sql {
            kept.push(s);
        }
        i = i + 1;
    }
    assert(a.take(n as int) =~= a);
    order_texts(kept)
}

/// Whether a seed file's text has anything to run.
pub fn is_blank(sql: &str) -> (r: bool)
    ensures
        r == (trim(sql@).len() == 0),
{
    let t = trim_str(sql);
    chars_of(t.as_str()).len() == 0
}

/// The file of a new seeder named `name`, created at `stamp`
/// (`%Y%m%d%H%M%S`) and `created_at` (RFC 3339).
pub open spec fn seeder_path(stamp: Seq<char>, lowered: Seq<char>) -> Seq<char> {
    "seeds/"@ + stamp + "_"@ + lowered + ".sql"@
}

pub open spec fn seeder_text(name: Seq<char>, created_at: Seq<char>) -> Seq<char> {
    "-- Seed: "@ + name + "\n-- Created at: "@ + created_at
        + "\n\n-- Add your seed data here\nINSERT INTO users (username, email) VALUES ('admin', 'admin@example.com');\n"@
}

#[derive(Debug)]
pub struct SeederFile {
    pub path: String,
    pub content: String,
}

pub fn seeder_file(stamp: &str, created_at: &str, name: &str) -> (r: SeederFile)
    ensures
        r.path@ == seeder_path(stamp@, unicode_lowercase(name@)),
        r.content@ == seeder_text(name@, created_at@),
{
    let lowered = to_lowercase(name);
    let mut path = concat("seeds/", stamp);
    push_str(&mut path, "_");
    push_str(&mut path, lowered.as_str());
    push_str(&mut path, ".sql");
    let mut content = concat("-- Seed: ", name);
    push_str(&mut content, "\n-- Created at: ");
    push_str(&mut content, created_at);
    push_str(
        &mut content,
        "\n\n-- Add your seed data here\nINSERT INTO users (username, email) VALUES ('admin', 'admin@example.com');\n",
    );
    SeederFile { path, content }
}

/// `chrono::Utc::now().to_rfc3339()`: the current UTC time as RFC 3339.
/// Which time it is comes from the clock and is not stated; chrono writes
/// the date, a `T`, the time with `:` between hour, minute and second, and
/// for UTC the offset `+00:00` at the end.
#[verifier::external_body]
fn utc_rfc3339() -> (r: String)
    ensures
        has_char(r@, 'T'),
        has_char(r@, ':'),
        ends_with(r@, "+00:00"@),
{
    chrono::Utc::now().to_rfc3339()
}

/// The file of a new seeder named `name`, stamped with the current time.
pub fn create_seeder(name: &str) -> (r: SeederFile)
    ensures
        exists|stamp: Seq<char>, at: Seq<char>|
            {
                &&& is_clock_stamp(stamp)
                &&& has_char(at, 'T') && has_char(at, ':') && ends_with(at, "+00:00"@)
                &&& r.path@ == seeder_path(stamp, unicode_lowercase(name@))
                &&& r.content@ == seeder_text(name@, at)
            },
{
    let stamp = utc_stamp();
    let at = utc_rfc3339();
    seeder_file(stamp.as_str(), at.as_str(), name)
}

/// The status line of one migration.
pub open spec fn status_line(applied: bool, version: Seq<char>, name: Seq<char>) -> Seq<char> {
    "  "@ + (if applied {
        "✅ Applied"@
    } else {
        "⏳ Pending"@
    }) + " "@ + version + " - "@ + name
}

pub fn migration_status_line(m: &Migration, applied: &Vec<String>) -> (r: String)
    ensures
        r@ == status_line(views(applied@).contains(m.version@), m.version@, m.name@),
{
    let mut found = false;
    let mut i: usize = 0;
    while i < applied.len()
        invariant
            i <= applied@.len(),
            found == exists|j: int| 0 <= j < i && applied@[j]@ == m.version@,
        decreases applied.len() - i,
    {
        if str_eq(applied[i].as_str(), m.version.as_str()) {
            found = true;
        }
        i = i + 1;
    }
    proof {
        if found {
            let j = choose|j: int| 0 <= j < applied@.len() && applied@[j]@ == m.version@;
            assert(views(applied@)[j] == m.version@);
        }
        if views(applied@).contains(m.version@) {
            let j = choose|j: int| 0 <= j < views(applied@).len() && views(applied@)[j] == m.version@;
            assert(applied@[j]@ == m.version@);
        }
    }
    let mut r = owned("  ");
    if found {
        push_str(&mut r, "✅ Applied");
    } else {
        push_str(&mut r, "⏳ Pending");
    }
    push_str(&mut r, " ");
    push_str(&mut r, m.version.as_str());
    push_str(&mut r, " - ");
    push_str(&mut r, m.name.as_str());
    r
}

/// The closing line of `migrate status`: all, applied and pending counts
/// (more applied versions than files cannot be reported).
pub fn migration_totals(total: usize, applied: usize) -> (r: String)
    requires
        applied <= total,
    ensures
        r@ == "\nTotal: "@ + decimal(total as nat) + " migrations ("@ + decimal(applied as nat)
            + " applied, "@ + decimal((total - applied) as nat) + " pending)"@,
{
    let mut r = concat("\nTotal: ", u64_to_string(total as u64).as_str());
    push_str(&mut r, " migrations (");
    push_str(&mut r, u64_to_string(applied as u64).as_str());
    push_str(&mut r, " applied, ");
    push_str(&mut r, u64_to_string((total - applied) as u64).as_str());
    push_str(&mut r, " pending)");
    r
}

/// Why a revert cannot run.
#[derive(Debug, PartialEq, Eq)]
pub enum RevertError {
    /// The last applied version has no file.
    FileNotFound,
    /// The migration has no down SQL.
    NoDownMigration,
}

impl RevertError {
    pub fn message(&self) -> (r: &'static str)
        ensures
            r@ == match self {
                RevertError::FileNotFound => "Migration file not found"@,
                RevertError::NoDownMigration => "No down migration available"@,
            },
    {
        match self {
            RevertError::FileNotFound => "Migration file not found",
            RevertError::NoDownMigration => "No down migration available",
        }
    }
}

/// What `migrate revert` does: nothing without applied migrations, else it
/// reverts the first file whose version is the last applied one.
pub fn revert_plan(applied: &Vec<String>, all: &Vec<Migration>) -> (r: Result<Option<usize>, RevertError>)
    ensures
        applied@.len() == 0 ==> r == Ok::<Option<usize>, RevertError>(None),
        applied@.len() > 0 ==> {
            let last = applied@.last()@;
            match r {
                Ok(Some(i)) => i < all@.len() && all@[i as int].version@ == last && all@[i as int].down_sql@.len()
                    > 0 && forall|j: int| 0 <= j < i ==> all@[j].version@ != last,
                Ok(None) => false,
                Err(RevertError::FileNotFound) => forall|j: int| 0 <= j < all@.len() ==> all@[j].version@ != last,
                Err(RevertError::NoDownMigration) => exists|i: int|
                    0 <= i < all@.len() && all@[i].version@ == last && all@[i].down_sql@.len() == 0 && forall|
                        j: int,
                    | 0 <= j < i ==> all@[j].version@ != last,
            }
        },
{
    if applied.len() == 0 {
        return Ok(None);
    }
    let last = applied[applied.len() - 1].as_str();
    let mut i: usize = 0;
    while i < all.len()
        invariant
            i <= all@.len(),
            applied@.len() > 0,
            last@ == applied@.last()@,
            forall|j: int| 0 <= j < i ==> all@[j].version@ != last@,
        decreases all.len() - i,
    {
        if str_eq(all[i].version.as_str(), last) {
            if chars_of(all[i].down_sql.as_str()).len() == 0 {
                return Err(RevertError::NoDownMigration);
            }
            return Ok(Some(i));
        }
        i = i + 1;
    }
    Err(RevertError::FileNotFound)
}

/// `a` in ascending order, as `sort` leaves it.
pub open spec fn is_sorted_u64(a: Seq<u64>) -> bool {
    forall|i: int, j: int| 0 <= i <= j < a.len() ==> a[i] <= a[j]
}

/// Sorts latencies (in nanoseconds) in ascending order.
pub fn sort_latencies(v: Vec<u64>) -> (r: Vec<u64>)
    ensures
        r@.to_multiset() == v@.to_multiset(),
        is_sorted_u64(r@),
{
    broadcast use vstd::seq_lib::group_to_multiset_ensures;

    let mut r: Vec<u64> = Vec::new();
    let mut rest = v;
    let ghost all = rest@.to_multiset();
    assert(r@.to_multiset() =~= vstd::multiset::Multiset::<u64>::empty());
    assert(r@.to_multiset().add(rest@.to_multiset()) =~= all);
    while rest.len() > 0
        invariant
            r@.to_multiset().add(rest@.to_multiset()) == all,
            is_sorted_u64(r@),
        decreases rest.len(),
    {
        let ghost rest_before = rest@;
        let x = rest.pop().unwrap();
        assert(rest_before =~= rest@.push(x));
        proof {
            rest@.to_multiset_ensures();
        }
        let ghost before = r@;
        let mut pos = r.len();
        while pos > 0 && x < r[pos - 1]
            invariant
                pos <= r@.len(),
                r@ == before,
                forall|k: int| pos <= k < r@.len() ==> x < #[trigger] r@[k],
            decreases pos,
        {
            pos = pos - 1;
        }
        r.insert(pos, x);
        proof {
            assert(r@ == before.insert(pos as int, x));
            assert forall|i: int, j: int| 0 <= i <= j < r@.len() implies r@[i] <= r@[j] by {
                if i < pos && j == pos {
                    assert(before[pos - 1] <= x);
                    assert(before[i] <= before[pos - 1]);
                } else if i == pos && j > pos {
                    assert(x < before[j - 1]);
                } else if i < pos && j > pos {
                    assert(before[i] <= before[j - 1]);
                } else if i > pos {
                    assert(before[i - 1] <= before[j - 1]);
                } else if i < pos && j < pos {
                    assert(before[i] <= before[j]);
                }
            }
            assert(r@.remove(pos as int) =~= before);
            assert(r@[pos as int] == x);
            assert(r@.contains(x));
            r@.to_multiset_ensures();
            before.to_multiset_ensures();
            assert(r@.to_multiset().count(x) > 0);
            assert(before.to_multiset() =~= r@.to_multiset().remove(x));
            assert(r@.to_multiset() =~= before.to_multiset().insert(x));
            assert(r@.to_multiset().add(rest@.to_multiset()) =~= all);
        }
    }
    r
}

/// The latency figures of a profile run, in nanoseconds.
#[derive(Debug)]
pub struct LatencyStats {
    pub min: u64,
    pub max: u64,
    pub p50: u64,
    pub p90: u64,
    pub p99: u64,
}

/// The latency figures of sorted latencies: the smallest, the largest and
/// the latencies at `len * k / 100` for `k` of 50, 90 and 99.
pub open spec fn stats_of(s: Seq<u64>) -> LatencyStats {
    LatencyStats {
        min: s[0],
        max: s.last(),
        p50: s[(s.len() * 50 / 100) as int],
        p90: s[(s.len() * 90 / 100) as int],
        p99: s[(s.len() * 99 / 100) as int],
    }
}

/// The latency figures of a run, none without latencies.
pub fn latency_stats(latencies: Vec<u64>) -> (r: Option<LatencyStats>)
    requires
        latencies@.len() * 100 <= usize::MAX,
    ensures
        latencies@.len() == 0 <==> r is None,
        match r {
            Some(st) => exists|s: Seq<u64>|
                s.to_multiset() == latencies@.to_multiset() && is_sorted_u64(s) && st == stats_of(s),
            None => true,
        },
{
    if latencies.len() == 0 {
        return None;
    }
    let n = latencies.len();
    let s = sort_latencies(latencies);
    proof {
        s@.to_multiset_ensures();
    }
    assert(s@.len() == n) by {
        broadcast use vstd::seq_lib::group_to_multiset_ensures;
    }
    let st = LatencyStats {
        min: s[0],
        max: s[n - 1],
        p50: s[n * 50 / 100],
        p90: s[n * 90 / 100],
        p99: s[n * 99 / 100],
    };
    assert(st == stats_of(s@));
    Some(st)
}

/// The sum of the latencies.
pub open spec fn latency_sum(s: Seq<u64>) -> nat
    decreases s.len(),
{
    if s.len() == 0 {
        0
    } else {
        latency_sum(s.drop_last()) + s.last() as nat
    }
}

/// The average latency of a run: the total divided by the number of
/// latencies taken as a `u32` (so modulo 2^32), rounded down, as dividing a
/// `Duration` by that count gives it.
pub fn average_latency(latencies: &Vec<u64>) -> (r: u128)
    requires
        latencies@.len() % 0x1_0000_0000 != 0,
    ensures
        r == latency_sum(latencies@) / (latencies@.len() % 0x1_0000_0000),
{
    let mut total: u128 = 0;
    let mut i: usize = 0;
    while i < latencies.len()
        invariant
            i <= latencies@.len(),
            total == latency_sum(latencies@.take(i as int)),
            total <= i as int * 0xffff_ffff_ffff_ffff,
        decreases latencies.len() - i,
    {
        assert(latencies@.take(i + 1).drop_last() =~= latencies@.take(i as int));
        total = total + latencies[i] as u128;
        i = i + 1;
    }
    assert(latencies@.take(latencies@.len() as int) =~= latencies@);
    let count: u64 = (latencies.len() as u64) % 0x1_0000_0000;
    total / (count as u128)
}

/// How many requests each worker of a profile run sends.
pub fn requests_per_worker(total_requests: usize, concurrency: usize) -> (r: usize)
    requires
        concurrency > 0,
    ensures
        r == total_requests / concurrency,
{
    total_requests / concurrency
}

/// Whether an answer to `clear the queue?` is yes: `y` after trimming, in
/// any case.
pub fn confirms(answer: &str) -> (r: bool)
    ensures
        r == (unicode_lowercase(trim(answer@)) == "y"@),
{
    let t = trim_str(answer);
    let l = to_lowercase(t.as_str());
    str_eq(l.as_str(), "y")
}

/// The platforms that deployment files can be made for.
#[derive(Debug, Clone, Copy, PartialEq, Eq, Structural)]
pub enum DeployTarget {
    AwsLambda,
    Docker,
    Cloudflare,
}

/// The platform a name selects; an unknown name is refused with the
/// options.
pub fn deploy_target(target: &str) -> (r: Result<DeployTarget, String>)
    ensures
        match r {
            Ok(t) => t == if target@ == "aws-lambda"@ {
                DeployTarget::AwsLambda
            } else if target@ == "docker"@ {
                DeployTarget::Docker
            } else {
                DeployTarget::Cloudflare
            },
            Err(m) => m@ == "Unknown deploy target: "@ + target@ + ". Options: aws-lambda, docker, cloudflare"@,
        },
        r is Ok <==> (target@ == "aws-lambda"@ || target@ == "docker"@ || target@ == "cloudflare"@),
{
    if str_eq(target, "aws-lambda") {
        Ok(DeployTarget::AwsLambda)
    } else if str_eq(target, "docker") {
        Ok(DeployTarget::Docker)
    } else if str_eq(target, "cloudflare") {
        Ok(DeployTarget::Cloudflare)
    } else {
        let mut m = concat("Unknown deploy target: ", target);
        push_str(&mut m, ". Options: aws-lambda, docker, cloudflare");
        Err(m)
    }
}

/// The alias hint for a shell: `zsh` and `bash` get their rc file; other
/// shells a generic line; Windows also gets PowerShell and CMD lines.
pub open spec fn alias_hint(shell: Seq<char>, windows: bool) -> Seq<Seq<char>> {
    seq!["\nTip: Add this alias to your shell config for shorter commands:"@] + (if contains(
        shell,
        "zsh"@,
    ) {
        seq!["  echo \"alias oxi='oxidite'\" >> ~/.zshrc"@, "  source ~/.zshrc"@]
    } else if contains(shell, "bash"@) {
        seq!["  echo \"alias oxi='oxidite'\" >> ~/.bashrc"@, "  source ~/.bashrc"@]
    } else {
        seq!["  # Add to your shell config:"@, "  alias oxi='oxidite'"@]
    }) + (if windows {
        seq![
            "\nWindows (PowerShell):"@,
            "  Set-Alias oxi oxidite  # Add to $PROFILE"@,
            "\nWindows (CMD):"@,
            "  doskey oxi=oxidite"@,
        ]
    } else {
        Seq::empty()
    }) + seq![""@]
}

fn push_line(v: &mut Vec<String>, s: &str)
    ensures
        views(final(v)@) == views(old(v)@).push(s@),
{
    let ghost before = v@;
    let x = owned(s);
    v.push(x);
    proof {
        lemma_views_push(before, x);
    }
}

pub fn alias_hint_lines(shell: &str, windows: bool) -> (r: Vec<String>)
    ensures
        views(r@) == alias_hint(shell@, windows),
{
    let mut v: Vec<String> = Vec::new();
    push_line(&mut v, "\nTip: Add this alias to your shell config for shorter commands:");
    let ghost a = views(v@);
    if str_contains(shell, "zsh") {
        push_line(&mut v, "  echo \"alias oxi='oxidite'\" >> ~/.zshrc");
        push_line(&mut v, "  source ~/.zshrc");
    } else if str_contains(shell, "bash") {
        push_line(&mut v, "  echo \"alias oxi='oxidite'\" >> ~/.bashrc");
        push_line(&mut v, "  source ~/.bashrc");
    } else {
        push_line(&mut v, "  # Add to your shell config:");
        push_line(&mut v, "  alias oxi='oxidite'");
    }
    let ghost b = views(v@);
    if windows {
        push_line(&mut v, "\nWindows (PowerShell):");
        push_line(&mut v, "  Set-Alias oxi oxidite  # Add to $PROFILE");
        push_line(&mut v, "\nWindows (CMD):");
        push_line(&mut v, "  doskey oxi=oxidite");
    }
    let ghost c = views(v@);
    push_line(&mut v, "");
    proof {
        let shell_part: Seq<Seq<char>> = if contains(shell@, "zsh"@) {
            seq!["  echo \"alias oxi='oxidite'\" >> ~/.zshrc"@, "  source ~/.zshrc"@]
        } else if contains(shell@, "bash"@) {
            seq!["  echo \"alias oxi='oxidite'\" >> ~/.bashrc"@, "  source ~/.bashrc"@]
        } else {
            seq!["  # Add to your shell config:"@, "  alias oxi='oxidite'"@]
        };
        let win_part: Seq<Seq<char>> = if windows {
            seq![
                "\nWindows (PowerShell):"@,
                "  Set-Alias oxi oxidite  # Add to $PROFILE"@,
                "\nWindows (CMD):"@,
                "  doskey oxi=oxidite"@,
            ]
        } else {
            Seq::empty()
        };
        assert(a =~= seq!["\nTip: Add this alias to your shell config for shorter commands:"@]);
        assert(b =~= a + shell_part);
        assert(c =~= b + win_part);
        assert(views(v@) =~= alias_hint(shell@, windows));
    }
    v
}

} // verus!
