//! Splitting SQL scripts into statements and normalizing database URLs.
use vstd::prelude::*;
use crate::text::{
    chars_of, lemma_trim_fixed, lemma_trim_is_trimmed, owned, push_str, starts_with, starts_with_chars, string_of,
    string_of_range, trim, trim_chars, views,
};

verus! {

/// Where the splitter stands in the script.
#[derive(Clone, Copy, PartialEq, Eq, Debug)]
pub enum SqlMode {
    /// Ordinary SQL text.
    Code,
    /// Inside a `'...'` literal.
    Single,
    /// Inside a `"..."` identifier.
    Double,
    /// Inside a `-- ...` comment (until the end of the line).
    LineComment,
    /// Inside a `/* ... */` comment.
    BlockComment,
}

/// The statement under construction, trimmed, is added when it is not empty.
pub open spec fn finish_stmt(cur: Seq<char>, acc: Seq<Seq<char>>) -> Seq<Seq<char>> {
    if trim(cur).len() > 0 {
        acc.push(trim(cur))
    } else {
        acc
    }
}

pub open spec fn next_is(rest: Seq<char>, c: char) -> bool {
    rest.len() > 1 && rest[1] == c
}

/// The statements that result from scanning `rest` in `mode`, with `cur` the
/// text of the statement so far and `acc` the statements already complete.
///
/// Outside quotes, `--` starts a comment that ends at a newline (which leaves
/// one space in the statement) and `/*` starts one that ends at `*/`;
/// comments contribute nothing else.  Quotes are kept, and a `;` outside
/// quotes ends the current statement.
pub open spec fn sql_scan(
    rest: Seq<char>,
    mode: SqlMode,
    cur: Seq<char>,
    acc: Seq<Seq<char>>,
) -> Seq<Seq<char>>
    decreases rest.len(),
{
    if rest.len() == 0 {
        finish_stmt(cur, acc)
    } else {
        let c = rest[0];
        match mode {
            SqlMode::LineComment => {
                if c == '\n' {
                    let cur2 = if cur.len() > 0 && cur.last() == ' ' {
                        cur
                    } else {
                        cur.push(' ')
                    };
                    sql_scan(rest.drop_first(), SqlMode::Code, cur2, acc)
                } else {
                    sql_scan(rest.drop_first(), SqlMode::LineComment, cur, acc)
                }
            },
            SqlMode::BlockComment => {
                if c == '*' && next_is(rest, '/') {
                    sql_scan(rest.skip(2), SqlMode::Code, cur, acc)
                } else {
                    sql_scan(rest.drop_first(), SqlMode::BlockComment, cur, acc)
                }
            },
            SqlMode::Code => {
                if c == '-' && next_is(rest, '-') {
                    sql_scan(rest.skip(2), SqlMode::LineComment, cur, acc)
                } else if c == '/' && next_is(rest, '*') {
                    sql_scan(rest.skip(2), SqlMode::BlockComment, cur, acc)
                } else if c == '\'' {
                    sql_scan(rest.drop_first(), SqlMode::Single, cur.push(c), acc)
                } else if c == '"' {
                    sql_scan(rest.drop_first(), SqlMode::Double, cur.push(c), acc)
                } else if c == ';' {
                    sql_scan(rest.drop_first(), SqlMode::Code, Seq::empty(), finish_stmt(cur, acc))
                } else {
                    sql_scan(rest.drop_first(), SqlMode::Code, cur.push(c), acc)
                }
            },
            SqlMode::Single => {
                if c == '\'' {
                    sql_scan(rest.drop_first(), SqlMode::Code, cur.push(c), acc)
                } else {
                    sql_scan(rest.drop_first(), SqlMode::Single, cur.push(c), acc)
                }
            },
            SqlMode::Double => {
                if c == '"' {
                    sql_scan(rest.drop_first(), SqlMode::Code, cur.push(c), acc)
                } else {
                    sql_scan(rest.drop_first(), SqlMode::Double, cur.push(c), acc)
                }
            },
        }
    }
}

/// The statements of a SQL script.
pub open spec fn sql_statements(script: Seq<char>) -> Seq<Seq<char>> {
    sql_scan(script, SqlMode::Code, Seq::empty(), Seq::empty())
}

proof fn lemma_quoted_run(s: Seq<char>, q: char, mode: SqlMode, rest: Seq<char>, cur: Seq<char>, acc: Seq<Seq<char>>)
    requires
        (mode == SqlMode::Single && q == '\'') || (mode == SqlMode::Double && q == '"'),
        forall|i: int| 0 <= i < s.len() ==> s[i] != q,
    ensures
        sql_scan(s + seq![q] + rest, mode, cur, acc) == sql_scan(rest, SqlMode::Code, cur + s + seq![q], acc),
    decreases s.len(),
{
    let t = s + seq![q] + rest;
    if s.len() == 0 {
        assert(t[0] == q);
        assert(t.drop_first() =~= rest);
        assert(cur + s + seq![q] =~= cur.push(q));
    } else {
        assert(t[0] == s[0]);
        assert(t.drop_first() =~= s.drop_first() + seq![q] + rest);
        lemma_quoted_run(s.drop_first(), q, mode, rest, cur.push(s[0]), acc);
        assert(cur.push(s[0]) + s.drop_first() + seq![q] =~= cur + s + seq![q]);
    }
}

/// A quoted literal is copied verbatim: scanning code that starts with
/// `'...'` (or `"..."`) adds the literal, quotes included, to the current
/// statement whatever it holds (`--`, `/*`, `;` alike), and goes on in code
/// after the closing quote.
pub proof fn lemma_quoted_literal_verbatim(s: Seq<char>, q: char, rest: Seq<char>, cur: Seq<char>, acc: Seq<Seq<char>>)
    requires
        q == '\'' || q == '"',
        forall|i: int| 0 <= i < s.len() ==> s[i] != q,
    ensures
        sql_scan(seq![q] + s + seq![q] + rest, SqlMode::Code, cur, acc) == sql_scan(
            rest,
            SqlMode::Code,
            cur + seq![q] + s + seq![q],
            acc,
        ),
{
    let t = seq![q] + s + seq![q] + rest;
    assert(t[0] == q);
    assert(t.drop_first() =~= s + seq![q] + rest);
    let mode = if q == '\'' {
        SqlMode::Single
    } else {
        SqlMode::Double
    };
    lemma_quoted_run(s, q, mode, rest, cur.push(q), acc);
    assert(cur.push(q) + s + seq![q] =~= cur + seq![q] + s + seq![q]);
}

/// A script that is one quoted literal is one statement, the literal as
/// written.
pub proof fn lemma_single_literal_statement(s: Seq<char>)
    requires
        forall|i: int| 0 <= i < s.len() ==> s[i] != '\'',
    ensures
        sql_statements(seq!['\''] + s + seq!['\'']) == seq![seq!['\''] + s + seq!['\'']],
{
    let lit = seq!['\''] + s + seq!['\''];
    lemma_quoted_literal_verbatim(s, '\'', Seq::empty(), Seq::empty(), Seq::empty());
    assert(lit + Seq::<char>::empty() =~= lit);
    assert(Seq::<char>::empty() + seq!['\''] + s + seq!['\''] =~= lit);
    assert(lit[0] == '\'');
    assert(lit.last() == '\'');
    lemma_trim_fixed(lit);
}

/// Splits a SQL script into its statements: `;` outside quotes separates
/// statements, comments are dropped, each statement is trimmed and empty
/// statements are left out.
pub fn split_sql_statements(script: &str) -> (r: Vec<String>)
    ensures
        views(r@) == sql_statements(script@),
{
    let chars = chars_of(script);
    let mut statements: Vec<String> = Vec::new();
    let mut current: Vec<char> = Vec::new();
    let mut mode = SqlMode::Code;
    let mut i: usize = 0;
    proof {
        assert(chars@.skip(0) =~= chars@);
        assert(views(statements@) =~= Seq::<Seq<char>>::empty());
    }
    while i < chars.len()
        invariant
            i <= chars@.len(),
            chars@ == script@,
            sql_scan(chars@.skip(i as int), mode, current@, views(statements@)) == sql_statements(
                script@,
            ),
        decreases chars.len() - i,
    {
        let ghost rest = chars@.skip(i as int);
        let c = chars[i];
        let has_next = i + 1 < chars.len();
        let next: char = if has_next { chars[i + 1] } else { ' ' };
        proof {
            assert(rest[0] == c);
            assert(rest.drop_first() =~= chars@.skip(i + 1));
            if has_next {
                assert(rest[1] == next);
                assert(rest.skip(2) =~= chars@.skip(i + 2));
            }
        }
        match mode {
            SqlMode::LineComment => {
                if c == '\n' {
                    mode = SqlMode::Code;
                    let l = current.len();
                    if !(l > 0 && current[l - 1] == ' ') {
                        current.push(' ');
                    }
                }
                i = i + 1;
            },
            SqlMode::BlockComment => {
                if c == '*' && has_next && next == '/' {
                    mode = SqlMode::Code;
                    i = i + 2;
                } else {
                    i = i + 1;
                }
            },
            SqlMode::Code => {
                if c == '-' && has_next && next == '-' {
                    mode = SqlMode::LineComment;
                    i = i + 2;
                } else if c == '/' && has_next && next == '*' {
                    mode = SqlMode::BlockComment;
                    i = i + 2;
                } else if c == '\'' {
                    mode = SqlMode::Single;
                    current.push(c);
                    i = i + 1;
                } else if c == '"' {
                    mode = SqlMode::Double;
                    current.push(c);
                    i = i + 1;
                } else if c == ';' {
                    let stmt = trim_chars(&current);
                    if stmt.len() > 0 {
                        let st = string_of(&stmt);
                        let ghost before = views(statements@);
                        statements.push(st);
                        proof {
                            assert(views(statements@) =~= before.push(trim(current@)));
                        }
                    }
                    current = Vec::new();
                    i = i + 1;
                } else {
                    current.push(c);
                    i = i + 1;
                }
            },
            SqlMode::Single => {
                if c == '\'' {
                    mode = SqlMode::Code;
                }
                current.push(c);
                i = i + 1;
            },
            SqlMode::Double => {
                if c == '"' {
                    mode = SqlMode::Code;
                }
                current.push(c);
                i = i + 1;
            },
        }
    }
    let stmt = trim_chars(&current);
    if stmt.len() > 0 {
        let st = string_of(&stmt);
        let ghost before = views(statements@);
        statements.push(st);
        proof {
            assert(views(statements@) =~= before.push(trim(current@)));
        }
    }
    proof {
        assert(chars@.skip(i as int).len() == 0);
    }
    statements
}

pub open spec fn all_nonempty_trimmed(acc: Seq<Seq<char>>) -> bool {
    forall|k: int| 0 <= k < acc.len() ==> (#[trigger] acc[k]).len() > 0 && trim(acc[k]) == acc[k]
}

proof fn lemma_finish_keeps(cur: Seq<char>, acc: Seq<Seq<char>>)
    requires
        all_nonempty_trimmed(acc),
    ensures
        all_nonempty_trimmed(finish_stmt(cur, acc)),
{
    lemma_trim_is_trimmed(cur);
    if trim(cur).len() > 0 {
        let r = acc.push(trim(cur));
        assert forall|k: int| 0 <= k < r.len() implies (#[trigger] r[k]).len() > 0 && trim(r[k])
            == r[k] by {
            if k < acc.len() {
                assert(r[k] == acc[k]);
            }
        }
    }
}

proof fn lemma_scan_keeps(rest: Seq<char>, mode: SqlMode, cur: Seq<char>, acc: Seq<Seq<char>>)
    requires
        all_nonempty_trimmed(acc),
    ensures
        all_nonempty_trimmed(sql_scan(rest, mode, cur, acc)),
    decreases rest.len(),
{
    if rest.len() == 0 {
        lemma_finish_keeps(cur, acc);
    } else {
        let c = rest[0];
        lemma_finish_keeps(cur, acc);
        match mode {
            SqlMode::LineComment => {
                let cur2 = if cur.len() > 0 && cur.last() == ' ' {
                    cur
                } else {
                    cur.push(' ')
                };
                lemma_scan_keeps(rest.drop_first(), SqlMode::Code, cur2, acc);
                lemma_scan_keeps(rest.drop_first(), SqlMode::LineComment, cur, acc);
            },
            SqlMode::BlockComment => {
                if c == '*' && next_is(rest, '/') {
                    lemma_scan_keeps(rest.skip(2), SqlMode::Code, cur, acc);
                } else {
                    lemma_scan_keeps(rest.drop_first(), SqlMode::BlockComment, cur, acc);
                }
            },
            SqlMode::Code => {
                if c == '-' && next_is(rest, '-') {
                    lemma_scan_keeps(rest.skip(2), SqlMode::LineComment, cur, acc);
                } else if c == '/' && next_is(rest, '*') {
                    lemma_scan_keeps(rest.skip(2), SqlMode::BlockComment, cur, acc);
                } else if c == '\'' {
                    lemma_scan_keeps(rest.drop_first(), SqlMode::Single, cur.push(c), acc);
                } else if c == '"' {
                    lemma_scan_keeps(rest.drop_first(), SqlMode::Double, cur.push(c), acc);
                } else if c == ';' {
                    lemma_scan_keeps(
                        rest.drop_first(),
                        SqlMode::Code,
                        Seq::empty(),
                        finish_stmt(cur, acc),
                    );
                } else {
                    lemma_scan_keeps(rest.drop_first(), SqlMode::Code, cur.push(c), acc);
                }
            },
            SqlMode::Single => {
                if c == '\'' {
                    lemma_scan_keeps(rest.drop_first(), SqlMode::Code, cur.push(c), acc);
                } else {
                    lemma_scan_keeps(rest.drop_first(), SqlMode::Single, cur.push(c), acc);
                }
            },
            SqlMode::Double => {
                if c == '"' {
                    lemma_scan_keeps(rest.drop_first(), SqlMode::Code, cur.push(c), acc);
                } else {
                    lemma_scan_keeps(rest.drop_first(), SqlMode::Double, cur.push(c), acc);
                }
            },
        }
    }
}

/// Every statement that the splitter returns is non-empty and has no
/// leading or trailing whitespace.
pub proof fn lemma_statements_nonempty_trimmed(script: Seq<char>)
    ensures
        all_nonempty_trimmed(sql_statements(script)),
{
    lemma_scan_keeps(script, SqlMode::Code, Seq::empty(), Seq::empty());
}

// ---------------------------------------------------------------------------
// Database URLs
// ---------------------------------------------------------------------------

/// A relative SQLite path gets an explicit `./`; every other URL is unchanged.
pub open spec fn normalized_database_url(url: Seq<char>) -> Seq<char> {
    let prefix = "sqlite://"@;
    if starts_with(url, prefix) {
        let rest = url.skip(prefix.len() as int);
        if starts_with(rest, "/"@) || starts_with(rest, "./"@) || starts_with(rest, "../"@)
            || rest.len() == 0 {
            url
        } else {
            prefix + "./"@ + rest
        }
    } else {
        url
    }
}

/// Gives a relative `sqlite://` path an explicit `./` prefix, keeping any
/// query string; absolute and explicit relative paths, empty paths and other
/// schemes are returned unchanged.
pub fn normalize_database_url(url: &str) -> (r: String)
    ensures
        r@ == normalized_database_url(url@),
{
    let v = chars_of(url);
    let prefix = chars_of("sqlite://");
    if starts_with_chars(&v, &prefix) {
        let n = prefix.len();
        let rest_s = string_of_range(&v, n, v.len());
        let rest = chars_of(rest_s.as_str());
        proof {
            assert(rest@ =~= url@.skip(prefix@.len() as int));
        }
        let slash = chars_of("/");
        let dot_slash = chars_of("./");
        let dot_dot_slash = chars_of("../");
        if starts_with_chars(&rest, &slash) || starts_with_chars(&rest, &dot_slash)
            || starts_with_chars(&rest, &dot_dot_slash) || rest.len() == 0 {
            return owned(url);
        }
        let mut r = owned("sqlite://");
        push_str(&mut r, "./");
        push_str(&mut r, rest_s.as_str());
        r
    } else {
        owned(url)
    }
}

} // verus!
