//! What the command-line tool prints and how it reads its own switches:
//! deprecation notices, the debug switch, the kind of a failure, and the
//! arguments of a build.
use vstd::prelude::*;
use crate::text::{
    concat, contains, lemma_views_push, owned, push_str, str_contains, str_eq, to_lowercase,
    unicode_lowercase, views,
};

verus! {

/// The notice that a command was renamed.
pub fn deprecated(old: &str, new: &str) -> (r: String)
    ensures
        r@ == "'"@ + old@ + "' is deprecated, use '"@ + new@ + "' instead"@,
{
    let mut r = concat("'", old);
    push_str(&mut r, "' is deprecated, use '");
    push_str(&mut r, new);
    push_str(&mut r, "' instead");
    r
}

/// Debug output is on when `OXIDITE_DEBUG` is `1` or, in any case, `true`.
pub open spec fn debug_enabled(value: Option<Seq<char>>) -> bool {
    match value {
        Some(v) => v == "1"@ || unicode_lowercase(v) == "true"@,
        None => false,
    }
}

/// Whether debug output is on, given the value of `OXIDITE_DEBUG`.
pub fn is_debug(value: Option<&str>) -> (r: bool)
    ensures
        r == debug_enabled(match value {
            Some(v) => Some(v@),
            None => None,
        }),
{
    match value {
        Some(v) => {
            if str_eq(v, "1") {
                return true;
            }
            let lower = to_lowercase(v);
            str_eq(lower.as_str(), "true")
        },
        None => false,
    }
}

/// How a failed command's error is shown.
#[derive(Debug, Clone, Copy, PartialEq, Eq, Structural)]
pub enum ErrorDisplay {
    /// As a compile error: missing files and build problems.
    Compile,
    /// As a run-time error: connections, databases, timeouts.
    Runtime,
    /// As a permission problem.
    Permission,
    /// As a plain error.
    Plain,
}

/// The display of an error by the words of its text, checked in order.
pub open spec fn error_display(text: Seq<char>) -> ErrorDisplay {
    if contains(text, "not found"@) || contains(text, "No such file"@) || contains(
        text,
        "does not exist"@,
    ) || contains(text, "build"@) || contains(text, "compil"@) || contains(text, "syntax"@) {
        ErrorDisplay::Compile
    } else if contains(text, "connection"@) || contains(text, "database"@) || contains(
        text,
        "timeout"@,
    ) {
        ErrorDisplay::Runtime
    } else if contains(text, "permission"@) || contains(text, "denied"@) {
        ErrorDisplay::Permission
    } else {
        ErrorDisplay::Plain
    }
}

pub fn classify_error(text: &str) -> (r: ErrorDisplay)
    ensures
        r == error_display(text@),
{
    if str_contains(text, "not found") || str_contains(text, "No such file") || str_contains(
        text,
        "does not exist",
    ) || str_contains(text, "build") || str_contains(text, "compil") || str_contains(text, "syntax") {
        ErrorDisplay::Compile
    } else if str_contains(text, "connection") || str_contains(text, "database") || str_contains(
        text,
        "timeout",
    ) {
        ErrorDisplay::Runtime
    } else if str_contains(text, "permission") || str_contains(text, "denied") {
        ErrorDisplay::Permission
    } else {
        ErrorDisplay::Plain
    }
}

/// The arguments of `cargo` for a build: a profile wins over `--release`,
/// then the target, the features and `-v`.
pub open spec fn build_arguments(
    release: bool,
    profile: Option<Seq<char>>,
    target: Option<Seq<char>>,
    features: Option<Seq<char>>,
    verbose: bool,
) -> Seq<Seq<char>> {
    seq!["build"@] + (match profile {
        Some(p) => seq!["--profile"@, p],
        None => if release {
            seq!["--release"@]
        } else {
            Seq::empty()
        },
    }) + (match target {
        Some(t) => seq!["--target"@, t],
        None => Seq::empty(),
    }) + (match features {
        Some(f) => seq!["--features"@, f],
        None => Seq::empty(),
    }) + (if verbose {
        seq!["-v"@]
    } else {
        Seq::empty()
    })
}

pub open spec fn opt_view(o: Option<&str>) -> Option<Seq<char>> {
    match o {
        Some(s) => Some(s@),
        None => None,
    }
}

fn push_arg(v: &mut Vec<String>, a: &str)
    ensures
        views(final(v)@) == views(old(v)@).push(a@),
{
    let ghost before = v@;
    let s = owned(a);
    v.push(s);
    proof {
        lemma_views_push(before, s);
    }
}

pub fn build_args(
    release: bool,
    profile: Option<&str>,
    target: Option<&str>,
    features: Option<&str>,
    verbose: bool,
) -> (r: Vec<String>)
    ensures
        views(r@) == build_arguments(release, opt_view(profile), opt_view(target), opt_view(features), verbose),
{
    let mut r: Vec<String> = Vec::new();
    push_arg(&mut r, "build");
    let ghost s0 = views(r@);
    match profile {
        Some(p) => {
            push_arg(&mut r, "--profile");
            push_arg(&mut r, p);
        },
        None => {
            if release {
                push_arg(&mut r, "--release");
            }
        },
    }
    let ghost s1 = views(r@);
    match target {
        Some(t) => {
            push_arg(&mut r, "--target");
            push_arg(&mut r, t);
        },
        None => {},
    }
    let ghost s2 = views(r@);
    match features {
        Some(f) => {
            push_arg(&mut r, "--features");
            push_arg(&mut r, f);
        },
        None => {},
    }
    let ghost s3 = views(r@);
    if verbose {
        push_arg(&mut r, "-v");
    }
    proof {
        let a: Seq<Seq<char>> = match profile {
            Some(p) => seq!["--profile"@, p@],
            None => if release {
                seq!["--release"@]
            } else {
                Seq::empty()
            },
        };
        let b: Seq<Seq<char>> = match target {
            Some(t) => seq!["--target"@, t@],
            None => Seq::empty(),
        };
        let c: Seq<Seq<char>> = match features {
            Some(f) => seq!["--features"@, f@],
            None => Seq::empty(),
        };
        assert(s0 =~= seq!["build"@]);
        assert(s1 =~= s0 + a);
        assert(s2 =~= s1 + b);
        assert(s3 =~= s2 + c);
        assert(views(r@) =~= build_arguments(
            release,
            opt_view(profile),
            opt_view(target),
            opt_view(features),
            verbose,
        ));
    }
    r
}

} // verus!
