//! Names used by the code generators: type-name validation, snake case and
//! table-name pluralization.
use vstd::prelude::*;
use crate::text::{
    ascii_lower, chars_of, ends_with, is_alnum, is_alpha, is_ascii_alnum, is_ascii_alpha,
    is_ascii_upper, is_upper, owned, push_str, string_push, to_ascii_lower,
};

verus! {

/// Why a name is not a valid Rust type name.
#[derive(Clone, Copy, PartialEq, Eq, Debug)]
pub enum NameError {
    /// "name cannot be empty"
    Empty,
    /// "name must start with a letter or underscore"
    BadStart,
    /// "name must contain only letters, numbers, and underscores"
    BadChar,
}

/// The text of each refusal.
pub open spec fn name_error_text(e: NameError) -> Seq<char> {
    match e {
        NameError::Empty => "name cannot be empty"@,
        NameError::BadStart => "name must start with a letter or underscore"@,
        NameError::BadChar => "name must contain only letters, numbers, and underscores"@,
    }
}

impl NameError {
    /// The message the generators report.
    pub fn message(&self) -> (r: &'static str)
        ensures
            r@ == name_error_text(*self),
    {
        match self {
            NameError::Empty => "name cannot be empty",
            NameError::BadStart => "name must start with a letter or underscore",
            NameError::BadChar => "name must contain only letters, numbers, and underscores",
        }
    }
}

pub open spec fn is_ident_char(c: char) -> bool {
    is_ascii_alnum(c) || c == '_'
}

/// The verdict on a candidate type name.
pub open spec fn type_name_check(s: Seq<char>) -> Result<(), NameError> {
    if s.len() == 0 {
        Err(NameError::Empty)
    } else if !(is_ascii_alpha(s[0]) || s[0] == '_') {
        Err(NameError::BadStart)
    } else if !(forall|i: int| 1 <= i < s.len() ==> is_ident_char(#[trigger] s[i])) {
        Err(NameError::BadChar)
    } else {
        Ok(())
    }
}

/// Checks that `name` is a non-empty ASCII identifier starting with a letter
/// or `_` and continuing with letters, digits or `_`.
pub fn validate_rust_type_name(name: &str) -> (r: Result<(), NameError>)
    ensures
        r == type_name_check(name@),
{
    let v = chars_of(name);
    if v.len() == 0 {
        return Err(NameError::Empty);
    }
    let first = v[0];
    if !(is_alpha(first) || first == '_') {
        return Err(NameError::BadStart);
    }
    let mut i: usize = 1;
    while i < v.len()
        invariant
            1 <= i <= v@.len(),
            v@ == name@,
            is_ascii_alpha(v@[0]) || v@[0] == '_',
            forall|k: int| 1 <= k < i ==> is_ident_char(#[trigger] v@[k]),
        decreases v.len() - i,
    {
        let c = v[i];
        if !(is_alnum(c) || c == '_') {
            proof {
                assert(!is_ident_char(name@[i as int]));
                assert(!(forall|k: int| 1 <= k < name@.len() ==> is_ident_char(#[trigger] name@[k])));
            }
            return Err(NameError::BadChar);
        }
        i = i + 1;
    }
    Ok(())
}

/// Snake case of a camel-case name: every ASCII uppercase letter after the
/// first character is preceded by `_`, and all ASCII letters are lowered.
pub open spec fn snake_case(s: Seq<char>) -> Seq<char>
    decreases s.len(),
{
    if s.len() == 0 {
        Seq::empty()
    } else {
        let prev = snake_case(s.drop_last());
        let c = s.last();
        if is_ascii_upper(c) && s.len() > 1 {
            prev.push('_').push(ascii_lower(c))
        } else {
            prev.push(ascii_lower(c))
        }
    }
}

/// `UserProfile` becomes `user_profile`.
pub fn to_snake_case(input: &str) -> (r: String)
    ensures
        r@ == snake_case(input@),
{
    let v = chars_of(input);
    let mut out = String::new();
    let mut i: usize = 0;
    while i < v.len()
        invariant
            i <= v@.len(),
            v@ == input@,
            out@ == snake_case(v@.take(i as int)),
        decreases v.len() - i,
    {
        let ch = v[i];
        proof {
            let t = v@.take(i + 1);
            assert(t.drop_last() =~= v@.take(i as int));
            assert(t.last() == ch);
        }
        if is_upper(ch) && i > 0 {
            string_push(&mut out, '_');
        }
        string_push(&mut out, to_ascii_lower(ch));
        i = i + 1;
    }
    assert(v@.take(v@.len() as int) =~= v@);
    out
}

/// A table name: the base itself when it already ends in `s`, otherwise the
/// base with `s` appended.
pub open spec fn plural_table_name(base: Seq<char>) -> Seq<char> {
    if ends_with(base, "s"@) {
        base
    } else {
        base + "s"@
    }
}

/// `post` becomes `posts`; `users` stays `users`.
pub fn pluralize_table_name(base: &str) -> (r: String)
    ensures
        r@ == plural_table_name(base@),
{
    let v = chars_of(base);
    let n = v.len();
    proof {
        reveal_strlit("s");
        assert("s"@ =~= seq!['s']);
    }
    if n > 0 && v[n - 1] == 's' {
        proof {
            assert(base@.skip(base@.len() - 1) =~= seq!['s']);
        }
        owned(base)
    } else {
        proof {
            assert("s"@.len() == 1 && "s"@[0] == 's');
            if ends_with(base@, "s"@) {
                assert(base@.skip(base@.len() - 1)[0] == base@[base@.len() - 1]);
                assert(false);
            }
        }
        let mut r = owned(base);
        push_str(&mut r, "s");
        r
    }
}

} // verus!
