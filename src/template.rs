//! Resolution of `{{name}}` and `{{name:default}}` placeholders.
//!
//! A placeholder is `{{`, a non-empty name without `:` or `}`, optionally `:`
//! and a non-empty default without `}`, then `}}`. The text is scanned left to
//! right; each placeholder found is replaced once, and scanning resumes after
//! it, so replacement text is never expanded again.
use vstd::prelude::*;

use crate::model::{lookup, Environment, EnvironmentVariable};

verus! {

/// The first index from `j` on that ends a placeholder name: the end of `s`,
/// a `:` or a `}`.
pub open spec fn name_end(s: Seq<char>, j: int) -> int
    decreases s.len() - j,
{
    if j >= s.len() || s[j] == ':' || s[j] == '}' {
        j
    } else {
        name_end(s, j + 1)
    }
}

/// The first index from `j` on that ends a default: the end of `s` or a `}`.
pub open spec fn default_end(s: Seq<char>, j: int) -> int
    decreases s.len() - j,
{
    if j >= s.len() || s[j] == '}' {
        j
    } else {
        default_end(s, j + 1)
    }
}

/// The placeholder that starts at index `i` of `s`, if one does: the index
/// just past it, its name, and its default.
pub open spec fn placeholder_at(s: Seq<char>, i: int) -> Option<(int, Seq<char>, Option<Seq<char>>)> {
    if 0 <= i && i + 1 < s.len() && s[i] == '{' && s[i + 1] == '{' {
        let n = name_end(s, i + 2);
        if n == i + 2 {
            None
        } else if n + 1 < s.len() && s[n] == '}' && s[n + 1] == '}' {
            Some((n + 2, s.subrange(i + 2, n), None))
        } else if n < s.len() && s[n] == ':' {
            let d = default_end(s, n + 1);
            if d > n + 1 && d + 1 < s.len() && s[d + 1] == '}' {
                Some((d + 2, s.subrange(i + 2, n), Some(s.subrange(n + 1, d))))
            } else {
                None
            }
        } else {
            None
        }
    } else {
        None
    }
}

/// What the placeholder `s[i..end]` named `name` becomes: the variable's
/// value, else its default, else the placeholder text itself.
pub open spec fn resolution(
    s: Seq<char>,
    i: int,
    end: int,
    name: Seq<char>,
    default: Option<Seq<char>>,
    vars: Seq<EnvironmentVariable>,
) -> Seq<char> {
    match lookup(vars, name) {
        Some(v) => v,
        None => match default {
            Some(d) => d,
            None => s.subrange(i, end),
        },
    }
}

/// A name runs from `j` to `name_end(s, j)` within `s`.
pub proof fn lemma_name_end_bounds(s: Seq<char>, j: int)
    ensures
        j <= name_end(s, j),
        j <= s.len() ==> name_end(s, j) <= s.len(),
        forall|k: int| j <= k < name_end(s, j) ==> s[k] != ':' && s[k] != '}',
    decreases s.len() - j,
{
    if !(j >= s.len() || s[j] == ':' || s[j] == '}') {
        lemma_name_end_bounds(s, j + 1);
    }
}

/// A default runs from `j` to `default_end(s, j)` within `s`.
pub proof fn lemma_default_end_bounds(s: Seq<char>, j: int)
    ensures
        j <= default_end(s, j),
        j <= s.len() ==> default_end(s, j) <= s.len(),
        forall|k: int| j <= k < default_end(s, j) ==> s[k] != '}',
    decreases s.len() - j,
{
    if !(j >= s.len() || s[j] == '}') {
        lemma_default_end_bounds(s, j + 1);
    }
}

/// A placeholder found at `i` ends past `i + 2`, within `s`.
pub proof fn lemma_placeholder_bounds(s: Seq<char>, i: int)
    requires
        placeholder_at(s, i) is Some,
    ensures
        i + 4 < placeholder_at(s, i).unwrap().0 + 1,
        placeholder_at(s, i).unwrap().0 <= s.len(),
{
    lemma_name_end_bounds(s, i + 2);
    let n = name_end(s, i + 2);
    if n < s.len() && s[n] == ':' {
        lemma_default_end_bounds(s, n + 1);
    }
}

/// `s` from index `i` on with its placeholders resolved against `vars`.
pub open spec fn substituted_from(s: Seq<char>, i: int, vars: Seq<EnvironmentVariable>) -> Seq<char>
    decreases s.len() - i,
{
    if i < 0 || i >= s.len() {
        Seq::empty()
    } else {
        match placeholder_at(s, i) {
            Some((end, name, default)) => {
                proof {
                    lemma_placeholder_bounds(s, i);
                }
                resolution(s, i, end, name, default, vars)
                + substituted_from(s, end, vars)
            },
            None => seq![s[i]] + substituted_from(s, i + 1, vars),
        }
    }
}

/// `s` with its placeholders resolved against `vars`.
pub open spec fn substituted(s: Seq<char>, vars: Seq<EnvironmentVariable>) -> Seq<char> {
    substituted_from(s, 0, vars)
}

/// Whether some placeholder starts in `s`.
pub open spec fn has_placeholder(s: Seq<char>) -> bool {
    exists|i: int| 0 <= i < s.len() && #[trigger] placeholder_at(s, i) is Some
}

/// The placeholder at `chars[i]`, if any, as (end of name, end of placeholder,
/// whether a default follows the name).
fn find_placeholder(chars: &Vec<char>, i: usize) -> (r: Option<(usize, usize, bool)>)
    requires
        i < chars@.len(),
    ensures
        match r {
            None => placeholder_at(chars@, i as int) is None,
            Some((n, end, has_default)) => {
                &&& i + 2 < n < end <= chars@.len()
                &&& has_default ==> n + 1 < end - 2
                &&& placeholder_at(chars@, i as int) == Some(
                    (
                        end as int,
                        chars@.subrange(i + 2, n as int),
                        if has_default {
                            Some(chars@.subrange(n + 1, end - 2))
                        } else {
                            None
                        },
                    ),
                )
            },
        },
{
    let len = chars.len();
    if !(i + 1 < len && chars[i] == '{' && chars[i + 1] == '{') {
        return None;
    }
    let mut n: usize = i + 2;
    while n < len && chars[n] != ':' && chars[n] != '}'
        invariant
            len == chars@.len(),
            i + 2 <= n <= len,
            name_end(chars@, i + 2) == name_end(chars@, n as int),
        decreases len - n,
    {
        n = n + 1;
    }
    if n == i + 2 {
        return None;
    }
    if n < len && chars[n] == '}' && n + 1 < len && chars[n + 1] == '}' {
        return Some((n, n + 2, false));
    }
    if !(n < len && chars[n] == ':') {
        return None;
    }
    let mut d: usize = n + 1;
    while d < len && chars[d] != '}'
        invariant
            len == chars@.len(),
            n + 1 <= d <= len,
            default_end(chars@, n + 1) == default_end(chars@, d as int),
        decreases len - d,
    {
        d = d + 1;
    }
    if d > n + 1 && d < len && d + 1 < len && chars[d + 1] == '}' {
        Some((n, d + 2, true))
    } else {
        None
    }
}

/// The characters of `s`, one by one.
pub fn chars_of(s: &str) -> (r: Vec<char>)
    ensures
        r@ == s@,
{
    let n = s.unicode_len();
    let mut r: Vec<char> = Vec::new();
    let mut i: usize = 0;
    while i < n
        invariant
            n == s@.len(),
            i <= n,
            r@ == s@.subrange(0, i as int),
        decreases n - i,
    {
        r.push(s.get_char(i));
        assert(r@ == s@.subrange(0, i + 1));
        i = i + 1;
    }
    assert(s@ == s@.subrange(0, n as int));
    r
}

/// Whether `key` is the text `chars[a..b]`.
fn key_is(key: &str, chars: &Vec<char>, a: usize, b: usize) -> (r: bool)
    requires
        a <= b <= chars@.len(),
    ensures
        r == (key@ == chars@.subrange(a as int, b as int)),
{
    let n = key.unicode_len();
    if n != b - a {
        return false;
    }
    let mut k: usize = 0;
    while k < n
        invariant
            n == key@.len(),
            n == b - a,
            a <= b <= chars@.len(),
            k <= n,
            key@.subrange(0, k as int) == chars@.subrange(a as int, a + k),
        decreases n - k,
    {
        if key.get_char(k) != chars[a + k] {
            assert(key@[k as int] != chars@.subrange(a as int, b as int)[k as int]);
            return false;
        }
        assert(key@.subrange(0, k + 1) == key@.subrange(0, k as int).push(key@[k as int]));
        assert(chars@.subrange(a as int, a + k + 1) == chars@.subrange(a as int, a + k).push(chars@[a + k]));
        k = k + 1;
    }
    assert(key@ == key@.subrange(0, n as int));
    true
}

/// The index of the first variable named `chars[a..b]`, if any.
fn find_variable(vars: &Vec<EnvironmentVariable>, chars: &Vec<char>, a: usize, b: usize) -> (r: Option<usize>)
    requires
        a <= b <= chars@.len(),
    ensures
        match r {
            None => lookup(vars@, chars@.subrange(a as int, b as int)) is None,
            Some(k) => k < vars@.len() && lookup(vars@, chars@.subrange(a as int, b as int))
                == Some(vars@[k as int].value@),
        },
{
    let ghost name = chars@.subrange(a as int, b as int);
    let mut k: usize = 0;
    while k < vars.len()
        invariant
            a <= b <= chars@.len(),
            name == chars@.subrange(a as int, b as int),
            k <= vars@.len(),
            lookup(vars@, name) == crate::model::lookup_from(vars@, name, k as int),
        decreases vars@.len() - k,
    {
        if key_is(vars[k].key.as_str(), chars, a, b) {
            return Some(k);
        }
        k = k + 1;
    }
    None
}

impl crate::CommandBuilder {
    /// Resolves every placeholder of `input` against `environment`, left to
    /// right, each once.
    pub fn substitute_env_vars(input: &str, environment: &Environment) -> (r: String)
        ensures
            r@ == substituted(input@, environment.variables@),
    {
        let chars = chars_of(input);
        let len = chars.len();
        let ghost vars = environment.variables@;
        let mut out = String::new();
        let mut i: usize = 0;
        while i < len
            invariant
                len == chars@.len(),
                chars@ == input@,
                vars == environment.variables@,
                i <= len,
                out@ + substituted_from(input@, i as int, vars) == substituted(input@, vars),
            decreases len - i,
        {
            match find_placeholder(&chars, i) {
                Some((n, end, has_default)) => {
                    match find_variable(&environment.variables, &chars, i + 2, n) {
                        Some(k) => out.append(environment.variables[k].value.as_str()),
                        None => {
                            if has_default {
                                out.append(input.substring_char(n + 1, end - 2));
                            } else {
                                out.append(input.substring_char(i, end));
                            }
                        },
                    }
                    assert(out@ + substituted_from(input@, end as int, vars) == substituted(input@, vars));
                    i = end;
                },
                None => {
                    out.append(input.substring_char(i, i + 1));
                    assert(input@.subrange(i as int, i + 1) == seq![input@[i as int]]);
                    i = i + 1;
                },
            }
        }
        assert(substituted_from(input@, i as int, vars) == Seq::<char>::empty());
        assert(out@ == out@ + Seq::<char>::empty());
        out
    }
}

} // verus!
