//! Shell quoting of command-line tokens and their joining into one line.
use vstd::prelude::*;

use crate::template::chars_of;

verus! {

/// Characters that a POSIX shell would treat specially in an unquoted word.
pub open spec fn is_shell_special(c: char) -> bool {
    c == ' ' || c == '\t' || c == '\n' || c == '\r' || c == '"' || c == '\'' || c == '\\'
        || c == '|' || c == '&' || c == ';' || c == '(' || c == ')' || c == '<' || c == '>'
        || c == '$' || c == '`' || c == '*' || c == '?' || c == '[' || c == ']' || c == '{'
        || c == '}' || c == '!' || c == '#' || c == '~'
}

/// Whether `t` begins with `p`.
pub open spec fn starts_with(t: Seq<char>, p: Seq<char>) -> bool {
    p.len() <= t.len() && t.subrange(0, p.len() as int) == p
}

/// Whether `t` begins with an `http://`, `https://` or `ftp://` scheme.
pub open spec fn is_url(t: Seq<char>) -> bool {
    starts_with(t, "http://"@) || starts_with(t, "https://"@) || starts_with(t, "ftp://"@)
}

/// Whether `t` must be quoted to stand as one shell word: it is not a URL,
/// and it is empty or holds a special character.
pub open spec fn token_needs_quoting(t: Seq<char>) -> bool {
    !is_url(t) && (t.len() == 0 || exists|k: int| 0 <= k < t.len() && is_shell_special(#[trigger] t[k]))
}

/// `t` with each single quote replaced by `'"'"'`.
pub open spec fn escape_quotes(t: Seq<char>) -> Seq<char>
    decreases t.len(),
{
    if t.len() == 0 {
        Seq::empty()
    } else {
        escape_quotes(t.drop_last()) + if t.last() == '\'' {
            "'\"'\"'"@
        } else {
            seq![t.last()]
        }
    }
}

/// Whether `t` opens with a quote character already.
pub open spec fn starts_quoted(t: Seq<char>) -> bool {
    t.len() > 0 && (t[0] == '"' || t[0] == '\'')
}

/// How the token `t` is written on the command line.
pub open spec fn render_token(t: Seq<char>) -> Seq<char> {
    if token_needs_quoting(t) && !starts_quoted(t) {
        "'"@ + escape_quotes(t) + "'"@
    } else {
        t
    }
}

/// `parts` joined with `sep` between each two.
pub open spec fn join(parts: Seq<Seq<char>>, sep: Seq<char>) -> Seq<char>
    decreases parts.len(),
{
    if parts.len() == 0 {
        Seq::empty()
    } else if parts.len() == 1 {
        parts[0]
    } else {
        join(parts.drop_last(), sep) + sep + parts.last()
    }
}

/// The command line of `tokens`: each rendered, joined by single spaces.
pub open spec fn command_text(tokens: Seq<Seq<char>>) -> Seq<char> {
    join(tokens.map_values(|t: Seq<char>| render_token(t)), " "@)
}

/// Whether `chars` begins with `p`.
fn has_prefix(chars: &Vec<char>, p: &str) -> (r: bool)
    ensures
        r == starts_with(chars@, p@),
{
    let n = p.unicode_len();
    if n > chars.len() {
        return false;
    }
    let mut k: usize = 0;
    while k < n
        invariant
            n == p@.len(),
            n <= chars@.len(),
            k <= n,
            chars@.subrange(0, k as int) == p@.subrange(0, k as int),
        decreases n - k,
    {
        if chars[k] != p.get_char(k) {
            assert(chars@.subrange(0, n as int)[k as int] != p@[k as int]);
            return false;
        }
        assert(chars@.subrange(0, k + 1) == chars@.subrange(0, k as int).push(chars@[k as int]));
        assert(p@.subrange(0, k + 1) == p@.subrange(0, k as int).push(p@[k as int]));
        k = k + 1;
    }
    assert(p@ == p@.subrange(0, n as int));
    true
}

fn shell_special(c: char) -> (r: bool)
    ensures
        r == is_shell_special(c),
{
    match c {
        ' ' | '\t' | '\n' | '\r' | '"' | '\'' | '\\' | '|' | '&' | ';' | '(' | ')' | '<' | '>'
        | '$' | '`' | '*' | '?' | '[' | ']' | '{' | '}' | '!' | '#' | '~' => true,
        _ => false,
    }
}

/// `arg` rendered as one shell word.
fn quote_token(arg: &str) -> (r: String)
    ensures
        r@ == render_token(arg@),
{
    if !crate::CommandBuilder::needs_quoting(arg) {
        return String::from_str(arg);
    }
    let chars = chars_of(arg);
    if chars.len() > 0 && (chars[0] == '"' || chars[0] == '\'') {
        return String::from_str(arg);
    }
    let mut out = String::from_str("'");
    let mut k: usize = 0;
    while k < chars.len()
        invariant
            chars@ == arg@,
            k <= chars@.len(),
            out@ == "'"@ + escape_quotes(arg@.subrange(0, k as int)),
        decreases chars@.len() - k,
    {
        assert(arg@.subrange(0, k + 1).drop_last() == arg@.subrange(0, k as int));
        if chars[k] == '\'' {
            out.append("'\"'\"'");
        } else {
            out.append(arg.substring_char(k, k + 1));
            assert(arg@.subrange(k as int, k + 1) == seq![arg@[k as int]]);
        }
        k = k + 1;
    }
    assert(arg@.subrange(0, k as int) == arg@);
    out.append("'");
    out
}

impl crate::CommandBuilder {
    /// Whether `arg` must be quoted to stand as one shell word.
    pub fn needs_quoting(arg: &str) -> (r: bool)
        ensures
            r == token_needs_quoting(arg@),
    {
        let chars = chars_of(arg);
        if has_prefix(&chars, "http://") || has_prefix(&chars, "https://") || has_prefix(&chars, "ftp://") {
            return false;
        }
        if chars.len() == 0 {
            return true;
        }
        let mut k: usize = 0;
        while k < chars.len()
            invariant
                chars@ == arg@,
                k <= chars@.len(),
                !is_url(arg@),
                forall|j: int| 0 <= j < k ==> !is_shell_special(#[trigger] arg@[j]),
            decreases chars@.len() - k,
        {
            if shell_special(chars[k]) {
                assert(is_shell_special(arg@[k as int]));
                return true;
            }
            k = k + 1;
        }
        false
    }

    /// The tokens `args`, each quoted where the shell needs it, joined by
    /// single spaces.
    pub fn format_curl_command(args: &[String]) -> (r: String)
        ensures
            r@ == command_text(args@.map_values(|a: String| a@)),
    {
        let ghost tokens = args@.map_values(|a: String| a@);
        let ghost rendered = tokens.map_values(|t: Seq<char>| render_token(t));
        let mut out = String::new();
        let mut i: usize = 0;
        while i < args.len()
            invariant
                i <= args@.len(),
                tokens == args@.map_values(|a: String| a@),
                rendered == tokens.map_values(|t: Seq<char>| render_token(t)),
                out@ == join(rendered.subrange(0, i as int), " "@),
            decreases args@.len() - i,
        {
            let piece = quote_token(args[i].as_str());
            assert(rendered.subrange(0, i + 1).drop_last() == rendered.subrange(0, i as int));
            assert(rendered[i as int] == piece@);
            if i > 0 {
                out.append(" ");
            } else {
                assert(rendered.subrange(0, 1) == seq![piece@]);
            }
            out.append(piece.as_str());
            i = i + 1;
        }
        assert(rendered.subrange(0, i as int) == rendered);
        out
    }
}

} // verus!
