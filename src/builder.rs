//! Assembly of the final URL and of the ordered token list of a command.
use vstd::prelude::*;

use crate::model::{
    method_name, CurlCommand, CurlOption, Environment, EnvironmentVariable, FormField, Header,
    HttpMethod, QueryParam, RequestBody,
};
use crate::outside::{encode_component, is_white_space, url_encoded, white_space};
use crate::quote::{command_text, join};
use crate::template::{chars_of, substituted};

verus! {

/// The tokens of `items`, each item giving its own, in list order.
pub open spec fn tokens_of<A>(items: Seq<A>, f: spec_fn(A) -> Seq<Seq<char>>) -> Seq<Seq<char>>
    decreases items.len(),
{
    if items.len() == 0 {
        Seq::empty()
    } else {
        tokens_of(items.drop_last(), f) + f(items.last())
    }
}

/// An enabled option gives its flag, then its substituted value if it has one.
pub open spec fn option_item(o: CurlOption, vars: Seq<EnvironmentVariable>) -> Seq<Seq<char>> {
    if o.enabled {
        seq![o.flag@] + match o.value {
            Some(v) => seq![substituted(v@, vars)],
            None => Seq::empty(),
        }
    } else {
        Seq::empty()
    }
}

/// An enabled header gives `-H` and `key: value`.
pub open spec fn header_item(h: Header, vars: Seq<EnvironmentVariable>) -> Seq<Seq<char>> {
    if h.enabled {
        seq!["-H"@, h.key@ + ": "@ + substituted(h.value@, vars)]
    } else {
        Seq::empty()
    }
}

/// An enabled form field gives `-F` and `key=value`.
pub open spec fn form_item(f: FormField, vars: Seq<EnvironmentVariable>) -> Seq<Seq<char>> {
    if f.enabled {
        seq!["-F"@, f.key@ + "="@ + substituted(f.value@, vars)]
    } else {
        Seq::empty()
    }
}

/// An enabled query parameter gives the pair `key=value`, its value encoded.
pub open spec fn query_item(p: QueryParam, vars: Seq<EnvironmentVariable>) -> Seq<Seq<char>> {
    if p.enabled {
        seq![p.key@ + "="@ + url_encoded(substituted(p.value@, vars))]
    } else {
        Seq::empty()
    }
}

/// The tokens of the options, in list order.
pub open spec fn option_tokens(opts: Seq<CurlOption>, vars: Seq<EnvironmentVariable>) -> Seq<Seq<char>> {
    tokens_of(opts, |o: CurlOption| option_item(o, vars))
}

/// The tokens of the headers, in list order.
pub open spec fn header_tokens(hs: Seq<Header>, vars: Seq<EnvironmentVariable>) -> Seq<Seq<char>> {
    tokens_of(hs, |h: Header| header_item(h, vars))
}

/// The tokens of the form fields, in list order.
pub open spec fn form_tokens(fs: Seq<FormField>, vars: Seq<EnvironmentVariable>) -> Seq<Seq<char>> {
    tokens_of(fs, |f: FormField| form_item(f, vars))
}

/// The `key=value` pairs of the enabled query parameters, in list order.
pub open spec fn query_pairs(ps: Seq<QueryParam>, vars: Seq<EnvironmentVariable>) -> Seq<Seq<char>> {
    tokens_of(ps, |p: QueryParam| query_item(p, vars))
}

/// A verb other than `GET` gives `-X` and its name; `GET` is implied.
pub open spec fn method_tokens(m: Option<HttpMethod>) -> Seq<Seq<char>> {
    match m {
        Some(x) => if x != HttpMethod::GET {
            seq!["-X"@, method_name(x)]
        } else {
            Seq::empty()
        },
        None => Seq::empty(),
    }
}

/// Whether every character of `t` is white space.
pub open spec fn is_blank(t: Seq<char>) -> bool {
    forall|k: int| 0 <= k < t.len() ==> is_white_space(#[trigger] t[k])
}

/// The tokens of a body: raw text unless blank after substitution, the
/// enabled form fields, or a file reference.
pub open spec fn body_tokens(body: Option<RequestBody>, vars: Seq<EnvironmentVariable>) -> Seq<Seq<char>> {
    match body {
        Some(RequestBody::Raw(c)) => {
            let t = substituted(c@, vars);
            if is_blank(t) {
                Seq::empty()
            } else {
                seq!["-d"@, t]
            }
        },
        Some(RequestBody::FormData(fs)) => form_tokens(fs@, vars),
        Some(RequestBody::Binary(p)) => seq!["--data-binary"@, "@"@ + p@],
        _ => Seq::empty(),
    }
}

/// The substituted URL, with the enabled query pairs joined by `&` added
/// after `?`, or after `&` where the URL has a query already.
pub open spec fn final_url(cmd: CurlCommand, vars: Seq<EnvironmentVariable>) -> Seq<char> {
    let base = substituted(cmd.url@, vars);
    let pairs = query_pairs(cmd.query_params@, vars);
    if pairs.len() == 0 {
        base
    } else {
        base + (if base.contains('?') {
            "&"@
        } else {
            "?"@
        }) + join(pairs, "&"@)
    }
}

/// The tokens of a command, in order: program, options, verb, headers,
/// body, URL.
pub open spec fn command_tokens(cmd: CurlCommand, vars: Seq<EnvironmentVariable>) -> Seq<Seq<char>> {
    seq!["curl"@] + option_tokens(cmd.options@, vars) + method_tokens(cmd.method) + header_tokens(
        cmd.headers@,
        vars,
    ) + body_tokens(cmd.body, vars) + seq![final_url(cmd, vars)]
}

/// The command line of `cmd` with placeholders resolved against `vars`.
pub open spec fn command_line(cmd: CurlCommand, vars: Seq<EnvironmentVariable>) -> Seq<char> {
    command_text(command_tokens(cmd, vars))
}

/// The text of each string.
pub open spec fn texts(v: Seq<String>) -> Seq<Seq<char>> {
    v.map_values(|a: String| a@)
}

/// Adds one token at the end of `args`.
fn push_token(args: &mut Vec<String>, t: String)
    ensures
        texts(final(args)@) == texts(old(args)@).push(t@),
{
    args.push(t);
    assert(texts(args@) == texts(old(args)@).push(t@));
}

/// Whether `s` holds `c`.
fn has_char(s: &str, c: char) -> (r: bool)
    ensures
        r == s@.contains(c),
{
    let chars = chars_of(s);
    let mut k: usize = 0;
    while k < chars.len()
        invariant
            chars@ == s@,
            k <= chars@.len(),
            forall|j: int| 0 <= j < k ==> s@[j] != c,
        decreases chars@.len() - k,
    {
        if chars[k] == c {
            assert(s@[k as int] == c);
            return true;
        }
        k = k + 1;
    }
    false
}

/// Whether every character of `s` is white space.
fn blank(s: &str) -> (r: bool)
    ensures
        r == is_blank(s@),
{
    let chars = chars_of(s);
    let mut k: usize = 0;
    while k < chars.len()
        invariant
            chars@ == s@,
            k <= chars@.len(),
            forall|j: int| 0 <= j < k ==> is_white_space(#[trigger] s@[j]),
        decreases chars@.len() - k,
    {
        if !white_space(chars[k]) {
            return false;
        }
        k = k + 1;
    }
    true
}

/// `a` followed by `b` and `c`.
fn concat3(a: &str, b: &str, c: &str) -> (r: String)
    ensures
        r@ == a@ + b@ + c@,
{
    let mut r = String::from_str(a);
    r.append(b);
    r.append(c);
    r
}

impl crate::CommandBuilder {
    /// The URL of `command`: substituted, with its enabled query parameters
    /// appended in order.
    pub fn build_url_with_query(command: &CurlCommand, environment: &Environment) -> (r: String)
        ensures
            r@ == final_url(*command, environment.variables@),
    {
        let ghost vars = environment.variables@;
        let ghost f = |p: QueryParam| query_item(p, vars);
        let ghost ps = command.query_params@;
        let mut url = Self::substitute_env_vars(command.url.as_str(), environment);
        let mut query = String::new();
        let mut count: usize = 0;
        let mut i: usize = 0;
        while i < command.query_params.len()
            invariant
                vars == environment.variables@,
                ps == command.query_params@,
                f == (|p: QueryParam| query_item(p, vars)),
                i <= ps.len(),
                count as int == tokens_of(ps.subrange(0, i as int), f).len(),
                count <= i,
                query@ == join(tokens_of(ps.subrange(0, i as int), f), "&"@),
            decreases ps.len() - i,
        {
            let p = &command.query_params[i];
            let ghost prev = tokens_of(ps.subrange(0, i as int), f);
            assert(ps.subrange(0, i + 1).drop_last() == ps.subrange(0, i as int));
            if p.enabled {
                let value = Self::substitute_env_vars(p.value.as_str(), environment);
                let encoded = encode_component(value.as_str());
                let pair = concat3(p.key.as_str(), "=", encoded.as_str());
                assert((prev + seq![pair@]).drop_last() == prev);
                if count > 0 {
                    query.append("&");
                }
                query.append(pair.as_str());
                count = count + 1;
            } else {
                assert(prev + Seq::<Seq<char>>::empty() == prev);
            }
            i = i + 1;
        }
        assert(ps.subrange(0, i as int) == ps);
        if count > 0 {
            if has_char(url.as_str(), '?') {
                url.append("&");
            } else {
                url.append("?");
            }
            url.append(query.as_str());
        }
        url
    }

    /// The command line for `command`, with placeholders resolved against
    /// `environment`.
    pub fn build(command: &CurlCommand, environment: &Environment) -> (r: String)
        ensures
            r@ == command_line(*command, environment.variables@),
    {
        let ghost vars = environment.variables@;
        let mut args: Vec<String> = Vec::new();
        push_token(&mut args, String::from_str("curl"));
        let ghost head = texts(args@);
        let ghost fo = |o: CurlOption| option_item(o, vars);
        let ghost opts = command.options@;
        let mut i: usize = 0;
        while i < command.options.len()
            invariant
                vars == environment.variables@,
                opts == command.options@,
                fo == (|o: CurlOption| option_item(o, vars)),
                i <= opts.len(),
                texts(args@) == head + tokens_of(opts.subrange(0, i as int), fo),
            decreases opts.len() - i,
        {
            let o = &command.options[i];
            assert(opts.subrange(0, i + 1).drop_last() == opts.subrange(0, i as int));
            let ghost before = texts(args@);
            if o.enabled {
                push_token(&mut args, o.flag.clone());
                match &o.value {
                    Some(v) => {
                        push_token(&mut args, Self::substitute_env_vars(v.as_str(), environment));
                    },
                    None => {},
                }
            }
            assert(texts(args@) == before + fo(opts[i as int]));
            i = i + 1;
        }
        assert(opts.subrange(0, i as int) == opts);
        let ghost after_options = texts(args@);
        match command.method {
            Some(m) => {
                if m != HttpMethod::GET {
                    push_token(&mut args, String::from_str("-X"));
                    push_token(&mut args, m.to_string());
                }
            },
            None => {},
        }
        assert(texts(args@) == after_options + method_tokens(command.method));
        let ghost after_method = texts(args@);
        let ghost fh = |h: Header| header_item(h, vars);
        let ghost hs = command.headers@;
        let mut i: usize = 0;
        while i < command.headers.len()
            invariant
                vars == environment.variables@,
                hs == command.headers@,
                fh == (|h: Header| header_item(h, vars)),
                i <= hs.len(),
                texts(args@) == after_method + tokens_of(hs.subrange(0, i as int), fh),
            decreases hs.len() - i,
        {
            let h = &command.headers[i];
            assert(hs.subrange(0, i + 1).drop_last() == hs.subrange(0, i as int));
            let ghost before = texts(args@);
            if h.enabled {
                let value = Self::substitute_env_vars(h.value.as_str(), environment);
                push_token(&mut args, String::from_str("-H"));
                push_token(&mut args, concat3(h.key.as_str(), ": ", value.as_str()));
            }
            assert(texts(args@) == before + fh(hs[i as int]));
            i = i + 1;
        }
        assert(hs.subrange(0, i as int) == hs);
        let ghost after_headers = texts(args@);
        match &command.body {
            Some(RequestBody::Raw(content)) => {
                let text = Self::substitute_env_vars(content.as_str(), environment);
                if !blank(text.as_str()) {
                    push_token(&mut args, String::from_str("-d"));
                    push_token(&mut args, text);
                } else {
                    assert(after_headers + Seq::<Seq<char>>::empty() == after_headers);
                }
            },
            Some(RequestBody::FormData(fields)) => {
                let ghost ff = |f: FormField| form_item(f, vars);
                let ghost fs = fields@;
                let mut i: usize = 0;
                while i < fields.len()
                    invariant
                        vars == environment.variables@,
                        fs == fields@,
                        ff == (|f: FormField| form_item(f, vars)),
                        i <= fs.len(),
                        texts(args@) == after_headers + tokens_of(fs.subrange(0, i as int), ff),
                    decreases fs.len() - i,
                {
                    let f = &fields[i];
                    assert(fs.subrange(0, i + 1).drop_last() == fs.subrange(0, i as int));
                    let ghost before = texts(args@);
                    if f.enabled {
                        let value = Self::substitute_env_vars(f.value.as_str(), environment);
                        push_token(&mut args, String::from_str("-F"));
                        push_token(&mut args, concat3(f.key.as_str(), "=", value.as_str()));
                    }
                    assert(texts(args@) == before + ff(fs[i as int]));
                    i = i + 1;
                }
                assert(fs.subrange(0, i as int) == fs);
                assert(texts(args@) == after_headers + tokens_of(fields@, ff));
            },
            Some(RequestBody::Binary(path)) => {
                push_token(&mut args, String::from_str("--data-binary"));
                let mut reference = String::from_str("@");
                reference.append(path.as_str());
                push_token(&mut args, reference);
            },
            _ => {
                assert(after_headers + Seq::<Seq<char>>::empty() == after_headers);
            },
        }
        assert(texts(args@) == after_headers + body_tokens(command.body, vars));
        push_token(&mut args, Self::build_url_with_query(command, environment));
        assert(texts(args@) == command_tokens(*command, vars));
        Self::format_curl_command(args.as_slice())
    }
}

} // verus!
