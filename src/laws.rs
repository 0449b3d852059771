//! General properties of command rendering, proved over the spec functions
//! that the executable functions' contracts use.
use vstd::prelude::*;

use crate::builder::{
    body_tokens, command_line, command_tokens, final_url, header_item, is_blank, method_tokens,
    option_item, query_item, query_pairs, tokens_of, form_item,
};
use crate::model::{method_name, CurlCommand, EnvironmentVariable, FormField, Header, HttpMethod, QueryParam, CurlOption, RequestBody};
use crate::outside::url_encoded;
use crate::quote::{is_url, join, render_token, token_needs_quoting};
use crate::template::{has_placeholder, placeholder_at, substituted, substituted_from};

verus! {

/// Token lists keep list order: the tokens of `a` followed by `b` are those
/// of `a`, then those of `b`. Options, headers, query pairs and form fields
/// are all rendered through `tokens_of`.
pub proof fn lemma_tokens_keep_list_order<A>(a: Seq<A>, b: Seq<A>, f: spec_fn(A) -> Seq<Seq<char>>)
    ensures
        tokens_of(a + b, f) == tokens_of(a, f) + tokens_of(b, f),
    decreases b.len(),
{
    if b.len() == 0 {
        assert(a + b == a);
        assert(tokens_of(a, f) + tokens_of(b, f) == tokens_of(a, f));
    } else {
        assert((a + b).drop_last() == a + b.drop_last());
        assert((a + b).last() == b.last());
        lemma_tokens_keep_list_order(a, b.drop_last(), f);
        assert(tokens_of(a + b, f) == tokens_of(a, f) + tokens_of(b.drop_last(), f) + f(b.last()));
    }
}

/// Dropping the items that give no tokens leaves the tokens unchanged.
pub proof fn lemma_tokens_of_filter<A>(items: Seq<A>, keep: spec_fn(A) -> bool, f: spec_fn(A) -> Seq<Seq<char>>)
    requires
        forall|x: A| !keep(x) ==> #[trigger] f(x) == Seq::<Seq<char>>::empty(),
    ensures
        tokens_of(items.filter(keep), f) == tokens_of(items, f),
    decreases items.len(),
{
    reveal(Seq::filter);
    if items.len() > 0 {
        lemma_tokens_of_filter(items.drop_last(), keep, f);
        let rest = items.drop_last().filter(keep);
        if keep(items.last()) {
            assert(rest.push(items.last()).drop_last() == rest);
        } else {
            assert(tokens_of(items, f) == tokens_of(items.drop_last(), f) + Seq::<Seq<char>>::empty());
        }
    }
}

proof fn lemma_tokens_of_silent<A>(items: Seq<A>, f: spec_fn(A) -> Seq<Seq<char>>)
    requires
        forall|i: int| 0 <= i < items.len() ==> f(items[i]) == Seq::<Seq<char>>::empty(),
    ensures
        tokens_of(items, f) == Seq::<Seq<char>>::empty(),
    decreases items.len(),
{
    if items.len() > 0 {
        lemma_tokens_of_silent(items.drop_last(), f);
        assert(f(items[items.len() - 1]) == Seq::<Seq<char>>::empty());
    }
}

/// The body `b` with its disabled form fields dropped, as `a` holds it.
pub open spec fn body_without_disabled(a: Option<RequestBody>, b: Option<RequestBody>) -> bool {
    match b {
        Some(RequestBody::FormData(fs)) => match a {
            Some(RequestBody::FormData(gs)) => gs@ == fs@.filter(|f: FormField| f.enabled),
            _ => false,
        },
        _ => a == b,
    }
}

/// Disabled items never reach the output: the command line is the same once
/// every disabled option, header, query parameter and form field is dropped
/// from its list, wherever it stood.
pub proof fn lemma_disabled_items_ignored(cmd: CurlCommand, trimmed: CurlCommand, vars: Seq<EnvironmentVariable>)
    requires
        trimmed.url@ == cmd.url@,
        trimmed.method == cmd.method,
        trimmed.options@ == cmd.options@.filter(|o: CurlOption| o.enabled),
        trimmed.headers@ == cmd.headers@.filter(|h: Header| h.enabled),
        trimmed.query_params@ == cmd.query_params@.filter(|p: QueryParam| p.enabled),
        body_without_disabled(trimmed.body, cmd.body),
    ensures
        command_line(trimmed, vars) == command_line(cmd, vars),
{
    lemma_tokens_of_filter(cmd.options@, |o: CurlOption| o.enabled, |o: CurlOption| option_item(o, vars));
    lemma_tokens_of_filter(cmd.headers@, |h: Header| h.enabled, |h: Header| header_item(h, vars));
    lemma_tokens_of_filter(cmd.query_params@, |p: QueryParam| p.enabled, |p: QueryParam| query_item(p, vars));
    match cmd.body {
        Some(RequestBody::FormData(fs)) => {
            lemma_tokens_of_filter(fs@, |f: FormField| f.enabled, |f: FormField| form_item(f, vars));
        },
        _ => {},
    }
    assert(body_tokens(trimmed.body, vars) == body_tokens(cmd.body, vars));
    assert(final_url(trimmed, vars) == final_url(cmd, vars));
    assert(command_tokens(trimmed, vars) == command_tokens(cmd, vars));
}

/// A request with no enabled option, header or query parameter, no body and
/// no verb but `GET` renders as `curl` and its URL, where the substituted URL
/// is a word the shell takes as written.
pub proof fn lemma_bare_request(cmd: CurlCommand, vars: Seq<EnvironmentVariable>)
    requires
        forall|i: int| 0 <= i < cmd.options@.len() ==> !(#[trigger] cmd.options@[i]).enabled,
        forall|i: int| 0 <= i < cmd.headers@.len() ==> !(#[trigger] cmd.headers@[i]).enabled,
        forall|i: int| 0 <= i < cmd.query_params@.len() ==> !(#[trigger] cmd.query_params@[i]).enabled,
        cmd.body is None || cmd.body == Some(RequestBody::Empty),
        cmd.method is None || cmd.method == Some(HttpMethod::GET),
        render_token(substituted(cmd.url@, vars)) == substituted(cmd.url@, vars),
    ensures
        command_line(cmd, vars) == "curl "@ + substituted(cmd.url@, vars),
{
    let u = substituted(cmd.url@, vars);
    lemma_tokens_of_silent(cmd.options@, |o: CurlOption| option_item(o, vars));
    lemma_tokens_of_silent(cmd.headers@, |h: Header| header_item(h, vars));
    lemma_tokens_of_silent(cmd.query_params@, |p: QueryParam| query_item(p, vars));
    assert(final_url(cmd, vars) == u);
    let tokens = command_tokens(cmd, vars);
    assert(tokens == seq!["curl"@, u]);
    reveal_strlit("curl");
    reveal_strlit("curl ");
    reveal_strlit(" ");
    assert(!token_needs_quoting("curl"@));
    let rendered = tokens.map_values(|t: Seq<char>| render_token(t));
    assert(rendered == seq!["curl"@, u]);
    assert(rendered.drop_last() == seq!["curl"@]);
    assert(join(rendered.drop_last(), " "@) == "curl"@);
    assert(join(rendered, " "@) == "curl"@ + " "@ + u);
    assert("curl"@ + " "@ == "curl "@);
}

/// The verb flag pair `-X NAME` is given exactly when a verb other than
/// `GET` is set; `GET` is implied.
pub proof fn lemma_method_flag(m: Option<HttpMethod>)
    ensures
        (method_tokens(m).len() > 0) == (m is Some && m.unwrap() != HttpMethod::GET),
        m is Some && m.unwrap() != HttpMethod::GET ==> method_tokens(m) == seq!["-X"@, method_name(m.unwrap())],
{
}

/// Query assembly adds to a query that the URL has already: with a `?` in
/// the substituted URL and one enabled parameter, the URL is kept whole and
/// `&key=value` follows it.
pub proof fn lemma_query_is_additive(cmd: CurlCommand, p: QueryParam, vars: Seq<EnvironmentVariable>)
    requires
        substituted(cmd.url@, vars).contains('?'),
        cmd.query_params@.filter(|q: QueryParam| q.enabled) == seq![p],
    ensures
        final_url(cmd, vars) == substituted(cmd.url@, vars) + "&"@ + (p.key@ + "="@ + url_encoded(
            substituted(p.value@, vars),
        )),
{
    let f = |q: QueryParam| query_item(q, vars);
    lemma_tokens_of_filter(cmd.query_params@, |q: QueryParam| q.enabled, f);
    assert(p.enabled) by {
        cmd.query_params@.lemma_filter_pred(|q: QueryParam| q.enabled, 0);
    }
    assert(seq![p].drop_last() == Seq::<QueryParam>::empty());
    assert(tokens_of(Seq::<QueryParam>::empty(), f) == Seq::<Seq<char>>::empty());
    assert(tokens_of(seq![p], f) == Seq::<Seq<char>>::empty() + f(p));
    assert(query_pairs(cmd.query_params@, vars) == seq![p.key@ + "="@ + url_encoded(substituted(p.value@, vars))]);
}

proof fn lemma_substituted_from_plain(s: Seq<char>, i: int, vars: Seq<EnvironmentVariable>)
    requires
        0 <= i <= s.len(),
        !has_placeholder(s),
    ensures
        substituted_from(s, i, vars) == s.subrange(i, s.len() as int),
    decreases s.len() - i,
{
    if i < s.len() {
        assert(placeholder_at(s, i) is None);
        lemma_substituted_from_plain(s, i + 1, vars);
        assert(s.subrange(i, s.len() as int) == seq![s[i]] + s.subrange(i + 1, s.len() as int));
    }
}

/// Text without placeholders is left as it is, so substituting it twice
/// changes nothing either.
pub proof fn lemma_resolved_text_is_fixed(s: Seq<char>, vars: Seq<EnvironmentVariable>)
    requires
        !has_placeholder(s),
    ensures
        substituted(s, vars) == s,
        substituted(substituted(s, vars), vars) == substituted(s, vars),
{
    lemma_substituted_from_plain(s, 0, vars);
    assert(s.subrange(0, s.len() as int) == s);
}

/// A raw body that is only white space gives no tokens at all.
pub proof fn lemma_blank_raw_body_omitted(content: String, vars: Seq<EnvironmentVariable>)
    requires
        is_blank(content@),
    ensures
        body_tokens(Some(RequestBody::Raw(content)), vars) == Seq::<Seq<char>>::empty(),
{
    assert(!has_placeholder(content@)) by {
        assert forall|i: int| 0 <= i < content@.len() implies !(#[trigger] placeholder_at(content@, i) is Some) by {
            assert(crate::outside::is_white_space(content@[i]));
        }
    }
    lemma_resolved_text_is_fixed(content@, vars);
}

/// A token that begins with `http://`, `https://` or `ftp://` is written as
/// it is, whatever it holds.
pub proof fn lemma_url_tokens_unquoted(t: Seq<char>)
    requires
        is_url(t),
    ensures
        render_token(t) == t,
{
}

} // verus!
