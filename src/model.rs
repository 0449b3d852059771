//! The request descriptor and the variable set that commands are built from.
use vstd::prelude::*;

verus! {

/// HTTP verbs a request may name; `GET` is the implicit default.
#[derive(Clone, Copy, Debug, PartialEq, Eq, Structural)]
pub enum HttpMethod {
    GET,
    POST,
    PUT,
    DELETE,
    PATCH,
    HEAD,
    OPTIONS,
}

/// The verb as it is written on a command line.
pub open spec fn method_name(m: HttpMethod) -> Seq<char> {
    match m {
        HttpMethod::GET => "GET"@,
        HttpMethod::POST => "POST"@,
        HttpMethod::PUT => "PUT"@,
        HttpMethod::DELETE => "DELETE"@,
        HttpMethod::PATCH => "PATCH"@,
        HttpMethod::HEAD => "HEAD"@,
        HttpMethod::OPTIONS => "OPTIONS"@,
    }
}

impl HttpMethod {
    /// The verb as it is written on a command line.
    pub fn as_str(&self) -> (r: &'static str)
        ensures
            r@ == method_name(*self),
    {
        match self {
            HttpMethod::GET => "GET",
            HttpMethod::POST => "POST",
            HttpMethod::PUT => "PUT",
            HttpMethod::DELETE => "DELETE",
            HttpMethod::PATCH => "PATCH",
            HttpMethod::HEAD => "HEAD",
            HttpMethod::OPTIONS => "OPTIONS",
        }
    }

    /// The verb as an owned string.
    pub fn to_string(&self) -> (r: String)
        ensures
            r@ == method_name(*self),
    {
        String::from_str(self.as_str())
    }
}

/// A command-line flag, with an optional value that may hold placeholders.
#[derive(Clone, Debug)]
pub struct CurlOption {
    pub id: String,
    pub flag: String,
    pub value: Option<String>,
    pub enabled: bool,
}

/// A request header; its value may hold placeholders.
#[derive(Clone, Debug)]
pub struct Header {
    pub id: String,
    pub key: String,
    pub value: String,
    pub enabled: bool,
}

/// A query parameter; its value may hold placeholders and is percent-encoded.
#[derive(Clone, Debug)]
pub struct QueryParam {
    pub id: String,
    pub key: String,
    pub value: String,
    pub enabled: bool,
}

/// One field of a multipart form body; its value may hold placeholders.
#[derive(Clone, Debug)]
pub struct FormField {
    pub id: String,
    pub key: String,
    pub value: String,
    pub enabled: bool,
}

/// The payload of a request.
#[derive(Clone, Debug)]
pub enum RequestBody {
    /// Literal text, sent as it is after substitution.
    Raw(String),
    /// Multipart form fields, in order.
    FormData(Vec<FormField>),
    /// A file whose bytes are sent; the path is shown as written.
    Binary(String),
    /// No payload.
    Empty,
}

/// One request: its flags, verb, headers, query parameters, body and URL template.
#[derive(Clone, Debug)]
pub struct CurlCommand {
    pub url: String,
    pub method: Option<HttpMethod>,
    pub options: Vec<CurlOption>,
    pub headers: Vec<Header>,
    pub query_params: Vec<QueryParam>,
    pub body: Option<RequestBody>,
}

impl Default for CurlCommand {
    fn default() -> (r: Self)
        ensures
            r.url@ == Seq::<char>::empty(),
            r.method is None,
            r.options@.len() == 0,
            r.headers@.len() == 0,
            r.query_params@.len() == 0,
            r.body is None,
    {
        CurlCommand {
            url: String::new(),
            method: None,
            options: Vec::new(),
            headers: Vec::new(),
            query_params: Vec::new(),
            body: None,
        }
    }
}

/// A named variable of an environment.
#[derive(Clone, Debug)]
pub struct EnvironmentVariable {
    pub key: String,
    pub value: String,
    pub is_secret: bool,
}

/// A named set of variables that placeholders are resolved against.
#[derive(Clone, Debug)]
pub struct Environment {
    pub name: String,
    pub variables: Vec<EnvironmentVariable>,
}

/// The value of the first variable of `vars`, from index `i` on, named `name`.
pub open spec fn lookup_from(vars: Seq<EnvironmentVariable>, name: Seq<char>, i: int) -> Option<Seq<char>>
    decreases vars.len() - i,
{
    if i < 0 || i >= vars.len() {
        None
    } else if vars[i].key@ == name {
        Some(vars[i].value@)
    } else {
        lookup_from(vars, name, i + 1)
    }
}

/// The value that `name` has in `vars`: that of its first variable so named.
pub open spec fn lookup(vars: Seq<EnvironmentVariable>, name: Seq<char>) -> Option<Seq<char>> {
    lookup_from(vars, name, 0)
}

/// Whether `a` and `b` hold the same characters.
pub fn same_text(a: &str, b: &str) -> (r: bool)
    ensures
        r == (a@ == b@),
{
    let n = a.unicode_len();
    if n != b.unicode_len() {
        return false;
    }
    let mut i: usize = 0;
    while i < n
        invariant
            n == a@.len(),
            n == b@.len(),
            i <= n,
            a@.subrange(0, i as int) == b@.subrange(0, i as int),
        decreases n - i,
    {
        if a.get_char(i) != b.get_char(i) {
            assert(a@[i as int] != b@[i as int]);
            return false;
        }
        assert(a@.subrange(0, i + 1) == a@.subrange(0, i as int).push(a@[i as int]));
        assert(b@.subrange(0, i + 1) == b@.subrange(0, i as int).push(b@[i as int]));
        i = i + 1;
    }
    assert(a@ == a@.subrange(0, n as int));
    assert(b@ == b@.subrange(0, n as int));
    true
}

impl Environment {
    /// An environment with no variables.
    pub fn new(name: String) -> (r: Environment)
        ensures
            r.name@ == name@,
            r.variables@.len() == 0,
    {
        Environment { name, variables: Vec::new() }
    }

    /// Sets `key` to `value`: replaces the value and secrecy of the first
    /// variable so named, or adds a variable at the end when there is none.
    pub fn add_variable(&mut self, key: String, value: String, is_secret: bool)
        ensures
            final(self).name == old(self).name,
            lookup(final(self).variables@, key@) == Some(value@),
            forall|k: Seq<char>| k != key@ ==> lookup(final(self).variables@, k) == lookup(old(self).variables@, k),
    {
        let n = self.variables.len();
        let mut i: usize = 0;
        while i < n
            invariant
                n == self.variables@.len(),
                i <= n,
                self.variables@ == old(self).variables@,
                self.name == old(self).name,
                lookup(self.variables@, key@) == lookup_from(self.variables@, key@, i as int),
                forall|j: int| 0 <= j < i ==> self.variables@[j].key@ != key@,
            decreases n - i,
        {
            if same_text(self.variables[i].key.as_str(), key.as_str()) {
                let ghost before = self.variables@;
                let old_key = self.variables[i].key.clone();
                self.variables.set(i, EnvironmentVariable { key: old_key, value, is_secret });
                proof {
                    lemma_lookup_after_set(before, self.variables@, i as int, key@);
                }
                return;
            }
            i = i + 1;
        }
        let ghost before = self.variables@;
        self.variables.push(EnvironmentVariable { key, value, is_secret });
        proof {
            lemma_lookup_after_push(before, self.variables@, key@);
        }
    }
}

/// Replacing the value of the first variable named `key` changes that lookup alone.
proof fn lemma_lookup_after_set(before: Seq<EnvironmentVariable>, after: Seq<EnvironmentVariable>, i: int, key: Seq<char>)
    requires
        0 <= i < before.len(),
        after.len() == before.len(),
        forall|j: int| 0 <= j < before.len() && j != i ==> after[j] == before[j],
        before[i].key@ == key,
        after[i].key@ == key,
        forall|j: int| 0 <= j < i ==> before[j].key@ != key,
    ensures
        lookup(after, key) == Some(after[i].value@),
        forall|k: Seq<char>| k != key ==> lookup(after, k) == lookup(before, k),
{
    assert forall|k: Seq<char>| k != key implies lookup(after, k) == lookup(before, k) by {
        lemma_lookup_same_keys(before, after, k, 0, i);
    }
    lemma_lookup_prefix(before, after, key, 0, i);
}

/// Lookups of a name that the changed variable does not carry agree.
proof fn lemma_lookup_same_keys(before: Seq<EnvironmentVariable>, after: Seq<EnvironmentVariable>, k: Seq<char>, j: int, i: int)
    requires
        0 <= j,
        0 <= i < before.len(),
        after.len() == before.len(),
        forall|m: int| 0 <= m < before.len() && m != i ==> after[m] == before[m],
        before[i].key@ != k,
        after[i].key@ != k,
    ensures
        lookup_from(after, k, j) == lookup_from(before, k, j),
    decreases before.len() - j,
{
    if j < before.len() {
        lemma_lookup_same_keys(before, after, k, j + 1, i);
    }
}

/// A lookup that passes the unchanged prefix reaches index `i`.
proof fn lemma_lookup_prefix(before: Seq<EnvironmentVariable>, after: Seq<EnvironmentVariable>, key: Seq<char>, j: int, i: int)
    requires
        0 <= j <= i < before.len(),
        after.len() == before.len(),
        forall|m: int| 0 <= m < before.len() && m != i ==> after[m] == before[m],
        after[i].key@ == key,
        forall|m: int| 0 <= m < i ==> before[m].key@ != key,
    ensures
        lookup_from(after, key, j) == Some(after[i].value@),
    decreases i - j,
{
    if j < i {
        lemma_lookup_prefix(before, after, key, j + 1, i);
    }
}

/// Adding a variable for a name that had none changes that lookup alone.
proof fn lemma_lookup_after_push(before: Seq<EnvironmentVariable>, after: Seq<EnvironmentVariable>, key: Seq<char>)
    requires
        after.len() == before.len() + 1,
        forall|m: int| 0 <= m < before.len() ==> after[m] == before[m],
        after[before.len() as int].key@ == key,
        lookup_from(before, key, before.len() as int) == lookup(before, key),
    ensures
        lookup(after, key) == Some(after[before.len() as int].value@),
        forall|k: Seq<char>| k != key ==> lookup(after, k) == lookup(before, k),
{
    assert forall|k: Seq<char>| k != key implies lookup(after, k) == lookup(before, k) by {
        lemma_lookup_push_other(before, after, k, 0);
    }
    lemma_lookup_push_key(before, after, key, 0);
}

proof fn lemma_lookup_push_other(before: Seq<EnvironmentVariable>, after: Seq<EnvironmentVariable>, k: Seq<char>, j: int)
    requires
        0 <= j,
        after.len() == before.len() + 1,
        forall|m: int| 0 <= m < before.len() ==> after[m] == before[m],
        after[before.len() as int].key@ != k,
    ensures
        lookup_from(after, k, j) == lookup_from(before, k, j),
    decreases after.len() - j,
{
    if j < after.len() {
        lemma_lookup_push_other(before, after, k, j + 1);
    }
}

proof fn lemma_lookup_push_key(before: Seq<EnvironmentVariable>, after: Seq<EnvironmentVariable>, key: Seq<char>, j: int)
    requires
        0 <= j <= before.len(),
        after.len() == before.len() + 1,
        forall|m: int| 0 <= m < before.len() ==> after[m] == before[m],
        after[before.len() as int].key@ == key,
        lookup_from(before, key, j) == lookup_from(before, key, before.len() as int),
    ensures
        lookup_from(after, key, j) == Some(after[before.len() as int].value@),
    decreases before.len() - j,
{
    if j < before.len() {
        assert(before[j].key@ != key);
        lemma_lookup_push_key(before, after, key, j + 1);
    }
}

} // verus!
