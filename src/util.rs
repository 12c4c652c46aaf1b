use vstd::prelude::*;
use crate::error::Error;
use crate::json::{Json, field, lemma_field_index, find_field};
use crate::model::Query;

verus! {

/// Pattern of a template variable left in a query: `${`, then anything on
/// the same line, then `}`.
pub const PLACEHOLDER: &'static str = r"(\$\{.*\})";

/// Client settings: the server's host and ports, the configured data sources
/// by alias, and the bearer token, if any.
#[derive(Debug, PartialEq, Eq)]
pub struct ClientConfig {
    pub sonicd: String,
    pub http_port: u16,
    pub tcp_port: u16,
    pub sources: Vec<(String, Json)>,
    pub auth: Option<String>,
}

impl ClientConfig {
    /// Settings for a local server on the default ports, with no source and
    /// no token.
    pub fn empty() -> (r: ClientConfig)
        ensures
            r.sonicd@ == "0.0.0.0"@,
            r.http_port == 9111,
            r.tcp_port == 10001,
            r.sources@.len() == 0,
            r.auth is None,
    {
        ClientConfig {
            sonicd: "0.0.0.0".to_owned(),
            http_port: 9111,
            tcp_port: 10001,
            sources: Vec::new(),
            auth: None,
        }
    }
}

/// `s` holds `pat` somewhere.
pub open spec fn contains_seq(s: Seq<char>, pat: Seq<char>) -> bool {
    exists|i: int| 0 <= i <= s.len() - pat.len() && #[trigger] s.subrange(i, i + pat.len()) == pat
}

/// `s` with every match of `pat` replaced by `to`, matches taken from the
/// left and not overlapping.
pub open spec fn replace_all(s: Seq<char>, pat: Seq<char>, to: Seq<char>) -> Seq<char>
    decreases s.len(),
{
    if pat.len() == 0 || s.len() < pat.len() {
        s
    } else if s.subrange(0, pat.len() as int) == pat {
        to + replace_all(s.subrange(pat.len() as int, s.len() as int), pat, to)
    } else {
        seq![s[0]] + replace_all(s.drop_first(), pat, to)
    }
}

/// `s` holds `${`, then characters other than a line break, then `}`.
pub open spec fn has_placeholder(s: Seq<char>) -> bool {
    exists|i: int, j: int|
        0 <= i && i + 2 <= j < s.len() && #[trigger] s[i] == '$' && s[i + 1] == '{' && #[trigger] s[j] == '}'
            && forall|k: int| i + 2 <= k < j ==> s[k] != '\n'
}

/// Relies on `str::contains`: whether the pattern string occurs in `s`.
#[verifier::external_body]
fn str_contains(s: &str, pat: &str) -> (r: bool)
    ensures
        r == contains_seq(s@, pat@),
{
    s.contains(pat)
}

/// Relies on `str::replace`: every match of a non-empty pattern, from the
/// left, replaced by `to`.
#[verifier::external_body]
fn str_replace(s: &str, pat: &str, to: &str) -> (r: String)
    requires
        pat@.len() > 0,
    ensures
        r@ == replace_all(s@, pat@, to@),
{
    s.replace(pat, to)
}

/// Relies on `regex::Regex::new` and `Regex::is_match` for the placeholder
/// pattern, which compiles; in it `.` is any character but a line break.
#[verifier::external_body]
fn regex_placeholder_match(pattern: &str, s: &str) -> (r: bool)
    requires
        pattern@ == PLACEHOLDER@,
    ensures
        r == has_placeholder(s@),
{
    regex::Regex::new(pattern).unwrap().is_match(s)
}

/// The marker of variable `name` in a template: `${name}`.
pub open spec fn marker(name: Seq<char>) -> Seq<char> {
    "${"@ + name + "}"@
}

/// The template with the variables from `i` on injected in order, or `None`
/// when the marker of one of them is not in the text at its turn.
pub open spec fn inject_from(q: Seq<char>, vars: Seq<(String, String)>, i: int) -> Option<Seq<char>>
    decreases vars.len() - i,
{
    if i < 0 || i >= vars.len() {
        Some(q)
    } else if !contains_seq(q, marker(vars[i].0@)) {
        None
    } else {
        inject_from(replace_all(q, marker(vars[i].0@), vars[i].1@), vars, i + 1)
    }
}

/// Replaces the marker `${name}` of each variable in `template` by its
/// value, in order. Fails when a marker is missing at its turn, or when a
/// marker is left over at the end.
pub fn inject_vars(template: &str, vars: &Vec<(String, String)>) -> (r: Result<String, Error>)
    ensures
        r is Ok <==> (inject_from(template@, vars@, 0) matches Some(q) && !has_placeholder(q)),
        r matches Ok(q) ==> inject_from(template@, vars@, 0) == Some(q@),
        r matches Err(e) ==> e is OtherError,
{
    let mut q = template.to_owned();
    let mut i: usize = 0;
    while i < vars.len()
        invariant
            i <= vars@.len(),
            inject_from(template@, vars@, 0) == inject_from(q@, vars@, i as int),
        decreases vars.len() - i,
    {
        let mut k = "${".to_owned();
        k.append(vars[i].0.as_str());
        k.append("}");
        proof {
            reveal_strlit("${");
            reveal_strlit("}");
        }
        assert(k@ == marker(vars@[i as int].0@));
        if !str_contains(q.as_str(), k.as_str()) {
            return Err(Error::OtherError("variable not found in template".to_owned()));
        }
        q = str_replace(q.as_str(), k.as_str(), vars[i].1.as_str());
        i = i + 1;
    }
    if regex_placeholder_match(PLACEHOLDER, q.as_str()) {
        Err(Error::OtherError("Some variables remain uninjected".to_owned()))
    } else {
        Ok(q)
    }
}

/// The configuration a query gets for `alias`: the object the sources hold
/// for it, or the alias itself as text where the sources hold nothing for
/// it. `None` where the sources hold something other than an object.
pub open spec fn resolved_config(alias: String, sources: Seq<(String, Json)>) -> Option<Json> {
    match field(sources, alias@) {
        None => Some(Json::Str(alias)),
        Some(Json::Object(o)) => Some(Json::Object(o)),
        Some(_) => None,
    }
}

/// Builds a query for the data source named `alias`, resolving its
/// configuration from `sources`.
pub fn build(alias: String, sources: Vec<(String, Json)>, auth: Option<String>, raw_query: String) -> (r: Result<
    Query,
    Error,
>)
    ensures
        r is Ok <==> resolved_config(alias, sources@) is Some,
        r matches Ok(q) ==> Some(q.config) == resolved_config(alias, sources@) && q.id is None
            && q.trace_id is None && q.auth == auth && q.query == raw_query,
        r matches Err(e) ==> (e matches Error::OtherError(m) && m@ == "source '"@ + alias@
            + "' config is not an object"@),
{
    let mut sources = sources;
    proof {
        lemma_field_index(sources@, alias@);
    }
    let config = match find_field(&sources, &alias) {
        None => Json::Str(alias),
        Some(i) => {
            let mut slot = (String::new(), Json::Null);
            sources.set_and_swap(i, &mut slot);
            match slot.1 {
                Json::Object(o) => Json::Object(o),
                _ => {
                    let mut m = "source '".to_owned();
                    m.append(alias.as_str());
                    m.append("' config is not an object");
                    return Err(Error::OtherError(m));
                },
            }
        },
    };
    Ok(Query { id: None, query: raw_query, trace_id: None, auth, config })
}

/// The characters of `s` up to its first `=`, or all of them.
pub open spec fn before_eq(s: Seq<char>) -> Seq<char>
    decreases s.len(),
{
    if s.len() == 0 || s[0] == '=' {
        Seq::empty()
    } else {
        seq![s[0]] + before_eq(s.drop_first())
    }
}

/// The key and value of `key=value`: what stands before the first `=`, and
/// what stands between it and the next `=` or the end.
pub open spec fn key_value(s: Seq<char>) -> (Seq<char>, Seq<char>) {
    let k = before_eq(s);
    (k, before_eq(s.subrange(k.len() as int + 1, s.len() as int)))
}

pub open spec fn has_eq(s: Seq<char>) -> bool {
    exists|i: int| 0 <= i < s.len() && s[i] == '='
}

proof fn lemma_before_eq(s: Seq<char>, from: int, k: int)
    requires
        0 <= from <= k <= s.len(),
        forall|j: int| from <= j < k ==> s[j] != '=',
        k < s.len() ==> s[k] == '=',
    ensures
        before_eq(s.subrange(from, s.len() as int)) == s.subrange(from, k),
    decreases k - from,
{
    let t = s.subrange(from, s.len() as int);
    if from < k {
        lemma_before_eq(s, from + 1, k);
        assert(t.drop_first() == s.subrange(from + 1, s.len() as int));
        assert(s.subrange(from, k) == seq![s[from]] + s.subrange(from + 1, k));
    } else {
        assert(s.subrange(from, k).len() == 0);
    }
}

/// Index of the first `=` of `s` at or after `from`, or the length of `s`.
fn next_eq(s: &str, n: usize, from: usize) -> (k: usize)
    requires
        n == s@.len(),
        from <= n,
    ensures
        from <= k <= n,
        forall|j: int| from <= j < k ==> s@[j] != '=',
        k < n ==> s@[k as int] == '=',
{
    let mut k = from;
    while k < n
        invariant
            from <= k <= n,
            n == s@.len(),
            forall|j: int| from <= j < k ==> s@[j] != '=',
        decreases n - k,
    {
        if s.get_char(k) == '=' {
            return k;
        }
        k = k + 1;
    }
    k
}

/// Splits each `key=value` text at its first `=`; the value ends at the
/// next `=`, if any. Fails when a text holds no `=`.
pub fn split_key_value(vars: &Vec<String>) -> (r: Result<Vec<(String, String)>, Error>)
    ensures
        r is Ok <==> forall|i: int| 0 <= i < vars@.len() ==> has_eq(#[trigger] vars@[i]@),
        r matches Ok(pairs) ==> pairs@.len() == vars@.len() && forall|i: int|
            0 <= i < vars@.len() ==> (#[trigger] pairs@[i]).0@ == key_value(vars@[i]@).0 && pairs@[i].1@
                == key_value(vars@[i]@).1,
        r matches Err(e) ==> exists|i: int|
            0 <= i < vars@.len() && !has_eq(#[trigger] vars@[i]@) && (forall|j: int| 0 <= j < i ==> has_eq(
                #[trigger] vars@[j]@)) && (e matches Error::OtherError(m) && m@ == "Cannot split "@
                + vars@[i]@ + ". It should follow format 'key=value'"@),
{
    let mut out: Vec<(String, String)> = Vec::new();
    let mut i: usize = 0;
    while i < vars.len()
        invariant
            i <= vars@.len(),
            out@.len() == i,
            forall|j: int| 0 <= j < i ==> has_eq(#[trigger] vars@[j]@),
            forall|j: int|
                0 <= j < i ==> (#[trigger] out@[j]).0@ == key_value(vars@[j]@).0 && out@[j].1@
                    == key_value(vars@[j]@).1,
        decreases vars.len() - i,
    {
        let s = vars[i].as_str();
        let n = s.unicode_len();
        let k = next_eq(s, n, 0);
        if k == n {
            assert(!has_eq(vars@[i as int]@));
            let mut m = "Cannot split ".to_owned();
            m.append(s);
            m.append(". It should follow format 'key=value'");
            return Err(Error::OtherError(m));
        }
        let e = next_eq(s, n, k + 1);
        proof {
            lemma_before_eq(s@, 0, k as int);
            lemma_before_eq(s@, k + 1, e as int);
            assert(s@.subrange(0, s@.len() as int) == s@);
        }
        let key = s.substring_char(0, k).to_owned();
        let value = s.substring_char(k + 1, e).to_owned();
        out.push((key, value));
        i = i + 1;
    }
    Ok(out)
}

} // verus!
