//! Request-line handling for the proxy: client keys in query strings and
//! model names in Gemini-style paths.

use vstd::prelude::*;
use crate::config::{
    ModelMapping, Provider, ProviderFormat,
};
use crate::json::{
    Json, JsonView, member_views, push_element, push_member, views,
};
use crate::text::{
    after_first, before_first, chars_of, first_index, join_chars, join_seq, lemma_first_index_prefix,
    lemma_first_index_push, split_chars, split_seq, string_from_chars, index_of, sub_chars, has_prefix,
    occurs_at_exec, str_eq, string_from_range,
};

verus! {

/// The model named in a Gemini-style path such as
/// `models/gemini-1.5-pro:generateContent`: the `/`-separated piece after the
/// first piece that is exactly `models`, cut at its first `:`. A missing or
/// empty model gives `None`.
pub open spec fn extract_model_spec(path: Seq<char>) -> Option<Seq<char>> {
    let parts = split_seq(path, '/');
    match first_index(parts, |p: Seq<char>| p == "models"@) {
        Some(k) => if k + 1 < parts.len() {
            let m = before_first(parts[k + 1], ':');
            if m.len() == 0 { None } else { Some(m) }
        } else {
            None
        },
        None => None,
    }
}

fn is_models(p: &Vec<char>) -> (b: bool)
    ensures
        b == (p@ == "models"@),
{
    proof {
        reveal_strlit("models");
        if p@ == "models"@ {
            assert(p@.len() == 6 && p@[0] == 'm' && p@[1] == 'o' && p@[2] == 'd' && p@[3] == 'e'
                && p@[4] == 'l' && p@[5] == 's');
        }
    }
    let r = p.len() == 6 && p[0] == 'm' && p[1] == 'o' && p[2] == 'd' && p[3] == 'e' && p[4] == 'l' && p[5] == 's';
    if r {
        assert(p@ =~= "models"@);
    }
    r
}

fn is_key(p: &Vec<char>) -> (b: bool)
    ensures
        b == (p@ == "key"@),
{
    proof {
        reveal_strlit("key");
        if p@ == "key"@ {
            assert(p@.len() == 3 && p@[0] == 'k' && p@[1] == 'e' && p@[2] == 'y');
        }
    }
    let r = p.len() == 3 && p[0] == 'k' && p[1] == 'e' && p[2] == 'y';
    if r {
        assert(p@ =~= "key"@);
    }
    r
}

/// Extract the model name from a Gemini-style path.
pub fn extract_model_from_path(path: &str) -> (r: Option<String>)
    ensures
        match r {
            Some(m) => extract_model_spec(path@) == Some(m@),
            None => extract_model_spec(path@) is None,
        },
{
    let v = chars_of(path);
    let parts = split_chars(&v, '/');
    let ghost ps = parts@.map_values(|p: Vec<char>| p@);
    let ghost f = |p: Seq<char>| p == "models"@;
    let mut i: usize = 0;
    assert(ps.subrange(0, 0) =~= Seq::<Seq<char>>::empty());
    while i < parts.len()
        invariant
            i <= parts@.len(),
            ps == parts@.map_values(|p: Vec<char>| p@),
            ps == split_seq(path@, '/'),
            first_index(ps.subrange(0, i as int), f) == None::<int>,
            f == |p: Seq<char>| p == "models"@,
        decreases parts.len() - i,
    {
        proof {
            lemma_first_index_push(ps, f, i as int);
        }
        if is_models(&parts[i]) {
            proof {
                lemma_first_index_prefix(ps, f, i as int + 1);
            }
            if i + 1 >= parts.len() {
                return None;
            }
            let next = &parts[i + 1];
            let j = index_of(next, ':', 0);
            if j == 0 {
                return None;
            }
            let m = sub_chars(next, 0, j);
            return Some(string_from_chars(&m));
        }
        i = i + 1;
    }
    assert(ps.subrange(0, ps.len() as int) =~= ps);
    None
}

/// The value of the first `key=value` parameter of a query string whose
/// name is exactly `key` and whose value is not empty.
pub open spec fn key_param_spec(query: Seq<char>) -> Option<Seq<char>> {
    let parts = split_seq(query, '&');
    match first_index(parts, |p: Seq<char>| is_key_param(p)) {
        Some(k) => after_first(parts[k], '='),
        None => None,
    }
}

/// `p` is `key=v` for a non-empty `v`.
pub open spec fn is_key_param(p: Seq<char>) -> bool {
    &&& after_first(p, '=') is Some
    &&& before_first(p, '=') == "key"@
    &&& after_first(p, '=')->0.len() > 0
}

/// Extract the `key` query parameter (how Google's SDKs authenticate).
/// The raw value is returned without decoding.
pub fn query_key_param(query: &str) -> (r: Option<String>)
    ensures
        match r {
            Some(v) => key_param_spec(query@) == Some(v@),
            None => key_param_spec(query@) is None,
        },
{
    let v = chars_of(query);
    let parts = split_chars(&v, '&');
    let ghost ps = parts@.map_values(|p: Vec<char>| p@);
    let ghost f = |p: Seq<char>| is_key_param(p);
    let mut i: usize = 0;
    assert(ps.subrange(0, 0) =~= Seq::<Seq<char>>::empty());
    while i < parts.len()
        invariant
            i <= parts@.len(),
            ps == parts@.map_values(|p: Vec<char>| p@),
            ps == split_seq(query@, '&'),
            first_index(ps.subrange(0, i as int), f) == None::<int>,
            f == |p: Seq<char>| is_key_param(p),
        decreases parts.len() - i,
    {
        proof {
            lemma_first_index_push(ps, f, i as int);
        }
        let p = &parts[i];
        let j = index_of(p, '=', 0);
        let name = sub_chars(p, 0, j);
        let hit = j < p.len() && is_key(&name) && j + 1 < p.len();
        if hit {
            proof {
                lemma_first_index_prefix(ps, f, i as int + 1);
            }
            let value = sub_chars(p, j + 1, p.len());
            return Some(string_from_chars(&value));
        }
        i = i + 1;
    }
    assert(ps.subrange(0, ps.len() as int) =~= ps);
    None
}

/// Parameters kept when the client key is stripped: non-empty ones whose
/// name (the text before the first `=`) is not `key`.
pub open spec fn kept_params(parts: Seq<Seq<char>>) -> Seq<Seq<char>>
    decreases parts.len(),
{
    if parts.len() == 0 {
        Seq::empty()
    } else {
        let k = kept_params(parts.drop_last());
        let p = parts.last();
        if p.len() > 0 && before_first(p, '=') != "key"@ {
            k.push(p)
        } else {
            k
        }
    }
}

/// Remove the `key` query parameter so the client's label key never leaks
/// upstream; every other non-empty parameter is kept verbatim, in order.
pub fn strip_key_param(query: &str) -> (r: String)
    ensures
        r@ == join_seq(kept_params(split_seq(query@, '&')), "&"@),
{
    proof {
        reveal_strlit("&");
    }
    let v = chars_of(query);
    let parts = split_chars(&v, '&');
    let ghost ps = parts@.map_values(|p: Vec<char>| p@);
    let mut kept: Vec<Vec<char>> = Vec::new();
    let mut i: usize = 0;
    assert(ps.subrange(0, 0) =~= Seq::<Seq<char>>::empty());
    while i < parts.len()
        invariant
            i <= parts@.len(),
            ps == parts@.map_values(|p: Vec<char>| p@),
            kept@.map_values(|p: Vec<char>| p@) == kept_params(ps.subrange(0, i as int)),
        decreases parts.len() - i,
    {
        let p = &parts[i];
        let j = index_of(p, '=', 0);
        let name = sub_chars(p, 0, j);
        let ghost before = kept@.map_values(|p: Vec<char>| p@);
        assert(ps.subrange(0, i + 1).drop_last() =~= ps.subrange(0, i as int));
        if p.len() > 0 && !is_key(&name) {
            let copy = sub_chars(p, 0, p.len());
            assert(copy@ =~= ps[i as int]);
            kept.push(copy);
            assert(kept@.map_values(|p: Vec<char>| p@) =~= before.push(ps[i as int]));
        }
        i = i + 1;
    }
    assert(ps.subrange(0, ps.len() as int) =~= ps);
    assert(seq!['&'] =~= "&"@);
    join_chars(&kept, '&')
}

/// The upstream path a provider of each dialect is called on, as a regular
/// expression over the request path.
pub fn upstream_path_regex(format: ProviderFormat) -> (r: &'static str)
    ensures
        r@ == match format {
            ProviderFormat::OpenAI => "^/v1/chat/completions$"@,
            ProviderFormat::Anthropic => "^/v1/messages$"@,
            ProviderFormat::Responses => "^/v1/responses$"@,
            ProviderFormat::Google => "^/v1beta/models/[^/]+:generateContent$"@,
        },
{
    match format {
        ProviderFormat::OpenAI => "^/v1/chat/completions$",
        ProviderFormat::Anthropic => "^/v1/messages$",
        ProviderFormat::Responses => "^/v1/responses$",
        ProviderFormat::Google => "^/v1beta/models/[^/]+:generateContent$",
    }
}

// ---------------------------------------------------------------------------
// Client keys and the model list
// ---------------------------------------------------------------------------

/// A request header by (lower-case) name, with its value as text where it
/// is visible ASCII (`None` otherwise).
pub type HeaderEntry = (String, Option<String>);

/// Headers by value.
pub open spec fn headers_view(hs: Seq<HeaderEntry>) -> Seq<(Seq<char>, Option<Seq<char>>)> {
    hs.map_values(|h: HeaderEntry| (h.0@, match h.1 {
        Some(v) => Some(v@),
        None => None,
    }))
}

/// The first header named `name`.
pub open spec fn named(name: Seq<char>) -> spec_fn((Seq<char>, Option<Seq<char>>)) -> bool {
    |h: (Seq<char>, Option<Seq<char>>)| h.0 == name
}

/// The text of the first header named `name`; none when it is absent or
/// not visible ASCII.
pub open spec fn header_text(hs: Seq<(Seq<char>, Option<Seq<char>>)>, name: Seq<char>) -> Option<Seq<char>> {
    match first_index(hs, named(name)) {
        Some(i) => hs[i].1,
        None => None,
    }
}

/// The key a client authenticates with: a `Bearer` authorization, else the
/// `x-api-key`, `api-key` or `x-goog-api-key` header, else the `key` query
/// parameter.
pub open spec fn client_key_spec(hs: Seq<(Seq<char>, Option<Seq<char>>)>, query: Option<Seq<char>>) -> Option<Seq<char>> {
    let bearer = match header_text(hs, "authorization"@) {
        Some(a) => if has_prefix(a, "Bearer "@) { Some(a.subrange(7, a.len() as int)) } else { None },
        None => None,
    };
    match bearer {
        Some(k) => Some(k),
        None => match header_text(hs, "x-api-key"@) {
            Some(k) => Some(k),
            None => match header_text(hs, "api-key"@) {
                Some(k) => Some(k),
                None => match header_text(hs, "x-goog-api-key"@) {
                    Some(k) => Some(k),
                    None => match query {
                        Some(q) => key_param_spec(q),
                        None => None,
                    },
                },
            },
        },
    }
}

fn header_text_exec<'a>(hs: &'a [HeaderEntry], name: &str) -> (r: Option<&'a str>)
    ensures
        crate::json::opt_text(r) == header_text(headers_view(hs@), name@),
{
    let ghost hv = headers_view(hs@);
    let mut i: usize = 0;
    assert(hv.subrange(0, 0) =~= Seq::<(Seq<char>, Option<Seq<char>>)>::empty());
    while i < hs.len()
        invariant
            i <= hs@.len(),
            hv == headers_view(hs@),
            hv.len() == hs@.len(),
            first_index(hv.subrange(0, i as int), named(name@)) == None::<int>,
        decreases hs.len() - i,
    {
        proof {
            lemma_first_index_push(hv, named(name@), i as int);
        }
        assert(hv[i as int].0 == hs@[i as int].0@);
        if str_eq(hs[i].0.as_str(), name) {
            proof {
                lemma_first_index_prefix(hv, named(name@), i as int + 1);
            }
            return match &hs[i].1 {
                Some(v) => Some(v.as_str()),
                None => None,
            };
        }
        i = i + 1;
    }
    assert(hv.subrange(0, hv.len() as int) =~= hv);
    None
}

/// The key a client authenticates with, from its request headers and query
/// string: a `Bearer` authorization first, then `x-api-key`, `api-key`,
/// `x-goog-api-key`, then the `key` query parameter.
pub fn extract_client_key(headers: &[HeaderEntry], query: Option<&str>) -> (r: Option<String>)
    ensures
        match r {
            Some(k) => client_key_spec(headers_view(headers@), crate::json::opt_text(query)) == Some(k@),
            None => client_key_spec(headers_view(headers@), crate::json::opt_text(query)) is None,
        },
{
    proof {
        reveal_strlit("Bearer ");
    }
    match header_text_exec(headers, "authorization") {
        Some(a) => {
            let v = chars_of(a);
            let p = chars_of("Bearer ");
            if occurs_at_exec(&v, &p, 0) {
                return Some(string_from_range(&v, 7, v.len()));
            }
        },
        None => {},
    }
    match header_text_exec(headers, "x-api-key") {
        Some(k) => return Some(k.to_owned()),
        None => {},
    }
    match header_text_exec(headers, "api-key") {
        Some(k) => return Some(k.to_owned()),
        None => {},
    }
    match header_text_exec(headers, "x-goog-api-key") {
        Some(k) => return Some(k.to_owned()),
        None => {},
    }
    match query {
        Some(q) => query_key_param(q),
        None => None,
    }
}

/// One model of the `/v1/models` list.
pub open spec fn model_entry(id: Seq<char>, owner: Seq<char>) -> JsonView {
    JsonView::Object(Seq::empty().push(("id"@, JsonView::Str(id))).push(("object"@, JsonView::Str("model"@))).push((
        "owned_by"@,
        JsonView::Str(owner),
    )))
}

/// Every model of every provider, by local name, provider by provider.
pub open spec fn model_entries(ps: Seq<Provider>) -> Seq<JsonView>
    decreases ps.len(),
{
    if ps.len() == 0 {
        Seq::empty()
    } else {
        let p = ps.last();
        model_entries(ps.drop_last()) + p.models@.map_values(|m: ModelMapping| model_entry(m.local@, p.name@))
    }
}

/// The body of `/v1/models`: every configured model, owned by its provider.
pub open spec fn models_list_spec(ps: Seq<Provider>) -> JsonView {
    JsonView::Object(Seq::empty().push(("object"@, JsonView::Str("list"@))).push(("data"@, JsonView::Array(model_entries(ps)))))
}

/// The `/v1/models` body for these providers.
pub fn models_list(providers: &[Provider]) -> (r: Json)
    ensures
        r.view() == models_list_spec(providers@),
{
    let mut data: Vec<Json> = Vec::new();
    assert(views(data@) =~= Seq::empty());
    let mut i: usize = 0;
    assert(providers@.subrange(0, 0) =~= Seq::<Provider>::empty());
    while i < providers.len()
        invariant
            i <= providers@.len(),
            views(data@) == model_entries(providers@.subrange(0, i as int)),
        decreases providers.len() - i,
    {
        let p = &providers[i];
        let ghost before = views(data@);
        let ghost entries = p.models@.map_values(|m: ModelMapping| model_entry(m.local@, p.name@));
        let mut k: usize = 0;
        while k < p.models.len()
            invariant
                k <= p.models@.len(),
                p == &providers@[i as int],
                entries == p.models@.map_values(|m: ModelMapping| model_entry(m.local@, p.name@)),
                views(data@) == before + entries.subrange(0, k as int),
            decreases p.models.len() - k,
        {
            let mut m: Vec<(String, Json)> = Vec::new();
            assert(member_views(m@) =~= Seq::empty());
            push_member(&mut m, "id", Json::string(p.models[k].local.as_str()));
            push_member(&mut m, "object", Json::string("model"));
            push_member(&mut m, "owned_by", Json::string(p.name.as_str()));
            push_element(&mut data, Json::object(m));
            k = k + 1;
            assert(views(data@) =~= before + entries.subrange(0, k as int));
        }
        assert(entries.subrange(0, entries.len() as int) =~= entries);
        assert(providers@.subrange(0, i + 1).drop_last() =~= providers@.subrange(0, i as int));
        assert(providers@.subrange(0, i + 1).last() == providers@[i as int]);
        i = i + 1;
    }
    assert(providers@.subrange(0, providers@.len() as int) =~= providers@);
    let mut out: Vec<(String, Json)> = Vec::new();
    assert(member_views(out@) =~= Seq::empty());
    push_member(&mut out, "object", Json::string("list"));
    push_member(&mut out, "data", Json::array(data));
    Json::object(out)
}

/// The JSON body of a gateway error, in the OpenAI error shape.
pub open spec fn error_body_spec(msg: Seq<char>) -> JsonView {
    JsonView::Object(Seq::empty().push((
        "error"@,
        JsonView::Object(Seq::empty().push(("message"@, JsonView::Str(msg))).push(("type"@, JsonView::Str("tokenguard"@)))),
    )))
}

/// The body of an error the gateway itself answers with.
pub fn error_body(msg: &str) -> (r: Json)
    ensures
        r.view() == error_body_spec(msg@),
{
    let mut inner: Vec<(String, Json)> = Vec::new();
    assert(member_views(inner@) =~= Seq::empty());
    push_member(&mut inner, "message", Json::string(msg));
    push_member(&mut inner, "type", Json::string("tokenguard"));
    let mut out: Vec<(String, Json)> = Vec::new();
    assert(member_views(out@) =~= Seq::empty());
    push_member(&mut out, "error", Json::object(inner));
    Json::object(out)
}

} // verus!
