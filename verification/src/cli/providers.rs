//! Parsing of provider options given on the command line.

use vstd::prelude::*;
use crate::config::{AuthScheme, ModelMapping, Provider, ProviderFormat, headers_deep, mappings_deep};
use crate::commands::KeyChange;
use crate::json::{Json, JsonView, get_arr, get_str, lemma_views, views};
use crate::text::{
    after_first, before_first, chars_of, index_of, lowercase, str_eq, string_from_chars, string_from_range,
    string_push_str, to_lowercase,
};

verus! {

/// What a format argument names, case-insensitively.
pub open spec fn format_arg(l: Seq<char>) -> Option<ProviderFormat> {
    if l == "openai"@ {
        Some(ProviderFormat::OpenAI)
    } else if l == "anthropic"@ {
        Some(ProviderFormat::Anthropic)
    } else if l == "google"@ || l == "gemini"@ {
        Some(ProviderFormat::Google)
    } else if l == "responses"@ {
        Some(ProviderFormat::Responses)
    } else {
        None
    }
}

pub fn parse_format(s: &str) -> (r: Result<ProviderFormat, String>)
    ensures
        match format_arg(lowercase(s@)) {
            Some(f) => r == Ok::<ProviderFormat, String>(f),
            None => r matches Err(e) && e@ == "unknown format '"@ + s@ + "'; use openai, anthropic, google, or responses"@,
        },
{
    let lower = to_lowercase(s);
    let l = lower.as_str();
    if str_eq(l, "openai") {
        Ok(ProviderFormat::OpenAI)
    } else if str_eq(l, "anthropic") {
        Ok(ProviderFormat::Anthropic)
    } else if str_eq(l, "google") || str_eq(l, "gemini") {
        Ok(ProviderFormat::Google)
    } else if str_eq(l, "responses") {
        Ok(ProviderFormat::Responses)
    } else {
        let mut m = "unknown format '".to_owned();
        string_push_str(&mut m, s);
        string_push_str(&mut m, "'; use openai, anthropic, google, or responses");
        Err(m)
    }
}

/// `s` with every `-` replaced by `_`.
pub open spec fn dashes_to_underscores(s: Seq<char>) -> Seq<char> {
    s.map_values(|c: char| if c == '-' { '_' } else { c })
}

/// What an auth argument names, after lower-casing and turning `-` into `_`.
pub open spec fn auth_arg(l: Seq<char>) -> Option<AuthScheme> {
    if l == "bearer"@ {
        Some(AuthScheme::Bearer)
    } else if l == "x_api_key"@ || l == "xapikey"@ {
        Some(AuthScheme::XApiKey)
    } else if l == "api_key"@ || l == "apikey"@ {
        Some(AuthScheme::ApiKey)
    } else if l == "x_goog_api_key"@ || l == "xgoogapikey"@ {
        Some(AuthScheme::XGoogApiKey)
    } else {
        None
    }
}

pub fn parse_auth(s: &str) -> (r: Result<AuthScheme, String>)
    ensures
        match auth_arg(dashes_to_underscores(lowercase(s@))) {
            Some(a) => r == Ok::<AuthScheme, String>(a),
            None => r matches Err(e) && e@ == "unknown auth scheme '"@ + s@ + "'; use bearer, x-api-key, api-key, or x-goog-api-key"@,
        },
{
    let lower = to_lowercase(s);
    let v = chars_of(lower.as_str());
    let mut w: Vec<char> = Vec::new();
    let mut i: usize = 0;
    while i < v.len()
        invariant
            i <= v@.len(),
            w@ == dashes_to_underscores(v@.subrange(0, i as int)),
        decreases v.len() - i,
    {
        w.push(if v[i] == '-' { '_' } else { v[i] });
        i = i + 1;
        assert(w@ =~= dashes_to_underscores(v@.subrange(0, i as int)));
    }
    assert(v@.subrange(0, v@.len() as int) =~= v@);
    let norm = string_from_chars(&w);
    let l = norm.as_str();
    if str_eq(l, "bearer") {
        Ok(AuthScheme::Bearer)
    } else if str_eq(l, "x_api_key") || str_eq(l, "xapikey") {
        Ok(AuthScheme::XApiKey)
    } else if str_eq(l, "api_key") || str_eq(l, "apikey") {
        Ok(AuthScheme::ApiKey)
    } else if str_eq(l, "x_goog_api_key") || str_eq(l, "xgoogapikey") {
        Ok(AuthScheme::XGoogApiKey)
    } else {
        let mut m = "unknown auth scheme '".to_owned();
        string_push_str(&mut m, s);
        string_push_str(&mut m, "'; use bearer, x-api-key, api-key, or x-goog-api-key");
        Err(m)
    }
}

/// The pairs that `KEY=VALUE` header specs name, split at the first `=`;
/// the first spec without a `=` is the error.
pub open spec fn headers_spec(specs: Seq<Seq<char>>) -> Result<Seq<(Seq<char>, Seq<char>)>, Seq<char>>
    decreases specs.len(),
{
    if specs.len() == 0 {
        Ok(Seq::empty())
    } else {
        match headers_spec(specs.drop_last()) {
            Err(e) => Err(e),
            Ok(hs) => match after_first(specs.last(), '=') {
                Some(v) => Ok(hs.push((before_first(specs.last(), '='), v))),
                None => Err("extra header must be KEY=VALUE: "@ + specs.last()),
            },
        }
    }
}

/// Parse `KEY=VALUE` extra-header specs.
pub fn parse_headers(specs: &[String]) -> (r: Result<Vec<(String, String)>, String>)
    ensures
        match headers_spec(specs@.map_values(|s: String| s@)) {
            Ok(hs) => r matches Ok(v) && v@.map_values(|h: (String, String)| (h.0@, h.1@)) == hs,
            Err(m) => r matches Err(e) && e@ == m,
        },
{
    let ghost ss = specs@.map_values(|s: String| s@);
    let mut out: Vec<(String, String)> = Vec::new();
    let mut i: usize = 0;
    assert(ss.subrange(0, 0) =~= Seq::<Seq<char>>::empty());
    assert(out@.map_values(|h: (String, String)| (h.0@, h.1@)) =~= Seq::<(Seq<char>, Seq<char>)>::empty());
    while i < specs.len()
        invariant
            i <= specs@.len(),
            ss == specs@.map_values(|s: String| s@),
            headers_spec(ss.subrange(0, i as int)) == Ok::<Seq<(Seq<char>, Seq<char>)>, Seq<char>>(
                out@.map_values(|h: (String, String)| (h.0@, h.1@))),
        decreases specs.len() - i,
    {
        let v = chars_of(specs[i].as_str());
        let j = index_of(&v, '=', 0);
        assert(ss.subrange(0, i + 1).drop_last() =~= ss.subrange(0, i as int));
        assert(ss.subrange(0, i + 1).last() == v@);
        if j >= v.len() {
            let mut m = "extra header must be KEY=VALUE: ".to_owned();
            string_push_str(&mut m, specs[i].as_str());
            proof {
                lemma_headers_err_prefix(ss, i as int + 1);
            }
            return Err(m);
        }
        let k = string_from_range(&v, 0, j);
        let val = string_from_range(&v, j + 1, v.len());
        let ghost before = out@.map_values(|h: (String, String)| (h.0@, h.1@));
        out.push((k, val));
        assert(out@.map_values(|h: (String, String)| (h.0@, h.1@)) =~= before.push((k@, val@)));
        i = i + 1;
    }
    assert(ss.subrange(0, specs@.len() as int) =~= ss);
    Ok(out)
}

proof fn lemma_headers_err_prefix(ss: Seq<Seq<char>>, n: int)
    requires
        0 <= n <= ss.len(),
        headers_spec(ss.subrange(0, n)) is Err,
    ensures
        headers_spec(ss) == headers_spec(ss.subrange(0, n)),
    decreases ss.len() - n,
{
    if n < ss.len() {
        assert(ss.subrange(0, n + 1).drop_last() =~= ss.subrange(0, n));
        lemma_headers_err_prefix(ss, n + 1);
    } else {
        assert(ss.subrange(0, n) =~= ss);
    }
}

// ---------------------------------------------------------------------------
// Model listings
// ---------------------------------------------------------------------------

/// The last `/`-separated segment of a name, as `rsplit('/').next()` gives.
pub open spec fn last_segment(n: Seq<char>) -> Seq<char> {
    match crate::text::last_occurrence(n, "/"@) {
        Some(i) => n.subrange(i + 1, n.len() as int),
        None => n,
    }
}

/// A model under a local and a remote name, with no prices.
pub open spec fn unpriced(m: ModelMapping, local: Seq<char>, remote: Seq<char>) -> bool {
    &&& m.local@ == local
    &&& m.remote@ == remote
    &&& m.input_cost_per_1k is None
    &&& m.output_cost_per_1k is None
    &&& m.cached_input_cost_per_1k is None
}

/// The (local, remote) names that Gemini `models` entries give: the last
/// segment of each `name`, and the whole name.
pub open spec fn gemini_names(items: Seq<JsonView>) -> Seq<(Seq<char>, Seq<char>)>
    decreases items.len(),
{
    if items.len() == 0 {
        Seq::empty()
    } else {
        let rest = gemini_names(items.drop_last());
        match get_str(items.last(), "name"@) {
            Some(n) => rest.push((last_segment(n), n)),
            None => rest,
        }
    }
}

/// The (local, remote) names that `data` entries give: each `id`, twice.
pub open spec fn data_names(items: Seq<JsonView>) -> Seq<(Seq<char>, Seq<char>)>
    decreases items.len(),
{
    if items.len() == 0 {
        Seq::empty()
    } else {
        let rest = data_names(items.drop_last());
        match get_str(items.last(), "id"@) {
            Some(n) => rest.push((n, n)),
            None => rest,
        }
    }
}

/// The models a listing offers to the command line, in listing order: from
/// Gemini's `models` for a Gemini provider, else (or when that gives none)
/// from `data`.
pub open spec fn fetched_names(format: ProviderFormat, body: JsonView) -> Seq<(Seq<char>, Seq<char>)> {
    let g = if format == ProviderFormat::Google {
        match get_arr(body, "models"@) {
            Some(a) => gemini_names(a),
            None => Seq::empty(),
        }
    } else {
        Seq::empty()
    };
    if g.len() > 0 {
        g
    } else {
        match get_arr(body, "data"@) {
            Some(a) => data_names(a),
            None => Seq::empty(),
        }
    }
}

fn last_segment_exec(n: &str) -> (r: String)
    ensures
        r@ == last_segment(n@),
{
    let v = chars_of(n);
    let slash = chars_of("/");
    proof {
        reveal_strlit("/");
    }
    assert(slash@.len() == 1);
    match crate::text::find_last(&v, &slash) {
        Some(i) => {
            assert(crate::text::occurs_at(v@, slash@, i as int));
            let len = v.len();
            assert(i + 1 <= len);
            string_from_range(&v, i + 1, len)
        },
        None => n.to_owned(),
    }
}

fn collect_names(items: &Vec<Json>, gemini: bool, out: &mut Vec<ModelMapping>)
    requires
        old(out)@.len() == 0,
    ensures
        ({
            let want = if gemini { gemini_names(views(items@)) } else { data_names(views(items@)) };
            &&& final(out)@.len() == want.len()
            &&& forall|k: int| 0 <= k < want.len() ==> unpriced(#[trigger] final(out)@[k], want[k].0, want[k].1)
        }),
{
    let ghost iv = views(items@);
    proof {
        lemma_views(items@);
    }
    let mut i: usize = 0;
    assert(iv.subrange(0, 0) =~= Seq::<JsonView>::empty());
    while i < items.len()
        invariant
            i <= items@.len(),
            iv == views(items@),
            iv.len() == items@.len(),
            forall|k: int| 0 <= k < items@.len() ==> #[trigger] iv[k] == items@[k].view(),
            ({
                let want = if gemini { gemini_names(iv.subrange(0, i as int)) } else { data_names(iv.subrange(0, i as int)) };
                &&& out@.len() == want.len()
                &&& forall|k: int| 0 <= k < want.len() ==> unpriced(#[trigger] out@[k], want[k].0, want[k].1)
            }),
        decreases items.len() - i,
    {
        assert(iv.subrange(0, i as int + 1).drop_last() =~= iv.subrange(0, i as int));
        if gemini {
            if let Some(n) = items[i].get_str("name") {
                out.push(ModelMapping {
                    local: last_segment_exec(n),
                    remote: n.to_owned(),
                    input_cost_per_1k: None,
                    output_cost_per_1k: None,
                    cached_input_cost_per_1k: None,
                });
            }
        } else {
            if let Some(n) = items[i].get_str("id") {
                out.push(ModelMapping {
                    local: n.to_owned(),
                    remote: n.to_owned(),
                    input_cost_per_1k: None,
                    output_cost_per_1k: None,
                    cached_input_cost_per_1k: None,
                });
            }
        }
        i = i + 1;
    }
    assert(iv.subrange(0, iv.len() as int) =~= iv);
}

/// The models a provider's listing offers to `provider refresh-models`.
pub fn fetched_models(format: ProviderFormat, body: &Json) -> (r: Vec<ModelMapping>)
    ensures
        ({
            let want = fetched_names(format, body.view());
            &&& r@.len() == want.len()
            &&& forall|k: int| 0 <= k < want.len() ==> unpriced(#[trigger] r@[k], want[k].0, want[k].1)
        }),
{
    let mut out: Vec<ModelMapping> = Vec::new();
    if format == ProviderFormat::Google {
        if let Some(a) = body.get_array("models") {
            collect_names(a, true, &mut out);
        }
    }
    if out.len() == 0 {
        let mut data: Vec<ModelMapping> = Vec::new();
        if let Some(a) = body.get_array("data") {
            collect_names(a, false, &mut data);
        }
        return data;
    }
    out
}

// ---------------------------------------------------------------------------
// Updating a provider
// ---------------------------------------------------------------------------

/// The options `provider update` was given. `models` are the parsed model
/// specs when any were given; an empty `extra_headers` keeps the current ones.
pub struct ProviderChanges {
    pub name: Option<String>,
    pub base_url: Option<String>,
    pub format: Option<String>,
    pub key: Option<String>,
    pub auth: Option<String>,
    pub is_default: Option<bool>,
    pub models: Option<Vec<ModelMapping>>,
    pub fallback_provider_id: Option<i64>,
    pub extra_headers: Vec<String>,
    pub clear_key: bool,
}

/// Why a provider given on the command line is refused, if it is: an empty
/// name, base URL or API key.
pub open spec fn cli_provider_error(name: Seq<char>, base_url: Seq<char>, api_key: Seq<char>) -> Option<Seq<char>> {
    if name.len() == 0 {
        Some("provider name cannot be empty"@)
    } else if base_url.len() == 0 {
        Some("base URL cannot be empty"@)
    } else if api_key.len() == 0 {
        Some("API key cannot be empty"@)
    } else {
        None
    }
}

/// Check a provider given on the command line.
pub fn validate_cli_provider(name: &str, base_url: &str, api_key: &str) -> (r: Result<(), String>)
    ensures
        match cli_provider_error(name@, base_url@, api_key@) {
            Some(e) => r matches Err(m) && m@ == e,
            None => r is Ok,
        },
{
    if name.is_empty() {
        return Err("provider name cannot be empty".to_owned());
    }
    if base_url.is_empty() {
        return Err("base URL cannot be empty".to_owned());
    }
    if api_key.is_empty() {
        return Err("API key cannot be empty".to_owned());
    }
    Ok(())
}

/// An optional text, by value.
pub open spec fn text_of(o: Option<String>) -> Option<Seq<char>> {
    match o {
        Some(s) => Some(s@),
        None => None,
    }
}

/// Why an update's arguments are refused, if they are: extra headers that
/// do not parse, then a format, then an auth scheme.
pub open spec fn provider_change_error(c: ProviderChanges) -> Option<Seq<char>> {
    let hs = headers_spec(c.extra_headers@.map_values(|s: String| s@));
    if c.extra_headers@.len() > 0 && hs is Err {
        Some(hs->Err_0)
    } else {
        match c.format {
            Some(f) if format_arg(lowercase(f@)) is None => Some("unknown format '"@ + f@
                + "'; use openai, anthropic, google, or responses"@),
            _ => match c.auth {
                Some(a) if auth_arg(dashes_to_underscores(lowercase(a@))) is None => Some("unknown auth scheme '"@
                    + a@ + "'; use bearer, x-api-key, api-key, or x-goog-api-key"@),
                _ => None,
            },
        }
    }
}

/// A provider updated with the given options: each given option replaces
/// the field, the others stay (the fallback provider only changes when
/// one is given). The result is checked as a new provider would be, with
/// the given key, or an empty one when none is given.
pub fn apply_provider_update(existing: &Provider, changes: ProviderChanges) -> (r: Result<Provider, String>)
    ensures
        match provider_change_error(changes) {
            Some(e) => r matches Err(m) && m@ == e,
            None => {
                let name = match text_of(changes.name) { Some(n) => n, None => existing.name@ };
                let base_url = match text_of(changes.base_url) { Some(b) => b, None => existing.base_url@ };
                let key = match text_of(changes.key) { Some(k) => k, None => Seq::empty() };
                match cli_provider_error(name, base_url, key) {
                    Some(e) => r matches Err(m) && m@ == e,
                    None => r matches Ok(p) && {
                        &&& p.id == existing.id
                        &&& p.name@ == name
                        &&& p.base_url@ == base_url
                        &&& p.format == match changes.format {
                            Some(f) => format_arg(lowercase(f@)).unwrap(),
                            None => existing.format,
                        }
                        &&& p.auth == match changes.auth {
                            Some(a) => auth_arg(dashes_to_underscores(lowercase(a@))).unwrap(),
                            None => existing.auth,
                        }
                        &&& mappings_deep(p.models@) == match changes.models {
                            Some(m) => mappings_deep(m@),
                            None => mappings_deep(existing.models@),
                        }
                        &&& p.is_default == match changes.is_default {
                            Some(d) => d,
                            None => existing.is_default,
                        }
                        &&& p.fallback_provider_id == match changes.fallback_provider_id {
                            Some(i) => Some(i),
                            None => existing.fallback_provider_id,
                        }
                        &&& headers_deep(p.extra_headers@) == if changes.extra_headers@.len() == 0 {
                            headers_deep(existing.extra_headers@)
                        } else {
                            headers_spec(changes.extra_headers@.map_values(|s: String| s@))->Ok_0
                        }
                    },
                }
            },
        },
{
    let mut p = existing.duplicate();
    if changes.extra_headers.len() > 0 {
        let hs = parse_headers(changes.extra_headers.as_slice())?;
        proof {
            assert(hs@.map_values(|h: (String, String)| (h.0@, h.1@)) =~= headers_deep(hs@));
        }
        p.extra_headers = hs;
    }
    if let Some(f) = &changes.format {
        p.format = parse_format(f.as_str())?;
    }
    if let Some(a) = &changes.auth {
        p.auth = parse_auth(a.as_str())?;
    }
    if let Some(n) = changes.name {
        p.name = n;
    }
    if let Some(b) = changes.base_url {
        p.base_url = b;
    }
    if let Some(m) = changes.models {
        p.models = m;
    }
    if let Some(d) = changes.is_default {
        p.is_default = d;
    }
    if let Some(i) = changes.fallback_provider_id {
        p.fallback_provider_id = Some(i);
    }
    let key: &str = match &changes.key {
        Some(k) => k.as_str(),
        None => "",
    };
    proof {
        reveal_strlit("");
    }
    match validate_cli_provider(p.name.as_str(), p.base_url.as_str(), key) {
        Ok(()) => Ok(p),
        Err(e) => Err(e),
    }
}

/// What `provider update` does to the stored key: an explicit clear wins,
/// then a given key (even an empty one), then a rename moves the stored key.
pub fn cli_key_change(clear_key: bool, key: Option<&str>, old_name: &str, new_name: &str) -> (r: KeyChange)
    ensures
        match r {
            KeyChange::Clear { names } => clear_key && names@.map_values(|n: String| n@) == if old_name@ == new_name@ {
                seq![new_name@]
            } else {
                seq![new_name@, old_name@]
            },
            KeyChange::Replace { delete_old } => !clear_key && key is Some && match delete_old {
                Some(n) => old_name@ != new_name@ && n@ == old_name@,
                None => old_name@ == new_name@,
            },
            KeyChange::Move { from } => !clear_key && key is None && old_name@ != new_name@ && from@ == old_name@,
            KeyChange::Keep => !clear_key && key is None && old_name@ == new_name@,
        },
{
    let renamed = !str_eq(old_name, new_name);
    if clear_key {
        let mut names: Vec<String> = Vec::new();
        names.push(new_name.to_owned());
        if renamed {
            names.push(old_name.to_owned());
        }
        assert(names@.map_values(|n: String| n@) =~= if old_name@ == new_name@ {
            seq![new_name@]
        } else {
            seq![new_name@, old_name@]
        });
        KeyChange::Clear { names }
    } else if key.is_some() {
        KeyChange::Replace { delete_old: if renamed { Some(old_name.to_owned()) } else { None } }
    } else if renamed {
        KeyChange::Move { from: old_name.to_owned() }
    } else {
        KeyChange::Keep
    }
}

/// Whether a failure to read the old key means there is no key to move
/// (the keychain's "no entry"), rather than a real failure.
pub fn is_missing_key_error(message: &str) -> (b: bool)
    ensures
        b == (crate::text::contains_seq(lowercase(message@), "noentry"@)
            || crate::text::contains_seq(lowercase(message@), "no entry"@)),
{
    let lower = to_lowercase(message);
    let v = chars_of(lower.as_str());
    let a = chars_of("noentry");
    let b = chars_of("no entry");
    crate::text::contains_exec(&v, &a) || crate::text::contains_exec(&v, &b)
}

// ---------------------------------------------------------------------------
// Model specs
// ---------------------------------------------------------------------------

/// A model spec `local=remote:cost_in:cost_out:cost_cached` split into its
/// local name and the `:`-separated pieces after the `=` (the whole spec
/// serves as both when it has no `=`); the first piece is the remote name.
pub open spec fn model_spec_split(spec: Seq<char>) -> (Seq<char>, Seq<Seq<char>>) {
    match after_first(spec, '=') {
        Some(rest) => (before_first(spec, '='), crate::text::split_seq(rest, ':')),
        None => (spec, crate::text::split_seq(spec, ':')),
    }
}

/// Split a model spec given on the command line: the local name, the remote
/// name, and the cost texts that follow (parsed as prices by the caller).
pub fn model_spec_parts(spec: &str) -> (r: (String, String, Vec<String>))
    ensures
        ({
            let (local, pieces) = model_spec_split(spec@);
            &&& pieces.len() >= 1
            &&& r.0@ == local
            &&& r.1@ == pieces[0]
            &&& r.2@.map_values(|t: String| t@) == pieces.drop_first()
        }),
{
    let v = chars_of(spec);
    let j = index_of(&v, '=', 0);
    proof {
        crate::text::lemma_index_of_bounds(v@, '=', 0);
    }
    let (local, rest) = if j < v.len() {
        (string_from_range(&v, 0, j), crate::text::sub_chars(&v, j + 1, v.len()))
    } else {
        (spec.to_owned(), crate::text::sub_chars(&v, 0, v.len()))
    };
    assert(v@.subrange(0, v@.len() as int) =~= v@);
    let pieces = crate::text::split_chars(&rest, ':');
    let ghost ps = pieces@.map_values(|p: Vec<char>| p@);
    proof {
        crate::text::lemma_index_of_bounds(rest@, ':', 0);
    }
    assert(ps.len() >= 1);
    assert(ps[0] == pieces@[0]@);
    let remote = string_from_chars(&pieces[0]);
    let mut costs: Vec<String> = Vec::new();
    let mut i: usize = 1;
    assert(ps.subrange(1, 1) =~= Seq::<Seq<char>>::empty());
    while i < pieces.len()
        invariant
            1 <= i <= pieces@.len(),
            ps == pieces@.map_values(|p: Vec<char>| p@),
            costs@.map_values(|t: String| t@) == ps.subrange(1, i as int),
        decreases pieces.len() - i,
    {
        let ghost before = costs@;
        assert(ps[i as int] == pieces@[i as int]@);
        let t = string_from_chars(&pieces[i]);
        assert(t@ == ps[i as int]);
        costs.push(t);
        assert(costs@ == before.push(t));
        assert(costs@.map_values(|t: String| t@) =~= before.map_values(|t: String| t@).push(ps[i as int]));
        assert(costs@.map_values(|t: String| t@) =~= ps.subrange(1, i as int + 1));
        i = i + 1;
    }
    assert(ps.subrange(1, ps.len() as int) =~= ps.drop_first());
    (local, remote, costs)
}

} // verus!
