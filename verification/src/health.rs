//! Provider health checks: which endpoints to probe, and the cache of results.

use vstd::prelude::*;
use std::collections::HashMap;
use crate::config::ProviderFormat;
use crate::text::{chars_of, string_from_range, string_push_str, trim_end_char};

verus! {

broadcast use vstd::std_specs::hash::group_hash_axioms;

/// The outcome of the last health check of one provider.
#[derive(Clone, Debug)]
pub struct ProviderHealth {
    pub ok: bool,
    pub latency_ms: u64,
    pub error: Option<String>,
    pub checked_at: String,
}

/// The latest health result per provider id.
pub struct HealthCache {
    by_provider: HashMap<i64, ProviderHealth>,
}

impl HealthCache {
    pub closed spec fn view(&self) -> Map<i64, ProviderHealth> {
        self.by_provider@
    }

    /// Every cached result, by provider id.
    pub fn all(&self) -> (r: HashMap<i64, ProviderHealth>)
        ensures
            r@ == self.view(),
    {
        self.by_provider.clone()
    }

    /// Record the latest result for a provider, replacing any earlier one.
    pub fn insert(&mut self, id: i64, health: ProviderHealth)
        ensures
            final(self).view() == old(self).view().insert(id, health),
    {
        self.by_provider.insert(id, health);
    }
}

impl Default for HealthCache {
    fn default() -> (r: Self)
        ensures
            r.view() == Map::<i64, ProviderHealth>::empty(),
    {
        HealthCache { by_provider: HashMap::new() }
    }
}


/// Endpoints to probe, in order, for a provider of this dialect, under its
/// base URL without trailing slashes: Gemini has only `/v1beta/models`;
/// OpenAI tries `/v1/models` and then the gateway-style `/v1/health`; the
/// others try `/v1/models`.
pub open spec fn probe_endpoints_spec(base_url: Seq<char>, format: ProviderFormat) -> Seq<Seq<char>> {
    let base = trim_end_char(base_url, '/');
    match format {
        ProviderFormat::Google => seq![base + "/v1beta/models"@],
        ProviderFormat::OpenAI => seq![base + "/v1/models"@, base + "/v1/health"@],
        _ => seq![base + "/v1/models"@],
    }
}

fn joined(base: &String, suffix: &str) -> (r: String)
    ensures
        r@ == base@ + suffix@,
{
    let mut s = base.clone();
    string_push_str(&mut s, suffix);
    s
}

/// Endpoints to probe, in order, for a provider of this dialect.
pub fn probe_endpoints(base_url: &str, format: ProviderFormat) -> (r: Vec<String>)
    ensures
        r@.map_values(|s: String| s@) == probe_endpoints_spec(base_url@, format),
{
    let v = chars_of(base_url);
    let mut end = v.len();
    assert(v@.subrange(0, v@.len() as int) =~= v@);
    while end > 0 && v[end - 1] == '/'
        invariant
            end <= v@.len(),
            trim_end_char(v@, '/') == trim_end_char(v@.subrange(0, end as int), '/'),
        decreases end,
    {
        assert(v@.subrange(0, end as int).drop_last() =~= v@.subrange(0, end - 1));
        end = end - 1;
    }
    let base = string_from_range(&v, 0, end);
    assert(trim_end_char(v@.subrange(0, end as int), '/') == v@.subrange(0, end as int));
    let mut out: Vec<String> = Vec::new();
    match format {
        ProviderFormat::Google => {
            out.push(joined(&base, "/v1beta/models"));
        },
        ProviderFormat::OpenAI => {
            out.push(joined(&base, "/v1/models"));
            out.push(joined(&base, "/v1/health"));
        },
        _ => {
            out.push(joined(&base, "/v1/models"));
        },
    }
    assert(out@.map_values(|s: String| s@) =~= probe_endpoints_spec(base_url@, format));
    out
}

} // verus!
