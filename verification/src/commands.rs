//! Data shapes exchanged with the desktop front end, and the small rules the
//! desktop commands apply.

use vstd::prelude::*;
use crate::config::{LimitAction, LimitInput, LimitMetric, LimitPeriod, LimitScope, Provider, ProviderFormat, UNIT};
use crate::json::{Json, JsonView, get_arr, get_str, jget, json_parse, lemma_views, parse_json, views};
use crate::config::ModelMapping;
use crate::proxy::forwarder::upstream_url;
use crate::prices::{ModelPrice, PriceTable, normalized_name, price_for};
use crate::text::{
    chars_of, contains_seq, contains_exec, lowercase, to_lowercase, string_push_str, split_seq, split_chars,
    parse_u64_spec, parse_u64_range, trim_start_char, trim, trim_seq,
};

verus! {

/// A model offered by a provider.
pub struct ModelInfo {
    pub id: String,
    pub provider: String,
}

/// Settings of the scheduled CSV export.
pub struct AutoExportInput {
    pub days: u32,
    pub folder: String,
}

/// Filters of the request-log view.
pub struct LogFilterInput {
    pub provider: Option<String>,
    pub model: Option<String>,
    pub project: Option<String>,
    pub start: Option<String>,
    pub end: Option<String>,
    pub page: Option<u64>,
    pub page_size: Option<u64>,
}

/// A device registered against a supporter licence.
pub struct RegisteredDevice {
    pub fingerprint: String,
    pub registered_at: String,
    pub current: bool,
}

/// The devices registered against a licence, and how many it allows.
pub struct DeviceListDto {
    pub devices: Vec<RegisteredDevice>,
    pub max_devices: usize,
}

/// A release newer than the running one.
pub struct UpdateInfo {
    pub version: String,
    pub asset_url: String,
    pub downloaded_path: Option<String>,
}

/// The built-in price table, by model name.
pub struct DefaultPriceMap {
    pub prices: Vec<(String, ModelPrice)>,
}

/// Settings key under which the creation time of a provider's API key is kept.
pub fn provider_key_setting_name(provider_name: &str) -> (r: String)
    ensures
        r@ == "provider_key_created_at:"@ + provider_name@,
{
    let mut s = "provider_key_created_at:".to_owned();
    string_push_str(&mut s, provider_name);
    s
}

/// Fragments of network interface names that betray a tunnel or VPN adapter.
pub open spec fn vpn_markers() -> Seq<&'static str> {
    seq![
        "tun", "tap", "wg", "vpn", "ppp", "ipsec", "utun",
        "wireguard", "openvpn", "sslvpn", "pptp", "l2tp", "sstp", "ikev2",
        "nordlynx", "nordvpn", "expressvpn", "proton", "surfshark", "mullvad",
        "windscribe", "cyberghost", "pia", "private internet access",
        "hotspot shield", "tunnelbear", "perimeter 81", "hide.me", "torguard",
        "tailscale", "zerotier", "headscale", "nebula", "netbird",
        "anyconnect", "cisco anyconnect", "fortissl", "forticlient", "globalprotect",
        "palo alto", "sonicwall", "netextender", "checkpoint", "f5 vpn", "big-ip",
        "juniper", "pulse secure", "citrix", "sophos", "openconnect",
        "tap-windows", "tap-win32", "wintun", "ndis", "virtual adapter",
    ]
}

/// An interface whose lower-cased name contains one of the VPN markers.
pub open spec fn is_vpn_name(name: Seq<char>) -> bool {
    exists|i: int| 0 <= i < vpn_markers().len() && contains_seq(lowercase(name), #[trigger] vpn_markers()[i]@)
}

/// Whether a network interface looks like a VPN or tunnel adapter, so that
/// its address is not offered as the LAN address.
pub fn is_likely_vpn_interface(name: &str) -> (b: bool)
    ensures
        b == is_vpn_name(name@),
{
    let lower = to_lowercase(name);
    let hay = chars_of(lower.as_str());
    let markers: Vec<&'static str> = vec![
        "tun", "tap", "wg", "vpn", "ppp", "ipsec", "utun",
        "wireguard", "openvpn", "sslvpn", "pptp", "l2tp", "sstp", "ikev2",
        "nordlynx", "nordvpn", "expressvpn", "proton", "surfshark", "mullvad",
        "windscribe", "cyberghost", "pia", "private internet access",
        "hotspot shield", "tunnelbear", "perimeter 81", "hide.me", "torguard",
        "tailscale", "zerotier", "headscale", "nebula", "netbird",
        "anyconnect", "cisco anyconnect", "fortissl", "forticlient", "globalprotect",
        "palo alto", "sonicwall", "netextender", "checkpoint", "f5 vpn", "big-ip",
        "juniper", "pulse secure", "citrix", "sophos", "openconnect",
        "tap-windows", "tap-win32", "wintun", "ndis", "virtual adapter",
    ];
    assert(markers@ == vpn_markers());
    let mut i: usize = 0;
    while i < markers.len()
        invariant
            i <= markers@.len(),
            markers@ == vpn_markers(),
            hay@ == lowercase(name@),
            forall|j: int| 0 <= j < i ==> !contains_seq(hay@, #[trigger] vpn_markers()[j]@),
        decreases markers.len() - i,
    {
        let m = chars_of(markers[i]);
        if contains_exec(&hay, &m) {
            return true;
        }
        i = i + 1;
    }
    false
}


/// A `MAJOR.MINOR.PATCH` version with any leading `v`s dropped; parts after
/// the third are ignored.
pub open spec fn version_triple(s: Seq<char>) -> Option<(u64, u64, u64)> {
    let parts = split_seq(trim_start_char(s, 'v'), '.');
    if parts.len() >= 3 && parse_u64_spec(parts[0]) is Some && parse_u64_spec(parts[1]) is Some
        && parse_u64_spec(parts[2]) is Some {
        Some((parse_u64_spec(parts[0])->0, parse_u64_spec(parts[1])->0, parse_u64_spec(parts[2])->0))
    } else {
        None
    }
}

/// Read a release tag such as `v0.1.8` as a `(major, minor, patch)` triple.
pub fn parse_version_triple(s: &str) -> (r: Option<(u64, u64, u64)>)
    ensures
        r == version_triple(s@),
{
    let v = chars_of(s);
    let mut start: usize = 0;
    assert(v@.subrange(0, v@.len() as int) =~= v@);
    while start < v.len() && v[start] == 'v'
        invariant
            start <= v@.len(),
            trim_start_char(v@, 'v') == trim_start_char(v@.subrange(start as int, v@.len() as int), 'v'),
        decreases v.len() - start,
    {
        assert(v@.subrange(start as int, v@.len() as int).drop_first() =~= v@.subrange(start + 1, v@.len() as int));
        start = start + 1;
    }
    assert(trim_start_char(v@.subrange(start as int, v@.len() as int), 'v') == v@.subrange(start as int, v@.len() as int));
    let rest = crate::text::sub_chars(&v, start, v.len());
    let parts = split_chars(&rest, '.');
    let ghost ps = parts@.map_values(|p: Vec<char>| p@);
    assert(ps == split_seq(trim_start_char(s@, 'v'), '.'));
    if parts.len() < 3 {
        return None;
    }
    assert(ps[0] == parts@[0]@ && ps[1] == parts@[1]@ && ps[2] == parts@[2]@);
    let a = parse_u64_range(&parts[0], 0, parts[0].len());
    let b = parse_u64_range(&parts[1], 0, parts[1].len());
    let c = parse_u64_range(&parts[2], 0, parts[2].len());
    assert(parts@[0]@.subrange(0, parts@[0]@.len() as int) =~= parts@[0]@);
    assert(parts@[1]@.subrange(0, parts@[1]@.len() as int) =~= parts@[1]@);
    assert(parts@[2]@.subrange(0, parts@[2]@.len() as int) =~= parts@[2]@);
    match (a, b, c) {
        (Some(x), Some(y), Some(z)) => Some((x, y, z)),
        _ => None,
    }
}

// ---------------------------------------------------------------------------
// Limit presets
// ---------------------------------------------------------------------------

/// A ready-made limit the user can add with one click.
pub struct LimitPreset {
    pub name: String,
    pub input: LimitInput,
}

/// What a preset sets: its label, the limit's name, metric, period, cap
/// (millionths), warning threshold (millionths of the cap) and action; every
/// preset is global, enabled, and active at all hours of every day.
pub open spec fn preset_spec(i: int) -> (Seq<char>, Seq<char>, LimitMetric, LimitPeriod, u64, u64, LimitAction) {
    if i == 0 {
        ("$50 / day"@, "Daily money cap"@, LimitMetric::Money, LimitPeriod::Daily, 50_000_000, 800_000, LimitAction::Warn)
    } else if i == 1 {
        ("1 M tokens / month"@, "Monthly token cap"@, LimitMetric::Tokens, LimitPeriod::Monthly, 1_000_000_000_000, 800_000, LimitAction::Warn)
    } else if i == 2 {
        ("1 000 requests / day"@, "Daily request cap"@, LimitMetric::Requests, LimitPeriod::Daily, 1_000_000_000, 900_000, LimitAction::Block)
    } else if i == 3 {
        ("5 hours / day"@, "Daily time cap"@, LimitMetric::TimeSec, LimitPeriod::Daily, 18_000_000_000, 800_000, LimitAction::Warn)
    } else {
        ("5 hours / week"@, "Weekly time cap"@, LimitMetric::TimeSec, LimitPeriod::Weekly, 18_000_000_000, 800_000, LimitAction::Warn)
    }
}

/// A preset matches its description.
pub open spec fn preset_matches(p: LimitPreset, i: int) -> bool {
    let d = preset_spec(i);
    &&& p.name@ == d.0
    &&& p.input.name@ == d.1
    &&& p.input.metric == d.2
    &&& p.input.period == d.3
    &&& p.input.cap == d.4
    &&& p.input.warning_threshold == d.5
    &&& p.input.action == d.6
    &&& p.input.scope == LimitScope::Global
    &&& p.input.scope_id is None
    &&& p.input.enabled
    &&& p.input.active_hours_start is None
    &&& p.input.active_hours_end is None
    &&& p.input.active_days == 0b1111111
}

fn preset(
    name: &str,
    limit_name: &str,
    metric: LimitMetric,
    period: LimitPeriod,
    cap: u64,
    warning_threshold: u64,
    action: LimitAction,
) -> (r: LimitPreset)
    ensures
        r.name@ == name@,
        r.input.name@ == limit_name@,
        r.input.metric == metric,
        r.input.period == period,
        r.input.cap == cap,
        r.input.warning_threshold == warning_threshold,
        r.input.action == action,
        r.input.scope == LimitScope::Global,
        r.input.scope_id is None,
        r.input.enabled,
        r.input.active_hours_start is None,
        r.input.active_hours_end is None,
        r.input.active_days == 0b1111111,
{
    LimitPreset {
        name: name.to_owned(),
        input: LimitInput {
            name: limit_name.to_owned(),
            metric,
            period,
            cap,
            warning_threshold,
            scope: LimitScope::Global,
            scope_id: None,
            action,
            enabled: true,
            active_hours_start: None,
            active_hours_end: None,
            active_days: 0b1111111,
        },
    }
}

/// The ready-made limits, in the order they are offered.
pub fn get_limit_presets() -> (r: Vec<LimitPreset>)
    ensures
        r@.len() == 5,
        forall|i: int| 0 <= i < 5 ==> preset_matches(#[trigger] r@[i], i),
{
    let mut v: Vec<LimitPreset> = Vec::new();
    v.push(preset("$50 / day", "Daily money cap", LimitMetric::Money, LimitPeriod::Daily, 50 * UNIT, 800_000, LimitAction::Warn));
    v.push(preset("1 M tokens / month", "Monthly token cap", LimitMetric::Tokens, LimitPeriod::Monthly, 1_000_000 * UNIT, 800_000, LimitAction::Warn));
    v.push(preset("1 000 requests / day", "Daily request cap", LimitMetric::Requests, LimitPeriod::Daily, 1000 * UNIT, 900_000, LimitAction::Block));
    v.push(preset("5 hours / day", "Daily time cap", LimitMetric::TimeSec, LimitPeriod::Daily, 5 * 3600 * UNIT, 800_000, LimitAction::Warn));
    v.push(preset("5 hours / week", "Weekly time cap", LimitMetric::TimeSec, LimitPeriod::Weekly, 5 * 3600 * UNIT, 800_000, LimitAction::Warn));
    assert(preset_matches(v@[0], 0));
    assert(preset_matches(v@[1], 1));
    assert(preset_matches(v@[2], 2));
    assert(preset_matches(v@[3], 3));
    assert(preset_matches(v@[4], 4));
    v
}

/// Whether `url::Url::parse` accepts a text as an absolute URL.
pub uninterp spec fn url_parses(text: Seq<char>) -> bool;

/// `url::Url::parse(text).is_ok()`: whether the text parses as an absolute
/// URL (the parser reqwest uses).
#[verifier::external_body]
fn url_parse_ok(text: &str) -> (b: bool)
    ensures
        b == url_parses(text@),
{
    url::Url::parse(text).is_ok()
}

/// Check a provider's name and base URL before saving it: both must be
/// non-blank, and the trimmed base URL must parse as a URL.
pub fn validate_provider_input(name: &str, base_url: &str) -> (r: Result<(), String>)
    ensures
        match r {
            Ok(()) => trim_seq(name@).len() > 0 && trim_seq(base_url@).len() > 0 && url_parses(trim_seq(base_url@)),
            Err(e) => if trim_seq(name@).len() == 0 {
                e@ == "provider name is required"@
            } else if trim_seq(base_url@).len() == 0 {
                e@ == "provider base URL is required"@
            } else {
                !url_parses(trim_seq(base_url@)) && e@ == "provider base URL is not valid"@
            },
        },
{
    let n = trim(name);
    if n.as_str().is_empty() {
        return Err("provider name is required".to_owned());
    }
    let b = trim(base_url);
    if b.as_str().is_empty() {
        return Err("provider base URL is required".to_owned());
    }
    if !url_parse_ok(b.as_str()) {
        return Err("provider base URL is not valid".to_owned());
    }
    Ok(())
}

/// What an update does to a provider's stored key (and the time it was set).
pub enum KeyChange {
    /// Delete the key and its timestamp under each of these names: the new
    /// name, and the old one when the provider was renamed.
    Clear { names: Vec<String> },
    /// Store the submitted key, and stamp its time, under the new name;
    /// delete the key under the old name when the provider was renamed.
    Replace { delete_old: Option<String> },
    /// Renamed without a new key: the stored key and its timestamp move from
    /// the old name to the new one.
    Move { from: String },
    /// The key stays as it is.
    Keep,
}

/// Decide what a provider update does to its key: an explicit clear wins,
/// then a submitted key, then a rename moves the stored key along.
pub fn provider_key_change(clear_key: bool, api_key: &str, old_name: &str, new_name: &str) -> (r: KeyChange)
    ensures
        match r {
            KeyChange::Clear { names } => clear_key && names@.map_values(|n: String| n@) == if old_name@ == new_name@ {
                seq![new_name@]
            } else {
                seq![new_name@, old_name@]
            },
            KeyChange::Replace { delete_old } => !clear_key && api_key@.len() > 0 && match delete_old {
                Some(n) => old_name@ != new_name@ && n@ == old_name@,
                None => old_name@ == new_name@,
            },
            KeyChange::Move { from } => !clear_key && api_key@.len() == 0 && old_name@ != new_name@
                && from@ == old_name@,
            KeyChange::Keep => !clear_key && api_key@.len() == 0 && old_name@ == new_name@,
        },
{
    let renamed = !crate::text::str_eq(old_name, new_name);
    if clear_key {
        let mut names: Vec<String> = Vec::new();
        names.push(new_name.to_owned());
        if renamed {
            names.push(old_name.to_owned());
        }
        assert(names@.map_values(|n: String| n@) =~= if old_name@ == new_name@ {
            seq![new_name@]
        } else {
            seq![new_name@, old_name@]
        });
        KeyChange::Clear { names }
    } else if !api_key.is_empty() {
        KeyChange::Replace { delete_old: if renamed { Some(old_name.to_owned()) } else { None } }
    } else if renamed {
        KeyChange::Move { from: old_name.to_owned() }
    } else {
        KeyChange::Keep
    }
}

/// The endpoint a logged request is replayed at, by the provider's dialect:
/// OpenAI bodies with `prompt` (and no `messages`) go to completions, other
/// OpenAI bodies to chat completions.
pub open spec fn replay_path_spec(format: ProviderFormat, body: Seq<char>) -> Option<Seq<char>> {
    match format {
        ProviderFormat::Anthropic => Some("/v1/messages"@),
        ProviderFormat::Responses => Some("/v1/responses"@),
        ProviderFormat::Google => None,
        ProviderFormat::OpenAI => match json_parse(body) {
            Some(v) => if jget(v, "messages"@) is None && jget(v, "prompt"@) is Some {
                Some("/v1/completions"@)
            } else {
                Some("/v1/chat/completions"@)
            },
            None => Some("/v1/chat/completions"@),
        },
    }
}

/// Where a logged request is sent again: the provider's base URL (without
/// trailing slashes) and the endpoint for its dialect. A request whose body
/// was not logged, or a Gemini provider, cannot be replayed.
pub fn replay_url(provider: &Provider, request_body: Option<&str>) -> (r: Result<String, String>)
    ensures
        match request_body {
            None => r is Err && r->Err_0@ == "request body was not logged"@,
            Some(b) => if b@.len() == 0 {
                r is Err && r->Err_0@ == "request body was not logged"@
            } else {
                match replay_path_spec(provider.format, b@) {
                    Some(path) => r is Ok && r->Ok_0@ == crate::text::trim_end_char(provider.base_url@, '/') + path,
                    None => r is Err && r->Err_0@ == "replay is not supported for Google Gemini native API"@,
                }
            },
        },
{
    let body = match request_body {
        Some(b) => b,
        None => return Err("request body was not logged".to_owned()),
    };
    if body.is_empty() {
        return Err("request body was not logged".to_owned());
    }
    let path = match provider.format {
        ProviderFormat::Anthropic => "/v1/messages",
        ProviderFormat::Responses => "/v1/responses",
        ProviderFormat::Google => return Err("replay is not supported for Google Gemini native API".to_owned()),
        ProviderFormat::OpenAI => match parse_json(body) {
            Some(v) => if v.get("messages").is_none() && v.get("prompt").is_some() {
                "/v1/completions"
            } else {
                "/v1/chat/completions"
            },
            None => "/v1/chat/completions",
        },
    };
    Ok(upstream_url(provider.base_url.as_str(), path))
}

/// The host the proxy is reached at from the LAN: the configured LAN address
/// when it is set and not empty, else the preferred interface address, else
/// the machine's local address, else its host name, else `localhost`.
pub open spec fn lan_host_spec(
    lan_ip: Option<Seq<char>>,
    preferred: Option<Seq<char>>,
    local_ip: Option<Seq<char>>,
    hostname: Option<Seq<char>>,
) -> Seq<char> {
    match lan_ip {
        Some(ip) if ip.len() > 0 => ip,
        _ => match preferred {
            Some(p) => p,
            None => match local_ip {
                Some(l) => l,
                None => match hostname {
                    Some(h) => h,
                    None => "localhost"@,
                },
            },
        },
    }
}

/// The proxy's URL as the settings show it: on the LAN host when exposed to
/// the LAN, else on `localhost`, with the port.
pub fn proxy_url(
    expose_to_lan: bool,
    lan_ip: Option<&str>,
    preferred: Option<&str>,
    local_ip: Option<&str>,
    hostname: Option<&str>,
    port: u16,
) -> (r: String)
    ensures
        r@ == "http://"@ + (if expose_to_lan {
            lan_host_spec(
                crate::json::opt_text(lan_ip),
                crate::json::opt_text(preferred),
                crate::json::opt_text(local_ip),
                crate::json::opt_text(hostname),
            )
        } else {
            "localhost"@
        }) + ":"@ + crate::text::decimal_string(port as nat),
{
    let host: &str = if !expose_to_lan {
        "localhost"
    } else {
        match lan_ip {
            Some(ip) if !ip.is_empty() => ip,
            _ => match preferred {
                Some(p) => p,
                None => match local_ip {
                    Some(l) => l,
                    None => match hostname {
                        Some(h) => h,
                        None => "localhost",
                    },
                },
            },
        }
    };
    let mut out = "http://".to_owned();
    string_push_str(&mut out, host);
    string_push_str(&mut out, ":");
    let digits = crate::text::u128_to_decimal(port as u128);
    string_push_str(&mut out, digits.as_str());
    out
}

// ---------------------------------------------------------------------------
// Model lists
// ---------------------------------------------------------------------------

/// Where a provider lists its models: Gemini's `/v1beta/models`, the
/// others' `/v1/models`, under the base URL without trailing slashes.
pub fn models_url(format: ProviderFormat, base_url: &str) -> (r: String)
    ensures
        r@ == crate::text::trim_end_char(base_url@, '/') + if format == ProviderFormat::Google {
            "/v1beta/models"@
        } else {
            "/v1/models"@
        },
{
    if format == ProviderFormat::Google {
        upstream_url(base_url, "/v1beta/models")
    } else {
        upstream_url(base_url, "/v1/models")
    }
}

/// Strings in ascending order, character by character (a prefix first).
pub open spec fn str_le(a: Seq<char>, b: Seq<char>) -> bool
    decreases a.len(),
{
    if a.len() == 0 {
        true
    } else if b.len() == 0 {
        false
    } else if a[0] != b[0] {
        (a[0] as int) < (b[0] as int)
    } else {
        str_le(a.drop_first(), b.drop_first())
    }
}

/// Whether strings are in ascending order.
pub open spec fn sorted_strs(s: Seq<Seq<char>>) -> bool {
    forall|i: int, j: int| 0 <= i < j < s.len() ==> str_le(#[trigger] s[i], #[trigger] s[j])
}

/// Texts by value.
pub open spec fn texts(v: Seq<String>) -> Seq<Seq<char>> {
    v.map_values(|t: String| t@)
}

/// `slice::sort` on strings: the same strings, in ascending order. Strings
/// compare by their UTF-8 bytes, which orders them as their characters do.
#[verifier::external_body]
fn sort_strings(v: &mut Vec<String>)
    ensures
        texts(final(v)@).to_multiset() == texts(old(v)@).to_multiset(),
        sorted_strs(texts(final(v)@)),
{
    v.sort();
}

/// The model name one entry of a listing gives: Gemini's `name` without its
/// `models/` prefix, the others' `id`.
pub open spec fn listed_name(format: ProviderFormat, item: JsonView) -> Option<Seq<char>> {
    if format == ProviderFormat::Google {
        match get_str(item, "name"@) {
            Some(n) => Some(if crate::text::has_prefix(n, "models/"@) { n.subrange(7, n.len() as int) } else { n }),
            None => None,
        }
    } else {
        get_str(item, "id"@)
    }
}

/// The model names of a listing's entries, in order; entries without one
/// are skipped.
pub open spec fn listed_names(format: ProviderFormat, items: Seq<JsonView>) -> Seq<Seq<char>>
    decreases items.len(),
{
    if items.len() == 0 {
        Seq::empty()
    } else {
        let rest = listed_names(format, items.drop_last());
        match listed_name(format, items.last()) {
            Some(n) => rest.push(n),
            None => rest,
        }
    }
}

/// The entries of a model listing: Gemini's `models`, the others' `data`.
pub open spec fn listing(format: ProviderFormat, body: JsonView) -> Seq<JsonView> {
    match get_arr(body, if format == ProviderFormat::Google { "models"@ } else { "data"@ }) {
        Some(a) => a,
        None => Seq::empty(),
    }
}

fn listed_name_exec(format: ProviderFormat, item: &Json) -> (r: Option<String>)
    ensures
        match r {
            Some(n) => listed_name(format, item.view()) == Some(n@),
            None => listed_name(format, item.view()) is None,
        },
{
    if format == ProviderFormat::Google {
        match item.get_str("name") {
            Some(n) => {
                let v = chars_of(n);
                let p = chars_of("models/");
                proof {
                    reveal_strlit("models/");
                }
                if crate::text::starts_with_exec(&v, &p) {
                    Some(crate::text::string_from_range(&v, 7, v.len()))
                } else {
                    Some(n.to_owned())
                }
            },
            None => None,
        }
    } else {
        match item.get_str("id") {
            Some(n) => Some(n.to_owned()),
            None => None,
        }
    }
}

/// A model offered under its own name, with no prices.
pub open spec fn plain_mapping(m: ModelMapping, name: Seq<char>) -> bool {
    &&& m.local@ == name
    &&& m.remote@ == name
    &&& m.input_cost_per_1k is None
    &&& m.output_cost_per_1k is None
    &&& m.cached_input_cost_per_1k is None
}

/// The models a provider's listing offers, by name in ascending order, each
/// under its own name and with no prices.
pub fn refreshed_models(format: ProviderFormat, body: &Json) -> (r: Vec<ModelMapping>)
    ensures
        ({
            let names = r@.map_values(|m: ModelMapping| m.local@);
            &&& names.to_multiset() == listed_names(format, listing(format, body.view())).to_multiset()
            &&& sorted_strs(names)
            &&& forall|i: int| 0 <= i < r@.len() ==> plain_mapping(#[trigger] r@[i], names[i])
        }),
{
    let empty: Vec<Json> = Vec::new();
    let found = body.get_array(if format == ProviderFormat::Google { "models" } else { "data" });
    let items: &Vec<Json> = match found {
        Some(a) => a,
        None => &empty,
    };
    let ghost iv = views(items@);
    proof {
        lemma_views(items@);
        if found is None {
            assert(views(empty@) =~= Seq::<JsonView>::empty());
        }
        assert(iv =~= listing(format, body.view()));
    }
    let mut names: Vec<String> = Vec::new();
    let mut i: usize = 0;
    assert(iv.subrange(0, 0) =~= Seq::<JsonView>::empty());
    assert(texts(names@) =~= Seq::<Seq<char>>::empty());
    while i < items.len()
        invariant
            i <= items@.len(),
            iv == views(items@),
            iv.len() == items@.len(),
            forall|k: int| 0 <= k < items@.len() ==> #[trigger] iv[k] == items@[k].view(),
            texts(names@) == listed_names(format, iv.subrange(0, i as int)),
        decreases items.len() - i,
    {
        assert(iv.subrange(0, i as int + 1).drop_last() =~= iv.subrange(0, i as int));
        match listed_name_exec(format, &items[i]) {
            Some(n) => {
                let ghost before = names@;
                names.push(n);
                assert(texts(names@) =~= texts(before).push(names@.last()@));
            },
            None => {},
        }
        i = i + 1;
    }
    assert(iv.subrange(0, iv.len() as int) =~= iv);
    sort_strings(&mut names);
    let ghost sorted = texts(names@);
    let mut out: Vec<ModelMapping> = Vec::new();
    let mut j: usize = 0;
    while j < names.len()
        invariant
            j <= names@.len(),
            sorted == texts(names@),
            out@.len() == j,
            forall|k: int| 0 <= k < j ==> plain_mapping(#[trigger] out@[k], sorted[k]),
        decreases names.len() - j,
    {
        out.push(ModelMapping {
            local: names[j].clone(),
            remote: names[j].clone(),
            input_cost_per_1k: None,
            output_cost_per_1k: None,
            cached_input_cost_per_1k: None,
        });
        j = j + 1;
    }
    assert(out@.map_values(|m: ModelMapping| m.local@) =~= sorted);
    out
}

// ---------------------------------------------------------------------------
// Filling in prices
// ---------------------------------------------------------------------------

/// A model's prices with the table's filling the ones it lacks: the input
/// and output prices when absent, and the cached-input price (the table's,
/// which may be none) when absent.
pub open spec fn filled(m: ModelMapping, p: Option<ModelPrice>) -> (Option<u64>, Option<u64>, Option<u64>) {
    match p {
        Some(p) => (
            if m.input_cost_per_1k is None { Some(p.input_per_1k) } else { m.input_cost_per_1k },
            if m.output_cost_per_1k is None { Some(p.output_per_1k) } else { m.output_cost_per_1k },
            if m.cached_input_cost_per_1k is None { p.cached_input_per_1k } else { m.cached_input_cost_per_1k },
        ),
        None => (m.input_cost_per_1k, m.output_cost_per_1k, m.cached_input_cost_per_1k),
    }
}

/// Fill the prices a provider's models lack from the price table, looked up
/// by each model's local name; names and prices already set stay.
pub fn fill_provider_prices_from_database(models: Vec<ModelMapping>, table: &PriceTable) -> (r: Vec<ModelMapping>)
    ensures
        r@.len() == models@.len(),
        forall|i: int| 0 <= i < r@.len() ==> {
            let m = models@[i];
            let f = filled(m, price_for(table.view(), normalized_name(m.local@)));
            &&& (#[trigger] r@[i]).local@ == m.local@
            &&& r@[i].remote@ == m.remote@
            &&& (r@[i].input_cost_per_1k, r@[i].output_cost_per_1k, r@[i].cached_input_cost_per_1k) == f
        },
{
    let mut out: Vec<ModelMapping> = Vec::new();
    let mut i: usize = 0;
    while i < models.len()
        invariant
            i <= models@.len(),
            out@.len() == i,
            forall|k: int| 0 <= k < i ==> {
                let m = models@[k];
                let f = filled(m, price_for(table.view(), normalized_name(m.local@)));
                &&& (#[trigger] out@[k]).local@ == m.local@
                &&& out@[k].remote@ == m.remote@
                &&& (out@[k].input_cost_per_1k, out@[k].output_cost_per_1k, out@[k].cached_input_cost_per_1k) == f
            },
        decreases models.len() - i,
    {
        let m = &models[i];
        let price = table.lookup(m.local.as_str());
        let (input, output, cached) = match price {
            Some(p) => (
                if m.input_cost_per_1k.is_none() { Some(p.input_per_1k) } else { m.input_cost_per_1k },
                if m.output_cost_per_1k.is_none() { Some(p.output_per_1k) } else { m.output_cost_per_1k },
                if m.cached_input_cost_per_1k.is_none() { p.cached_input_per_1k } else { m.cached_input_cost_per_1k },
            ),
            None => (m.input_cost_per_1k, m.output_cost_per_1k, m.cached_input_cost_per_1k),
        };
        out.push(ModelMapping {
            local: m.local.clone(),
            remote: m.remote.clone(),
            input_cost_per_1k: input,
            output_cost_per_1k: output,
            cached_input_cost_per_1k: cached,
        });
        i = i + 1;
    }
    out
}

} // verus!
