//! Decisions of the upstream forwarder: which headers travel, how the
//! provider is authenticated, when to retry elsewhere, and where.

use vstd::prelude::*;
use crate::config::{AuthScheme, Provider, ProviderFormat};
use crate::json::{Json, JsonView, jget, json_parse_bytes, member_views, minsert, obj_insert, parse_json_bytes};
use crate::proxy::convert::{
    convert_request, convert_request_spec, error_envelope, error_envelope_spec, error_message_spec,
    is_stream_request, is_stream_spec, target_path, target_path_spec,
};
use crate::proxy::reply::{convert_response, convert_response_spec};
use crate::state::{provider_serves, remote_model_name, remote_name_spec, serves};
use crate::text::{chars_of, contains_exec, contains_seq, lowercase, str_eq, string_from_range, string_push_str, to_lowercase, trim_end_char};

verus! {

/// Headers never forwarded upstream (compared lower-cased): hop-by-hop
/// ones, the client's credentials (the gateway sets its own), and the
/// encodings the gateway recomputes.
pub open spec fn dropped_headers() -> Seq<Seq<char>> {
    seq![
        "host"@, "content-length"@, "transfer-encoding"@, "connection"@, "authorization"@, "x-api-key"@, "api-key"@,
        "x-goog-api-key"@, "anthropic-version"@, "content-encoding"@, "accept-encoding"@,
    ]
}

/// Whether a client header is forwarded: any whose lower-cased name is not
/// one of the dropped headers.
pub fn is_passthrough_header(name: &str) -> (b: bool)
    ensures
        b == !dropped_headers().contains(lowercase(name@)),
{
    let s = to_lowercase(name);
    let t = s.as_str();
    let hit = str_eq(t, "host") || str_eq(t, "content-length") || str_eq(t, "transfer-encoding") || str_eq(t, "connection")
        || str_eq(t, "authorization") || str_eq(t, "x-api-key") || str_eq(t, "api-key") || str_eq(t, "x-goog-api-key")
        || str_eq(t, "anthropic-version") || str_eq(t, "content-encoding") || str_eq(t, "accept-encoding");
    proof {
        let d = dropped_headers();
        if d.contains(t@) {
            let i = choose|i: int| 0 <= i < d.len() && d[i] == t@;
            assert(i == 0 || i == 1 || i == 2 || i == 3 || i == 4 || i == 5 || i == 6 || i == 7 || i == 8 || i == 9
                || i == 10);
        }
        if hit {
            if t@ == "host"@ { assert(d[0] == t@); }
            if t@ == "content-length"@ { assert(d[1] == t@); }
            if t@ == "transfer-encoding"@ { assert(d[2] == t@); }
            if t@ == "connection"@ { assert(d[3] == t@); }
            if t@ == "authorization"@ { assert(d[4] == t@); }
            if t@ == "x-api-key"@ { assert(d[5] == t@); }
            if t@ == "api-key"@ { assert(d[6] == t@); }
            if t@ == "x-goog-api-key"@ { assert(d[7] == t@); }
            if t@ == "anthropic-version"@ { assert(d[8] == t@); }
            if t@ == "content-encoding"@ { assert(d[9] == t@); }
            if t@ == "accept-encoding"@ { assert(d[10] == t@); }
        }
    }
    !hit
}

/// The headers that authenticate the gateway with a provider.
pub open spec fn auth_headers_spec(auth: AuthScheme, key: Seq<char>) -> Seq<(Seq<char>, Seq<char>)> {
    match auth {
        AuthScheme::Bearer => seq![("authorization"@, "Bearer "@ + key)],
        AuthScheme::XApiKey => seq![("x-api-key"@, key), ("anthropic-version"@, "2023-06-01"@)],
        AuthScheme::ApiKey => seq![("api-key"@, key)],
        AuthScheme::XGoogApiKey => seq![("x-goog-api-key"@, key)],
    }
}

/// The authentication headers, in order, for a provider's scheme and key:
/// a bearer token, Anthropic's key with its API version, Azure's key, or
/// Google's key.
pub fn auth_headers(auth: AuthScheme, key: &str) -> (r: Vec<(String, String)>)
    ensures
        r@.map_values(|h: (String, String)| (h.0@, h.1@)) == auth_headers_spec(auth, key@),
{
    let mut out: Vec<(String, String)> = Vec::new();
    match auth {
        AuthScheme::Bearer => {
            let mut v = "Bearer ".to_owned();
            string_push_str(&mut v, key);
            out.push(("authorization".to_owned(), v));
        },
        AuthScheme::XApiKey => {
            out.push(("x-api-key".to_owned(), key.to_owned()));
            out.push(("anthropic-version".to_owned(), "2023-06-01".to_owned()));
        },
        AuthScheme::ApiKey => {
            out.push(("api-key".to_owned(), key.to_owned()));
        },
        AuthScheme::XGoogApiKey => {
            out.push(("x-goog-api-key".to_owned(), key.to_owned()));
        },
    }
    assert(out@.map_values(|h: (String, String)| (h.0@, h.1@)) =~= auth_headers_spec(auth, key@));
    out
}

/// A status worth retrying on a fallback provider: a server error or
/// `429 Too Many Requests`.
pub fn is_retryable_status(status: u16) -> (b: bool)
    ensures
        b == ((500 <= status && status <= 599) || status == 429),
{
    (500 <= status && status <= 599) || status == 429
}

/// A chat or completions body: one with `messages` or `prompt`.
pub fn is_chat_or_completions(body: &Json) -> (b: bool)
    ensures
        b == (jget(body.view(), "messages"@) is Some || jget(body.view(), "prompt"@) is Some),
{
    body.get("messages").is_some() || body.get("prompt").is_some()
}

/// The index of the first provider with id `id`.
pub open spec fn index_with_id(ps: Seq<Provider>, id: i64) -> Option<int> {
    crate::text::first_index(ps, |p: Provider| p.id == id)
}

/// The index of the first provider other than `primary` that serves `model`.
pub open spec fn index_serving_other(ps: Seq<Provider>, primary: i64, model: Seq<char>) -> Option<int> {
    crate::text::first_index(ps, |p: Provider| p.id != primary && serves(p, model))
}

/// Where a failed request is retried: the primary's configured fallback
/// when it exists, else the first other provider serving the model.
pub open spec fn fallback_index(ps: Seq<Provider>, primary: Provider, model: Seq<char>) -> Option<int> {
    match primary.fallback_provider_id {
        Some(id) => match index_with_id(ps, id) {
            Some(i) => Some(i),
            None => index_serving_other(ps, primary.id, model),
        },
        None => index_serving_other(ps, primary.id, model),
    }
}

fn find_first_exec(ps: &[Provider], primary_id: i64, model: &str, by_id: bool, id: i64) -> (r: Option<usize>)
    ensures
        crate::text::opt_index(r) == if by_id { index_with_id(ps@, id) } else { index_serving_other(ps@, primary_id, model@) },
        r matches Some(i) ==> i < ps@.len(),
{
    let ghost f = if by_id { |p: Provider| p.id == id } else { |p: Provider| p.id != primary_id && serves(p, model@) };
    let mut i: usize = 0;
    assert(ps@.subrange(0, 0) =~= Seq::<Provider>::empty());
    while i < ps.len()
        invariant
            i <= ps@.len(),
            f == if by_id { |p: Provider| p.id == id } else { |p: Provider| p.id != primary_id && serves(p, model@) },
            crate::text::first_index(ps@.subrange(0, i as int), f) == None::<int>,
        decreases ps.len() - i,
    {
        proof {
            crate::text::lemma_first_index_push(ps@, f, i as int);
        }
        let hit = if by_id {
            ps[i].id == id
        } else {
            ps[i].id != primary_id && provider_serves(&ps[i], model)
        };
        if hit {
            proof {
                crate::text::lemma_first_index_prefix(ps@, f, i as int + 1);
            }
            return Some(i);
        }
        i = i + 1;
    }
    assert(ps@.subrange(0, ps@.len() as int) =~= ps@);
    None
}

/// Find a fallback provider for a failed request: the primary's configured
/// fallback first, else the first other provider serving the model. The
/// provider's format plays no part, since requests are converted.
pub fn find_fallback_provider<'a>(providers: &'a [Provider], primary: &Provider, model: &str) -> (r: Option<&'a Provider>)
    ensures
        match fallback_index(providers@, *primary, model@) {
            Some(i) => r matches Some(p) && *p == providers@[i],
            None => r is None,
        },
{
    let found = match primary.fallback_provider_id {
        Some(id) => match find_first_exec(providers, primary.id, model, true, id) {
            Some(i) => Some(i),
            None => find_first_exec(providers, primary.id, model, false, 0),
        },
        None => find_first_exec(providers, primary.id, model, false, 0),
    };
    match found {
        Some(i) => Some(&providers[i]),
        None => None,
    }
}

// ---------------------------------------------------------------------------
// The upstream request
// ---------------------------------------------------------------------------

/// The JSON of a client body: `{}` for an empty body or one that is not
/// JSON (a Gemini model listing, for one, has no body).
pub open spec fn request_json_spec(body: Seq<u8>) -> JsonView {
    if body.len() == 0 {
        JsonView::Object(Seq::empty())
    } else {
        match json_parse_bytes(body) {
            Some(v) => v,
            None => JsonView::Object(Seq::empty()),
        }
    }
}

/// Read a client body as JSON, `{}` when it is empty or not JSON.
pub fn request_json(body: &[u8]) -> (r: Json)
    ensures
        r.view() == request_json_spec(body@),
{
    let empty: Vec<(String, Json)> = Vec::new();
    assert(member_views(empty@) =~= Seq::empty());
    if body.len() == 0 {
        return Json::Object(empty);
    }
    match parse_json_bytes(body) {
        Some(v) => v,
        None => Json::Object(empty),
    }
}

/// The members of an object value; none for any other value.
pub open spec fn object_members(j: Option<JsonView>) -> Seq<(Seq<char>, JsonView)> {
    match j {
        Some(JsonView::Object(m)) => m,
        _ => Seq::empty(),
    }
}

/// A body with `stream_options.include_usage` set to `true`, the other
/// stream options kept; a body that is not an object is left as it is.
pub open spec fn with_usage_option_spec(body: JsonView) -> JsonView {
    match body {
        JsonView::Object(m) => {
            let opts = minsert(object_members(jget(body, "stream_options"@)), "include_usage"@, JsonView::Bool(true));
            JsonView::Object(minsert(m, "stream_options"@, JsonView::Object(opts)))
        },
        _ => body,
    }
}

/// Ask an OpenAI stream to report its usage in its last chunk.
pub fn with_usage_option(body: Json) -> (r: Json)
    ensures
        r.view() == with_usage_option_spec(body.view()),
{
    let empty: Vec<(String, Json)> = Vec::new();
    assert(member_views(empty@) =~= Seq::empty());
    let mut opts: Vec<(String, Json)> = match body.get("stream_options") {
        Some(o) => match o.deep_clone() {
            Json::Object(m) => m,
            _ => empty,
        },
        None => empty,
    };
    obj_insert(&mut opts, "include_usage", Json::Bool(true));
    match body {
        Json::Object(mut m) => {
            obj_insert(&mut m, "stream_options", Json::Object(opts));
            Json::Object(m)
        },
        other => other,
    }
}

/// Whether the upstream body is asked for stream usage: an OpenAI stream of
/// a chat or completions request.
pub open spec fn wants_usage_option(to: ProviderFormat, stream: bool, body: JsonView) -> bool {
    to == ProviderFormat::OpenAI && stream && (jget(body, "messages"@) is Some || jget(body, "prompt"@) is Some)
}

/// The base URL of a provider without its trailing slashes, followed by the
/// upstream path.
pub fn upstream_url(base_url: &str, path: &str) -> (r: String)
    ensures
        r@ == trim_end_char(base_url@, '/') + path@,
{
    let v = chars_of(base_url);
    let mut n: usize = v.len();
    assert(v@.subrange(0, n as int) =~= v@);
    while n > 0 && v[n - 1] == '/'
        invariant
            n <= v@.len(),
            trim_end_char(v@.subrange(0, n as int), '/') == trim_end_char(v@, '/'),
        decreases n,
    {
        assert(v@.subrange(0, n as int).drop_last() =~= v@.subrange(0, n - 1));
        n = n - 1;
    }
    assert(trim_end_char(v@.subrange(0, n as int), '/') == v@.subrange(0, n as int));
    let mut out = string_from_range(&v, 0, n);
    string_push_str(&mut out, path);
    out
}

/// What one attempt sends upstream, but for its headers.
pub struct UpstreamRequest {
    pub url: String,
    pub body: Json,
    pub is_stream: bool,
}

/// Whether the client asked for a stream, read from its body and path.
pub open spec fn request_is_stream(client_format: ProviderFormat, client_path: Seq<char>, body: Seq<u8>) -> bool {
    is_stream_spec(client_format, client_path, request_json_spec(body))
}

/// The upstream body for a client body: converted to the provider's dialect
/// under its model name, and, for an OpenAI chat stream, with its usage
/// asked for.
pub open spec fn upstream_body_spec(
    client_format: ProviderFormat,
    provider: Provider,
    client_path: Seq<char>,
    body: Seq<u8>,
    model: Seq<char>,
) -> JsonView {
    let converted = convert_request_spec(
        client_format,
        provider.format,
        request_json_spec(body),
        remote_name_spec(provider, model),
    );
    if wants_usage_option(provider.format, request_is_stream(client_format, client_path, body), converted) {
        with_usage_option_spec(converted)
    } else {
        converted
    }
}

/// Prepare one attempt at a provider: the URL (the provider's base and the
/// path for its dialect), the converted body and whether it streams.
pub fn prepare_upstream(
    client_format: ProviderFormat,
    provider: &Provider,
    client_path: &str,
    body: &[u8],
    model: &str,
) -> (r: UpstreamRequest)
    ensures
        r.is_stream == request_is_stream(client_format, client_path@, body@),
        r.url@ == trim_end_char(provider.base_url@, '/') + target_path_spec(
            client_format,
            provider.format,
            remote_name_spec(*provider, model@),
            client_path@,
            r.is_stream,
        ),
        r.body.view() == upstream_body_spec(client_format, *provider, client_path@, body@, model@),
{
    let remote = remote_model_name(provider, model);
    let json = request_json(body);
    let converted = convert_request(client_format, provider.format, &json, remote.as_str());
    let is_stream = is_stream_request(client_format, client_path, &json);
    let path = target_path(client_format, provider.format, remote.as_str(), client_path, is_stream);
    let wants = provider.format == ProviderFormat::OpenAI && is_stream && is_chat_or_completions(&converted);
    let upstream = if wants {
        with_usage_option(converted)
    } else {
        converted
    };
    let url = upstream_url(provider.base_url.as_str(), path.as_str());
    UpstreamRequest { url, body: upstream, is_stream }
}

/// Name-value pairs, by value.
pub open spec fn header_views(s: Seq<(String, String)>) -> Seq<(Seq<char>, Seq<char>)> {
    s.map_values(|h: (String, String)| (h.0@, h.1@))
}

/// The client headers that travel upstream, in their order.
pub open spec fn forwarded_headers(s: Seq<(Seq<char>, Seq<char>)>) -> Seq<(Seq<char>, Seq<char>)>
    decreases s.len(),
{
    if s.len() == 0 {
        Seq::empty()
    } else {
        let rest = forwarded_headers(s.drop_last());
        if !dropped_headers().contains(lowercase(s.last().0)) {
            rest.push(s.last())
        } else {
            rest
        }
    }
}

fn push_header(out: &mut Vec<(String, String)>, name: &str, value: &str)
    ensures
        header_views(final(out)@) == header_views(old(out)@).push((name@, value@)),
{
    out.push((name.to_owned(), value.to_owned()));
    assert(header_views(out@) =~= header_views(old(out)@).push((name@, value@)));
}

/// The headers of one attempt, in order: the provider's authentication, the
/// client headers that travel, then the provider's own extra headers.
pub fn upstream_headers(
    auth: AuthScheme,
    key: &str,
    client: &Vec<(String, String)>,
    extra: &Vec<(String, String)>,
) -> (r: Vec<(String, String)>)
    ensures
        header_views(r@) == auth_headers_spec(auth, key@) + forwarded_headers(header_views(client@))
            + header_views(extra@),
{
    let mut out = auth_headers(auth, key);
    let ghost a = header_views(out@);
    let ghost cv = header_views(client@);
    let mut i: usize = 0;
    assert(cv.subrange(0, 0) =~= Seq::<(Seq<char>, Seq<char>)>::empty());
    assert(a + forwarded_headers(cv.subrange(0, 0)) =~= a);
    while i < client.len()
        invariant
            i <= client@.len(),
            cv == header_views(client@),
            a == auth_headers_spec(auth, key@),
            header_views(out@) == a + forwarded_headers(cv.subrange(0, i as int)),
        decreases client.len() - i,
    {
        let ghost before = header_views(out@);
        assert(cv.subrange(0, i as int + 1).drop_last() =~= cv.subrange(0, i as int));
        assert(cv[i as int] == (client@[i as int].0@, client@[i as int].1@));
        if is_passthrough_header(client[i].0.as_str()) {
            push_header(&mut out, client[i].0.as_str(), client[i].1.as_str());
            assert(header_views(out@) =~= a + forwarded_headers(cv.subrange(0, i as int + 1)));
        }
        i = i + 1;
    }
    assert(cv.subrange(0, cv.len() as int) =~= cv);
    let ghost mid = header_views(out@);
    let ghost ev = header_views(extra@);
    let mut j: usize = 0;
    assert(mid + ev.subrange(0, 0) =~= mid);
    while j < extra.len()
        invariant
            j <= extra@.len(),
            ev == header_views(extra@),
            header_views(out@) == mid + ev.subrange(0, j as int),
        decreases extra.len() - j,
    {
        push_header(&mut out, extra[j].0.as_str(), extra[j].1.as_str());
        assert(mid + ev.subrange(0, j as int + 1) =~= (mid + ev.subrange(0, j as int)).push(ev[j as int]));
        j = j + 1;
    }
    assert(ev.subrange(0, ev.len() as int) =~= ev);
    out
}

// ---------------------------------------------------------------------------
// The reply
// ---------------------------------------------------------------------------

/// Whether a response's content type announces an event stream; a response
/// without one (or with one that is not text) is read whole.
pub fn is_event_stream(content_type: Option<&str>) -> (b: bool)
    ensures
        b == match content_type {
            Some(t) => contains_seq(t@, "text/event-stream"@),
            None => false,
        },
{
    match content_type {
        Some(t) => {
            let s = chars_of(t);
            let n = chars_of("text/event-stream");
            contains_exec(&s, &n)
        },
        None => false,
    }
}

/// The JSON of a whole upstream reply, `{}` when it is not JSON.
pub open spec fn reply_json_spec(body: Seq<u8>) -> JsonView {
    match json_parse_bytes(body) {
        Some(v) => v,
        None => JsonView::Object(Seq::empty()),
    }
}

/// What the client receives for a whole upstream reply: for a 4xx or 5xx
/// status, the upstream message in the client's error shape (error bodies
/// are never converted as answers); otherwise the reply converted from the
/// provider's dialect to the client's.
pub open spec fn client_reply_spec(
    status: u16,
    client_format: ProviderFormat,
    provider_format: ProviderFormat,
    body: Seq<u8>,
) -> JsonView {
    if 400 <= status && status <= 599 {
        error_envelope_spec(client_format, status, error_message_spec(body))
    } else {
        convert_response_spec(provider_format, client_format, reply_json_spec(body))
    }
}

/// The body handed back to the client for a whole upstream reply.
pub fn client_reply(
    status: u16,
    client_format: ProviderFormat,
    provider_format: ProviderFormat,
    body: &[u8],
) -> (r: Json)
    ensures
        r.view() == client_reply_spec(status, client_format, provider_format, body@),
{
    if 400 <= status && status <= 599 {
        error_envelope(client_format, status, body)
    } else {
        let upstream = match parse_json_bytes(body) {
            Some(v) => v,
            None => {
                let empty: Vec<(String, Json)> = Vec::new();
                assert(member_views(empty@) =~= Seq::empty());
                Json::Object(empty)
            },
        };
        convert_response(provider_format, client_format, &upstream)
    }
}

// ---------------------------------------------------------------------------
// Retries and the fallback
// ---------------------------------------------------------------------------

/// How many times a request is sent to its primary provider at most.
pub const PRIMARY_ATTEMPTS: u64 = 3;

/// The pause before attempt `i` at the primary provider, in milliseconds:
/// none, then 200, then 500.
pub open spec fn backoff_spec(i: u64) -> u64 {
    if i == 0 {
        0
    } else if i == 1 {
        200
    } else {
        500
    }
}

/// The pause before attempt `i` at the primary provider.
pub fn backoff_ms(i: u64) -> (r: u64)
    requires
        i < PRIMARY_ATTEMPTS,
    ensures
        r == backoff_spec(i),
{
    if i == 0 {
        0
    } else if i == 1 {
        200
    } else {
        500
    }
}

/// What the forwarder does next.
#[derive(Clone, Copy, Debug, PartialEq, Eq, Structural)]
pub enum ForwardStep {
    /// Wait `delay_ms`, then send the request to the primary provider.
    Attempt { delay_ms: u64 },
    /// Send the request once to a fallback provider, if one is found.
    Fallback,
    /// Hand back the kept answer, from the fallback provider or the primary.
    Finish { from_fallback: bool },
    /// No answer came: the request fails with a bad-gateway error.
    Fail,
}

/// The progress of one forwarded request: the attempts made at the primary
/// provider, the answer kept so far (its status), whether it came from the
/// fallback, and whether the fallback was tried.
#[derive(Clone, Copy, Debug, PartialEq, Eq, Structural)]
pub struct ForwardPlan {
    pub attempts: u64,
    pub kept: Option<u16>,
    pub kept_from_fallback: bool,
    pub fallback_tried: bool,
}

/// A status worth trying again or elsewhere: 5xx or 429.
pub open spec fn retryable(status: u16) -> bool {
    (500 <= status && status <= 599) || status == 429
}

/// Whether the kept answer still calls for another try: there is none, or
/// it is retryable.
pub open spec fn unsettled(kept: Option<u16>) -> bool {
    match kept {
        Some(s) => retryable(s),
        None => true,
    }
}

impl ForwardPlan {
    /// A plan can only come from these steps: at most three primary
    /// attempts, and an answer from the fallback only once it was tried.
    pub open spec fn wf(self) -> bool {
        &&& self.attempts <= PRIMARY_ATTEMPTS
        &&& self.kept_from_fallback ==> self.fallback_tried && self.kept is Some
    }

    /// The next step of a plan.
    pub open spec fn next_spec(self) -> ForwardStep {
        if !self.fallback_tried && self.attempts < PRIMARY_ATTEMPTS && unsettled(self.kept) {
            ForwardStep::Attempt { delay_ms: backoff_spec(self.attempts) }
        } else if !self.fallback_tried && unsettled(self.kept) {
            ForwardStep::Fallback
        } else {
            match self.kept {
                Some(_) => ForwardStep::Finish { from_fallback: self.kept_from_fallback },
                None => ForwardStep::Fail,
            }
        }
    }

    /// The plan after an attempt at the primary provider: an answer (its
    /// status) replaces the kept one; a failure to connect keeps it.
    pub open spec fn after_attempt(self, outcome: Option<u16>) -> ForwardPlan {
        ForwardPlan {
            attempts: (self.attempts + 1) as u64,
            kept: match outcome {
                Some(s) => Some(s),
                None => self.kept,
            },
            ..self
        }
    }

    /// The plan after the fallback step: an answer from the fallback replaces
    /// the kept one; without a fallback provider, its key, or an answer, the
    /// kept one stays.
    pub open spec fn after_fallback(self, outcome: Option<u16>) -> ForwardPlan {
        match outcome {
            Some(s) => ForwardPlan { kept: Some(s), kept_from_fallback: true, fallback_tried: true, ..self },
            None => ForwardPlan { fallback_tried: true, ..self },
        }
    }

    /// A request not yet sent.
    pub fn new() -> (p: Self)
        ensures
            p == (ForwardPlan { attempts: 0, kept: None, kept_from_fallback: false, fallback_tried: false }),
            p.wf(),
    {
        ForwardPlan { attempts: 0, kept: None, kept_from_fallback: false, fallback_tried: false }
    }

    /// What to do next.
    pub fn next(&self) -> (r: ForwardStep)
        ensures
            r == self.next_spec(),
    {
        let unsettled = match self.kept {
            Some(s) => is_retryable_status(s),
            None => true,
        };
        if !self.fallback_tried && self.attempts < PRIMARY_ATTEMPTS && unsettled {
            ForwardStep::Attempt { delay_ms: backoff_ms(self.attempts) }
        } else if !self.fallback_tried && unsettled {
            ForwardStep::Fallback
        } else {
            match self.kept {
                Some(_) => ForwardStep::Finish { from_fallback: self.kept_from_fallback },
                None => ForwardStep::Fail,
            }
        }
    }

    /// Record the outcome of an attempt at the primary provider.
    pub fn record_attempt(&mut self, outcome: Option<u16>)
        requires
            old(self).wf(),
            old(self).next_spec() is Attempt,
        ensures
            *final(self) == old(self).after_attempt(outcome),
            final(self).wf(),
    {
        self.attempts = self.attempts + 1;
        if let Some(s) = outcome {
            self.kept = Some(s);
        }
    }

    /// Record the outcome of the fallback step.
    pub fn record_fallback(&mut self, outcome: Option<u16>)
        requires
            old(self).wf(),
            old(self).next_spec() is Fallback,
        ensures
            *final(self) == old(self).after_fallback(outcome),
            final(self).wf(),
    {
        self.fallback_tried = true;
        if let Some(s) = outcome {
            self.kept = Some(s);
            self.kept_from_fallback = true;
        }
    }
}

// ---------------------------------------------------------------------------
// Settling a streamed reply
// ---------------------------------------------------------------------------

/// What happens while a streamed reply is pumped to the client.
#[derive(Clone, Copy, Debug, PartialEq, Eq, Structural)]
pub enum PumpEvent {
    /// A converted chunk reached the client.
    Delivered,
    /// The client went away: a chunk could not be handed on.
    ClientGone,
    /// The upstream stream failed.
    UpstreamFailed,
    /// The upstream stream ended and its tail was handed on.
    UpstreamEnded,
}

/// Whether an event ends the pump.
pub open spec fn ends_pump(e: PumpEvent) -> bool {
    e != PumpEvent::Delivered
}

/// The pump of one streamed reply. Its request keeps its reservations while
/// chunks flow (the reply started at the first byte), and settles once, when
/// the pump ends: the upstream ended or failed, or the client went away.
#[derive(Clone, Copy, Debug, PartialEq, Eq, Structural)]
pub struct StreamPump {
    pub ended: bool,
}

impl StreamPump {
    /// A pump that has not started.
    pub fn new() -> (p: Self)
        ensures
            !p.ended,
    {
        StreamPump { ended: false }
    }

    /// Take an event; returns whether the request settles now.
    pub fn on_event(&mut self, e: PumpEvent) -> (settle: bool)
        ensures
            settle == (!old(self).ended && ends_pump(e)),
            final(self).ended == (old(self).ended || ends_pump(e)),
    {
        let ends = match e {
            PumpEvent::Delivered => false,
            _ => true,
        };
        let settle = !self.ended && ends;
        if ends {
            self.ended = true;
        }
        settle
    }
}

} // verus!
