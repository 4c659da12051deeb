use tokenguard::config::{AuthScheme, ModelMapping, Provider, ProviderFormat};
use tokenguard::json::{Json, JsonNumber};
use tokenguard::proxy::forwarder::{
    backoff_ms, client_reply, is_event_stream, prepare_upstream, request_json, upstream_headers, upstream_url,
    with_usage_option, ForwardPlan, ForwardStep, PumpEvent, StreamPump,
};

fn to_json(v: serde_json::Value) -> Json {
    match v {
        serde_json::Value::Null => Json::Null,
        serde_json::Value::Bool(b) => Json::Bool(b),
        serde_json::Value::Number(n) => Json::Number(match (n.as_u64(), n.as_i64()) {
            (Some(u), _) => JsonNumber::PosInt(u),
            (None, Some(i)) => JsonNumber::NegInt(i),
            (None, None) => JsonNumber::Float(n.to_string()),
        }),
        serde_json::Value::String(s) => Json::Str(s),
        serde_json::Value::Array(a) => Json::Array(a.into_iter().map(to_json).collect()),
        serde_json::Value::Object(m) => Json::Object(m.into_iter().map(|(k, x)| (k, to_json(x))).collect()),
    }
}

fn j(text: &str) -> Json {
    to_json(serde_json::from_str(text).unwrap())
}

fn at<'a>(v: &'a Json, key: &str) -> &'a Json {
    v.get(key).unwrap_or_else(|| panic!("missing {key}"))
}

fn text(v: &Json) -> &str {
    v.as_str().unwrap()
}

fn provider(format: ProviderFormat, auth: AuthScheme, base_url: &str) -> Provider {
    Provider {
        id: 1,
        name: "p".to_string(),
        base_url: base_url.to_string(),
        format,
        auth,
        models: vec![ModelMapping {
            local: "fast".to_string(),
            remote: "gpt-4o-mini".to_string(),
            input_cost_per_1k: None,
            output_cost_per_1k: None,
            cached_input_cost_per_1k: None,
        }],
        is_default: true,
        fallback_provider_id: None,
        extra_headers: vec![("X-Team".to_string(), "core".to_string())],
    }
}

fn pairs(v: &[(&str, &str)]) -> Vec<(String, String)> {
    v.iter().map(|(a, b)| (a.to_string(), b.to_string())).collect()
}

#[test]
fn request_json_reads_empty_and_broken_bodies_as_empty_objects() {
    assert!(matches!(request_json(b""), Json::Object(m) if m.is_empty()));
    assert!(matches!(request_json(b"{not json"), Json::Object(m) if m.is_empty()));
    let v = request_json(br#"{"model":"m"}"#);
    assert_eq!(text(at(&v, "model")), "m");
}

#[test]
fn usage_option_keeps_other_stream_options() {
    let v = with_usage_option(j(r#"{"model":"m","stream_options":{"x":1}}"#));
    let opts = at(&v, "stream_options");
    assert!(matches!(at(opts, "x"), Json::Number(JsonNumber::PosInt(1))));
    assert!(matches!(at(opts, "include_usage"), Json::Bool(true)));
    let w = with_usage_option(j(r#"{"model":"m"}"#));
    assert!(matches!(at(at(&w, "stream_options"), "include_usage"), Json::Bool(true)));
}

#[test]
fn upstream_url_drops_trailing_slashes() {
    assert_eq!(upstream_url("https://api.example.com//", "/v1/chat/completions"), "https://api.example.com/v1/chat/completions");
    assert_eq!(upstream_url("https://api.example.com", "/v1/messages"), "https://api.example.com/v1/messages");
}

#[test]
fn openai_stream_asks_for_usage_under_the_remote_model() {
    let p = provider(ProviderFormat::OpenAI, AuthScheme::Bearer, "https://api.openai.com/");
    let body = br#"{"model":"fast","stream":true,"messages":[{"role":"user","content":"hi"}]}"#;
    let r = prepare_upstream(ProviderFormat::OpenAI, &p, "/v1/chat/completions", body, "fast");
    assert!(r.is_stream);
    assert_eq!(r.url, "https://api.openai.com/v1/chat/completions");
    assert_eq!(text(at(&r.body, "model")), "gpt-4o-mini");
    assert!(matches!(at(at(&r.body, "stream_options"), "include_usage"), Json::Bool(true)));
}

#[test]
fn non_stream_request_is_not_asked_for_usage() {
    let p = provider(ProviderFormat::OpenAI, AuthScheme::Bearer, "https://api.openai.com");
    let body = br#"{"model":"fast","messages":[{"role":"user","content":"hi"}]}"#;
    let r = prepare_upstream(ProviderFormat::OpenAI, &p, "/v1/chat/completions", body, "fast");
    assert!(!r.is_stream);
    assert!(r.body.get("stream_options").is_none());
}

#[test]
fn openai_client_to_anthropic_provider_goes_to_messages() {
    let p = provider(ProviderFormat::Anthropic, AuthScheme::XApiKey, "https://api.anthropic.com");
    let body = br#"{"model":"fast","max_tokens":10,"messages":[{"role":"user","content":"hi"}]}"#;
    let r = prepare_upstream(ProviderFormat::OpenAI, &p, "/v1/chat/completions", body, "fast");
    assert_eq!(r.url, "https://api.anthropic.com/v1/messages");
    assert_eq!(text(at(&r.body, "model")), "gpt-4o-mini");
    assert!(r.body.get("stream_options").is_none());
}

#[test]
fn upstream_headers_put_auth_first_and_drop_client_credentials() {
    let client = pairs(&[("Host", "localhost"), ("X-Custom", "1"), ("Authorization", "Bearer tg_key"), ("Accept", "*/*")]);
    let extra = pairs(&[("X-Team", "core")]);
    let r = upstream_headers(AuthScheme::Bearer, "sk-1", &client, &extra);
    assert_eq!(
        r,
        pairs(&[("authorization", "Bearer sk-1"), ("X-Custom", "1"), ("Accept", "*/*"), ("X-Team", "core")])
    );
}

#[test]
fn anthropic_headers_carry_the_api_version() {
    let r = upstream_headers(AuthScheme::XApiKey, "k", &Vec::new(), &Vec::new());
    assert_eq!(r, pairs(&[("x-api-key", "k"), ("anthropic-version", "2023-06-01")]));
}

#[test]
fn event_stream_is_read_from_the_content_type() {
    assert!(is_event_stream(Some("text/event-stream; charset=utf-8")));
    assert!(!is_event_stream(Some("application/json")));
    assert!(!is_event_stream(None));
}

#[test]
fn upstream_error_is_reenveloped_not_converted() {
    let r = client_reply(500, ProviderFormat::Anthropic, ProviderFormat::OpenAI, br#"{"error":{"message":"boom"}}"#);
    assert_eq!(text(at(&r, "type")), "error");
    assert_eq!(text(at(at(&r, "error"), "message")), "boom");
    let g = client_reply(429, ProviderFormat::OpenAI, ProviderFormat::Google, b"slow down");
    assert_eq!(text(at(at(&g, "error"), "message")), "slow down");
    assert!(matches!(at(at(&g, "error"), "code"), Json::Number(JsonNumber::PosInt(429))));
}

#[test]
fn successful_reply_is_converted_to_the_client_dialect() {
    let body = br#"{"id":"msg_1","model":"m","content":[{"type":"text","text":"Hello"}],"stop_reason":"end_turn","usage":{"input_tokens":3,"output_tokens":2}}"#;
    let r = client_reply(200, ProviderFormat::OpenAI, ProviderFormat::Anthropic, body);
    assert!(matches!(at(at(&r, "usage"), "prompt_tokens"), Json::Number(JsonNumber::PosInt(3))));
    let choice = &r.get("choices").unwrap().as_array().unwrap()[0];
    assert_eq!(text(at(at(choice, "message"), "content")), "Hello");
    assert_eq!(text(at(choice, "finish_reason")), "stop");
}

#[test]
fn backoff_schedule() {
    assert_eq!((backoff_ms(0), backoff_ms(1), backoff_ms(2)), (0, 200, 500));
}

#[test]
fn first_good_answer_is_handed_back() {
    let mut p = ForwardPlan::new();
    assert_eq!(p.next(), ForwardStep::Attempt { delay_ms: 0 });
    p.record_attempt(Some(200));
    assert_eq!(p.next(), ForwardStep::Finish { from_fallback: false });
}

#[test]
fn client_error_is_not_retried() {
    let mut p = ForwardPlan::new();
    p.record_attempt(Some(400));
    assert_eq!(p.next(), ForwardStep::Finish { from_fallback: false });
}

#[test]
fn server_errors_retry_then_fall_back() {
    let mut p = ForwardPlan::new();
    p.record_attempt(Some(502));
    assert_eq!(p.next(), ForwardStep::Attempt { delay_ms: 200 });
    p.record_attempt(Some(503));
    assert_eq!(p.next(), ForwardStep::Attempt { delay_ms: 500 });
    p.record_attempt(Some(500));
    assert_eq!(p.next(), ForwardStep::Fallback);
    p.record_fallback(Some(200));
    assert_eq!(p.next(), ForwardStep::Finish { from_fallback: true });
}

#[test]
fn network_failures_without_fallback_fail() {
    let mut p = ForwardPlan::new();
    p.record_attempt(None);
    p.record_attempt(None);
    p.record_attempt(None);
    assert_eq!(p.next(), ForwardStep::Fallback);
    p.record_fallback(None);
    assert_eq!(p.next(), ForwardStep::Fail);
}

#[test]
fn last_retryable_answer_is_kept_when_fallback_fails() {
    let mut p = ForwardPlan::new();
    p.record_attempt(Some(429));
    p.record_attempt(None);
    p.record_attempt(None);
    assert_eq!(p.next(), ForwardStep::Fallback);
    p.record_fallback(None);
    assert_eq!(p.next(), ForwardStep::Finish { from_fallback: false });
    assert_eq!(p.kept, Some(429));
}

#[test]
fn streamed_reply_settles_once_after_the_upstream_ends() {
    let mut p = StreamPump::new();
    assert!(!p.on_event(PumpEvent::Delivered));
    assert!(!p.on_event(PumpEvent::Delivered));
    assert!(p.on_event(PumpEvent::UpstreamEnded));
    assert!(!p.on_event(PumpEvent::ClientGone));
    let mut q = StreamPump::new();
    assert!(q.on_event(PumpEvent::ClientGone));
    assert!(!q.on_event(PumpEvent::UpstreamEnded));
}
