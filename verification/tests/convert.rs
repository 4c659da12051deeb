use tokenguard::config::ProviderFormat;
use tokenguard::json::{Json, JsonNumber};
use tokenguard::proxy::content::convert_message_content;
use tokenguard::proxy::convert::{convert_request, error_envelope, is_stream_request};

fn to_json(v: serde_json::Value) -> Json {
    match v {
        serde_json::Value::Null => Json::Null,
        serde_json::Value::Bool(b) => Json::Bool(b),
        serde_json::Value::Number(n) => Json::Number(match (n.as_u64(), n.as_i64()) {
            (Some(u), _) => JsonNumber::PosInt(u),
            (None, Some(i)) => JsonNumber::NegInt(i),
            (None, None) => JsonNumber::Float(n.to_string()),
        }),
        serde_json::Value::String(s) => Json::Str(s),
        serde_json::Value::Array(a) => Json::Array(a.into_iter().map(to_json).collect()),
        serde_json::Value::Object(m) => Json::Object(m.into_iter().map(|(k, x)| (k, to_json(x))).collect()),
    }
}

fn j(text: &str) -> Json {
    to_json(serde_json::from_str(text).unwrap())
}

fn at<'a>(v: &'a Json, key: &str) -> &'a Json {
    v.get(key).unwrap_or_else(|| panic!("missing {key}"))
}

fn idx(v: &Json, i: usize) -> &Json {
    &v.as_array().unwrap()[i]
}

fn text(v: &Json) -> &str {
    v.as_str().unwrap()
}

fn openai_body() -> Json {
    j(r#"{"model": "gpt-4o", "messages": [{"role": "system", "content": "You are a helpful assistant."}, {"role": "user", "content": "Hello"}], "max_tokens": 100, "temperature": 0.5}"#)
}

fn anthropic_body() -> Json {
    j(r#"{"model": "sonnet-4", "system": "You are a helpful assistant.", "messages": [{"role": "user", "content": "Hello"}], "max_tokens": 100, "temperature": 0.5}"#)
}

fn google_body() -> Json {
    j(r#"{"contents": [{"role": "user", "parts": [{"text": "Hello"}]}], "systemInstruction": {"parts": [{"text": "You are a helpful assistant."}]}, "generationConfig": {"maxOutputTokens": 100, "temperature": 0.5}}"#)
}

fn responses_body() -> Json {
    j(r#"{"model": "gpt-5.4", "input": [{"type": "message", "role": "system", "content": "You are a helpful assistant."}, {"type": "message", "role": "user", "content": "Hello"}], "max_output_tokens": 100, "temperature": 0.5}"#)
}

#[test]
fn openai_to_anthropic_request_round_trip() {
    let out = convert_request(ProviderFormat::OpenAI, ProviderFormat::Anthropic, &openai_body(), "sonnet-4");
    assert_eq!(text(at(&out, "model")), "sonnet-4");
    assert_eq!(text(at(&out, "system")), "You are a helpful assistant.");
    assert_eq!(at(&out, "messages").as_array().unwrap().len(), 1);
    assert_eq!(at(&out, "max_tokens").as_u64(), Some(100));
}

#[test]
fn anthropic_to_openai_request_round_trip() {
    let out = convert_request(ProviderFormat::Anthropic, ProviderFormat::OpenAI, &anthropic_body(), "gpt-4o");
    assert_eq!(text(at(&out, "model")), "gpt-4o");
    let msgs = at(&out, "messages");
    assert_eq!(msgs.as_array().unwrap().len(), 2);
    assert_eq!(text(at(idx(msgs, 0), "role")), "system");
    assert_eq!(text(at(idx(msgs, 1), "role")), "user");
}

#[test]
fn openai_to_google_request() {
    let out = convert_request(ProviderFormat::OpenAI, ProviderFormat::Google, &openai_body(), "gemini-1.5-pro");
    assert!(out.get("model").is_none());
    let si = at(&out, "systemInstruction");
    assert_eq!(text(at(idx(at(si, "parts"), 0), "text")), "You are a helpful assistant.");
    assert_eq!(at(&out, "contents").as_array().unwrap().len(), 1);
    assert_eq!(at(at(&out, "generationConfig"), "maxOutputTokens").as_u64(), Some(100));
}

#[test]
fn google_to_openai_request() {
    let out = convert_request(ProviderFormat::Google, ProviderFormat::OpenAI, &google_body(), "gpt-4o");
    assert_eq!(text(at(&out, "model")), "gpt-4o");
    assert_eq!(at(&out, "messages").as_array().unwrap().len(), 2);
    assert_eq!(at(&out, "max_tokens").as_u64(), Some(100));
}

#[test]
fn openai_image_to_anthropic() {
    let body = j(r#"{"model": "m", "messages": [{"role": "user", "content": [{"type": "text", "text": "What is this?"}, {"type": "image_url", "image_url": {"url": "data:image/png;base64,ABC"}}]}]}"#);
    let out = convert_request(ProviderFormat::OpenAI, ProviderFormat::Anthropic, &body, "m");
    let content = at(idx(at(&out, "messages"), 0), "content");
    assert_eq!(text(at(idx(content, 0), "type")), "text");
    assert_eq!(text(at(idx(content, 1), "type")), "image");
    let source = at(idx(content, 1), "source");
    assert_eq!(text(at(source, "type")), "base64");
    assert_eq!(text(at(source, "data")), "ABC");
    assert_eq!(text(at(source, "media_type")), "image/png");
}

#[test]
fn anthropic_image_to_openai() {
    let body = j(r#"{"model": "gpt-4o", "messages": [{"role": "user", "content": [{"type": "text", "text": "What is this?"}, {"type": "image", "source": {"type": "base64", "media_type": "image/png", "data": "XYZ"}}]}]}"#);
    let out = convert_request(ProviderFormat::Anthropic, ProviderFormat::OpenAI, &body, "gpt-4o");
    let content = at(idx(at(&out, "messages"), 0), "content");
    assert_eq!(text(at(idx(content, 0), "type")), "text");
    assert_eq!(text(at(idx(content, 1), "type")), "image_url");
    assert_eq!(text(at(at(idx(content, 1), "image_url"), "url")), "data:image/png;base64,XYZ");
}

#[test]
fn openai_tool_result_to_anthropic() {
    let body = j(r#"{"model": "m", "messages": [{"role": "assistant", "content": "ok", "tool_calls": [{"id": "call_1", "type": "function", "function": {"name": "get_weather", "arguments": "{}"}}]}, {"role": "tool", "tool_call_id": "call_1", "content": "{\"temperature\": 72}"}]}"#);
    let out = convert_request(ProviderFormat::OpenAI, ProviderFormat::Anthropic, &body, "m");
    let tool_result = idx(at(idx(at(&out, "messages"), 1), "content"), 0);
    assert_eq!(text(at(tool_result, "type")), "tool_result");
    assert_eq!(text(at(tool_result, "tool_use_id")), "call_1");
    assert_eq!(text(at(tool_result, "content")), "{\"temperature\": 72}");
}

#[test]
fn anthropic_tool_result_to_openai() {
    let body = j(r#"{"model": "gpt-4o", "messages": [{"role": "assistant", "content": [{"type": "text", "text": "ok"}, {"type": "tool_use", "id": "tu_1", "name": "get_weather", "input": {}}]}, {"role": "user", "content": [{"type": "tool_result", "tool_use_id": "tu_1", "content": "sunny"}]}]}"#);
    let out = convert_request(ProviderFormat::Anthropic, ProviderFormat::OpenAI, &body, "gpt-4o");
    let tool_msg = idx(at(&out, "messages"), 1);
    assert_eq!(text(at(tool_msg, "role")), "tool");
    assert_eq!(text(at(tool_msg, "tool_call_id")), "tu_1");
    assert_eq!(text(at(tool_msg, "content")), "sunny");
}

#[test]
fn stream_detection() {
    let empty = j("{}");
    assert!(is_stream_request(ProviderFormat::OpenAI, "/v1/chat/completions", &j(r#"{"stream": true}"#)));
    assert!(!is_stream_request(ProviderFormat::OpenAI, "/v1/chat/completions", &empty));
    assert!(is_stream_request(ProviderFormat::Google, "/v1beta/models/g:streamGenerateContent", &empty));
    assert!(is_stream_request(ProviderFormat::Google, "/v1beta/models/g:generateContent?alt=sse", &empty));
    assert!(!is_stream_request(ProviderFormat::Google, "/v1beta/models/g:generateContent?alt=json", &empty));
    assert!(!is_stream_request(ProviderFormat::Google, "/v1beta/models/g:generateContent", &empty));
}

#[test]
fn stream_detection_responses() {
    assert!(is_stream_request(ProviderFormat::Responses, "/v1/responses", &j(r#"{"stream": true}"#)));
    assert!(!is_stream_request(ProviderFormat::Responses, "/v1/responses", &j("{}")));
}

#[test]
fn error_envelopes() {
    let anthropic_err = br#"{"type":"error","error":{"type":"rate_limit_error","message":"slow down"}}"#;
    let out = error_envelope(ProviderFormat::OpenAI, 429, anthropic_err);
    let e = at(&out, "error");
    assert_eq!(text(at(e, "message")), "slow down");
    assert_eq!(text(at(e, "type")), "upstream_error");
    assert_eq!(at(e, "code").as_u64(), Some(429));

    let out = error_envelope(ProviderFormat::Anthropic, 500, anthropic_err);
    assert_eq!(text(at(&out, "type")), "error");
    assert_eq!(text(at(at(&out, "error"), "type")), "api_error");
    assert_eq!(text(at(at(&out, "error"), "message")), "slow down");

    let google_err = br#"{"error":{"code":429,"message":"quota","status":"RESOURCE_EXHAUSTED"}}"#;
    let out = error_envelope(ProviderFormat::Google, 429, google_err);
    let e = at(&out, "error");
    assert_eq!(text(at(e, "message")), "quota");
    assert_eq!(at(e, "code").as_u64(), Some(429));
    assert_eq!(text(at(e, "status")), "UNKNOWN");
}

#[test]
fn error_envelope_unparseable_truncates() {
    let body = vec![b'x'; 1000];
    let out = error_envelope(ProviderFormat::OpenAI, 502, &body);
    assert_eq!(text(at(at(&out, "error"), "message")).len(), 500);
}

#[test]
fn error_envelope_responses() {
    let out = error_envelope(ProviderFormat::Responses, 429, br#"{"error":{"message":"rate limit"}}"#);
    assert_eq!(text(at(at(&out, "error"), "message")), "rate limit");
    assert_eq!(at(at(&out, "error"), "code").as_u64(), Some(429));
}

#[test]
fn google_parallel_tool_calls_get_unique_ids() {
    let body = j(r#"{"contents": [
        {"role": "model", "parts": [
            {"functionCall": {"name": "get_weather", "args": {"city": "Paris"}}},
            {"functionCall": {"name": "get_weather", "args": {"city": "London"}}}]},
        {"role": "user", "parts": [
            {"functionResponse": {"name": "get_weather", "response": {"temp": 20}}},
            {"functionResponse": {"name": "get_weather", "response": {"temp": 15}}}]}]}"#);
    let out = convert_request(ProviderFormat::Google, ProviderFormat::OpenAI, &body, "gpt-4o");
    let msgs = at(&out, "messages");
    let tcs = at(idx(msgs, 0), "tool_calls");
    assert_eq!(text(at(idx(tcs, 0), "id")), "call_get_weather_0");
    assert_eq!(text(at(idx(tcs, 1), "id")), "call_get_weather_1");
    assert_eq!(text(at(idx(tcs, 0), "function").get("arguments").unwrap()), "{\"city\":\"Paris\"}");
    assert_eq!(text(at(idx(msgs, 1), "tool_call_id")), "call_get_weather_0");
    assert_eq!(text(at(idx(msgs, 2), "tool_call_id")), "call_get_weather_1");
    assert_eq!(text(at(idx(msgs, 2), "content")), "{\"temp\":15}");
}

#[test]
fn responses_to_openai_request_round_trip() {
    let out = convert_request(ProviderFormat::Responses, ProviderFormat::OpenAI, &responses_body(), "gpt-5.4");
    assert_eq!(text(at(&out, "model")), "gpt-5.4");
    let msgs = at(&out, "messages");
    assert_eq!(msgs.as_array().unwrap().len(), 2);
    assert_eq!(text(at(idx(msgs, 0), "role")), "system");
    assert_eq!(text(at(idx(msgs, 1), "content")), "Hello");
    assert_eq!(at(&out, "max_tokens").as_u64(), Some(100));
}

#[test]
fn responses_string_input_becomes_user_message() {
    let body = j(r#"{"model": "gpt-5.4", "input": "Hello", "instructions": "Be brief."}"#);
    let out = convert_request(ProviderFormat::Responses, ProviderFormat::OpenAI, &body, "gpt-4o");
    let msgs = at(&out, "messages");
    assert_eq!(msgs.as_array().unwrap().len(), 2);
    assert_eq!(text(at(idx(msgs, 0), "role")), "system");
    assert_eq!(text(at(idx(msgs, 0), "content")), "Be brief.");
    assert_eq!(text(at(idx(msgs, 1), "role")), "user");
    assert_eq!(text(at(idx(msgs, 1), "content")), "Hello");
}

#[test]
fn responses_function_call_output_to_openai_tool_message() {
    let body = j(r#"{"model": "gpt-5.4", "input": [{"type": "function_call_output", "call_id": "call_1", "output": "sunny"}]}"#);
    let out = convert_request(ProviderFormat::Responses, ProviderFormat::OpenAI, &body, "gpt-4o");
    let msgs = at(&out, "messages");
    assert_eq!(msgs.as_array().unwrap().len(), 1);
    assert_eq!(text(at(idx(msgs, 0), "role")), "tool");
    assert_eq!(text(at(idx(msgs, 0), "tool_call_id")), "call_1");
    assert_eq!(text(at(idx(msgs, 0), "content")), "sunny");
}

#[test]
fn openai_to_responses_request_round_trip() {
    let out = convert_request(ProviderFormat::OpenAI, ProviderFormat::Responses, &openai_body(), "gpt-5.4");
    assert_eq!(text(at(&out, "model")), "gpt-5.4");
    let input = at(&out, "input");
    assert_eq!(input.as_array().unwrap().len(), 2);
    assert_eq!(text(at(idx(input, 0), "type")), "message");
    assert_eq!(text(at(idx(input, 0), "role")), "system");
    assert_eq!(text(at(idx(input, 1), "role")), "user");
    assert_eq!(at(&out, "max_output_tokens").as_u64(), Some(100));
}

#[test]
fn responses_to_google_request_round_trip() {
    let out = convert_request(ProviderFormat::Responses, ProviderFormat::Google, &responses_body(), "gemini");
    assert_eq!(text(at(idx(at(at(&out, "systemInstruction"), "parts"), 0), "text")), "You are a helpful assistant.");
    assert_eq!(at(&out, "contents").as_array().unwrap().len(), 1);
}

#[test]
fn same_dialect_only_sets_the_model() {
    let out = convert_request(ProviderFormat::OpenAI, ProviderFormat::OpenAI, &openai_body(), "remote-4o");
    assert_eq!(text(at(&out, "model")), "remote-4o");
    assert_eq!(at(&out, "messages").as_array().unwrap().len(), 2);
    let g = convert_request(ProviderFormat::Google, ProviderFormat::Google, &google_body(), "remote");
    assert!(g.get("model").is_none());
}

#[test]
fn temperature_is_carried_as_a_float() {
    let out = convert_request(ProviderFormat::Google, ProviderFormat::OpenAI, &j(r#"{"generationConfig": {"temperature": 1}}"#), "m");
    match at(&out, "temperature") {
        Json::Number(JsonNumber::Float(t)) => assert_eq!(t, "1.0"),
        other => panic!("not a float: {:?}", other.as_u64()),
    }
}

#[test]
fn text_content_stays_a_string_across_dialects() {
    let c = Json::Str("hi".to_string());
    for (from, to) in [
        (ProviderFormat::OpenAI, ProviderFormat::Anthropic),
        (ProviderFormat::Anthropic, ProviderFormat::Responses),
        (ProviderFormat::Responses, ProviderFormat::OpenAI),
    ] {
        assert_eq!(convert_message_content(&c, from, to).as_str(), Some("hi"));
    }
    let g = convert_message_content(&c, ProviderFormat::OpenAI, ProviderFormat::Google);
    assert_eq!(text(at(idx(&g, 0), "text")), "hi");
}
