use tokenguard::config::ProviderFormat;
use tokenguard::json::{Json, JsonNumber};
use tokenguard::proxy::convert::convert_request;
use tokenguard::proxy::reply::{convert_response, convert_sse_data};

fn to_json(v: serde_json::Value) -> Json {
    match v {
        serde_json::Value::Null => Json::Null,
        serde_json::Value::Bool(b) => Json::Bool(b),
        serde_json::Value::Number(n) => Json::Number(match (n.as_u64(), n.as_i64()) {
            (Some(u), _) => JsonNumber::PosInt(u),
            (None, Some(i)) => JsonNumber::NegInt(i),
            (None, None) => JsonNumber::Float(n.to_string()),
        }),
        serde_json::Value::String(s) => Json::Str(s),
        serde_json::Value::Array(a) => Json::Array(a.into_iter().map(to_json).collect()),
        serde_json::Value::Object(m) => Json::Object(m.into_iter().map(|(k, x)| (k, to_json(x))).collect()),
    }
}

fn j(text: &str) -> Json {
    to_json(serde_json::from_str(text).unwrap())
}

fn at<'a>(v: &'a Json, key: &str) -> &'a Json {
    v.get(key).unwrap_or_else(|| panic!("missing {key}"))
}

fn idx(v: &Json, i: usize) -> &Json {
    &v.as_array().unwrap()[i]
}

fn text(v: &Json) -> &str {
    v.as_str().unwrap()
}

fn same(a: &Json, b: &Json) -> bool {
    match (a, b) {
        (Json::Null, Json::Null) => true,
        (Json::Bool(x), Json::Bool(y)) => x == y,
        (Json::Number(JsonNumber::PosInt(x)), Json::Number(JsonNumber::PosInt(y))) => x == y,
        (Json::Number(JsonNumber::NegInt(x)), Json::Number(JsonNumber::NegInt(y))) => x == y,
        (Json::Number(JsonNumber::Float(x)), Json::Number(JsonNumber::Float(y))) => x == y,
        (Json::Str(x), Json::Str(y)) => x == y,
        (Json::Array(x), Json::Array(y)) => x.len() == y.len() && x.iter().zip(y.iter()).all(|(p, q)| same(p, q)),
        (Json::Object(x), Json::Object(y)) => {
            x.len() == y.len() && x.iter().zip(y.iter()).all(|(p, q)| p.0 == q.0 && same(&p.1, &q.1))
        },
        _ => false,
    }
}

fn anthropic_body() -> Json {
    j(r#"{"model": "sonnet-4", "system": "You are a helpful assistant.", "messages": [{"role": "user", "content": "Hello"}], "max_tokens": 100, "temperature": 0.5}"#)
}

fn google_body() -> Json {
    j(r#"{"contents": [{"role": "user", "parts": [{"text": "Hello"}]}], "systemInstruction": {"parts": [{"text": "You are a helpful assistant."}]}, "generationConfig": {"maxOutputTokens": 100, "temperature": 0.5}}"#)
}

fn responses_body() -> Json {
    j(r#"{"model": "gpt-5.4", "input": [{"type": "message", "role": "system", "content": "You are a helpful assistant."}, {"type": "message", "role": "user", "content": "Hello"}], "max_output_tokens": 100, "temperature": 0.5}"#)
}

#[test]
fn openai_to_anthropic_response() {
    let body = j(r#"{"choices": [{"message": {"role": "assistant", "content": "Hi"}, "finish_reason": "stop"}], "usage": {"prompt_tokens": 10, "completion_tokens": 5, "total_tokens": 15}}"#);
    let out = convert_response(ProviderFormat::OpenAI, ProviderFormat::Anthropic, &body);
    assert_eq!(text(at(idx(at(&out, "content"), 0), "text")), "Hi");
    assert_eq!(text(at(&out, "stop_reason")), "end_turn");
    assert_eq!(at(at(&out, "usage"), "input_tokens").as_u64(), Some(10));
}

#[test]
fn anthropic_to_openai_response() {
    let body = j(r#"{"content": [{"type": "text", "text": "Hi"}], "stop_reason": "end_turn", "usage": {"input_tokens": 10, "output_tokens": 5}}"#);
    let out = convert_response(ProviderFormat::Anthropic, ProviderFormat::OpenAI, &body);
    let choice = idx(at(&out, "choices"), 0);
    assert_eq!(text(at(at(choice, "message"), "content")), "Hi");
    assert_eq!(text(at(choice, "finish_reason")), "stop");
    assert_eq!(at(at(&out, "usage"), "prompt_tokens").as_u64(), Some(10));
}

#[test]
fn google_to_openai_response() {
    let body = j(r#"{"candidates": [{"content": {"parts": [{"text": "Hi"}]}, "finishReason": "STOP"}], "usageMetadata": {"promptTokenCount": 10, "candidatesTokenCount": 5, "totalTokenCount": 15}}"#);
    let out = convert_response(ProviderFormat::Google, ProviderFormat::OpenAI, &body);
    assert_eq!(text(at(at(idx(at(&out, "choices"), 0), "message"), "content")), "Hi");
    assert_eq!(at(at(&out, "usage"), "prompt_tokens").as_u64(), Some(10));
}

#[test]
fn google_response_parallel_tool_calls_get_unique_ids() {
    let body = j(r#"{"candidates": [{"content": {"parts": [{"functionCall": {"name": "f", "args": {"a": 1}}}, {"functionCall": {"name": "f", "args": {"a": 2}}}]}, "finishReason": "STOP"}]}"#);
    let out = convert_response(ProviderFormat::Google, ProviderFormat::OpenAI, &body);
    let tcs = at(at(idx(at(&out, "choices"), 0), "message"), "tool_calls");
    assert_eq!(text(at(idx(tcs, 0), "id")), "call_f_0");
    assert_eq!(text(at(idx(tcs, 1), "id")), "call_f_1");
}

#[test]
fn responses_to_anthropic_request_round_trip() {
    let out = convert_request(ProviderFormat::Responses, ProviderFormat::Anthropic, &responses_body(), "sonnet-3-5");
    assert_eq!(text(at(&out, "model")), "sonnet-3-5");
    assert_eq!(text(at(&out, "system")), "You are a helpful assistant.");
    assert_eq!(at(&out, "messages").as_array().unwrap().len(), 1);
}

#[test]
fn anthropic_to_responses_request_round_trip() {
    let out = convert_request(ProviderFormat::Anthropic, ProviderFormat::Responses, &anthropic_body(), "gpt-5.4");
    assert_eq!(text(at(&out, "model")), "gpt-5.4");
    let input = at(&out, "input");
    assert_eq!(input.as_array().unwrap().len(), 2);
    assert_eq!(text(at(idx(input, 0), "role")), "system");
    assert_eq!(text(at(idx(input, 1), "role")), "user");
}

#[test]
fn google_to_responses_request_round_trip() {
    let out = convert_request(ProviderFormat::Google, ProviderFormat::Responses, &google_body(), "gpt-5.4");
    assert_eq!(text(at(&out, "model")), "gpt-5.4");
    let input = at(&out, "input");
    assert_eq!(input.as_array().unwrap().len(), 2);
    assert_eq!(text(at(idx(input, 0), "role")), "system");
    assert_eq!(text(at(idx(input, 1), "role")), "user");
}

#[test]
fn responses_tools_map_to_openai_tools() {
    let body = j(r#"{"model": "gpt-5.4", "input": "What's the weather?", "tools": [{"type": "function", "name": "get_weather", "description": "Get weather", "parameters": {"type": "object", "properties": {}}, "strict": true}], "tool_choice": "auto"}"#);
    let out = convert_request(ProviderFormat::Responses, ProviderFormat::OpenAI, &body, "gpt-4o");
    let tools = at(&out, "tools");
    assert_eq!(text(at(idx(tools, 0), "type")), "function");
    assert_eq!(text(at(at(idx(tools, 0), "function"), "name")), "get_weather");
    assert_eq!(text(at(&out, "tool_choice")), "auto");
}

#[test]
fn responses_to_openai_response_text() {
    let body = j(r#"{"id": "resp_1", "object": "response", "status": "completed", "model": "gpt-5.4", "output": [{"type": "message", "id": "msg_1", "role": "assistant", "status": "completed", "content": [{"type": "output_text", "text": "Hi there!"}]}], "usage": {"input_tokens": 10, "output_tokens": 5, "total_tokens": 15}}"#);
    let out = convert_response(ProviderFormat::Responses, ProviderFormat::OpenAI, &body);
    let choice = idx(at(&out, "choices"), 0);
    assert_eq!(text(at(at(choice, "message"), "content")), "Hi there!");
    assert_eq!(text(at(choice, "finish_reason")), "stop");
    assert_eq!(at(at(&out, "usage"), "prompt_tokens").as_u64(), Some(10));
    assert_eq!(at(at(&out, "usage"), "completion_tokens").as_u64(), Some(5));
}

#[test]
fn responses_to_openai_response_function_call() {
    let body = j(r#"{"id": "resp_1", "object": "response", "status": "completed", "model": "gpt-5.4", "output": [{"type": "function_call", "id": "fc_1", "call_id": "call_1", "name": "get_weather", "arguments": "{\"city\":\"Boston\"}", "status": "completed"}], "usage": {"input_tokens": 20, "output_tokens": 8, "total_tokens": 28}}"#);
    let out = convert_response(ProviderFormat::Responses, ProviderFormat::OpenAI, &body);
    let choice = idx(at(&out, "choices"), 0);
    assert_eq!(text(at(choice, "finish_reason")), "tool_calls");
    let tcs = at(at(choice, "message"), "tool_calls");
    assert_eq!(text(at(idx(tcs, 0), "id")), "fc_1");
    assert_eq!(text(at(at(idx(tcs, 0), "function"), "name")), "get_weather");
}

#[test]
fn openai_to_responses_response_round_trip() {
    let body = j(r#"{"choices": [{"message": {"role": "assistant", "content": "Hi"}, "finish_reason": "stop"}], "usage": {"prompt_tokens": 10, "completion_tokens": 5, "total_tokens": 15}}"#);
    let out = convert_response(ProviderFormat::OpenAI, ProviderFormat::Responses, &body);
    assert_eq!(text(at(&out, "status")), "completed");
    let item = idx(at(&out, "output"), 0);
    assert_eq!(text(at(item, "type")), "message");
    assert_eq!(text(at(idx(at(item, "content"), 0), "text")), "Hi");
    assert_eq!(at(at(&out, "usage"), "input_tokens").as_u64(), Some(10));
}

#[test]
fn responses_to_openai_sse_text_delta() {
    let data = j(r#"{"type": "response.output_text.delta", "output_index": 0, "content_index": 0, "delta": "Hi"}"#);
    let (event, out) = convert_sse_data(ProviderFormat::Responses, ProviderFormat::OpenAI, Some("response.output_text.delta"), &data).unwrap();
    assert!(event.is_none());
    assert_eq!(text(at(at(idx(at(&out, "choices"), 0), "delta"), "content")), "Hi");
}

#[test]
fn responses_to_openai_sse_completed_with_usage() {
    let data = j(r#"{"type": "response.completed", "response": {"usage": {"input_tokens": 8, "output_tokens": 4, "total_tokens": 12}}}"#);
    let (event, out) = convert_sse_data(ProviderFormat::Responses, ProviderFormat::OpenAI, Some("response.completed"), &data).unwrap();
    assert!(event.is_none());
    assert_eq!(at(at(&out, "usage"), "prompt_tokens").as_u64(), Some(8));
    assert_eq!(at(at(&out, "usage"), "completion_tokens").as_u64(), Some(4));
}

#[test]
fn openai_to_responses_sse_text_delta() {
    let data = j(r#"{"choices": [{"index": 0, "delta": {"content": "Hi"}}]}"#);
    let (event, out) = convert_sse_data(ProviderFormat::OpenAI, ProviderFormat::Responses, None, &data).unwrap();
    assert_eq!(event.as_deref(), Some("response.output_text.delta"));
    assert_eq!(text(at(&out, "type")), "response.output_text.delta");
    assert_eq!(text(at(&out, "delta")), "Hi");
}

#[test]
fn openai_to_responses_sse_finish_event() {
    let data = j(r#"{"choices": [{"index": 0, "delta": {}, "finish_reason": "stop"}], "usage": {"prompt_tokens": 8, "completion_tokens": 4, "total_tokens": 12}}"#);
    let (event, out) = convert_sse_data(ProviderFormat::OpenAI, ProviderFormat::Responses, None, &data).unwrap();
    assert_eq!(event.as_deref(), Some("response.completed"));
    assert_eq!(text(at(&out, "type")), "response.completed");
    assert_eq!(at(at(at(&out, "response"), "usage"), "input_tokens").as_u64(), Some(8));
}

// Further cases of the library's own.

#[test]
fn same_dialect_response_passes_unchanged() {
    let body = j(r#"{"choices": [{"message": {"content": "x"}}], "extra": [1, 2]}"#);
    let out = convert_response(ProviderFormat::OpenAI, ProviderFormat::OpenAI, &body);
    assert!(same(&out, &body));
}

#[test]
fn openai_tool_calls_become_anthropic_tool_use_and_gemini_calls() {
    let body = j(r#"{"choices": [{"message": {"content": null, "tool_calls": [{"id": "c1", "type": "function", "function": {"name": "f", "arguments": "{\"a\":1}"}}]}, "finish_reason": "tool_calls"}]}"#);
    let a = convert_response(ProviderFormat::OpenAI, ProviderFormat::Anthropic, &body);
    let block = idx(at(&a, "content"), 0);
    assert_eq!(text(at(block, "type")), "tool_use");
    assert_eq!(text(at(block, "id")), "c1");
    assert_eq!(text(at(&a, "stop_reason")), "tool_use");
    assert!(a.get("usage").is_none());
    let g = convert_response(ProviderFormat::OpenAI, ProviderFormat::Google, &body);
    let cand = idx(at(&g, "candidates"), 0);
    let part = idx(at(at(cand, "content"), "parts"), 0);
    assert_eq!(text(at(at(part, "functionCall"), "name")), "f");
}

#[test]
fn anthropic_usage_total_is_the_sum() {
    let body = j(r#"{"content": [], "usage": {"input_tokens": 3, "output_tokens": 4}}"#);
    let out = convert_response(ProviderFormat::Anthropic, ProviderFormat::OpenAI, &body);
    assert_eq!(at(at(&out, "usage"), "total_tokens").as_u64(), Some(7));
}

#[test]
fn gemini_call_without_args_gets_an_empty_object() {
    let body = j(r#"{"candidates": [{"content": {"parts": [{"functionCall": {"name": "g"}}]}}]}"#);
    let out = convert_response(ProviderFormat::Google, ProviderFormat::OpenAI, &body);
    let tc = idx(at(at(idx(at(&out, "choices"), 0), "message"), "tool_calls"), 0);
    assert_eq!(text(at(at(tc, "function"), "arguments")), "{}");
    assert_eq!(text(at(idx(at(&out, "choices"), 0), "finish_reason")), "stop");
}

#[test]
fn length_finish_maps_to_incomplete_and_max_tokens() {
    let body = j(r#"{"choices": [{"message": {"content": "x"}, "finish_reason": "length"}]}"#);
    let r = convert_response(ProviderFormat::OpenAI, ProviderFormat::Responses, &body);
    assert_eq!(text(at(&r, "status")), "incomplete");
    let a = convert_response(ProviderFormat::OpenAI, ProviderFormat::Anthropic, &body);
    assert_eq!(text(at(&a, "stop_reason")), "max_tokens");
    let g = convert_response(ProviderFormat::OpenAI, ProviderFormat::Google, &body);
    assert_eq!(text(at(idx(at(&g, "candidates"), 0), "finishReason")), "MAX_TOKENS");
}

#[test]
fn anthropic_stream_events_become_openai_chunks() {
    let start = convert_sse_data(ProviderFormat::Anthropic, ProviderFormat::OpenAI, Some("message_start"), &j("{}")).unwrap();
    assert_eq!(text(at(at(idx(at(&start.1, "choices"), 0), "delta"), "role")), "assistant");
    let delta = j(r#"{"delta": {"type": "text_delta", "text": "Hi"}}"#);
    let d = convert_sse_data(ProviderFormat::Anthropic, ProviderFormat::OpenAI, Some("content_block_delta"), &delta).unwrap();
    assert_eq!(text(at(at(idx(at(&d.1, "choices"), 0), "delta"), "content")), "Hi");
    let md = j(r#"{"delta": {"stop_reason": "max_tokens"}, "usage": {"output_tokens": 9}}"#);
    let m = convert_sse_data(ProviderFormat::Anthropic, ProviderFormat::OpenAI, Some("message_delta"), &md).unwrap();
    assert_eq!(text(at(idx(at(&m.1, "choices"), 0), "finish_reason")), "length");
    assert_eq!(at(at(&m.1, "usage"), "output_tokens").as_u64(), Some(9));
    assert!(convert_sse_data(ProviderFormat::Anthropic, ProviderFormat::OpenAI, Some("ping"), &j("{}")).is_none());
    assert!(convert_sse_data(ProviderFormat::Anthropic, ProviderFormat::OpenAI, None, &delta).is_none());
}

#[test]
fn openai_chunks_become_anthropic_and_gemini_events() {
    let data = j(r#"{"choices": [{"index": 0, "delta": {"content": "Hi"}, "finish_reason": "stop"}], "usage": {"prompt_tokens": 2, "completion_tokens": 1}}"#);
    let (event, a) = convert_sse_data(ProviderFormat::OpenAI, ProviderFormat::Anthropic, None, &data).unwrap();
    assert_eq!(event.as_deref(), Some("content_block_delta"));
    assert_eq!(text(at(at(&a, "delta"), "text")), "Hi");
    let (event, g) = convert_sse_data(ProviderFormat::OpenAI, ProviderFormat::Google, None, &data).unwrap();
    assert!(event.is_none());
    let cand = idx(at(&g, "candidates"), 0);
    assert_eq!(text(at(cand, "finishReason")), "STOP");
    assert_eq!(at(at(&g, "usageMetadata"), "totalTokenCount").as_u64(), Some(3));
}

#[test]
fn gemini_chunk_takes_the_first_text_part() {
    let data = j(r#"{"candidates": [{"content": {"parts": [{"functionCall": {"name": "f"}}, {"text": "a"}, {"text": "b"}]}, "finishReason": "MAX_TOKENS"}]}"#);
    let (_, out) = convert_sse_data(ProviderFormat::Google, ProviderFormat::OpenAI, None, &data).unwrap();
    let choice = idx(at(&out, "choices"), 0);
    assert_eq!(text(at(at(choice, "delta"), "content")), "a");
    assert_eq!(text(at(choice, "finish_reason")), "length");
    let none = j(r#"{"candidates": [{"content": {"parts": [{"functionCall": {"name": "f"}}]}}]}"#);
    assert!(convert_sse_data(ProviderFormat::Google, ProviderFormat::OpenAI, None, &none).is_none());
}

#[test]
fn same_dialect_chunk_keeps_its_event_name() {
    let data = j(r#"{"x": 1}"#);
    let (event, out) = convert_sse_data(ProviderFormat::Google, ProviderFormat::Google, Some("e"), &data).unwrap();
    assert_eq!(event.as_deref(), Some("e"));
    assert!(same(&out, &data));
}
