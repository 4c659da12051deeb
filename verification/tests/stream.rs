use tokenguard::config::ProviderFormat;
use tokenguard::proxy::stream::SseConverter;

fn converter(from: ProviderFormat, to: ProviderFormat) -> SseConverter {
    SseConverter::new(from, to, "test-model".to_string())
}

#[test]
fn finish_flushes_trailing_unterminated_line() {
    let mut c = converter(ProviderFormat::OpenAI, ProviderFormat::OpenAI);
    let first = c.feed(b"data: {\"usage\":{\"prompt_tokens\":3,\"completion_tokens\":2}}");
    assert!(first.is_empty());
    let tail = c.finish();
    let s = String::from_utf8(tail.to_vec()).unwrap();
    assert!(s.contains("\"prompt_tokens\":3"));
    assert!(s.contains("data: [DONE]"));
    assert_eq!(c.usage.prompt, 3);
    assert_eq!(c.usage.completion, 2);
}

#[test]
fn openai_to_anthropic_synthesizes_lifecycle_events() {
    let input = b"data: {\"choices\":[{\"index\":0,\"delta\":{\"role\":\"assistant\"}}]}\n\ndata: {\"choices\":[{\"index\":0,\"delta\":{\"content\":\"Hello\"}}]}\n\ndata: {\"choices\":[{\"index\":0,\"delta\":{},\"finish_reason\":\"stop\"}]}\n\ndata: [DONE]\n\n";
    let mut c = converter(ProviderFormat::OpenAI, ProviderFormat::Anthropic);
    let mut out = c.feed(input).to_vec();
    out.extend_from_slice(&c.finish());
    let s = String::from_utf8(out).unwrap();

    // The provider-format role chunk must not leak to the client.
    assert!(!s.contains("choices"));
    assert!(s.contains("Hello"));

    let ms = s.find("event: message_start").unwrap();
    let cbs = s.find("event: content_block_start").unwrap();
    let cbd = s.find("event: content_block_delta").unwrap();
    let cbstop = s.find("event: content_block_stop").unwrap();
    let md = s.find("event: message_delta").unwrap();
    let mstop = s.find("event: message_stop").unwrap();
    assert!(ms < cbs && cbs < cbd && cbd < cbstop && cbstop < md && md < mstop);
}

#[test]
fn anthropic_to_openai_emits_done_and_drops_unknown_events() {
    let input = b"event: message_start\ndata: {\"type\":\"message_start\",\"message\":{\"usage\":{\"input_tokens\":10}}}\n\nevent: content_block_start\ndata: {\"type\":\"content_block_start\",\"index\":0,\"content_block\":{\"type\":\"text\",\"text\":\"\"}}\n\nevent: content_block_delta\ndata: {\"type\":\"content_block_delta\",\"index\":0,\"delta\":{\"type\":\"text_delta\",\"text\":\"Hi\"}}\n\nevent: content_block_stop\ndata: {\"type\":\"content_block_stop\",\"index\":0}\n\nevent: message_delta\ndata: {\"type\":\"message_delta\",\"delta\":{\"stop_reason\":\"end_turn\"},\"usage\":{\"output_tokens\":5}}\n\nevent: message_stop\ndata: {\"type\":\"message_stop\"}\n\nevent: ping\ndata: {\"type\":\"ping\"}\n\n";
    let mut c = converter(ProviderFormat::Anthropic, ProviderFormat::OpenAI);
    let mut out = c.feed(input).to_vec();
    out.extend_from_slice(&c.finish());
    let s = String::from_utf8(out).unwrap();

    assert!(s.contains("data: [DONE]"));
    assert!(s.contains("Hi"));
    assert!(!s.contains("ping"));
    assert!(!s.contains("content_block_start"));
    assert_eq!(c.usage.prompt, 10);
    assert_eq!(c.usage.completion, 5);
}

#[test]
fn google_to_openai_emits_done_on_finish() {
    let input = b"data: {\"candidates\":[{\"content\":{\"role\":\"model\",\"parts\":[{\"text\":\"Hi\"}]}}],\"usageMetadata\":{\"promptTokenCount\":7,\"candidatesTokenCount\":1}}\n\n";
    let mut c = converter(ProviderFormat::Google, ProviderFormat::OpenAI);
    let mut out = c.feed(input).to_vec();
    out.extend_from_slice(&c.finish());
    let s = String::from_utf8(out).unwrap();
    assert!(s.contains("Hi"));
    assert!(s.contains("data: [DONE]"));
    assert_eq!(c.usage.prompt, 7);
}

#[test]
fn invalid_utf8_line_forwarded_verbatim() {
    let mut c = converter(ProviderFormat::OpenAI, ProviderFormat::Anthropic);
    let out = c.feed(b"data: \xff\xfe\n");
    assert_eq!(&out[..], &b"data: \xff\xfe\n"[..]);
}

#[test]
fn anthropic_tool_delta_uses_its_own_index() {
    let input = b"event: content_block_start\ndata: {\"type\":\"content_block_start\",\"index\":0,\"content_block\":{\"type\":\"tool_use\",\"id\":\"tu_0\",\"name\":\"a\"}}\n\nevent: content_block_start\ndata: {\"type\":\"content_block_start\",\"index\":1,\"content_block\":{\"type\":\"tool_use\",\"id\":\"tu_1\",\"name\":\"b\"}}\n\nevent: content_block_delta\ndata: {\"type\":\"content_block_delta\",\"index\":0,\"delta\":{\"type\":\"input_json_delta\",\"partial_json\":\"{}\"}}\n\n";
    let mut c = converter(ProviderFormat::Anthropic, ProviderFormat::OpenAI);
    let out = c.feed(input);
    let s = String::from_utf8(out.to_vec()).unwrap();
    let chunks: Vec<serde_json::Value> = s
        .lines()
        .filter_map(|l| l.strip_prefix("data:"))
        .map(str::trim)
        .filter_map(|p| serde_json::from_str::<serde_json::Value>(p).ok())
        .collect();
    let last = chunks.last().unwrap();
    assert_eq!(last["choices"][0]["delta"]["tool_calls"][0]["index"], 0);
}

// Further cases of the library's own.

#[test]
fn bytes_split_across_feeds_make_one_line() {
    let mut c = converter(ProviderFormat::OpenAI, ProviderFormat::OpenAI);
    let a = c.feed(b"data: {\"choices\":[]");
    assert!(a.is_empty());
    let b = c.feed(b"}\n");
    assert_eq!(&b[..], &b"data: {\"choices\":[]}\n"[..]);
}

#[test]
fn openai_tool_calls_stream_as_anthropic_tool_blocks() {
    let input = b"data: {\"choices\":[{\"index\":0,\"delta\":{\"tool_calls\":[{\"index\":2,\"id\":\"c2\",\"function\":{\"name\":\"f\",\"arguments\":\"\"}}]}}]}\n\ndata: {\"choices\":[{\"index\":0,\"delta\":{\"tool_calls\":[{\"index\":2,\"function\":{\"arguments\":\"{}\"}}]}}]}\n\ndata: [DONE]\n";
    let mut c = converter(ProviderFormat::OpenAI, ProviderFormat::Anthropic);
    let mut out = c.feed(input).to_vec();
    out.extend_from_slice(&c.finish());
    let s = String::from_utf8(out).unwrap();
    assert!(s.contains("\"tool_use\""));
    assert!(s.contains("\"c2\""));
    assert!(s.contains("input_json_delta"));
    assert!(s.contains("{\"index\":2,\"type\":\"content_block_stop\"}") || s.contains("\"content_block_stop\",\"index\":2"));
    assert_eq!(s.matches("event: message_stop").count(), 1);
}

#[test]
fn done_is_not_repeated_for_openai_clients() {
    let mut c = converter(ProviderFormat::OpenAI, ProviderFormat::OpenAI);
    let mut out = c.feed(b"data: [DONE]\n").to_vec();
    out.extend_from_slice(&c.finish());
    let s = String::from_utf8(out).unwrap();
    assert_eq!(s.matches("[DONE]").count(), 1);
}

#[test]
fn non_data_lines_pass_through() {
    let mut c = converter(ProviderFormat::Google, ProviderFormat::OpenAI);
    let out = c.feed(b": keep-alive\n");
    assert_eq!(&out[..], &b": keep-alive\n"[..]);
    let blank = c.feed(b"  \n");
    assert_eq!(&blank[..], &b"\n"[..]);
}
