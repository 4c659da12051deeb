use tokenguard::config::ProviderFormat;
use tokenguard::json::ToolCallCounts;
use tokenguard::limits::LimitCounters;
use tokenguard::proxy::convert::{parse_data_url, to_data_url};
use tokenguard::proxy::server::{query_key_param, strip_key_param};
use tokenguard::proxy::stream::SseConverter;
use tokenguard::schedule::{cooldown_mark, cooldown_peek, Cooldowns, WARNING_COOLDOWN_MS};

#[test]
fn data_url_reads_back_what_was_written() {
    let url = to_data_url("image/png", "iVBORw0KGgo=");
    assert_eq!(parse_data_url(&url), Some(("image/png".to_string(), "iVBORw0KGgo=".to_string())));
}

#[test]
fn minted_ids_for_one_function_differ() {
    let mut c = ToolCallCounts::new();
    let a = c.next_tool_call_id("lookup");
    let b = c.next_tool_call_id("lookup");
    let other = c.next_tool_call_id("other");
    assert_eq!(a, "call_lookup_0");
    assert_eq!(b, "call_lookup_1");
    assert_eq!(other, "call_other_0");
    assert_ne!(a, b);
}

#[test]
fn stripped_query_has_no_key() {
    for q in ["key=secret", "alt=sse&key=secret&x=1", "key=a&key=b", "", "&&key=1&", "keyx=1&key=2"] {
        let stripped = strip_key_param(q);
        assert_eq!(query_key_param(&stripped), None, "query {q:?} stripped to {stripped:?}");
    }
    assert_eq!(strip_key_param("alt=sse&key=secret&x=1"), "alt=sse&x=1");
}

#[test]
fn release_undoes_increment() {
    let mut c = LimitCounters::new();
    c.increment(7, 5);
    c.increment(9, 2);
    c.release_amount(9, 2);
    assert_eq!(c.get(7), 5);
    assert_eq!(c.get(9), 0);
}

#[test]
fn cooldown_silences_for_the_window_only() {
    let mut m = Cooldowns::new();
    assert!(cooldown_peek(&m, 3, 1_000));
    cooldown_mark(&mut m, 3, 1_000);
    assert!(!cooldown_peek(&m, 3, 1_000 + WARNING_COOLDOWN_MS - 1));
    assert!(cooldown_peek(&m, 3, 1_000 + WARNING_COOLDOWN_MS));
    assert!(!cooldown_peek(&m, 3, 999));
    assert!(cooldown_peek(&m, 4, 1_000));
}

#[test]
fn feeding_in_pieces_equals_feeding_at_once() {
    let input: &[u8] = b"event: message_start\ndata: {\"type\":\"message_start\",\"message\":{\"usage\":{\"input_tokens\":4}}}\n\nevent: content_block_delta\ndata: {\"type\":\"content_block_delta\",\"index\":0,\"delta\":{\"type\":\"text_delta\",\"text\":\"Hi\"}}\n\n";
    let mut whole = SseConverter::new(ProviderFormat::Anthropic, ProviderFormat::OpenAI, "m".to_string());
    let mut a = whole.feed(input);
    a.extend_from_slice(&whole.finish());
    for cut in [1usize, 7, 20, 60, input.len() - 1] {
        let mut pieces = SseConverter::new(ProviderFormat::Anthropic, ProviderFormat::OpenAI, "m".to_string());
        let mut b = pieces.feed(&input[..cut]);
        b.extend_from_slice(&pieces.feed(&input[cut..]));
        b.extend_from_slice(&pieces.finish());
        assert_eq!(a, b, "cut at {cut}");
        assert_eq!(pieces.usage.prompt, 4);
    }
}

#[test]
fn finished_stream_is_closed_for_the_client() {
    let mut c = SseConverter::new(ProviderFormat::Google, ProviderFormat::Anthropic, "m".to_string());
    let out = String::from_utf8(c.finish()).unwrap();
    assert!(out.contains("event: message_start"));
    assert!(out.contains("event: message_stop"));
    let mut o = SseConverter::new(ProviderFormat::Anthropic, ProviderFormat::OpenAI, "m".to_string());
    let out = String::from_utf8(o.finish()).unwrap();
    assert_eq!(out, "data: [DONE]\n");
}

#[test]
fn stripping_the_key_twice_changes_nothing() {
    for q in ["alt=sse&key=secret", "key=secret", "monkey=1&alt=sse", "&&key=&a=b&", "", "key"] {
        let once = strip_key_param(q);
        assert_eq!(strip_key_param(&once), once, "{q}");
    }
    assert_eq!(strip_key_param("monkey=1&alt=sse"), "monkey=1&alt=sse");
    assert_eq!(strip_key_param("key=secret"), "");
}

#[test]
fn project_cooldowns_keep_one_entry_per_project() {
    let mut c = tokenguard::schedule::TagCooldowns::new();
    c.mark("app", 0);
    c.mark("web", 10);
    c.mark("app", WARNING_COOLDOWN_MS);
    c.mark("app", 2 * WARNING_COOLDOWN_MS);
    assert_eq!(c.len(), 2);
    assert!(!c.peek("app", 2 * WARNING_COOLDOWN_MS + 1));
    assert!(c.peek("web", WARNING_COOLDOWN_MS + 10));
    assert!(c.peek("other", 0));
}
