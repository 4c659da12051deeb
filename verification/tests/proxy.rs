use tokenguard::config::ProviderFormat;
use tokenguard::proxy::convert::{
    parse_data_url, target_path, to_data_url, translate_finish_reason_a2o, translate_finish_reason_g2o,
    translate_finish_reason_o2a, translate_finish_reason_o2g,
};
use tokenguard::proxy::server::{extract_model_from_path, query_key_param, strip_key_param, upstream_path_regex};

#[test]
fn target_paths() {
    assert_eq!(
        target_path(ProviderFormat::OpenAI, ProviderFormat::Anthropic, "sonnet", "/v1/chat/completions", false),
        "/v1/messages"
    );
    assert_eq!(
        target_path(ProviderFormat::Anthropic, ProviderFormat::Google, "gemini", "/v1/messages", false),
        "/v1beta/models/gemini:generateContent"
    );
    assert_eq!(
        target_path(ProviderFormat::Anthropic, ProviderFormat::Google, "gemini", "/v1/messages", true),
        "/v1beta/models/gemini:streamGenerateContent"
    );
    assert_eq!(
        target_path(ProviderFormat::OpenAI, ProviderFormat::OpenAI, "gpt", "/v1/chat/completions", false),
        "/v1/chat/completions"
    );
}

#[test]
fn target_path_google_passthrough_rewrites_model() {
    assert_eq!(
        target_path(
            ProviderFormat::Google,
            ProviderFormat::Google,
            "gemini-remote",
            "/v1beta/models/gemini-local:streamGenerateContent?alt=sse",
            true
        ),
        "/v1beta/models/gemini-remote:streamGenerateContent?alt=sse"
    );
    assert_eq!(
        target_path(
            ProviderFormat::Google,
            ProviderFormat::Google,
            "gemini-remote",
            "/v1beta/models/gemini-local:generateContent",
            false
        ),
        "/v1beta/models/gemini-remote:generateContent"
    );
    assert_eq!(
        target_path(ProviderFormat::Google, ProviderFormat::Google, "gemini-remote", "/v1beta/models", false),
        "/v1beta/models"
    );
}

#[test]
fn target_path_responses() {
    assert_eq!(
        target_path(ProviderFormat::OpenAI, ProviderFormat::Responses, "gpt-5.4", "/v1/chat/completions", false),
        "/v1/responses"
    );
}

#[test]
fn strip_key_param_removes_only_key() {
    assert_eq!(strip_key_param("key=secret&alt=sse"), "alt=sse");
    assert_eq!(strip_key_param("alt=sse&key=secret"), "alt=sse");
    assert_eq!(strip_key_param("key=secret"), "");
    assert_eq!(strip_key_param("alt=sse"), "alt=sse");
    assert_eq!(strip_key_param("monkey=1&alt=sse"), "monkey=1&alt=sse");
}

#[test]
fn extract_model_from_path_strips_method_suffix() {
    assert_eq!(
        extract_model_from_path("models/gemini-1.5-pro:generateContent"),
        Some("gemini-1.5-pro".to_string())
    );
}

#[test]
fn extract_model_from_path_without_suffix() {
    assert_eq!(extract_model_from_path("models/gemini-2.0-flash"), Some("gemini-2.0-flash".to_string()));
}

#[test]
fn extract_model_from_path_returns_none_for_list() {
    assert_eq!(extract_model_from_path("models"), None);
}

#[test]
fn query_key_param_reads_the_key_value() {
    assert_eq!(query_key_param("alt=sse&key=secret"), Some("secret".to_string()));
    assert_eq!(query_key_param("alt=sse"), None);
}

#[test]
fn finish_reasons_translate_between_dialects() {
    assert_eq!(translate_finish_reason_o2a("stop"), "end_turn");
    assert_eq!(translate_finish_reason_o2a("length"), "max_tokens");
    assert_eq!(translate_finish_reason_a2o("end_turn"), "stop");
    assert_eq!(translate_finish_reason_a2o("tool_use"), "tool_calls");
    assert_eq!(translate_finish_reason_o2g("stop"), "STOP");
    assert_eq!(translate_finish_reason_g2o("MAX_TOKENS"), "length");
}

#[test]
fn data_urls_split_and_join() {
    assert_eq!(
        parse_data_url("data:image/png;base64,AAAA"),
        Some(("image/png".to_string(), "AAAA".to_string()))
    );
    assert_eq!(parse_data_url("https://example.com/a.png"), None);
    assert_eq!(to_data_url("image/png", "AAAA"), "data:image/png;base64,AAAA");
}

#[test]
fn upstream_paths_per_dialect() {
    assert_eq!(upstream_path_regex(ProviderFormat::Anthropic), "^/v1/messages$");
    assert_eq!(upstream_path_regex(ProviderFormat::Google), "^/v1beta/models/[^/]+:generateContent$");
}
