use tokenguard::config::ProviderFormat;
use tokenguard::json::{Json, JsonNumber};
use tokenguard::license::{parse_device_list, DEFAULT_MAX_DEVICES};
use tokenguard::proxy::sse::{extract_from_usage_object, extract_json, Usage};
use tokenguard::tokens::{
    anthropic_completion_text, content_from_message, count_completion_json, count_prompt, count_text,
    extract_stream_delta, openai_completion_text,
};
use tokenguard::updater::{asset_for, license_valid, linux_package_family, release_offer};

fn s(t: &str) -> Json {
    Json::Str(t.to_string())
}

fn n(v: u64) -> Json {
    Json::Number(JsonNumber::PosInt(v))
}

fn obj(members: Vec<(&str, Json)>) -> Json {
    Json::Object(members.into_iter().map(|(k, v)| (k.to_string(), v)).collect())
}

fn usage_of(v: &Json) -> Usage {
    let mut u = Usage::default();
    extract_from_usage_object(v, &mut u);
    u
}

#[test]
fn device_list_parses_the_worker_shape() {
    let json = obj(vec![
        ("maxDevices", n(3)),
        (
            "devices",
            Json::Array(vec![
                obj(vec![
                    ("fingerprint", s("aa11")),
                    ("registeredAt", s("2026-01-01T00:00:00Z")),
                    ("current", Json::Bool(true)),
                ]),
                obj(vec![("fingerprint", s("bb22")), ("registeredAt", s("2026-02-01T00:00:00Z"))]),
            ]),
        ),
    ]);
    let dto = parse_device_list(&json);
    assert_eq!(dto.max_devices, 3);
    assert_eq!(dto.devices.len(), 2);
    assert_eq!(dto.devices[0].fingerprint, "aa11");
    assert!(dto.devices[0].current);
    assert!(!dto.devices[1].current);
}

#[test]
fn missing_max_devices_falls_back_to_the_worker_default() {
    let dto = parse_device_list(&obj(vec![("devices", Json::Array(vec![]))]));
    assert_eq!(dto.max_devices, DEFAULT_MAX_DEVICES);
}

#[test]
fn malformed_device_entries_are_dropped_not_defaulted() {
    let json = obj(vec![(
        "devices",
        Json::Array(vec![
            obj(vec![("registeredAt", s("2026-01-01T00:00:00Z"))]),
            obj(vec![("fingerprint", s("aa11"))]),
            obj(vec![("fingerprint", s("bb22")), ("registeredAt", s("2026-01-01T00:00:00Z"))]),
            s("not-an-object"),
        ]),
    )]);
    let dto = parse_device_list(&json);
    assert_eq!(dto.devices.len(), 1);
    assert_eq!(dto.devices[0].fingerprint, "bb22");
}

#[test]
fn absent_or_wrongly_typed_device_array_yields_an_empty_list() {
    for json in [obj(vec![]), obj(vec![("error", s("invalid key"))]), obj(vec![("devices", s("none"))])] {
        assert!(parse_device_list(&json).devices.is_empty());
    }
}

#[test]
fn extract_openai_usage() {
    let u = usage_of(&obj(vec![("prompt_tokens", n(10)), ("completion_tokens", n(5))]));
    assert_eq!(u.prompt, 10);
    assert_eq!(u.completion, 5);
}

#[test]
fn extract_anthropic_usage() {
    let u = usage_of(&obj(vec![("input_tokens", n(20)), ("output_tokens", n(7))]));
    assert_eq!(u.prompt, 20);
    assert_eq!(u.completion, 7);
}

#[test]
fn extract_json_openai() {
    let usage = extract_json(br#"{"usage":{"prompt_tokens":8,"completion_tokens":4}}"#);
    assert_eq!(usage.prompt, 8);
    assert_eq!(usage.completion, 4);
}

#[test]
fn extract_json_anthropic() {
    let usage = extract_json(br#"{"usage":{"input_tokens":9,"output_tokens":3}}"#);
    assert_eq!(usage.prompt, 9);
    assert_eq!(usage.completion, 3);
}

#[test]
fn extract_json_malformed_returns_zero() {
    let usage = extract_json(b"not json");
    assert_eq!(usage.prompt, 0);
    assert_eq!(usage.completion, 0);
}

#[test]
fn extract_openai_responses_streaming_usage() {
    let u = usage_of(&obj(vec![("input_tokens", n(12)), ("output_tokens", n(9))]));
    assert_eq!(u.prompt, 12);
    assert_eq!(u.completion, 9);
}

#[test]
fn extract_anthropic_message_start_input_tokens() {
    let u = usage_of(&obj(vec![("input_tokens", n(17))]));
    assert_eq!(u.prompt, 17);
}

#[test]
fn extract_anthropic_message_delta_output_tokens() {
    let u = usage_of(&obj(vec![("output_tokens", n(21))]));
    assert_eq!(u.completion, 21);
}

#[test]
fn extract_openai_cached_tokens() {
    let u = usage_of(&obj(vec![
        ("prompt_tokens", n(100)),
        ("completion_tokens", n(5)),
        ("prompt_tokens_details", obj(vec![("cached_tokens", n(40))])),
    ]));
    assert_eq!(u.prompt, 100);
    assert_eq!(u.completion, 5);
    assert_eq!(u.cached, 40);
}

#[test]
fn extract_anthropic_cached_tokens() {
    let u = usage_of(&obj(vec![
        ("input_tokens", n(200)),
        ("cache_read_input_tokens", n(150)),
        ("cache_creation_input_tokens", n(25)),
    ]));
    assert_eq!(u.prompt, 200);
    assert_eq!(u.cached, 175);
}

#[test]
fn extract_google_usage() {
    let u = usage_of(&obj(vec![
        ("promptTokenCount", n(12)),
        ("candidatesTokenCount", n(9)),
        ("totalTokenCount", n(21)),
        ("cacheTokensDetails", Json::Array(vec![obj(vec![("tokenCount", n(4))]), obj(vec![("tokenCount", n(1))])])),
    ]));
    assert_eq!(u.prompt, 12);
    assert_eq!(u.completion, 9);
    assert_eq!(u.cached, 5);
}

#[test]
fn extract_json_google() {
    let usage = extract_json(br#"{"usageMetadata":{"promptTokenCount":8,"candidatesTokenCount":4,"totalTokenCount":12}}"#);
    assert_eq!(usage.prompt, 8);
    assert_eq!(usage.completion, 4);
}

#[test]
fn extract_json_google_buffered_stream_array() {
    let body = br#"[{"candidates":[{"content":{"parts":[{"text":"Hi"}]}}]},{"candidates":[{"content":{"parts":[{"text":"!"}]}}],"usageMetadata":{"promptTokenCount":11,"candidatesTokenCount":2,"totalTokenCount":13}}]"#;
    let usage = extract_json(body);
    assert_eq!(usage.prompt, 11);
    assert_eq!(usage.completion, 2);
}

#[test]
fn extract_json_reads_responses_nested_usage() {
    let usage = extract_json(br#"{"response":{"usage":{"input_tokens":3,"output_tokens":2}}}"#);
    assert_eq!((usage.prompt, usage.completion), (3, 2));
}

#[test]
fn message_text_joins_parts_with_newlines() {
    let msg = obj(vec![("content", Json::Array(vec![obj(vec![("text", s("a"))]), s("b"), n(3)]))]);
    assert_eq!(content_from_message(&msg), "a\nb\n");
    assert_eq!(content_from_message(&obj(vec![("content", s("plain"))])), "plain");
    assert_eq!(content_from_message(&obj(vec![])), "");
}

#[test]
fn prompt_and_completion_counts_use_the_text() {
    let body = obj(vec![("messages", Json::Array(vec![obj(vec![("role", s("user")), ("content", s("hello there"))])]))]);
    assert_eq!(count_prompt("gpt-4o", ProviderFormat::OpenAI, &body), Some(count_text("gpt-4o", "hello there").unwrap() + 3));
    let prompt = obj(vec![("prompt", s("hello"))]);
    assert_eq!(count_prompt("gpt-4o", ProviderFormat::OpenAI, &prompt), count_text("gpt-4o", "hello"));
    assert_eq!(count_prompt("gpt-4o", ProviderFormat::Anthropic, &prompt), Some(0));
    let resp = obj(vec![(
        "choices",
        Json::Array(vec![obj(vec![("message", obj(vec![("content", s("Hi"))]))]), obj(vec![("text", s("!"))])]),
    )]);
    assert_eq!(openai_completion_text(&resp), "Hi!");
    let anth = obj(vec![("content", Json::Array(vec![obj(vec![("type", s("text")), ("text", s("Yo"))])]))]);
    assert_eq!(anthropic_completion_text(&anth), "Yo\n");
    assert_eq!(count_completion_json("gpt-4o", ProviderFormat::Anthropic, &anth), count_text("gpt-4o", "Yo\n"));
}

#[test]
fn stream_deltas_collect_assistant_text() {
    let openai = obj(vec![(
        "choices",
        Json::Array(vec![obj(vec![("delta", obj(vec![("content", s("He")), ("reasoning_content", s("…"))]))])]),
    )]);
    assert_eq!(extract_stream_delta(&openai), "He…");
    let anth = obj(vec![("delta", obj(vec![("text", s("llo"))]))]);
    assert_eq!(extract_stream_delta(&anth), "llo");
}

fn release(tag: &str, assets: Vec<Json>) -> Json {
    obj(vec![("tag_name", s(tag)), ("assets", Json::Array(assets))])
}

fn asset(name: &str, url: &str, digest: Option<&str>) -> Json {
    let mut m = vec![("name", s(name)), ("browser_download_url", s(url))];
    if let Some(d) = digest {
        m.push(("digest", s(d)));
    }
    obj(m)
}

#[test]
fn release_offers_only_newer_versions() {
    assert_eq!(release_offer(&release("v0.3.0", vec![]), (0, 2, 9)), Ok(Some("v0.3.0".to_string())));
    assert_eq!(release_offer(&release("v0.2.9", vec![]), (0, 2, 9)), Ok(None));
    assert_eq!(release_offer(&release("v0.2.0", vec![]), (0, 2, 9)), Ok(None));
    assert_eq!(release_offer(&obj(vec![]), (0, 2, 9)), Err("missing tag_name in release".to_string()));
    assert_eq!(
        release_offer(&release("nightly", vec![]), (0, 2, 9)),
        Err("invalid release version: nightly".to_string())
    );
    assert!(license_valid(&obj(vec![("valid", Json::Bool(true))])));
    assert!(!license_valid(&obj(vec![("valid", s("true"))])));
}

#[test]
fn assets_are_chosen_per_platform() {
    let r = release(
        "v1.0.0",
        vec![
            asset("tokenguard.AppImage", "u1", None),
            asset("tokenguard.deb", "u2", Some("sha256:abcd")),
            asset("tokenguard.msi", "u3", Some("md5:xyz")),
            asset("tokenguard.dmg", "u4", None),
        ],
    );
    assert_eq!(asset_for(&r, "linux", "deb"), Ok(("u2".to_string(), Some("abcd".to_string()))));
    assert_eq!(asset_for(&r, "linux", "rpm"), Ok(("u1".to_string(), None)));
    assert_eq!(asset_for(&r, "linux", ""), Ok(("u1".to_string(), None)));
    assert_eq!(asset_for(&r, "windows", ""), Ok(("u3".to_string(), None)));
    assert_eq!(asset_for(&r, "macos", ""), Ok(("u4".to_string(), None)));
    assert_eq!(asset_for(&r, "freebsd", ""), Err("no suitable update asset found".to_string()));
    assert_eq!(asset_for(&obj(vec![]), "linux", ""), Err("missing assets in release".to_string()));
}

#[test]
fn package_family_from_os_release() {
    assert_eq!(linux_package_family("NAME=\"Ubuntu\"\nID=ubuntu\nID_LIKE=debian\n"), "deb");
    assert_eq!(linux_package_family("ID=\"fedora\"\r\nVERSION_ID=40\r\n"), "rpm");
    assert_eq!(linux_package_family("ID=opensuse-tumbleweed\nID_LIKE=\"opensuse suse\""), "rpm");
    assert_eq!(linux_package_family("ID=arch\n"), "");
    assert_eq!(linux_package_family(""), "");
}
