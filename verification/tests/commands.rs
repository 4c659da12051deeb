use tokenguard::commands::{is_likely_vpn_interface, provider_key_change, provider_key_setting_name, proxy_url, replay_url, fill_provider_prices_from_database, KeyChange};
use tokenguard::config::{AuthScheme, LimitMetric, LimitScope, Provider, ProviderFormat};
use tokenguard::license::WORKER_BASE;
use tokenguard::runtime_config::{check_config_url, gist_url, RuntimeConfig};
use tokenguard::tokens::count_text;
use tokenguard::webhook::{metric_name, scope_name};

#[test]
fn worker_base_is_https() {
    assert!(WORKER_BASE.starts_with("https://"), "license worker must be HTTPS: {WORKER_BASE}");
    assert!(!WORKER_BASE.ends_with('/'), "trailing slash would produce '//api/...' paths");
}

#[test]
fn provider_key_settings_are_namespaced() {
    assert_eq!(provider_key_setting_name("OpenAI"), "provider_key_created_at:OpenAI");
}

#[test]
fn vpn_interfaces_are_recognized_case_insensitively() {
    assert!(is_likely_vpn_interface("utun3"));
    assert!(is_likely_vpn_interface("NordLynx"));
    assert!(is_likely_vpn_interface("Cisco AnyConnect Secure Mobility"));
    assert!(!is_likely_vpn_interface("eth0"));
    assert!(!is_likely_vpn_interface("en0"));
}

#[test]
fn webhook_names_are_database_names() {
    assert_eq!(metric_name(LimitMetric::Money), "money");
    assert_eq!(scope_name(LimitScope::Provider), "provider");
}

#[test]
fn runtime_config_needs_a_real_url() {
    assert_eq!(gist_url(None), "unset");
    assert_eq!(gist_url(Some("https://gist.example/x")), "https://gist.example/x");
    assert!(check_config_url("unset").is_err());
    assert!(check_config_url("   ").is_err());
    assert!(check_config_url("https://gist.example/x").is_ok());
    let cfg = RuntimeConfig::default();
    assert!(!cfg.banners.enabled);
    assert_eq!(cfg.banners.title, "");
}

#[test]
fn token_counts_follow_the_model_tokenizer() {
    assert_eq!(count_text("gpt-4o", ""), Some(0));
    let text = "Hello, world! How are the tokens today?";
    let o200k = tiktoken_rs::o200k_base_singleton().encode_with_special_tokens(text).len() as u64;
    let cl100k = tiktoken_rs::cl100k_base_singleton().encode_with_special_tokens(text).len() as u64;
    assert_eq!(count_text("GPT-4o-mini", text), Some(o200k));
    assert_eq!(count_text("llama-3-70b", text), Some(cl100k));
    assert!(count_text("gpt-4o", text).unwrap() > 0);
}

#[test]
fn key_change_clear_wins_and_covers_the_old_name() {
    match provider_key_change(true, "sk-new", "old", "new") {
        KeyChange::Clear { names } => assert_eq!(names, vec!["new".to_string(), "old".to_string()]),
        _ => panic!("expected a clear"),
    }
    match provider_key_change(true, "", "same", "same") {
        KeyChange::Clear { names } => assert_eq!(names, vec!["same".to_string()]),
        _ => panic!("expected a clear"),
    }
}

#[test]
fn key_change_new_key_replaces_and_drops_the_renamed_one() {
    match provider_key_change(false, "sk-new", "old", "new") {
        KeyChange::Replace { delete_old } => assert_eq!(delete_old, Some("old".to_string())),
        _ => panic!("expected a replace"),
    }
    assert!(matches!(provider_key_change(false, "sk-new", "p", "p"), KeyChange::Replace { delete_old: None }));
}

#[test]
fn key_change_rename_moves_the_key() {
    match provider_key_change(false, "", "old", "new") {
        KeyChange::Move { from } => assert_eq!(from, "old"),
        _ => panic!("expected a move"),
    }
    assert!(matches!(provider_key_change(false, "", "p", "p"), KeyChange::Keep));
}

fn replay_provider(format: ProviderFormat) -> Provider {
    Provider {
        id: 1,
        name: "p".to_string(),
        base_url: "https://api.example.com/".to_string(),
        format,
        auth: AuthScheme::Bearer,
        models: Vec::new(),
        is_default: false,
        fallback_provider_id: None,
        extra_headers: Vec::new(),
    }
}

#[test]
fn replay_infers_the_endpoint_from_the_logged_body() {
    let openai = replay_provider(ProviderFormat::OpenAI);
    assert_eq!(replay_url(&openai, Some(r#"{"messages":[]}"#)), Ok("https://api.example.com/v1/chat/completions".to_string()));
    assert_eq!(replay_url(&openai, Some(r#"{"prompt":"hi"}"#)), Ok("https://api.example.com/v1/completions".to_string()));
    assert_eq!(replay_url(&openai, Some("not json")), Ok("https://api.example.com/v1/chat/completions".to_string()));
    let anthropic = replay_provider(ProviderFormat::Anthropic);
    assert_eq!(replay_url(&anthropic, Some("{}")), Ok("https://api.example.com/v1/messages".to_string()));
}

#[test]
fn replay_refuses_missing_bodies_and_gemini() {
    let openai = replay_provider(ProviderFormat::OpenAI);
    assert_eq!(replay_url(&openai, None), Err("request body was not logged".to_string()));
    assert_eq!(replay_url(&openai, Some("")), Err("request body was not logged".to_string()));
    let google = replay_provider(ProviderFormat::Google);
    assert_eq!(
        replay_url(&google, Some("{}")),
        Err("replay is not supported for Google Gemini native API".to_string())
    );
}

#[test]
fn proxy_url_on_localhost_unless_exposed() {
    assert_eq!(proxy_url(false, Some("10.0.0.5"), None, None, None, 3742), "http://localhost:3742");
    assert_eq!(proxy_url(true, Some("10.0.0.5"), Some("192.168.1.2"), None, None, 3742), "http://10.0.0.5:3742");
}

#[test]
fn proxy_url_falls_back_through_the_lan_hosts() {
    assert_eq!(proxy_url(true, Some(""), Some("192.168.1.2"), Some("10.1.1.1"), None, 80), "http://192.168.1.2:80");
    assert_eq!(proxy_url(true, None, None, Some("10.1.1.1"), Some("box"), 80), "http://10.1.1.1:80");
    assert_eq!(proxy_url(true, None, None, None, Some("box"), 8080), "http://box:8080");
    assert_eq!(proxy_url(true, None, None, None, None, 1), "http://localhost:1");
}

#[test]
fn missing_model_prices_are_filled_from_the_table() {
    let table = tokenguard::prices::PriceTable::builtin();
    let models = vec![
        tokenguard::config::ModelMapping {
            local: "gpt-4o".to_string(),
            remote: "gpt-4o-2024-08-06".to_string(),
            input_cost_per_1k: None,
            output_cost_per_1k: Some(1),
            cached_input_cost_per_1k: None,
        },
        tokenguard::config::ModelMapping {
            local: "my-local-model".to_string(),
            remote: "x".to_string(),
            input_cost_per_1k: None,
            output_cost_per_1k: None,
            cached_input_cost_per_1k: None,
        },
    ];
    let out = fill_provider_prices_from_database(models, &table);
    let p = table.lookup("gpt-4o").unwrap();
    assert_eq!(out[0].input_cost_per_1k, Some(p.input_per_1k));
    assert_eq!(out[0].output_cost_per_1k, Some(1));
    assert_eq!(out[0].cached_input_cost_per_1k, p.cached_input_per_1k);
    assert_eq!(out[0].remote, "gpt-4o-2024-08-06");
    assert_eq!(out[1].input_cost_per_1k, None);
}
