use tokenguard::cli::providers::{fetched_models, model_spec_parts};
use tokenguard::updater::cli_asset;
use tokenguard::commands::{models_url, refreshed_models};
use tokenguard::config::ProviderFormat;
use tokenguard::json::{Json, JsonNumber};

fn to_json(v: serde_json::Value) -> Json {
    match v {
        serde_json::Value::Null => Json::Null,
        serde_json::Value::Bool(b) => Json::Bool(b),
        serde_json::Value::Number(n) => Json::Number(match (n.as_u64(), n.as_i64()) {
            (Some(u), _) => JsonNumber::PosInt(u),
            (None, Some(i)) => JsonNumber::NegInt(i),
            (None, None) => JsonNumber::Float(n.to_string()),
        }),
        serde_json::Value::String(s) => Json::Str(s),
        serde_json::Value::Array(a) => Json::Array(a.into_iter().map(to_json).collect()),
        serde_json::Value::Object(m) => Json::Object(m.into_iter().map(|(k, x)| (k, to_json(x))).collect()),
    }
}

fn j(text: &str) -> Json {
    to_json(serde_json::from_str(text).unwrap())
}

fn names(v: &[tokenguard::config::ModelMapping]) -> Vec<(String, String)> {
    v.iter().map(|m| (m.local.clone(), m.remote.clone())).collect()
}

#[test]
fn models_url_by_dialect() {
    assert_eq!(models_url(ProviderFormat::Google, "https://g.example/"), "https://g.example/v1beta/models");
    assert_eq!(models_url(ProviderFormat::OpenAI, "https://o.example"), "https://o.example/v1/models");
}

#[test]
fn refreshed_models_are_sorted_and_unpriced() {
    let body = j(r#"{"data":[{"id":"gpt-4o"},{"id":"gpt-4.1"},{"object":"model"},{"id":"babbage"}]}"#);
    let m = refreshed_models(ProviderFormat::OpenAI, &body);
    assert_eq!(
        names(&m),
        vec![
            ("babbage".to_string(), "babbage".to_string()),
            ("gpt-4.1".to_string(), "gpt-4.1".to_string()),
            ("gpt-4o".to_string(), "gpt-4o".to_string()),
        ]
    );
    assert!(m.iter().all(|x| x.input_cost_per_1k.is_none() && x.output_cost_per_1k.is_none()));
}

#[test]
fn refreshed_gemini_models_drop_the_models_prefix() {
    let body = j(r#"{"models":[{"name":"models/gemini-2.5-pro"},{"name":"gemini-1.5-flash"}]}"#);
    let m = refreshed_models(ProviderFormat::Google, &body);
    assert_eq!(
        names(&m),
        vec![
            ("gemini-1.5-flash".to_string(), "gemini-1.5-flash".to_string()),
            ("gemini-2.5-pro".to_string(), "gemini-2.5-pro".to_string()),
        ]
    );
    assert!(refreshed_models(ProviderFormat::Google, &j(r#"{"data":[{"id":"x"}]}"#)).is_empty());
}

#[test]
fn fetched_gemini_models_keep_the_full_remote_name() {
    let body = j(r#"{"models":[{"name":"models/gemini-2.5-pro"},{"name":"plain"}]}"#);
    let m = fetched_models(ProviderFormat::Google, &body);
    assert_eq!(
        names(&m),
        vec![
            ("gemini-2.5-pro".to_string(), "models/gemini-2.5-pro".to_string()),
            ("plain".to_string(), "plain".to_string()),
        ]
    );
}

#[test]
fn fetched_models_fall_back_to_data_in_listing_order() {
    let body = j(r#"{"models":[],"data":[{"id":"z"},{"id":"a"}]}"#);
    let m = fetched_models(ProviderFormat::Google, &body);
    assert_eq!(names(&m), vec![("z".to_string(), "z".to_string()), ("a".to_string(), "a".to_string())]);
    let o = fetched_models(ProviderFormat::OpenAI, &j(r#"{"data":[{"id":"m1"}]}"#));
    assert_eq!(names(&o), vec![("m1".to_string(), "m1".to_string())]);
}

#[test]
fn model_specs_split_into_names_and_costs() {
    assert_eq!(
        model_spec_parts("fast=gpt-4o-mini:0.15:0.6"),
        ("fast".to_string(), "gpt-4o-mini".to_string(), vec!["0.15".to_string(), "0.6".to_string()])
    );
    assert_eq!(model_spec_parts("gpt-4o"), ("gpt-4o".to_string(), "gpt-4o".to_string(), vec![]));
    assert_eq!(model_spec_parts("a=b=c"), ("a".to_string(), "b=c".to_string(), vec![]));
}

#[test]
fn cli_download_picks_the_asset_by_exact_name() {
    let release = j(r#"{"tag_name":"v1.2.0","assets":[
        {"name":"tokenguard-linux-x86_64.sig","browser_download_url":"u0"},
        {"name":"tokenguard-linux-x86_64","browser_download_url":"u1","size":2048}]}"#);
    assert_eq!(cli_asset(&release, "linux", "x86_64"), Ok(("u1".to_string(), 2048)));
    assert_eq!(
        cli_asset(&release, "macos", "aarch64"),
        Err("no asset named 'tokenguard-macos-aarch64' found in v1.2.0".to_string())
    );
    assert_eq!(cli_asset(&j(r#"{"assets":[]}"#), "linux", "x86_64"), Err("release tag_name".to_string()));
    let no_url = j(r#"{"tag_name":"v1","assets":[{"name":"tokenguard-linux-x86_64"}]}"#);
    assert_eq!(cli_asset(&no_url, "linux", "x86_64"), Err("asset download url".to_string()));
}
