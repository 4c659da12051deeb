use tokenguard::config::{AuthScheme, LimitAction, ModelMapping, Provider, ProviderFormat};
use tokenguard::json::Json;
use tokenguard::proxy::forwarder::find_fallback_provider;
use tokenguard::proxy::gate::{
    missing_key_message, no_provider_message, pricing_profile, request_model, screen_request, upstream_path,
    BudgetNotice,
};
use tokenguard::proxy::server::models_list;

fn provider(id: i64, name: &str, models: &[&str], fallback: Option<i64>) -> Provider {
    Provider {
        id,
        name: name.to_string(),
        base_url: "https://example.com".to_string(),
        format: ProviderFormat::OpenAI,
        auth: AuthScheme::Bearer,
        models: models
            .iter()
            .map(|s| ModelMapping {
                local: s.to_string(),
                remote: format!("{s}-remote"),
                input_cost_per_1k: Some(2_500),
                output_cost_per_1k: Some(10_000),
                cached_input_cost_per_1k: None,
            })
            .collect(),
        is_default: false,
        fallback_provider_id: fallback,
        extra_headers: Vec::new(),
    }
}

#[test]
fn paused_proxy_and_unknown_projects_are_refused_first() {
    let a = screen_request(true, false, None);
    assert_eq!(a.refusal, Some((503, "Token Guard proxy is paused".to_string())));
    let b = screen_request(false, false, Some((10, 5, LimitAction::Block, true)));
    assert_eq!(b.refusal.unwrap().0, 401);
    let c = screen_request(false, true, None);
    assert!(c.refusal.is_none() && c.notice.is_none() && !c.pause);
}

#[test]
fn spent_budget_blocks_pauses_or_warns() {
    let block = screen_request(false, true, Some((12_345_678, 10_000_000, LimitAction::Block, true)));
    assert_eq!(block.refusal, Some((429, "project budget exceeded: 12.35 / 10.00".to_string())));
    assert_eq!(block.notice, Some((BudgetNotice::Blocked, 12_345_678, 10_000_000)));
    let pause = screen_request(false, true, Some((10_000_000, 10_000_000, LimitAction::Pause, true)));
    assert_eq!(pause.refusal.as_ref().unwrap().0, 503);
    assert!(pause.pause);
    let warn = screen_request(false, true, Some((10_000_000, 10_000_000, LimitAction::Warn, true)));
    assert!(warn.refusal.is_none() && warn.mark_budget_notified);
    let quiet = screen_request(false, true, Some((10_000_000, 10_000_000, LimitAction::Warn, false)));
    assert!(quiet.notice.is_none() && !quiet.mark_budget_notified);
}

#[test]
fn money_rounds_half_to_even_cents() {
    let a = screen_request(false, true, Some((4_999, 125_000, LimitAction::Block, true)));
    assert_eq!(a.refusal.unwrap().1, "project budget exceeded: 0.00 / 0.12");
    let b = screen_request(false, true, Some((15_001, 1_000_000_000, LimitAction::Block, true)));
    assert_eq!(b.refusal.unwrap().1, "project budget exceeded: 0.02 / 1000.00");
}

#[test]
fn upstream_path_keeps_the_query_without_the_key() {
    assert_eq!(upstream_path("/v1beta/models/g:streamGenerateContent", Some("alt=sse&key=abc")), "/v1beta/models/g:streamGenerateContent?alt=sse");
    assert_eq!(upstream_path("/v1/x", Some("key=abc")), "/v1/x");
    assert_eq!(upstream_path("/v1/x", None), "/v1/x");
}

#[test]
fn model_comes_from_the_path_or_the_body() {
    let body = Json::Object(vec![("model".to_string(), Json::Str("gpt-4o".to_string()))]);
    let (m, _) = request_model(None, Some(body)).unwrap();
    assert_eq!(m, "gpt-4o");
    let (m, b) = request_model(Some("gemini-pro".to_string()), None).unwrap();
    assert_eq!(m, "gemini-pro");
    assert!(matches!(b, Json::Object(ref v) if v.is_empty()));
    assert!(request_model(None, None).is_none());
    let (m, _) = request_model(None, Some(Json::Object(Vec::new()))).unwrap();
    assert_eq!(m, "");
}

#[test]
fn refusal_messages() {
    assert_eq!(no_provider_message("x"), "no provider configured for model 'x' on this endpoint \u{2014} add one in Settings");
    assert_eq!(missing_key_message("p"), "no API key stored for provider 'p' \u{2014} add it in Settings");
}

#[test]
fn mapping_prices_become_a_pricing_override() {
    let p = provider(1, "a", &["m"], None);
    let prof = pricing_profile(&p, "m");
    assert_eq!(prof.input_per_1k, Some(2_500_000));
    assert_eq!(prof.output_per_1k, Some(10_000_000));
    assert_eq!(prof.cached_input_per_1k, None);
    assert_eq!(pricing_profile(&p, "other").input_per_1k, None);
}

#[test]
fn fallback_prefers_the_configured_provider() {
    let ps = vec![provider(1, "a", &["m"], Some(3)), provider(2, "b", &["m"], None), provider(3, "c", &["z"], None)];
    assert_eq!(find_fallback_provider(&ps, &ps[0], "m").unwrap().id, 3);
    assert_eq!(find_fallback_provider(&ps, &ps[1], "m").unwrap().id, 1);
    let lone = vec![provider(1, "a", &["m"], Some(9))];
    assert!(find_fallback_provider(&lone, &lone[0], "m").is_none());
}

#[test]
fn models_list_names_every_mapping() {
    let ps = vec![provider(1, "a", &["m1", "m2"], None), provider(2, "b", &["m3"], None)];
    let body = models_list(&ps);
    assert_eq!(body.get("object").unwrap().as_str(), Some("list"));
    let data = body.get("data").unwrap().as_array().unwrap();
    assert_eq!(data.len(), 3);
    assert_eq!(data[2].get("id").unwrap().as_str(), Some("m3"));
    assert_eq!(data[2].get("owned_by").unwrap().as_str(), Some("b"));
}
