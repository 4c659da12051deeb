use tokenguard::config::{
    AuthScheme, BudgetPeriod, Limit, LimitAction, LimitGroup, LimitMetric, LimitPeriod, LimitScope,
    ModelMapping, Project, Provider, ProviderFormat,
};
use tokenguard::schedule::{cooldown_allows, cooldown_mark, cooldown_peek, Cooldowns, WARNING_COOLDOWN_MS};
use tokenguard::state::{limit_scope_matches, limit_scope_matches_group, route_in_list};

fn provider(name: &str, family: ProviderFormat, models: &[&str], is_default: bool) -> Provider {
    Provider {
        id: 0,
        name: name.to_string(),
        base_url: "https://example.com".to_string(),
        format: family,
        auth: AuthScheme::Bearer,
        models: models
            .iter()
            .map(|s| ModelMapping {
                local: s.to_string(),
                remote: s.to_string(),
                input_cost_per_1k: None,
                output_cost_per_1k: None,
                cached_input_cost_per_1k: None,
            })
            .collect(),
        is_default,
        fallback_provider_id: None,
        extra_headers: Vec::new(),
    }
}

#[test]
fn route_by_model_match() {
    let providers = vec![
        provider("OpenAI", ProviderFormat::OpenAI, &["gpt-4o"], true),
        provider("Anthropic", ProviderFormat::Anthropic, &["sonnet-3"], true),
    ];
    let chosen = route_in_list(&providers, ProviderFormat::OpenAI, "gpt-4o");
    assert_eq!(chosen.unwrap().name, "OpenAI");
}

#[test]
fn route_falls_back_to_default() {
    let providers = vec![
        provider("OpenAI", ProviderFormat::OpenAI, &["gpt-4o"], true),
        provider("Backup", ProviderFormat::OpenAI, &["gpt-3.5"], false),
    ];
    let chosen = route_in_list(&providers, ProviderFormat::OpenAI, "unknown-model");
    assert_eq!(chosen.unwrap().name, "OpenAI");
}

#[test]
fn route_falls_back_to_any_provider() {
    let providers = vec![provider("OpenAI", ProviderFormat::OpenAI, &["gpt-4o"], false)];
    let chosen = route_in_list(&providers, ProviderFormat::Anthropic, "other");
    assert_eq!(chosen.unwrap().name, "OpenAI");
}

#[test]
fn route_matches_across_formats() {
    let providers = vec![provider("OpenAI", ProviderFormat::OpenAI, &["gpt-4o"], false)];
    let chosen = route_in_list(&providers, ProviderFormat::Anthropic, "gpt-4o");
    assert_eq!(chosen.unwrap().name, "OpenAI");
}

#[test]
fn route_falls_back_to_default_when_model_missing() {
    let providers = vec![provider("OpenAI", ProviderFormat::OpenAI, &["gpt-4o"], true)];
    let chosen = route_in_list(&providers, ProviderFormat::Anthropic, "sonnet-3");
    assert_eq!(chosen.unwrap().name, "OpenAI");
}

#[test]
fn route_in_an_empty_list_finds_nothing() {
    let providers: Vec<Provider> = Vec::new();
    assert!(route_in_list(&providers, ProviderFormat::OpenAI, "gpt-4o").is_none());
}

fn mk_limit(scope: LimitScope, scope_id: Option<i64>) -> Limit {
    Limit {
        id: 1,
        name: "test".into(),
        metric: LimitMetric::Requests,
        period: LimitPeriod::Daily,
        cap: 10_000_000,
        warning_threshold: 800_000,
        scope,
        scope_id,
        action: LimitAction::Warn,
        enabled: true,
        active_hours_start: None,
        active_hours_end: None,
        active_days: 0b1111111,
        model_pattern: None,
    }
}

#[test]
fn limit_global_scope_matches_anything() {
    let limit = mk_limit(LimitScope::Global, None);
    assert!(limit_scope_matches(&limit, 99, Some("any"), Some("m"), &[]));
}

#[test]
fn limit_provider_scope_matches_id() {
    let limit = mk_limit(LimitScope::Provider, Some(7));
    assert!(limit_scope_matches(&limit, 7, None, Some("m"), &[]));
    assert!(!limit_scope_matches(&limit, 8, None, Some("m"), &[]));
}

#[test]
fn limit_project_scope_matches_tag() {
    let projects = vec![Project {
        id: 3,
        name: "cursor-app".into(),
        label_key: "tg_abc".into(),
        budget: 0,
        budget_period: BudgetPeriod::Daily,
        budget_action: LimitAction::Warn,
    }];
    let limit = mk_limit(LimitScope::Project, Some(3));
    assert!(limit_scope_matches(&limit, 1, Some("cursor-app"), Some("m"), &projects));
    assert!(!limit_scope_matches(&limit, 1, Some("other"), Some("m"), &projects));
    assert!(!limit_scope_matches(&limit, 1, None, Some("m"), &projects));
}

#[test]
fn limit_model_scope_matches_pattern() {
    let mut limit = mk_limit(LimitScope::Model, None);
    limit.model_pattern = Some("gpt-4".into());
    assert!(limit_scope_matches(&limit, 1, None, Some("gpt-4o"), &[]));
    assert!(!limit_scope_matches(&limit, 1, None, Some("sonnet"), &[]));
    assert!(!limit_scope_matches(&limit, 1, None, None, &[]));
}

#[test]
fn limit_model_pattern_narrows_other_scopes() {
    let mut limit = mk_limit(LimitScope::Global, None);
    limit.model_pattern = Some("sonnet".into());
    assert!(limit_scope_matches(&limit, 1, None, Some("sonnet-4"), &[]));
    assert!(!limit_scope_matches(&limit, 1, None, Some("gpt-4o"), &[]));
}

#[test]
fn limit_model_scope_without_pattern_matches_everything() {
    let limit = mk_limit(LimitScope::Model, None);
    assert!(limit_scope_matches(&limit, 1, None, Some("gpt-4o"), &[]));
    assert!(limit_scope_matches(&limit, 1, None, None, &[]));
}

#[test]
fn limit_blank_model_pattern_is_ignored() {
    let mut limit = mk_limit(LimitScope::Global, None);
    limit.model_pattern = Some("   ".into());
    assert!(limit_scope_matches(&limit, 1, None, Some("gpt-4o"), &[]));
}

#[test]
fn group_model_scope_without_pattern_matches_everything() {
    let group = LimitGroup {
        id: 1,
        name: "g".into(),
        metric: LimitMetric::Requests,
        period: LimitPeriod::Daily,
        cap: 10_000_000,
        warning_threshold: 800_000,
        scope: LimitScope::Model,
        scope_id: None,
        action: LimitAction::Warn,
        enabled: true,
        active_hours_start: None,
        active_hours_end: None,
        active_days: 0b1111111,
        model_pattern: None,
        member_limit_ids: Vec::new(),
    };
    assert!(limit_scope_matches_group(&group, 1, None, Some("gpt-4o"), &[]));
}

#[test]
fn cooldown_allows_first_notification() {
    assert!(cooldown_allows(None, 1_000));
}

#[test]
fn cooldown_blocks_within_window() {
    let now: u64 = 1_000_000;
    assert!(!cooldown_allows(Some(now), now));
    assert!(!cooldown_allows(Some(now), now + WARNING_COOLDOWN_MS - 1_000));
}

#[test]
fn cooldown_allows_after_window() {
    let now: u64 = 1_000_000;
    assert!(cooldown_allows(Some(now), now + WARNING_COOLDOWN_MS + 1_000));
}

#[test]
fn cooldown_peek_does_not_record() {
    let mut map = Cooldowns::new();
    let now: u64 = 5_000;
    assert!(cooldown_peek(&map, 1, now));
    assert!(cooldown_peek(&map, 1, now));
    cooldown_mark(&mut map, 1, now);
    assert!(!cooldown_peek(&map, 1, now));
    assert!(cooldown_peek(&map, 2, now));
}
