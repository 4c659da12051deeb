use tokenguard::cli::limits::{apply_limit_update, parse_period, period_str, LimitChanges};
use tokenguard::cli::providers::{apply_provider_update, cli_key_change, is_missing_key_error, ProviderChanges};
use tokenguard::commands::KeyChange;
use tokenguard::config::{
    AuthScheme, Limit, LimitAction, LimitMetric, LimitPeriod, LimitScope, ModelMapping, Provider, ProviderFormat,
};

fn existing_limit() -> Limit {
    Limit {
        id: 7,
        name: "daily spend".to_string(),
        metric: LimitMetric::Money,
        period: LimitPeriod::Daily,
        cap: 5_000_000,
        warning_threshold: 800_000,
        scope: LimitScope::Global,
        scope_id: None,
        action: LimitAction::Warn,
        enabled: true,
        active_hours_start: None,
        active_hours_end: None,
        active_days: 0b1111111,
        model_pattern: None,
    }
}

fn no_limit_changes() -> LimitChanges {
    LimitChanges {
        name: None,
        metric: None,
        cap: None,
        action: None,
        period: None,
        warning_threshold: None,
        enabled: None,
        scope: None,
        scope_id: None,
        model_pattern: None,
        active_hours_start: None,
        active_hours_end: None,
        active_days: None,
    }
}

#[test]
fn limit_update_changes_only_what_is_given() {
    let mut c = no_limit_changes();
    c.cap = Some(10_000_000);
    c.action = Some("BLOCK".to_string());
    c.period = Some("weekly".to_string());
    let l = apply_limit_update(&existing_limit(), c).unwrap();
    assert_eq!(l.id, 7);
    assert_eq!(l.name, "daily spend");
    assert_eq!(l.cap, 10_000_000);
    assert_eq!(l.action, LimitAction::Block);
    assert_eq!(l.period, LimitPeriod::Weekly);
    assert_eq!(l.metric, LimitMetric::Money);
    assert_eq!(l.warning_threshold, 800_000);
}

#[test]
fn limit_update_reports_a_bad_argument() {
    let mut c = no_limit_changes();
    c.metric = Some("bananas".to_string());
    c.action = Some("nope".to_string());
    assert_eq!(
        apply_limit_update(&existing_limit(), c).err(),
        Some("unknown metric 'bananas'; use money, tokens, requests, time, rpm, tpm".to_string())
    );
}

#[test]
fn limit_update_is_checked_like_a_new_limit() {
    let mut c = no_limit_changes();
    c.scope = Some("provider".to_string());
    assert_eq!(
        apply_limit_update(&existing_limit(), c).err(),
        Some("scope_id is required for provider/project scope".to_string())
    );
    let mut d = no_limit_changes();
    d.scope = Some("provider".to_string());
    d.scope_id = Some(3);
    let l = apply_limit_update(&existing_limit(), d).unwrap();
    assert_eq!((l.scope, l.scope_id), (LimitScope::Provider, Some(3)));
}

fn existing_provider() -> Provider {
    Provider {
        id: 2,
        name: "openai".to_string(),
        base_url: "https://api.openai.com".to_string(),
        format: ProviderFormat::OpenAI,
        auth: AuthScheme::Bearer,
        models: vec![ModelMapping {
            local: "gpt".to_string(),
            remote: "gpt-4o".to_string(),
            input_cost_per_1k: None,
            output_cost_per_1k: None,
            cached_input_cost_per_1k: None,
        }],
        is_default: true,
        fallback_provider_id: Some(9),
        extra_headers: vec![("X-A".to_string(), "1".to_string())],
    }
}

fn no_provider_changes() -> ProviderChanges {
    ProviderChanges {
        name: None,
        base_url: None,
        format: None,
        key: None,
        auth: None,
        is_default: None,
        models: None,
        fallback_provider_id: None,
        extra_headers: Vec::new(),
        clear_key: false,
    }
}

#[test]
fn provider_update_merges_the_given_options() {
    let mut c = no_provider_changes();
    c.name = Some("openai-2".to_string());
    c.key = Some("sk-x".to_string());
    c.auth = Some("X-Api-Key".to_string());
    c.extra_headers = vec!["X-B=2".to_string()];
    let p = apply_provider_update(&existing_provider(), c).unwrap();
    assert_eq!(p.id, 2);
    assert_eq!(p.name, "openai-2");
    assert_eq!(p.base_url, "https://api.openai.com");
    assert_eq!(p.auth, AuthScheme::XApiKey);
    assert_eq!(p.extra_headers, vec![("X-B".to_string(), "2".to_string())]);
    assert_eq!(p.models.len(), 1);
    assert_eq!(p.fallback_provider_id, Some(9));
}

#[test]
fn provider_update_without_a_key_is_refused() {
    let mut c = no_provider_changes();
    c.is_default = Some(false);
    assert_eq!(apply_provider_update(&existing_provider(), c).err(), Some("API key cannot be empty".to_string()));
}

#[test]
fn provider_update_reports_a_bad_format() {
    let mut c = no_provider_changes();
    c.format = Some("cohere".to_string());
    c.key = Some("k".to_string());
    assert_eq!(
        apply_provider_update(&existing_provider(), c).err(),
        Some("unknown format 'cohere'; use openai, anthropic, google, or responses".to_string())
    );
}

#[test]
fn cli_key_change_stores_even_an_empty_key() {
    assert!(matches!(cli_key_change(false, Some(""), "a", "a"), KeyChange::Replace { delete_old: None }));
    assert!(matches!(cli_key_change(false, None, "a", "b"), KeyChange::Move { .. }));
    assert!(matches!(cli_key_change(true, Some("k"), "a", "b"), KeyChange::Clear { .. }));
}

#[test]
fn missing_key_errors_are_recognised() {
    assert!(is_missing_key_error("NoEntry: nothing stored"));
    assert!(is_missing_key_error("keychain: No entry found"));
    assert!(!is_missing_key_error("access denied"));
}

#[test]
fn legacy_budget_becomes_a_daily_money_limit() {
    assert!(tokenguard::config::legacy_budget_limit(1, 5_000_000).is_none());
    assert!(tokenguard::config::legacy_budget_limit(0, 0).is_none());
    let l = tokenguard::config::legacy_budget_limit(0, 5_000_000).unwrap();
    assert_eq!(l.name, "Daily budget");
    assert_eq!((l.metric, l.period, l.cap, l.warning_threshold), (LimitMetric::Money, LimitPeriod::Daily, 5_000_000, 800_000));
    assert_eq!((l.scope, l.action, l.enabled), (LimitScope::Global, LimitAction::Warn, true));
}

#[test]
fn periods_read_back_what_is_written() {
    for p in [LimitPeriod::Once, LimitPeriod::Hourly, LimitPeriod::Daily, LimitPeriod::Weekly, LimitPeriod::Monthly, LimitPeriod::CustomSec(3600)] {
        assert_eq!(parse_period(&period_str(&p)), Ok(p));
    }
    assert_eq!(period_str(&LimitPeriod::CustomSec(18000)), "custom_sec:18000");
    assert_eq!(parse_period("DAILY"), parse_period("daily"));
    assert!(parse_period("custom_sec:abc").is_err());
    assert!(parse_period("custom_sec:-1").is_err());
    assert!(parse_period("fortnightly").is_err());
    assert!(parse_period("calendar_week").is_err());
}

#[test]
fn unknown_stored_periods_read_as_daily() {
    assert_eq!(LimitPeriod::from_db_str("calendar_week"), LimitPeriod::Daily);
    assert_eq!(LimitPeriod::from_db_str("calendar_month"), LimitPeriod::Daily);
    assert_eq!(LimitPeriod::from_db_str("custom_sec"), LimitPeriod::CustomSec(0));
    assert_eq!(LimitPeriod::from_db_str("weekly"), LimitPeriod::Weekly);
}
