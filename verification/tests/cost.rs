use tokenguard::cost::{
    estimate, estimate_request, lookup, pico_to_millionths, ContextTier, PriceEntry, PricingProfile, TimeTier,
    UsageBreakdown,
};
use tokenguard::json::{Json, JsonNumber};
use tokenguard::schedule::Clock;

/// Nano-dollars per 1K tokens for a price in dollars per 1K tokens.
fn per_1k(dollars: f64) -> u64 {
    (dollars * 1e9).round() as u64
}

/// Pico-dollars for an amount in dollars.
fn pico(dollars: f64) -> u128 {
    (dollars * 1e12).round() as u128
}

fn entry(pattern: &str, input: f64, output: f64, cached: Option<f64>) -> PriceEntry {
    PriceEntry {
        pattern: pattern.to_string(),
        match_type: "prefix".to_string(),
        profile: PricingProfile {
            input_per_1k: Some(per_1k(input)),
            output_per_1k: Some(per_1k(output)),
            cached_input_per_1k: cached.map(per_1k),
            ..Default::default()
        },
    }
}

/// The entries the cases below rely on, with the prices they quote.
fn table() -> Vec<PriceEntry> {
    vec![entry("gpt-4o", 0.0025, 0.01, Some(0.00125)), entry("gpt-4o-mini", 0.00015, 0.0006, Some(0.000075))]
}

fn usage(prompt: u64, completion: u64, cached: u64, reasoning: u64) -> UsageBreakdown {
    UsageBreakdown { prompt_tokens: prompt, completion_tokens: completion, cached_tokens: cached, reasoning_tokens: reasoning, timestamp: None }
}

#[test]
fn estimate_known_model() {
    let cost = estimate(&table(), "gpt-4o", "gpt-4o", &usage(1000, 500, 0, 0), &PricingProfile::default());
    assert_eq!(cost, pico(0.0075));
}

#[test]
fn estimate_unknown_model_falls_back_to_zero() {
    let cost = estimate(&table(), "some-local-model", "some-local-model", &usage(1000, 500, 0, 0), &PricingProfile::default());
    assert_eq!(cost, 0);
}

#[test]
fn estimate_override_wins() {
    let p = PricingProfile { input_per_1k: Some(per_1k(1.0)), output_per_1k: Some(per_1k(2.0)), ..Default::default() };
    let cost = estimate(&table(), "gpt-4o", "gpt-4o", &usage(1000, 500, 0, 0), &p);
    assert_eq!(cost, pico(2.0));
}

#[test]
fn estimate_partial_override_uses_table_for_missing_side() {
    let p = PricingProfile { input_per_1k: Some(per_1k(1.0)), ..Default::default() };
    let cost = estimate(&table(), "gpt-4o-mini", "gpt-4o-mini", &usage(1000, 500, 0, 0), &p);
    assert_eq!(cost, pico(1.0003));
}

#[test]
fn estimate_cached_tokens_cheaper() {
    let p = PricingProfile {
        input_per_1k: Some(per_1k(2.5)),
        output_per_1k: Some(per_1k(10.0)),
        cached_input_per_1k: Some(per_1k(0.5)),
        ..Default::default()
    };
    let cost = estimate(&table(), "gpt-4o", "gpt-4o", &usage(1000, 100, 500, 0), &p);
    assert_eq!(cost, pico(2.5));
}

#[test]
fn estimate_cached_tokens_use_table_cache_price() {
    let cost = estimate(&table(), "gpt-4o", "gpt-4o", &usage(1000, 100, 500, 0), &PricingProfile::default());
    assert_eq!(cost, pico(0.002875));
}

#[test]
fn estimate_context_tier_selects_correct_band() {
    let p = PricingProfile {
        context_tiers: Some(vec![
            ContextTier { max_context_tokens: Some(128_000), input_per_1k: per_1k(0.1), output_per_1k: per_1k(0.2), cached_input_per_1k: None },
            ContextTier { max_context_tokens: None, input_per_1k: per_1k(0.5), output_per_1k: per_1k(1.0), cached_input_per_1k: None },
        ]),
        ..Default::default()
    };
    let small = estimate(&table(), "tiered-model", "tiered-model", &usage(1000, 500, 0, 0), &p);
    assert_eq!(small, pico(0.2));
    let large = estimate(&table(), "tiered-model", "tiered-model", &usage(200_000, 500, 0, 0), &p);
    assert_eq!(large, pico(100.5));
}

#[test]
fn estimate_time_tier_selects_correct_band() {
    let p = PricingProfile {
        time_tiers: Some(vec![
            TimeTier {
                name: "peak".to_string(),
                days: vec![0, 1, 2, 3, 4, 5, 6],
                start: "09:00".to_string(),
                end: "17:59".to_string(),
                input_per_1k: per_1k(2.0),
                output_per_1k: per_1k(4.0),
                cached_input_per_1k: None,
            },
            TimeTier {
                name: "off-peak".to_string(),
                days: vec![0, 1, 2, 3, 4, 5, 6],
                start: "18:00".to_string(),
                end: "08:59".to_string(),
                input_per_1k: per_1k(0.5),
                output_per_1k: per_1k(1.0),
                cached_input_per_1k: None,
            },
        ]),
        ..Default::default()
    };
    // 2026-01-05 is a Monday.
    let mut u = usage(1000, 500, 0, 0);
    u.timestamp = Some(Clock { weekday: 0, minute_of_day: 12 * 60 });
    assert_eq!(estimate(&table(), "time-tiered-model", "time-tiered-model", &u, &p), pico(4.0));
    u.timestamp = Some(Clock { weekday: 0, minute_of_day: 20 * 60 });
    assert_eq!(estimate(&table(), "time-tiered-model", "time-tiered-model", &u, &p), pico(1.0));
}

#[test]
fn estimate_reasoning_tokens_charged_separately() {
    let p = PricingProfile { output_per_1k: Some(per_1k(10.0)), reasoning_per_1k: Some(per_1k(5.0)), ..Default::default() };
    let cost = estimate(&table(), "reasoning-model", "reasoning-model", &usage(1000, 500, 0, 300), &p);
    assert_eq!(cost, pico(3.5));
}

#[test]
fn estimate_batch_discount_and_request_fee() {
    let p = PricingProfile {
        input_per_1k: Some(per_1k(1.0)),
        output_per_1k: Some(per_1k(2.0)),
        batch_discount: Some(500_000),
        request_fee: Some(per_1k(0.01)),
        ..Default::default()
    };
    let cost = estimate(&table(), "batch-model", "batch-model", &usage(1000, 500, 0, 0), &p);
    assert_eq!(cost, pico(1.01));
}

#[test]
fn lookup_mini_beats_base_model() {
    let t = table();
    let i = lookup(&t, "gpt-4o-mini").unwrap();
    assert_eq!(t[i].profile.input_per_1k, Some(per_1k(0.00015)));
    assert_eq!(t[i].profile.output_per_1k, Some(per_1k(0.0006)));
    // The order of the table does not matter: the longest pattern wins.
    let rev: Vec<PriceEntry> = table().into_iter().rev().collect();
    let j = lookup(&rev, "GPT-4o-mini-2024").unwrap();
    assert_eq!(rev[j].pattern, "gpt-4o-mini");
}

fn body(pairs: &[(&str, u64)]) -> Json {
    Json::Object(pairs.iter().map(|(k, v)| (k.to_string(), Json::Number(JsonNumber::PosInt(*v)))).collect())
}

#[test]
fn estimate_request_multiplication_saturates() {
    // 2^32 * 2^32 would wrap to 0 in u64, faking a $0 estimate.
    let b = body(&[("max_tokens", 4294967296), ("n", 4294967296)]);
    let (cost, tokens) = estimate_request(&table(), &b, "gpt-4o", "gpt-4o", &PricingProfile::default(), Clock { weekday: 0, minute_of_day: 0 });
    assert_eq!(tokens, u64::MAX);
    assert!(cost > 0, "expected a non-zero estimate, got {cost}");
}

#[test]
fn estimate_request_normal_values() {
    let b = body(&[("max_tokens", 1000), ("n", 2)]);
    let (cost, tokens) = estimate_request(&table(), &b, "gpt-4o", "gpt-4o", &PricingProfile::default(), Clock { weekday: 0, minute_of_day: 0 });
    assert_eq!(tokens, 2000);
    assert_eq!(cost, pico(0.02));
}

#[test]
fn estimate_request_reads_the_first_declared_limit() {
    let b = body(&[("max_output_tokens", 300)]);
    let (_, tokens) = estimate_request(&table(), &b, "x", "x", &PricingProfile::default(), Clock { weekday: 0, minute_of_day: 0 });
    assert_eq!(tokens, 300);
    let zero_n = body(&[("max_completion_tokens", 10), ("n", 0)]);
    let (_, tokens) = estimate_request(&table(), &zero_n, "x", "x", &PricingProfile::default(), Clock { weekday: 0, minute_of_day: 0 });
    assert_eq!(tokens, 10);
}

#[test]
fn context_band_ties_and_wrapping_time_band() {
    let p = PricingProfile {
        context_tiers: Some(vec![
            ContextTier { max_context_tokens: None, input_per_1k: 7, output_per_1k: 0, cached_input_per_1k: None },
            ContextTier { max_context_tokens: Some(100), input_per_1k: 3, output_per_1k: 0, cached_input_per_1k: None },
            ContextTier { max_context_tokens: Some(50), input_per_1k: 2, output_per_1k: 0, cached_input_per_1k: None },
            ContextTier { max_context_tokens: Some(50), input_per_1k: 9, output_per_1k: 0, cached_input_per_1k: None },
        ]),
        ..Default::default()
    };
    assert_eq!(estimate(&[], "m", "m", &usage(10, 0, 0, 0), &p), 20);
    assert_eq!(estimate(&[], "m", "m", &usage(60, 0, 0, 0), &p), 180);
    assert_eq!(estimate(&[], "m", "m", &usage(101, 0, 0, 0), &p), 707);
}

#[test]
fn cost_in_millionths_rounds_up() {
    assert_eq!(pico_to_millionths(0), 0);
    assert_eq!(pico_to_millionths(1), 1);
    assert_eq!(pico_to_millionths(2_000_000), 2);
    assert_eq!(pico_to_millionths(u128::MAX), u64::MAX);
}
