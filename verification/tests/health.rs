use tokenguard::config::ProviderFormat;
use tokenguard::health::{probe_endpoints, HealthCache, ProviderHealth};

#[test]
fn trailing_slashes_do_not_double_up() {
    for base in ["https://api.example.com", "https://api.example.com/"] {
        assert_eq!(
            probe_endpoints(base, ProviderFormat::Anthropic),
            vec!["https://api.example.com/v1/models".to_string()],
            "base {base:?}"
        );
    }
}

#[test]
fn google_probes_only_its_own_versioned_path() {
    assert_eq!(
        probe_endpoints("https://generativelanguage.googleapis.com", ProviderFormat::Google),
        vec!["https://generativelanguage.googleapis.com/v1beta/models".to_string()]
    );
}

#[test]
fn openai_falls_back_to_health_after_models() {
    assert_eq!(
        probe_endpoints("https://api.openai.com", ProviderFormat::OpenAI),
        vec![
            "https://api.openai.com/v1/models".to_string(),
            "https://api.openai.com/v1/health".to_string(),
        ]
    );
}

#[test]
fn every_format_probes_at_least_one_endpoint() {
    for format in [
        ProviderFormat::OpenAI,
        ProviderFormat::Anthropic,
        ProviderFormat::Google,
        ProviderFormat::Responses,
    ] {
        let endpoints = probe_endpoints("https://x.test", format);
        assert!(!endpoints.is_empty(), "{format:?} has no probe endpoint");
        for url in endpoints {
            assert!(url.starts_with("https://x.test/"), "malformed url {url}");
        }
    }
}

#[test]
fn cache_returns_the_latest_insert_per_provider() {
    let mut cache = HealthCache::default();
    assert!(cache.all().is_empty());

    let down = ProviderHealth {
        ok: false,
        latency_ms: 10,
        error: Some("boom".into()),
        checked_at: "2026-01-01T00:00:00Z".into(),
    };
    let up = ProviderHealth {
        ok: true,
        latency_ms: 20,
        error: None,
        checked_at: "2026-01-01T00:01:00Z".into(),
    };
    cache.insert(1, down);
    cache.insert(1, up);
    cache.insert(
        2,
        ProviderHealth {
            ok: false,
            latency_ms: 30,
            error: None,
            checked_at: "2026-01-01T00:02:00Z".into(),
        },
    );

    let all = cache.all();
    assert_eq!(all.len(), 2);
    assert!(all[&1].ok, "the newer insert must win");
    assert_eq!(all[&1].latency_ms, 20);
    assert!(!all[&2].ok);
}

#[test]
fn many_slashes_are_all_trimmed() {
    assert_eq!(
        probe_endpoints("https://h.test///", ProviderFormat::Responses),
        vec!["https://h.test/v1/models".to_string()]
    );
}
