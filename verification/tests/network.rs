use tokenguard::backend::is_auto_export_due;
use tokenguard::commands::{get_limit_presets, validate_provider_input};
use tokenguard::config::{AuthScheme, LimitAction, LimitMetric, LimitPeriod, LimitScope};
use tokenguard::json::{Json, JsonNumber};
use tokenguard::proxy::forwarder::{auth_headers, is_chat_or_completions, is_passthrough_header, is_retryable_status};
use tokenguard::proxy::server::{error_body, extract_client_key, HeaderEntry};
use tokenguard::share::{
    detect_mode, endpoint, is_tailscale_ip, parse_self_dns_name, preferred_lan_ip, tailscale_ipv4, Ipv4, SelfNode,
    ShareMode, TailscaleStatus,
};

fn headers(pairs: &[(&str, &str)]) -> Vec<HeaderEntry> {
    pairs.iter().map(|(n, v)| (n.to_string(), Some(v.to_string()))).collect()
}

#[test]
fn extract_client_key_reads_bearer_header() {
    let h = headers(&[("authorization", "Bearer tg_project_key_123")]);
    assert_eq!(extract_client_key(&h, None), Some("tg_project_key_123".to_string()));
}

#[test]
fn extract_client_key_reads_x_api_key_header() {
    let h = headers(&[("x-api-key", "anthropic_project_key")]);
    assert_eq!(extract_client_key(&h, None), Some("anthropic_project_key".to_string()));
}

#[test]
fn extract_client_key_reads_api_key_header() {
    let h = headers(&[("api-key", "azure_project_key")]);
    assert_eq!(extract_client_key(&h, None), Some("azure_project_key".to_string()));
}

#[test]
fn extract_client_key_reads_x_goog_api_key_header() {
    let h = headers(&[("x-goog-api-key", "gemini_project_key")]);
    assert_eq!(extract_client_key(&h, None), Some("gemini_project_key".to_string()));
}

#[test]
fn extract_client_key_reads_key_query_param() {
    let h: Vec<HeaderEntry> = Vec::new();
    assert_eq!(extract_client_key(&h, Some("alt=sse&key=gemini_project_key")), Some("gemini_project_key".to_string()));
}

#[test]
fn extract_client_key_returns_none_when_missing() {
    let h: Vec<HeaderEntry> = Vec::new();
    assert_eq!(extract_client_key(&h, None), None);
    assert_eq!(extract_client_key(&h, Some("alt=sse")), None);
}

#[test]
fn non_bearer_authorization_falls_through() {
    let h = headers(&[("authorization", "Basic abc"), ("x-api-key", "k2")]);
    assert_eq!(extract_client_key(&h, None), Some("k2".to_string()));
    let opaque: Vec<HeaderEntry> = vec![("x-api-key".to_string(), None), ("api-key".to_string(), Some("k3".to_string()))];
    assert_eq!(extract_client_key(&opaque, None), Some("k3".to_string()));
}

#[test]
fn tailscale_range_detection() {
    assert!(is_tailscale_ip(Some((100, 100, 100, 100))));
    assert!(is_tailscale_ip(Some((100, 64, 0, 1))));
    assert!(is_tailscale_ip(Some((100, 127, 255, 254))));
    assert!(!is_tailscale_ip(Some((100, 63, 255, 255))));
    assert!(!is_tailscale_ip(Some((100, 128, 0, 1))));
    assert!(!is_tailscale_ip(Some((192, 168, 1, 5))));
    assert!(!is_tailscale_ip(Some((127, 0, 0, 1))));
    assert!(!is_tailscale_ip(None));
}

#[test]
fn serve_endpoint_uses_path_prefix() {
    assert_eq!(endpoint(&ShareMode::Serve("h.tail.ts.net".into()), 3742), "https://h.tail.ts.net/tg");
    assert_eq!(endpoint(&ShareMode::Direct("100.100.181.31".into()), 3742), "http://100.100.181.31:3742");
    assert_eq!(endpoint(&ShareMode::Unavailable, 3742), "");
}

/// Reads `tailscale status --json` output into the status shape the library
/// works on, the way a typed JSON reader would.
fn status_of(bytes: &[u8]) -> Option<TailscaleStatus> {
    let v: serde_json::Value = serde_json::from_slice(bytes).ok()?;
    let obj = v.as_object()?;
    let self_node = match obj.get("Self") {
        None | Some(serde_json::Value::Null) => None,
        Some(serde_json::Value::Object(n)) => {
            let dns_name = match n.get("DNSName") {
                None | Some(serde_json::Value::Null) => None,
                Some(serde_json::Value::String(s)) => Some(s.clone()),
                Some(_) => return None,
            };
            let tailscale_ips = match n.get("TailscaleIPs") {
                None => Vec::new(),
                Some(serde_json::Value::Array(a)) => {
                    let mut out = Vec::new();
                    for x in a {
                        out.push(x.as_str()?.to_string());
                    }
                    out
                },
                Some(_) => return None,
            };
            Some(SelfNode { dns_name, tailscale_ips })
        },
        Some(_) => return None,
    };
    Some(TailscaleStatus { self_node })
}

fn parse(v: serde_json::Value) -> Option<String> {
    parse_bytes(v.to_string().as_bytes())
}

fn parse_bytes(b: &[u8]) -> Option<String> {
    parse_self_dns_name(&status_of(b)?)
}

fn node(dns: Option<&str>, ip: Option<&str>) -> serde_json::Value {
    let mut n = serde_json::Map::new();
    n.insert("DNSName".to_string(), dns.map(|d| serde_json::Value::String(d.to_string())).unwrap_or(serde_json::Value::Null));
    if let Some(ip) = ip {
        n.insert("TailscaleIPs".to_string(), serde_json::Value::Array(vec![serde_json::Value::String(ip.to_string())]));
    }
    let mut top = serde_json::Map::new();
    top.insert("Self".to_string(), serde_json::Value::Object(n));
    serde_json::Value::Object(top)
}

#[test]
fn parses_dns_name_and_strips_trailing_dot() {
    let v = node(Some("desktop-host.tailaf9e5c.ts.net."), Some("100.100.181.31"));
    assert_eq!(parse(v), Some("desktop-host.tailaf9e5c.ts.net".to_string()));
}

#[test]
fn falls_back_to_tailscale_ip_without_dns_name() {
    let v = node(None, Some("100.64.81.26"));
    assert_eq!(parse(v), Some("100.64.81.26".to_string()));
}

#[test]
fn handles_missing_self_node() {
    assert_eq!(parse(serde_json::Value::Object(serde_json::Map::new())), None);
}

#[test]
fn handles_non_json_output() {
    assert_eq!(parse_bytes(b"tailscale: not logged in"), None);
}

#[test]
fn falls_back_to_ip_when_dns_name_is_blank() {
    let v = node(Some(""), Some("100.64.81.26"));
    assert_eq!(parse(v), Some("100.64.81.26".to_string()));
}

#[test]
fn mode_prefers_the_tailnet_address() {
    assert!(matches!(detect_mode(Some("100.64.0.2".into()), Some("h".into())), ShareMode::Direct(ip) if ip == "100.64.0.2"));
    assert!(matches!(detect_mode(None, Some("h".into())), ShareMode::Serve(h) if h == "h"));
    assert!(matches!(detect_mode(None, None), ShareMode::Unavailable));
    let addrs: Vec<Option<Ipv4>> = vec![None, Some((192, 168, 0, 4)), Some((100, 90, 1, 2))];
    assert_eq!(tailscale_ipv4(&addrs), Some((100, 90, 1, 2)));
}

#[test]
fn lan_address_prefers_private_and_skips_vpn_and_loopback() {
    let ifs: Vec<(String, Option<Ipv4>)> = vec![
        ("lo".into(), Some((127, 0, 0, 1))),
        ("wg0".into(), Some((10, 8, 0, 2))),
        ("eth1".into(), Some((203, 0, 113, 9))),
        ("eth0".into(), Some((192, 168, 1, 20))),
        ("eth2".into(), None),
    ];
    assert_eq!(preferred_lan_ip(&ifs), Some("192.168.1.20".to_string()));
    let public_only: Vec<(String, Option<Ipv4>)> = vec![("eth1".into(), Some((203, 0, 113, 9)))];
    assert_eq!(preferred_lan_ip(&public_only), Some("203.0.113.9".to_string()));
    let none: Vec<(String, Option<Ipv4>)> = vec![("utun3".into(), Some((10, 0, 0, 1)))];
    assert_eq!(preferred_lan_ip(&none), None);
}

#[test]
fn forwarded_headers_and_auth() {
    assert!(!is_passthrough_header("Authorization"));
    assert!(!is_passthrough_header("HOST"));
    assert!(is_passthrough_header("x-request-id"));
    assert_eq!(auth_headers(AuthScheme::Bearer, "k"), vec![("authorization".to_string(), "Bearer k".to_string())]);
    assert_eq!(
        auth_headers(AuthScheme::XApiKey, "k"),
        vec![("x-api-key".to_string(), "k".to_string()), ("anthropic-version".to_string(), "2023-06-01".to_string())]
    );
    assert_eq!(auth_headers(AuthScheme::XGoogApiKey, "k"), vec![("x-goog-api-key".to_string(), "k".to_string())]);
    assert!(is_retryable_status(503));
    assert!(is_retryable_status(429));
    assert!(!is_retryable_status(404));
    let body = Json::Object(vec![("prompt".to_string(), Json::Str("x".to_string()))]);
    assert!(is_chat_or_completions(&body));
    assert!(!is_chat_or_completions(&Json::Object(vec![("n".to_string(), Json::Number(JsonNumber::PosInt(1)))])));
}

#[test]
fn error_body_has_the_openai_shape() {
    let b = error_body("nope");
    let e = b.get("error").unwrap();
    assert_eq!(e.get("message").unwrap().as_str(), Some("nope"));
    assert_eq!(e.get("type").unwrap().as_str(), Some("tokenguard"));
}

#[test]
fn presets_are_the_five_offered() {
    let p = get_limit_presets();
    assert_eq!(p.len(), 5);
    assert_eq!(p[0].name, "$50 / day");
    assert!(p[0].input.metric == LimitMetric::Money && p[0].input.period == LimitPeriod::Daily);
    assert_eq!(p[0].input.cap, 50_000_000);
    assert_eq!(p[1].input.cap, 1_000_000_000_000);
    assert!(p[2].input.action == LimitAction::Block);
    assert_eq!(p[2].input.warning_threshold, 900_000);
    assert_eq!(p[3].input.cap, 18_000_000_000);
    assert!(p[4].input.period == LimitPeriod::Weekly);
    assert!(p.iter().all(|x| x.input.scope == LimitScope::Global && x.input.enabled && x.input.active_days == 0b1111111));
}

#[test]
fn auto_export_due_rules() {
    assert!(!is_auto_export_due(0, Some("/tmp/x"), true, None, 0));
    assert!(!is_auto_export_due(7, None, true, None, 0));
    assert!(!is_auto_export_due(7, Some(""), true, None, 0));
    assert!(!is_auto_export_due(7, Some("/gone"), false, None, 0));
    assert!(is_auto_export_due(7, Some("/x"), true, None, 0));
    let day = 86_400_000i64;
    assert!(!is_auto_export_due(7, Some("/x"), true, Some(0), 6 * day));
    assert!(is_auto_export_due(7, Some("/x"), true, Some(0), 8 * day));
}

#[test]
fn provider_input_validation() {
    assert_eq!(validate_provider_input("  ", "http://x"), Err("provider name is required".to_string()));
    assert_eq!(validate_provider_input("p", " "), Err("provider base URL is required".to_string()));
    assert_eq!(validate_provider_input("p", "nope"), Err("provider base URL is not valid".to_string()));
    assert_eq!(validate_provider_input("p", "  https://api.openai.com/v1  "), Ok(()));
    assert_eq!(validate_provider_input("p", "http://x"), Ok(()));
}

#[test]
fn models_list_needs_a_known_project_key() {
    let projects = vec![tokenguard::config::Project {
        id: 1,
        name: "app".to_string(),
        label_key: "tg_app".to_string(),
        budget: 0,
        budget_period: tokenguard::config::BudgetPeriod::Daily,
        budget_action: LimitAction::Warn,
    }];
    let (status, body) = tokenguard::proxy::gate::models_reply(&headers(&[]), None, &projects, &[]);
    assert_eq!(status, 401);
    assert!(body.get("error").is_some());
    let (status, body) = tokenguard::proxy::gate::models_reply(&headers(&[("authorization", "Bearer nope")]), None, &projects, &[]);
    assert_eq!(status, 401);
    assert!(body.get("data").is_none());
    let (status, body) = tokenguard::proxy::gate::models_reply(&headers(&[("authorization", "Bearer tg_app")]), None, &projects, &[]);
    assert_eq!(status, 200);
    assert_eq!(body.get("object").and_then(|o| o.as_str()), Some("list"));
}
