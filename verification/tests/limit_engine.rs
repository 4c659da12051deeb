use tokenguard::config::{Limit, LimitAction, LimitMetric, LimitPeriod, LimitScope};
use tokenguard::schedule::Clock;
use tokenguard::state::{
    screen_limits, LimitEffect, LimitPhase, LimitState, RequestSettlement, ViolationAction, ViolationNotice,
    ViolationOutcome,
};

const NOON: Clock = Clock { weekday: 2, minute_of_day: 720 };

fn limit(id: i64, name: &str, metric: LimitMetric, cap: u64, action: LimitAction) -> Limit {
    Limit {
        id,
        name: name.to_string(),
        metric,
        period: LimitPeriod::Daily,
        cap,
        warning_threshold: 0,
        scope: LimitScope::Global,
        scope_id: None,
        action,
        enabled: true,
        active_hours_start: None,
        active_hours_end: None,
        active_days: 0b1111111,
        model_pattern: None,
    }
}

#[test]
fn request_limit_blocks_the_request_that_reaches_its_cap() {
    let mut st = LimitState::new();
    let limits = vec![limit(1, "daily requests", LimitMetric::Requests, 2_000_000, LimitAction::Block)];
    let r = st.check_limits(&limits, &[], &[], &[1_000_000], &[], 1, None, Some("gpt-4o"), 0, 0, 0, 1_000, NOON, false);
    assert_eq!(r.violations.len(), 1);
    assert_eq!(r.violations[0].used, 1_000_000);
    assert!(r.violations[0].should_notify);
    assert_eq!(r.reservations, vec![(1, 1)]);
    assert!(matches!(r.effects[0], LimitEffect::AuditHit { group: false, index: 0, total: 2_000_000 }));
    let v = ViolationAction::from_limit(&r.violations[0]);
    let applied = st.apply_violation(&v, LimitPhase::PreFlight, 1_000);
    match applied.outcome {
        ViolationOutcome::Blocked(m) => assert_eq!(m, "limit exceeded: daily requests (1/2)"),
        _ => panic!("expected a refusal"),
    }
    assert_eq!(applied.notice, Some(ViolationNotice::Blocked));
    assert!(!st.is_paused());
}

#[test]
fn request_under_the_cap_passes_and_reserves() {
    let mut st = LimitState::new();
    let limits = vec![limit(1, "daily requests", LimitMetric::Requests, 5_000_000, LimitAction::Block)];
    let r = st.check_limits(&limits, &[], &[], &[1_000_000], &[], 1, None, None, 0, 0, 0, 1_000, NOON, false);
    assert!(r.violations.is_empty());
    assert!(r.effects.is_empty());
    assert_eq!(r.reservations, vec![(1, 1)]);
}

#[test]
fn concurrency_counts_requests_in_flight_until_released() {
    let mut st = LimitState::new();
    let limits = vec![limit(4, "two at a time", LimitMetric::ConcurrentRequests, 2_000_000, LimitAction::Block)];
    let first = st.check_limits(&limits, &[], &[], &[], &[], 1, None, None, 0, 0, 0, 1_000, NOON, false);
    assert!(first.violations.is_empty());
    let second = st.check_limits(&limits, &[], &[], &[], &[], 1, None, None, 0, 0, 0, 1_001, NOON, false);
    assert_eq!(second.violations.len(), 1);
    assert_eq!(second.violations[0].used, 1_000_000);
    let mut s1 = RequestSettlement::new(&first);
    let mut s2 = RequestSettlement::new(&second);
    s2.release(&mut st);
    s1.release(&mut st);
    s1.release(&mut st);
    assert!(s1.released());
    let third = st.check_limits(&limits, &[], &[], &[], &[], 1, None, None, 0, 0, 0, 1_002, NOON, false);
    assert!(third.violations.is_empty());
}

#[test]
fn money_limit_warns_once_past_its_threshold() {
    let mut st = LimitState::new();
    let mut l = limit(2, "daily spend", LimitMetric::Money, 10_000_000, LimitAction::Block);
    l.warning_threshold = 800_000;
    let limits = vec![l];
    let r = st.check_limits(&limits, &[], &[], &[8_500_000], &[], 1, None, None, 100_000, 0, 0, 5_000, NOON, true);
    assert!(r.violations.is_empty());
    assert!(r.reservations.is_empty());
    assert_eq!(r.effects.len(), 3);
    assert!(matches!(r.effects[0], LimitEffect::AuditWarning { group: false, index: 0, used: 8_500_000 }));
    assert!(matches!(r.effects[1], LimitEffect::NotifyWarning { group: false, index: 0, used: 8_500_000 }));
    assert!(matches!(r.effects[2], LimitEffect::Webhook { group: false, hit: false, index: 0, amount: 8_500_000 }));
    let again = st.check_limits(&limits, &[], &[], &[8_600_000], &[], 1, None, None, 100_000, 0, 0, 6_000, NOON, true);
    assert!(again.effects.is_empty());
}

#[test]
fn disabled_or_unscheduled_limits_are_skipped() {
    let mut st = LimitState::new();
    let mut off = limit(1, "off", LimitMetric::Requests, 1_000_000, LimitAction::Block);
    off.enabled = false;
    let mut weekend = limit(2, "weekend", LimitMetric::Requests, 1_000_000, LimitAction::Block);
    weekend.active_days = 0b1100000;
    let r = st.check_limits(&[off, weekend], &[], &[], &[5_000_000, 5_000_000], &[], 1, None, None, 0, 0, 0, 1, NOON, false);
    assert!(r.violations.is_empty());
    assert!(r.reservations.is_empty());
}

#[test]
fn settle_releases_then_pauses_on_a_slow_request() {
    let mut st = LimitState::new();
    let limits = vec![
        limit(3, "slow", LimitMetric::TimeSec, 5_000_000, LimitAction::Pause),
        limit(4, "two at a time", LimitMetric::ConcurrentRequests, 2_000_000, LimitAction::Block),
    ];
    let pre = st.check_limits(&limits, &[], &[], &[], &[], 1, None, None, 0, 0, 0, 1_000, NOON, false);
    assert!(pre.violations.is_empty());
    assert_eq!(pre.reservations, vec![(4, 1)]);
    let settlement = RequestSettlement::new(&pre);
    let (check, applied) =
        settlement.settle(&mut st, &limits, &[], &[], &[], &[], 1, None, None, 6_000, 7_000, NOON, false);
    assert_eq!(check.violations.len(), 1);
    assert_eq!(check.violations[0].limit.id, 3);
    assert!(check.reservations.is_empty());
    assert_eq!(applied.len(), 1);
    assert!(matches!(applied[0].outcome, ViolationOutcome::Continue));
    assert_eq!(applied[0].notice, Some(ViolationNotice::Paused));
    assert!(applied[0].pause_changed);
    assert!(st.is_paused());
    // The concurrency reservation went back: two new requests fit again.
    let a = st.check_limits(&limits[1..], &[], &[], &[], &[], 1, None, None, 0, 0, 0, 8_000, NOON, false);
    assert!(a.violations.is_empty());
}

#[test]
fn settle_of_a_fast_request_changes_nothing_but_counters() {
    let mut st = LimitState::new();
    let limits = vec![limit(3, "slow", LimitMetric::TimeSec, 5_000_000, LimitAction::Block)];
    let pre = st.check_limits(&limits, &[], &[], &[], &[], 1, None, None, 0, 0, 0, 1_000, NOON, false);
    let (check, applied) =
        RequestSettlement::new(&pre).settle(&mut st, &limits, &[], &[], &[], &[], 1, None, None, 1_200, 2_000, NOON, false);
    assert!(check.violations.is_empty());
    assert!(applied.is_empty());
    assert!(!st.is_paused());
}

#[test]
fn preflight_stops_at_the_first_refusal() {
    let mut st = LimitState::new();
    let limits = vec![
        limit(1, "soft", LimitMetric::Requests, 1_000_000, LimitAction::Warn),
        limit(2, "hard", LimitMetric::Requests, 1_000_000, LimitAction::Pause),
        limit(3, "later", LimitMetric::Requests, 1_000_000, LimitAction::Block),
    ];
    let r = st.check_limits(&limits, &[], &[], &[], &[], 1, None, None, 0, 0, 0, 1_000, NOON, false);
    assert_eq!(r.violations.len(), 3);
    let (applied, refusal) = st.preflight(&r, 1_000);
    assert_eq!(refusal, Some(1));
    assert_eq!(applied.len(), 2);
    assert!(matches!(applied[0].outcome, ViolationOutcome::Continue));
    assert_eq!(applied[0].notice, Some(ViolationNotice::Warning));
    match &applied[1].outcome {
        ViolationOutcome::Paused(m) => assert_eq!(m, "limit exceeded: hard \u{2014} proxy paused"),
        _ => panic!("expected a pause"),
    }
    assert!(applied[1].pause_changed);
    assert!(st.is_paused());
}

#[test]
fn preflight_with_only_warnings_lets_the_request_on() {
    let mut st = LimitState::new();
    let limits = vec![limit(1, "soft", LimitMetric::Requests, 1_000_000, LimitAction::Warn)];
    let r = st.check_limits(&limits, &[], &[], &[], &[], 1, None, None, 0, 0, 0, 1_000, NOON, false);
    let (applied, refusal) = st.preflight(&r, 1_000);
    assert_eq!(refusal, None);
    assert_eq!(applied.len(), 1);
    assert!(!st.is_paused());
}

#[test]
fn refused_request_answers_429_and_releases_its_reservations() {
    let mut st = LimitState::new();
    let limits = vec![
        limit(4, "two at a time", LimitMetric::ConcurrentRequests, 2_000_000, LimitAction::Warn),
        limit(1, "daily requests", LimitMetric::Requests, 2_000_000, LimitAction::Block),
    ];
    let first = st.check_limits(&limits, &[], &[], &[0, 1_000_000], &[], 1, None, None, 0, 0, 0, 1_000, NOON, false);
    let mut s1 = RequestSettlement::new(&first);
    let (_, reply) = screen_limits(&mut st, &mut s1, &first, 1_000);
    assert_eq!(reply, Some((429, "limit exceeded: daily requests (1/2)".to_string())));
    assert!(s1.released());
    // The concurrency slot went back: another request is not over two at a time.
    let again = st.check_limits(&limits[..1], &[], &[], &[], &[], 1, None, None, 0, 0, 0, 1_001, NOON, false);
    assert!(again.violations.is_empty());
}

#[test]
fn pausing_limit_answers_503_and_passing_request_keeps_its_reservations() {
    let mut st = LimitState::new();
    let pause = vec![limit(2, "hard", LimitMetric::Requests, 1_000_000, LimitAction::Pause)];
    let r = st.check_limits(&pause, &[], &[], &[], &[], 1, None, None, 0, 0, 0, 1_000, NOON, false);
    let mut s = RequestSettlement::new(&r);
    let (_, reply) = screen_limits(&mut st, &mut s, &r, 1_000);
    assert_eq!(reply, Some((503, "limit exceeded: hard \u{2014} proxy paused".to_string())));
    assert!(st.is_paused());
    let mut st2 = LimitState::new();
    let ok = vec![limit(3, "roomy", LimitMetric::Requests, 9_000_000, LimitAction::Block)];
    let r2 = st2.check_limits(&ok, &[], &[], &[], &[], 1, None, None, 0, 0, 0, 1_000, NOON, false);
    let mut s2 = RequestSettlement::new(&r2);
    let (applied, reply2) = screen_limits(&mut st2, &mut s2, &r2, 1_000);
    assert!(applied.is_empty());
    assert_eq!(reply2, None);
    assert!(!s2.released());
}
