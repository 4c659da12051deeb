//! Routing and the limit engine.
//!
//! The engine decides, for one request, which limits and limit groups apply,
//! reserves in-flight amounts for counting limits, and reports which limits
//! are exceeded and which side effects (audit records, notifications, webhook
//! posts) the caller must perform. Usage that is persisted in the database is
//! handed in by the caller, one figure per limit.

use vstd::prelude::*;
use crate::config::{
    Limit, LimitAction, LimitGroup, LimitMetric, LimitScope, Project, Provider, ProviderFormat, RuleView,
    UNIT, opt_chars,
};
use crate::limits::{
    LimitCounters, sat_add, sat_sub,
};
use crate::schedule::{
    Clock, Cooldowns, TagCooldowns, cooldown_allows_spec, is_schedule_active, schedule_active_spec,
};
use crate::text::{
    first_index, lemma_first_index_prefix, lemma_first_index_push, opt_index, chars_of, contains_exec,
    contains_seq, decimal_string, lowercase, str_eq, string_push_str, to_lowercase, trim, trim_seq,
    u128_to_decimal,
};

verus! {

// ---------------------------------------------------------------------------
// Routing
// ---------------------------------------------------------------------------

/// `p` lists `model` as one of its local model names.
pub open spec fn serves(p: Provider, model: Seq<char>) -> bool {
    exists|k: int| 0 <= k < p.models@.len() && #[trigger] p.models@[k].local@ == model
}

/// Index of the provider a request for `model` is routed to: the first one
/// serving the model (when a model is named), else the first default
/// provider, else the first provider.
pub open spec fn route_index(providers: Seq<Provider>, model: Seq<char>) -> Option<int> {
    let by_model = if model.len() > 0 {
        first_index(providers, |p: Provider| serves(p, model))
    } else {
        None
    };
    match by_model {
        Some(i) => Some(i),
        None => match first_index(providers, |p: Provider| p.is_default) {
            Some(i) => Some(i),
            None => if providers.len() > 0 { Some(0) } else { None },
        },
    }
}

pub(crate) fn provider_serves(p: &Provider, model: &str) -> (b: bool)
    ensures
        b == serves(*p, model@),
{
    let mut k: usize = 0;
    while k < p.models.len()
        invariant
            k <= p.models@.len(),
            forall|j: int| 0 <= j < k ==> #[trigger] p.models@[j].local@ != model@,
        decreases p.models.len() - k,
    {
        if str_eq(p.models[k].local.as_str(), model) {
            return true;
        }
        k = k + 1;
    }
    false
}

fn find_provider_index(providers: &[Provider], model: &str, by_default: bool) -> (r: Option<usize>)
    ensures
        opt_index(r) == (if by_default {
            first_index(providers@, |p: Provider| p.is_default)
        } else {
            first_index(providers@, |p: Provider| serves(p, model@))
        }),
        r matches Some(i) ==> i < providers@.len(),
{
    let ghost f = if by_default {
        |p: Provider| p.is_default
    } else {
        |p: Provider| serves(p, model@)
    };
    let mut i: usize = 0;
    assert(providers@.subrange(0, 0) =~= Seq::<Provider>::empty());
    while i < providers.len()
        invariant
            i <= providers@.len(),
            first_index(providers@.subrange(0, i as int), f) == None::<int>,
            f == (if by_default {
                |p: Provider| p.is_default
            } else {
                |p: Provider| serves(p, model@)
            }),
        decreases providers.len() - i,
    {
        proof {
            lemma_first_index_push(providers@, f, i as int);
        }
        let hit = if by_default {
            providers[i].is_default
        } else {
            provider_serves(&providers[i], model)
        };
        if hit {
            proof {
                lemma_first_index_prefix(providers@, f, i as int + 1);
            }
            return Some(i);
        }
        i = i + 1;
    }
    assert(providers@.subrange(0, providers@.len() as int) =~= providers@);
    None
}

/// Pick the provider for a request. Routing is by model only: the client's
/// format family plays no part, since requests are converted between formats.
pub fn route_in_list(providers: &[Provider], family: ProviderFormat, model: &str) -> (r: Option<Provider>)
    ensures
        match route_index(providers@, model@) {
            Some(i) => r matches Some(p) && p.deep() == providers@[i].deep(),
            None => r is None,
        },
{
    let _ = family;
    let mut found: Option<usize> = None;
    if !model.is_empty() {
        found = find_provider_index(providers, model, false);
    }
    if found.is_none() {
        found = find_provider_index(providers, model, true);
        if found.is_none() && providers.len() > 0 {
            found = Some(0);
        }
    }
    match found {
        Some(i) => Some(providers[i].duplicate()),
        None => None,
    }
}

/// The provider-side name of a local model: the mapped remote name, or the
/// local name itself when the provider has no mapping for it.
pub open spec fn remote_name_spec(p: Provider, local: Seq<char>) -> Seq<char> {
    match first_index(p.models@, |m: crate::config::ModelMapping| m.local@ == local) {
        Some(k) => p.models@[k].remote@,
        None => local,
    }
}

/// Find the remote model name for a given local model name on a provider.
pub fn remote_model_name(provider: &Provider, local_name: &str) -> (r: String)
    ensures
        r@ == remote_name_spec(*provider, local_name@),
{
    let ghost f = |m: crate::config::ModelMapping| m.local@ == local_name@;
    let mut k: usize = 0;
    assert(provider.models@.subrange(0, 0) =~= Seq::<crate::config::ModelMapping>::empty());
    while k < provider.models.len()
        invariant
            k <= provider.models@.len(),
            first_index(provider.models@.subrange(0, k as int), f) == None::<int>,
            f == |m: crate::config::ModelMapping| m.local@ == local_name@,
        decreases provider.models.len() - k,
    {
        proof {
            lemma_first_index_push(provider.models@, f, k as int);
        }
        if str_eq(provider.models[k].local.as_str(), local_name) {
            proof {
                lemma_first_index_prefix(provider.models@, f, k as int + 1);
            }
            return provider.models[k].remote.clone();
        }
        k = k + 1;
    }
    assert(provider.models@.subrange(0, provider.models@.len() as int) =~= provider.models@);
    local_name.to_owned()
}

// ---------------------------------------------------------------------------
// Scope matching
// ---------------------------------------------------------------------------

/// A model pattern that is absent or blank means "no model narrowing".
pub open spec fn normalized_pattern_spec(p: Option<Seq<char>>) -> Option<Seq<char>> {
    match p {
        Some(s) => if trim_seq(s).len() > 0 { Some(trim_seq(s)) } else { None },
        None => None,
    }
}

/// A model matches a pattern when the pattern, lower-cased, occurs in the
/// lower-cased model name. No model matches nothing.
pub open spec fn model_pattern_matches_spec(pattern: Option<Seq<char>>, model: Option<Seq<char>>) -> bool {
    match (pattern, model) {
        (Some(p), Some(m)) => contains_seq(lowercase(m), lowercase(p)),
        _ => false,
    }
}

/// The first project with id `pid` is named `tag`.
pub open spec fn project_scope_ok(projects: Seq<Project>, pid: i64, tag: Option<Seq<char>>) -> bool {
    match first_index(projects, |p: Project| p.id == pid) {
        Some(i) => tag == Some(projects[i].name@),
        None => false,
    }
}

/// Whether a rule's scope covers the request, before model narrowing.
pub open spec fn scope_ok_spec(
    r: RuleView,
    provider_id: i64,
    tag: Option<Seq<char>>,
    projects: Seq<Project>,
) -> bool {
    match r.scope {
        LimitScope::Global => true,
        LimitScope::Provider => r.scope_id == Some(provider_id),
        LimitScope::Project => match r.scope_id {
            Some(pid) => project_scope_ok(projects, pid, tag),
            None => false,
        },
        LimitScope::Model => true,
    }
}

/// Whether a rule applies to a request for `model` from project `tag` routed
/// to provider `provider_id`: its scope covers the request and, when it has a
/// non-blank model pattern, the model matches it. A model-scoped rule with a
/// blank pattern matches every model.
pub open spec fn rule_scope_matches(
    r: RuleView,
    provider_id: i64,
    tag: Option<Seq<char>>,
    model: Option<Seq<char>>,
    projects: Seq<Project>,
) -> bool {
    &&& scope_ok_spec(r, provider_id, tag, projects)
    &&& match normalized_pattern_spec(r.model_pattern) {
        None => true,
        Some(p) => model_pattern_matches_spec(Some(p), model),
    }
}

pub open spec fn opt_str(o: Option<&str>) -> Option<Seq<char>> {
    match o {
        Some(s) => Some(s@),
        None => None,
    }
}

/// The trimmed pattern, or `None` when it is absent or blank.
pub fn normalized_pattern(pattern: Option<&str>) -> (r: Option<String>)
    ensures
        opt_chars(r) == normalized_pattern_spec(opt_str(pattern)),
{
    match pattern {
        Some(p) => {
            let t = trim(p);
            if t.as_str().is_empty() {
                None
            } else {
                Some(t)
            }
        },
        None => None,
    }
}

/// Case-insensitive substring match of `pattern` in `model`.
pub fn model_pattern_matches(pattern: Option<&str>, model: Option<&str>) -> (b: bool)
    ensures
        b == model_pattern_matches_spec(opt_str(pattern), opt_str(model)),
{
    match (pattern, model) {
        (Some(p), Some(m)) => {
            let ml = to_lowercase(m);
            let pl = to_lowercase(p);
            let mv = chars_of(ml.as_str());
            let pv = chars_of(pl.as_str());
            contains_exec(&mv, &pv)
        },
        _ => false,
    }
}

fn project_matches(projects: &[Project], pid: i64, project_tag: Option<&str>) -> (b: bool)
    ensures
        b == project_scope_ok(projects@, pid, opt_str(project_tag)),
{
    let ghost f = |p: Project| p.id == pid;
    let mut i: usize = 0;
    assert(projects@.subrange(0, 0) =~= Seq::<Project>::empty());
    while i < projects.len()
        invariant
            i <= projects@.len(),
            first_index(projects@.subrange(0, i as int), f) == None::<int>,
            f == |p: Project| p.id == pid,
        decreases projects.len() - i,
    {
        proof {
            lemma_first_index_push(projects@, f, i as int);
        }
        if projects[i].id == pid {
            proof {
                lemma_first_index_prefix(projects@, f, i as int + 1);
            }
            return match project_tag {
                Some(t) => str_eq(t, projects[i].name.as_str()),
                None => false,
            };
        }
        i = i + 1;
    }
    assert(projects@.subrange(0, projects@.len() as int) =~= projects@);
    false
}

fn scope_fields_match(
    scope: LimitScope,
    scope_id: Option<i64>,
    model_pattern: &Option<String>,
    provider_id: i64,
    project_tag: Option<&str>,
    model: Option<&str>,
    projects: &[Project],
    Ghost(r): Ghost<RuleView>,
) -> (b: bool)
    requires
        r.scope == scope,
        r.scope_id == scope_id,
        r.model_pattern == opt_chars(*model_pattern),
    ensures
        b == rule_scope_matches(r, provider_id, opt_str(project_tag), opt_str(model), projects@),
{
    let scope_ok = match scope {
        LimitScope::Global => true,
        LimitScope::Provider => scope_id == Some(provider_id),
        LimitScope::Project => match scope_id {
            Some(pid) => project_matches(projects, pid, project_tag),
            None => false,
        },
        LimitScope::Model => true,
    };
    if !scope_ok {
        return false;
    }
    let pattern = normalized_pattern(match model_pattern {
        Some(p) => Some(p.as_str()),
        None => None,
    });
    match pattern {
        None => true,
        Some(p) => model_pattern_matches(Some(p.as_str()), model),
    }
}

/// Whether `limit` applies to a request (scope and model pattern only).
pub fn limit_scope_matches(
    limit: &Limit,
    provider_id: i64,
    project_tag: Option<&str>,
    model: Option<&str>,
    projects: &[Project],
) -> (b: bool)
    ensures
        b == rule_scope_matches(limit.rule(), provider_id, opt_str(project_tag), opt_str(model), projects@),
{
    scope_fields_match(
        limit.scope,
        limit.scope_id,
        &limit.model_pattern,
        provider_id,
        project_tag,
        model,
        projects,
        Ghost(limit.rule()),
    )
}

/// Whether `group` applies to a request (scope and model pattern only).
pub fn limit_scope_matches_group(
    group: &LimitGroup,
    provider_id: i64,
    project_tag: Option<&str>,
    model: Option<&str>,
    projects: &[Project],
) -> (b: bool)
    ensures
        b == rule_scope_matches(group.rule(), provider_id, opt_str(project_tag), opt_str(model), projects@),
{
    scope_fields_match(
        group.scope,
        group.scope_id,
        &group.model_pattern,
        provider_id,
        project_tag,
        model,
        projects,
        Ghost(group.rule()),
    )
}

fn opt_as_str(o: &Option<String>) -> (r: Option<&str>)
    ensures
        opt_str(r) == opt_chars(*o),
{
    match o {
        Some(s) => Some(s.as_str()),
        None => None,
    }
}

/// Whether `limit`'s schedule is active at `now`.
pub fn is_limit_active(limit: &Limit, now: Clock) -> (b: bool)
    requires
        now.weekday < 7,
    ensures
        b == schedule_active_spec(limit.rule().active_days, limit.rule().active_hours_start, limit.rule().active_hours_end, now),
{
    is_schedule_active(
        limit.active_days,
        opt_as_str(&limit.active_hours_start),
        opt_as_str(&limit.active_hours_end),
        now,
    )
}

// ---------------------------------------------------------------------------
// The limit engine
// ---------------------------------------------------------------------------

/// A side effect the caller performs after a limit check. `group` tells a
/// limit group from a limit, and `index` is its position in the list that
/// was checked. Amounts are in millionths of the rule's unit.
#[derive(Clone, Copy, Debug, PartialEq, Eq, Structural)]
pub enum LimitEffect {
    /// Record an audit event: the rule was hit with usage `total`.
    AuditHit { group: bool, index: usize, total: u128 },
    /// Record an audit event: the rule passed its warning threshold at `used`.
    AuditWarning { group: bool, index: usize, used: u128 },
    /// Show a desktop warning notification at usage `used`.
    NotifyWarning { group: bool, index: usize, used: u128 },
    /// Post to the webhook; `hit` tells a hit from a warning.
    Webhook { group: bool, hit: bool, index: usize, amount: u128 },
}

/// Facts about the request a limit check is about.
pub struct RequestFacts {
    pub provider_id: i64,
    pub project_tag: Option<Seq<char>>,
    pub model: Option<Seq<char>>,
    /// Estimated cost in millionths of a dollar.
    pub cost: u64,
    pub tokens: u64,
    pub duration_ms: u64,
    /// Monotonic clock in milliseconds, for notification cooldowns.
    pub now_ms: u64,
    pub clock: Clock,
    pub has_webhook: bool,
}

/// The mutable state a limit check reads and writes.
pub struct EngineView {
    pub counters: Map<i64, u64>,
    pub warn: Map<i64, u64>,
    pub block: Map<i64, u64>,
}

/// What a run of the engine over a list of rules produces.
pub struct EngineRun {
    pub state: EngineView,
    pub effects: Seq<LimitEffect>,
    /// (index of the rule, usage before this request, whether to notify).
    pub violations: Seq<(int, int, bool)>,
    pub reservations: Seq<(i64, u64)>,
}

pub open spec fn map_get_or_zero(m: Map<i64, u64>, k: i64) -> u64 {
    if m.contains_key(k) { m[k] } else { 0 }
}

pub open spec fn map_last(m: Map<i64, u64>, k: i64) -> Option<u64> {
    if m.contains_key(k) { Some(m[k]) } else { None }
}

/// Raw units a rule reserves in its in-flight counter for one request:
/// one per request for the request-counting metrics, the estimated tokens
/// for tokens-per-minute, nothing for the others.
pub open spec fn reserve_units(metric: LimitMetric, tokens: u64) -> Option<u64> {
    match metric {
        LimitMetric::Requests => Some(1),
        LimitMetric::RequestsPerMinute => Some(1),
        LimitMetric::ConcurrentRequests => Some(1),
        LimitMetric::TokensPerMinute => Some(tokens),
        _ => None,
    }
}

/// What this request adds to a rule's usage, in millionths of the unit.
pub open spec fn current_amount(metric: LimitMetric, cost: u64, tokens: u64, duration_ms: u64) -> int {
    match metric {
        LimitMetric::Requests => UNIT as int,
        LimitMetric::RequestsPerMinute => UNIT as int,
        LimitMetric::ConcurrentRequests => UNIT as int,
        LimitMetric::TokensPerMinute => tokens * UNIT,
        LimitMetric::Money => cost as int,
        LimitMetric::CostPerRequest => cost as int,
        LimitMetric::Tokens => tokens * UNIT,
        LimitMetric::OutputTokens => tokens * UNIT,
        LimitMetric::InputTokens => 0,
        LimitMetric::TimeSec => duration_ms * 1000,
    }
}

/// Usage before this request: the persisted figure plus what other requests
/// hold in flight (the counter after this request's reservation, less that
/// reservation). Concurrency counts only what is in flight.
pub open spec fn used_amount(metric: LimitMetric, persisted: u64, counter: u64, tokens: u64) -> int {
    match metric {
        LimitMetric::Requests => persisted + (counter - 1) * UNIT,
        LimitMetric::RequestsPerMinute => persisted + (counter - 1) * UNIT,
        LimitMetric::TokensPerMinute => persisted + (counter - tokens) * UNIT,
        LimitMetric::ConcurrentRequests => (counter - 1) * UNIT,
        _ => persisted as int,
    }
}

/// Whether a rule takes part in a check: enabled, of the right kind (only
/// time limits after a request), in scope, and scheduled now.
pub open spec fn rule_applies(r: RuleView, f: RequestFacts, projects: Seq<Project>, time_only: bool) -> bool {
    &&& r.enabled
    &&& (time_only ==> r.metric == LimitMetric::TimeSec)
    &&& rule_scope_matches(r, f.provider_id, f.project_tag, f.model, projects)
    &&& schedule_active_spec(r.active_days, r.active_hours_start, r.active_hours_end, f.clock)
}

/// A rule is hit when it has a cap and usage including this request reaches it.
pub open spec fn is_hit(cap: u64, used: int, current: int) -> bool {
    cap > 0 && used + current >= cap
}

/// A rule warns when it has a cap and a threshold and usage before this
/// request reaches that fraction of the cap.
pub open spec fn past_threshold(cap: u64, threshold: u64, used: int) -> bool {
    cap > 0 && threshold > 0 && used * UNIT >= threshold * cap
}

/// The effect of one applicable rule on the engine state.
pub open spec fn rule_step(r: RuleView, index: int, persisted: u64, f: RequestFacts, group: bool, st: EngineView) -> EngineRun {
    let (counters, reservations, counter) = match reserve_units(r.metric, f.tokens) {
        Some(d) => {
            let c = sat_add(map_get_or_zero(st.counters, r.id), d);
            (st.counters.insert(r.id, c), seq![(r.id, d)], c)
        },
        None => (st.counters, Seq::<(i64, u64)>::empty(), 0u64),
    };
    let used = used_amount(r.metric, persisted, counter, f.tokens);
    let total = used + current_amount(r.metric, f.cost, f.tokens, f.duration_ms);
    if is_hit(r.cap, used, current_amount(r.metric, f.cost, f.tokens, f.duration_ms)) {
        let notify = match r.action {
            LimitAction::Warn => cooldown_allows_spec(map_last(st.warn, r.id), f.now_ms),
            _ => cooldown_allows_spec(map_last(st.block, r.id), f.now_ms),
        };
        let hook = if notify && f.has_webhook {
            seq![LimitEffect::Webhook { group, hit: true, index: index as usize, amount: total as u128 }]
        } else {
            Seq::empty()
        };
        EngineRun {
            state: EngineView { counters, warn: st.warn, block: st.block },
            effects: seq![LimitEffect::AuditHit { group, index: index as usize, total: total as u128 }] + hook,
            violations: seq![(index, used, notify)],
            reservations,
        }
    } else if past_threshold(r.cap, r.warning_threshold, used)
        && cooldown_allows_spec(map_last(st.warn, r.id), f.now_ms) {
        let hook = if f.has_webhook {
            seq![LimitEffect::Webhook { group, hit: false, index: index as usize, amount: used as u128 }]
        } else {
            Seq::empty()
        };
        EngineRun {
            state: EngineView { counters, warn: st.warn.insert(r.id, f.now_ms), block: st.block },
            effects: seq![
                LimitEffect::AuditWarning { group, index: index as usize, used: used as u128 },
                LimitEffect::NotifyWarning { group, index: index as usize, used: used as u128 },
            ] + hook,
            violations: Seq::empty(),
            reservations,
        }
    } else {
        EngineRun {
            state: EngineView { counters, warn: st.warn, block: st.block },
            effects: Seq::empty(),
            violations: Seq::empty(),
            reservations,
        }
    }
}

pub open spec fn persisted_at(p: Seq<u64>, k: int) -> u64 {
    if 0 <= k < p.len() { p[k] } else { 0 }
}

/// The engine run over the first `n` rules.
pub open spec fn engine_fold(
    rules: Seq<RuleView>,
    persisted: Seq<u64>,
    f: RequestFacts,
    projects: Seq<Project>,
    group: bool,
    time_only: bool,
    st: EngineView,
    n: nat,
) -> EngineRun
    decreases n,
{
    if n == 0 {
        EngineRun { state: st, effects: Seq::empty(), violations: Seq::empty(), reservations: Seq::empty() }
    } else {
        let prev = engine_fold(rules, persisted, f, projects, group, time_only, st, (n - 1) as nat);
        let k = n - 1;
        if k < rules.len() && rule_applies(rules[k], f, projects, time_only) {
            let step = rule_step(rules[k], k, persisted_at(persisted, k), f, group, prev.state);
            EngineRun {
                state: step.state,
                effects: prev.effects + step.effects,
                violations: prev.violations + step.violations,
                reservations: prev.reservations + step.reservations,
            }
        } else {
            prev
        }
    }
}

pub open spec fn limit_rules(limits: Seq<Limit>) -> Seq<RuleView> {
    limits.map_values(|l: Limit| l.rule())
}

pub open spec fn group_rules(groups: Seq<LimitGroup>) -> Seq<RuleView> {
    groups.map_values(|g: LimitGroup| g.rule())
}

/// An exceeded limit. `used` is the usage before this request, in
/// millionths of the limit's unit.
pub struct LimitViolation {
    pub limit: Limit,
    pub used: u128,
    /// Whether the caller should notify, by a non-mutating cooldown peek; the
    /// caller records the notification when it sends one.
    pub should_notify: bool,
}

/// An exceeded limit group.
pub struct GroupViolation {
    pub group: LimitGroup,
    pub used: u128,
    pub should_notify: bool,
}

/// Result of a limit check. Reservations made in the in-flight counters are
/// returned so the caller can release each exactly once per terminal outcome.
pub struct LimitCheckResult {
    pub violations: Vec<LimitViolation>,
    pub group_violations: Vec<GroupViolation>,
    /// Limit ids and the units reserved in the in-flight counters.
    pub reservations: Vec<(i64, u64)>,
    /// Group ids and the units reserved in the in-flight group counters.
    pub group_reservations: Vec<(i64, u64)>,
    /// Side effects to perform, in order.
    pub effects: Vec<LimitEffect>,
}

/// The violations of a result match the engine's record, rule by rule.
pub open spec fn limit_violations_match(vs: Seq<LimitViolation>, run: Seq<(int, int, bool)>, limits: Seq<Limit>) -> bool {
    &&& vs.len() == run.len()
    &&& forall|j: int| 0 <= j < vs.len() ==> {
        &&& 0 <= (#[trigger] run[j]).0 < limits.len()
        &&& vs[j].limit.same(&limits[run[j].0])
        &&& vs[j].used == run[j].1
        &&& vs[j].should_notify == run[j].2
    }
}

pub open spec fn group_violations_match(vs: Seq<GroupViolation>, run: Seq<(int, int, bool)>, groups: Seq<LimitGroup>) -> bool {
    &&& vs.len() == run.len()
    &&& forall|j: int| 0 <= j < vs.len() ==> {
        &&& 0 <= (#[trigger] run[j]).0 < groups.len()
        &&& vs[j].group.same(&groups[run[j].0])
        &&& vs[j].used == run[j].1
        &&& vs[j].should_notify == run[j].2
    }
}


/// One applicable rule: reserve, compare against the cap, and record what to do.
fn rule_step_exec(
    id: i64,
    metric: LimitMetric,
    cap: u64,
    warning_threshold: u64,
    action: LimitAction,
    index: usize,
    group: bool,
    persisted: u64,
    cost: u64,
    tokens: u64,
    duration_ms: u64,
    now_ms: u64,
    has_webhook: bool,
    counters: &mut LimitCounters,
    warn: &mut Cooldowns,
    block: &Cooldowns,
    effects: &mut Vec<LimitEffect>,
    Ghost(r): Ghost<RuleView>,
    Ghost(f): Ghost<RequestFacts>,
) -> (res: (Option<(u128, bool)>, Option<(i64, u64)>))
    requires
        r.id == id,
        r.metric == metric,
        r.cap == cap,
        r.warning_threshold == warning_threshold,
        r.action == action,
        f.cost == cost,
        f.tokens == tokens,
        f.duration_ms == duration_ms,
        f.now_ms == now_ms,
        f.has_webhook == has_webhook,
    ensures
        ({
            let step = rule_step(r, index as int, persisted, f, group,
                EngineView { counters: old(counters).view(), warn: old(warn).view(), block: block.view() });
            &&& final(counters).view() == step.state.counters
            &&& final(warn).view() == step.state.warn
            &&& final(effects)@ == old(effects)@ + step.effects
            &&& match res.0 {
                Some((u, n)) => step.violations == seq![(index as int, u as int, n)],
                None => step.violations.len() == 0,
            }
            &&& match res.1 {
                Some(p) => step.reservations == seq![p],
                None => step.reservations.len() == 0,
            }
        }),
{
    let ghost st = EngineView { counters: counters.view(), warn: warn.view(), block: block.view() };
    let ghost step = rule_step(r, index as int, persisted, f, group, st);
    let units: Option<u64> = match metric {
        LimitMetric::Requests => Some(1),
        LimitMetric::RequestsPerMinute => Some(1),
        LimitMetric::ConcurrentRequests => Some(1),
        LimitMetric::TokensPerMinute => Some(tokens),
        _ => None,
    };
    let mut reservation: Option<(i64, u64)> = None;
    let mut counter: u64 = 0;
    if let Some(d) = units {
        counter = counters.increment(id, d);
        reservation = Some((id, d));
    }
    let unit = UNIT as u128;
    let used: u128 = match metric {
        LimitMetric::Requests => persisted as u128 + (counter as u128 - 1) * unit,
        LimitMetric::RequestsPerMinute => persisted as u128 + (counter as u128 - 1) * unit,
        LimitMetric::TokensPerMinute => persisted as u128 + (counter as u128 - tokens as u128) * unit,
        LimitMetric::ConcurrentRequests => (counter as u128 - 1) * unit,
        _ => persisted as u128,
    };
    let current: u128 = match metric {
        LimitMetric::Requests => unit,
        LimitMetric::RequestsPerMinute => unit,
        LimitMetric::ConcurrentRequests => unit,
        LimitMetric::TokensPerMinute => tokens as u128 * unit,
        LimitMetric::Money => cost as u128,
        LimitMetric::CostPerRequest => cost as u128,
        LimitMetric::Tokens => tokens as u128 * unit,
        LimitMetric::OutputTokens => tokens as u128 * unit,
        LimitMetric::InputTokens => 0,
        LimitMetric::TimeSec => duration_ms as u128 * 1000,
    };
    let total = used + current;
    if cap > 0 && total >= cap as u128 {
        let notify = match action {
            LimitAction::Warn => warn.peek(id, now_ms),
            _ => block.peek(id, now_ms),
        };
        effects.push(LimitEffect::AuditHit { group, index, total });
        if notify && has_webhook {
            effects.push(LimitEffect::Webhook { group, hit: true, index, amount: total });
        }
        assert(effects@ =~= old(effects)@ + step.effects);
        return (Some((used, notify)), reservation);
    }
    assert(warning_threshold as u128 * cap as u128 <= u128::MAX) by (nonlinear_arith)
        requires
            warning_threshold <= u64::MAX,
            cap <= u64::MAX,
    ;
    if cap > 0 && warning_threshold > 0
        && used * unit >= warning_threshold as u128 * cap as u128
        && warn.peek(id, now_ms) {
        effects.push(LimitEffect::AuditWarning { group, index, used });
        effects.push(LimitEffect::NotifyWarning { group, index, used });
        if has_webhook {
            effects.push(LimitEffect::Webhook { group, hit: false, index, amount: used });
        }
        warn.mark(id, now_ms);
    }
    assert(effects@ =~= old(effects)@ + step.effects);
    (None, reservation)
}

#[verifier::rlimit(60)]
#[verifier::spinoff_prover]
fn run_limits(
    rules: &[Limit],
    persisted: &[u64],
    projects: &[Project],
    time_only: bool,
    provider_id: i64,
    project_tag: Option<&str>,
    model: Option<&str>,
    cost: u64,
    tokens: u64,
    duration_ms: u64,
    now_ms: u64,
    clock: Clock,
    has_webhook: bool,
    counters: &mut LimitCounters,
    warn: &mut Cooldowns,
    block: &Cooldowns,
    effects: &mut Vec<LimitEffect>,
    violations: &mut Vec<LimitViolation>,
    reservations: &mut Vec<(i64, u64)>,
    Ghost(f): Ghost<RequestFacts>,
)
    requires
        clock.weekday < 7,
        f.provider_id == provider_id,
        f.project_tag == opt_str(project_tag),
        f.model == opt_str(model),
        f.cost == cost,
        f.tokens == tokens,
        f.duration_ms == duration_ms,
        f.now_ms == now_ms,
        f.clock == clock,
        f.has_webhook == has_webhook,
    ensures
        ({
            let run = engine_fold(limit_rules(rules@), persisted@, f, projects@, false, time_only,
                EngineView { counters: old(counters).view(), warn: old(warn).view(), block: block.view() },
                rules@.len());
            &&& final(counters).view() == run.state.counters
            &&& final(warn).view() == run.state.warn
            &&& final(effects)@ == old(effects)@ + run.effects
            &&& final(reservations)@ == old(reservations)@ + run.reservations
            &&& final(violations)@.subrange(0, old(violations)@.len() as int) == old(violations)@
            &&& limit_violations_match(final(violations)@.subrange(old(violations)@.len() as int, final(violations)@.len() as int), run.violations, rules@)
        }),
{
    let ghost st0 = EngineView { counters: counters.view(), warn: warn.view(), block: block.view() };
    let ghost e0 = effects@;
    let ghost v0 = violations@;
    let ghost r0 = reservations@;
    let mut i: usize = 0;
    while i < rules.len()
        invariant
            i <= rules@.len(),
            clock.weekday < 7,
            f.provider_id == provider_id,
            f.project_tag == opt_str(project_tag),
            f.model == opt_str(model),
            f.cost == cost,
            f.tokens == tokens,
            f.duration_ms == duration_ms,
            f.now_ms == now_ms,
            f.clock == clock,
            f.has_webhook == has_webhook,
            block.view() == st0.block,
            ({
                let run = engine_fold(limit_rules(rules@), persisted@, f, projects@, false, time_only, st0, i as nat);
                &&& counters.view() == run.state.counters
                &&& warn.view() == run.state.warn
                &&& run.state.block == st0.block
                &&& effects@ == e0 + run.effects
                &&& reservations@ == r0 + run.reservations
                &&& violations@.len() >= v0.len()
                &&& violations@.subrange(0, v0.len() as int) == v0
                &&& limit_violations_match(violations@.subrange(v0.len() as int, violations@.len() as int), run.violations, rules@)
                &&& forall|j: int| 0 <= j < run.violations.len() ==> (#[trigger] run.violations[j]).0 < i
            }),
        decreases rules.len() - i,
    {
        let rule = &rules[i];
        let ghost rv = rule.rule();
        assert(limit_rules(rules@)[i as int] == rv);
        let ghost prev = engine_fold(limit_rules(rules@), persisted@, f, projects@, false, time_only, st0, i as nat);
        let applies = rule.enabled
            && (!time_only || rule.metric == LimitMetric::TimeSec)
            && limit_scope_matches(rule, provider_id, project_tag, model, projects)
            && is_schedule_active(rule.active_days, opt_as_str(&rule.active_hours_start), opt_as_str(&rule.active_hours_end), clock);
        if applies {
            let p: u64 = if i < persisted.len() { persisted[i] } else { 0 };
            let ghost vlen = violations@.len();
            let (viol, res) = rule_step_exec(
                rule.id, rule.metric, rule.cap, rule.warning_threshold, rule.action,
                i, false, p, cost, tokens, duration_ms, now_ms, has_webhook,
                counters, warn, block, effects, Ghost(rv), Ghost(f),
            );
            let ghost vu: int = match viol { Some(x) => x.0 as int, None => 0 };
            let ghost vn: bool = match viol { Some(x) => x.1, None => false };
            if let Some((used, notify)) = viol {
                violations.push(LimitViolation { limit: rule.duplicate(), used, should_notify: notify });
                assert(violations@.subrange(0, v0.len() as int) =~= v0);
            }
            if let Some(pair) = res {
                reservations.push(pair);
            }
            proof {
                let run = engine_fold(limit_rules(rules@), persisted@, f, projects@, false, time_only, st0, (i + 1) as nat);
                assert(effects@ =~= e0 + run.effects);
                assert(reservations@ =~= r0 + run.reservations);
                assert(violations@.subrange(v0.len() as int, violations@.len() as int).len() == run.violations.len());
                assert forall|j: int| 0 <= j < run.violations.len() implies (#[trigger] run.violations[j]).0 < i + 1 by {
                    if j < prev.violations.len() {
                        assert(run.violations[j] == prev.violations[j]);
                    }
                }
                assert(limit_violations_match(violations@.subrange(v0.len() as int, violations@.len() as int), run.violations, rules@)) by {
                    let vs = violations@.subrange(v0.len() as int, violations@.len() as int);
                    let old_vs = vs.subrange(0, prev.violations.len() as int);
                    assert forall|j: int| 0 <= j < vs.len() implies {
                        &&& 0 <= (#[trigger] run.violations[j]).0 < rules@.len()
                        &&& vs[j].limit.same(&rules@[run.violations[j].0])
                        &&& vs[j].used == run.violations[j].1
                        &&& vs[j].should_notify == run.violations[j].2
                    } by {
                        if j < prev.violations.len() {
                            assert(run.violations[j] == prev.violations[j]);
                            assert(vs[j] == violations@[v0.len() + j]);
                        } else {
                            assert(run.violations[j] == (i as int, vu, vn));
                        }
                    }
                }
            }
        } else {
            proof {
                let run = engine_fold(limit_rules(rules@), persisted@, f, projects@, false, time_only, st0, (i + 1) as nat);
                assert(run == prev);
            }
        }
        i = i + 1;
    }
}

#[verifier::rlimit(60)]
#[verifier::spinoff_prover]
fn run_groups(
    rules: &[LimitGroup],
    persisted: &[u64],
    projects: &[Project],
    time_only: bool,
    provider_id: i64,
    project_tag: Option<&str>,
    model: Option<&str>,
    cost: u64,
    tokens: u64,
    duration_ms: u64,
    now_ms: u64,
    clock: Clock,
    has_webhook: bool,
    counters: &mut LimitCounters,
    warn: &mut Cooldowns,
    block: &Cooldowns,
    effects: &mut Vec<LimitEffect>,
    violations: &mut Vec<GroupViolation>,
    reservations: &mut Vec<(i64, u64)>,
    Ghost(f): Ghost<RequestFacts>,
)
    requires
        clock.weekday < 7,
        f.provider_id == provider_id,
        f.project_tag == opt_str(project_tag),
        f.model == opt_str(model),
        f.cost == cost,
        f.tokens == tokens,
        f.duration_ms == duration_ms,
        f.now_ms == now_ms,
        f.clock == clock,
        f.has_webhook == has_webhook,
    ensures
        ({
            let run = engine_fold(group_rules(rules@), persisted@, f, projects@, true, time_only,
                EngineView { counters: old(counters).view(), warn: old(warn).view(), block: block.view() },
                rules@.len());
            &&& final(counters).view() == run.state.counters
            &&& final(warn).view() == run.state.warn
            &&& final(effects)@ == old(effects)@ + run.effects
            &&& final(reservations)@ == old(reservations)@ + run.reservations
            &&& final(violations)@.subrange(0, old(violations)@.len() as int) == old(violations)@
            &&& group_violations_match(final(violations)@.subrange(old(violations)@.len() as int, final(violations)@.len() as int), run.violations, rules@)
        }),
{
    let ghost st0 = EngineView { counters: counters.view(), warn: warn.view(), block: block.view() };
    let ghost e0 = effects@;
    let ghost v0 = violations@;
    let ghost r0 = reservations@;
    let mut i: usize = 0;
    while i < rules.len()
        invariant
            i <= rules@.len(),
            clock.weekday < 7,
            f.provider_id == provider_id,
            f.project_tag == opt_str(project_tag),
            f.model == opt_str(model),
            f.cost == cost,
            f.tokens == tokens,
            f.duration_ms == duration_ms,
            f.now_ms == now_ms,
            f.clock == clock,
            f.has_webhook == has_webhook,
            block.view() == st0.block,
            ({
                let run = engine_fold(group_rules(rules@), persisted@, f, projects@, true, time_only, st0, i as nat);
                &&& counters.view() == run.state.counters
                &&& warn.view() == run.state.warn
                &&& run.state.block == st0.block
                &&& effects@ == e0 + run.effects
                &&& reservations@ == r0 + run.reservations
                &&& violations@.len() >= v0.len()
                &&& violations@.subrange(0, v0.len() as int) == v0
                &&& group_violations_match(violations@.subrange(v0.len() as int, violations@.len() as int), run.violations, rules@)
                &&& forall|j: int| 0 <= j < run.violations.len() ==> (#[trigger] run.violations[j]).0 < i
            }),
        decreases rules.len() - i,
    {
        let rule = &rules[i];
        let ghost rv = rule.rule();
        assert(group_rules(rules@)[i as int] == rv);
        let ghost prev = engine_fold(group_rules(rules@), persisted@, f, projects@, true, time_only, st0, i as nat);
        let applies = rule.enabled
            && (!time_only || rule.metric == LimitMetric::TimeSec)
            && limit_scope_matches_group(rule, provider_id, project_tag, model, projects)
            && is_schedule_active(rule.active_days, opt_as_str(&rule.active_hours_start), opt_as_str(&rule.active_hours_end), clock);
        if applies {
            let p: u64 = if i < persisted.len() { persisted[i] } else { 0 };
            let ghost vlen = violations@.len();
            let (viol, res) = rule_step_exec(
                rule.id, rule.metric, rule.cap, rule.warning_threshold, rule.action,
                i, true, p, cost, tokens, duration_ms, now_ms, has_webhook,
                counters, warn, block, effects, Ghost(rv), Ghost(f),
            );
            let ghost vu: int = match viol { Some(x) => x.0 as int, None => 0 };
            let ghost vn: bool = match viol { Some(x) => x.1, None => false };
            if let Some((used, notify)) = viol {
                violations.push(GroupViolation { group: rule.duplicate(), used, should_notify: notify });
                assert(violations@.subrange(0, v0.len() as int) =~= v0);
            }
            if let Some(pair) = res {
                reservations.push(pair);
            }
            proof {
                let run = engine_fold(group_rules(rules@), persisted@, f, projects@, true, time_only, st0, (i + 1) as nat);
                assert(effects@ =~= e0 + run.effects);
                assert(reservations@ =~= r0 + run.reservations);
                assert(violations@.subrange(v0.len() as int, violations@.len() as int).len() == run.violations.len());
                assert forall|j: int| 0 <= j < run.violations.len() implies (#[trigger] run.violations[j]).0 < i + 1 by {
                    if j < prev.violations.len() {
                        assert(run.violations[j] == prev.violations[j]);
                    }
                }
                assert(group_violations_match(violations@.subrange(v0.len() as int, violations@.len() as int), run.violations, rules@)) by {
                    let vs = violations@.subrange(v0.len() as int, violations@.len() as int);
                    let old_vs = vs.subrange(0, prev.violations.len() as int);
                    assert forall|j: int| 0 <= j < vs.len() implies {
                        &&& 0 <= (#[trigger] run.violations[j]).0 < rules@.len()
                        &&& vs[j].group.same(&rules@[run.violations[j].0])
                        &&& vs[j].used == run.violations[j].1
                        &&& vs[j].should_notify == run.violations[j].2
                    } by {
                        if j < prev.violations.len() {
                            assert(run.violations[j] == prev.violations[j]);
                            assert(vs[j] == violations@[v0.len() + j]);
                        } else {
                            assert(run.violations[j] == (i as int, vu, vn));
                        }
                    }
                }
            }
        } else {
            proof {
                let run = engine_fold(group_rules(rules@), persisted@, f, projects@, true, time_only, st0, (i + 1) as nat);
                assert(run == prev);
            }
        }
        i = i + 1;
    }
}

// ---------------------------------------------------------------------------
// Reservations and their release
// ---------------------------------------------------------------------------

/// The counters after reserving each `(id, units)` of `r` in order.
pub open spec fn reserve_all(m: Map<i64, u64>, r: Seq<(i64, u64)>) -> Map<i64, u64>
    decreases r.len(),
{
    if r.len() == 0 {
        m
    } else {
        let m1 = reserve_all(m, r.drop_last());
        m1.insert(r.last().0, sat_add(map_get_or_zero(m1, r.last().0), r.last().1))
    }
}

/// The counters after releasing each `(id, units)` of `r` in order; a
/// release clamps at zero and leaves a missing counter missing.
pub open spec fn release_all(m: Map<i64, u64>, r: Seq<(i64, u64)>) -> Map<i64, u64>
    decreases r.len(),
{
    if r.len() == 0 {
        m
    } else {
        let m1 = release_all(m, r.drop_last());
        if m1.contains_key(r.last().0) {
            m1.insert(r.last().0, sat_sub(m1[r.last().0], r.last().1))
        } else {
            m1
        }
    }
}

/// Total units `r` reserves for `id`.
pub open spec fn reserved_for(r: Seq<(i64, u64)>, id: i64) -> nat
    decreases r.len(),
{
    if r.len() == 0 {
        0
    } else {
        reserved_for(r.drop_last(), id) + if r.last().0 == id { r.last().1 as nat } else { 0 }
    }
}

proof fn lemma_reserve_all_amount(m: Map<i64, u64>, r: Seq<(i64, u64)>, id: i64)
    requires
        map_get_or_zero(m, id) + reserved_for(r, id) <= u64::MAX,
    ensures
        map_get_or_zero(reserve_all(m, r), id) == map_get_or_zero(m, id) + reserved_for(r, id),
    decreases r.len(),
{
    if r.len() > 0 {
        lemma_reserve_all_amount(m, r.drop_last(), id);
    }
}

proof fn lemma_release_all_amount(m: Map<i64, u64>, r: Seq<(i64, u64)>, id: i64)
    requires
        map_get_or_zero(m, id) >= reserved_for(r, id),
    ensures
        map_get_or_zero(release_all(m, r), id) == map_get_or_zero(m, id) - reserved_for(r, id),
    decreases r.len(),
{
    if r.len() > 0 {
        lemma_release_all_amount(m, r.drop_last(), id);
    }
}

/// Releasing the reservations a check made gives every limit back the
/// in-flight amount it held before the check, as long as no counter
/// saturated: a request is counted once, by the database, never twice.
pub proof fn lemma_release_undoes_reserve(m: Map<i64, u64>, r: Seq<(i64, u64)>, id: i64)
    requires
        map_get_or_zero(m, id) + reserved_for(r, id) <= u64::MAX,
    ensures
        map_get_or_zero(release_all(reserve_all(m, r), r), id) == map_get_or_zero(m, id),
{
    lemma_reserve_all_amount(m, r, id);
    lemma_release_all_amount(reserve_all(m, r), r, id);
}

/// The counters a run of the engine leaves are the starting counters with
/// exactly the run's reservations applied.
pub proof fn lemma_fold_counters(
    rules: Seq<RuleView>,
    persisted: Seq<u64>,
    f: RequestFacts,
    projects: Seq<Project>,
    group: bool,
    time_only: bool,
    st: EngineView,
    n: nat,
)
    ensures
        engine_fold(rules, persisted, f, projects, group, time_only, st, n).state.counters
            == reserve_all(st.counters, engine_fold(rules, persisted, f, projects, group, time_only, st, n).reservations),
        engine_fold(rules, persisted, f, projects, group, time_only, st, n).state.block == st.block,
    decreases n,
{
    if n > 0 {
        lemma_fold_counters(rules, persisted, f, projects, group, time_only, st, (n - 1) as nat);
        let prev = engine_fold(rules, persisted, f, projects, group, time_only, st, (n - 1) as nat);
        let k = n - 1;
        if k < rules.len() && rule_applies(rules[k], f, projects, time_only) {
            let step = rule_step(rules[k], k, persisted_at(persisted, k), f, group, prev.state);
            if step.reservations.len() > 0 {
                assert((prev.reservations + step.reservations).drop_last() =~= prev.reservations);
            } else {
                assert(prev.reservations + step.reservations =~= prev.reservations);
            }
        }
    }
}

fn release_list(counters: &mut LimitCounters, reservations: &[(i64, u64)])
    ensures
        final(counters).view() == release_all(old(counters).view(), reservations@),
{
    let mut i: usize = 0;
    let ghost m0 = counters.view();
    while i < reservations.len()
        invariant
            i <= reservations@.len(),
            counters.view() == release_all(m0, reservations@.subrange(0, i as int)),
        decreases reservations.len() - i,
    {
        let (id, amount) = reservations[i];
        counters.release_amount(id, amount);
        assert(reservations@.subrange(0, i + 1).drop_last() =~= reservations@.subrange(0, i as int));
        i = i + 1;
    }
    assert(reservations@.subrange(0, reservations@.len() as int) =~= reservations@);
}

// ---------------------------------------------------------------------------
// Acting on violations
// ---------------------------------------------------------------------------

/// When a violation is handled relative to the request that triggered it.
#[derive(Clone, Copy, Debug, PartialEq, Eq, Structural)]
pub enum LimitPhase {
    /// Before forwarding: the request can still be refused.
    PreFlight,
    /// After forwarding: the request is already through, so `Block` only
    /// notifies and any refusal applies to later requests.
    PostFlight,
}

/// What the caller should do with the request after a violation is handled.
pub enum ViolationOutcome {
    /// Nothing to refuse (a warning, or a post-flight violation).
    Continue,
    /// Refuse with 429 and this message.
    Blocked(String),
    /// Refuse with 503 and this message; the proxy is now paused.
    Paused(String),
}

/// Which desktop notification to show for a violation.
#[derive(Clone, Copy, Debug, PartialEq, Eq, Structural)]
pub enum ViolationNotice {
    Blocked,
    Paused,
    Warning,
}

/// The parts of a violation the proxy acts on; limits and limit groups differ
/// only in wording.
pub struct ViolationAction {
    pub id: i64,
    pub name: String,
    pub action: LimitAction,
    /// Usage in millionths of the rule's unit.
    pub used: u128,
    /// Cap in millionths of the rule's unit.
    pub cap: u64,
    pub should_notify: bool,
    /// "limit" or "limit group", used in the client-facing message.
    pub kind: &'static str,
}

impl ViolationAction {
    pub fn from_limit(v: &LimitViolation) -> (r: Self)
        ensures
            r.id == v.limit.id,
            r.name@ == v.limit.name@,
            r.action == v.limit.action,
            r.used == v.used,
            r.cap == v.limit.cap,
            r.should_notify == v.should_notify,
            r.kind@ == "limit"@,
    {
        ViolationAction {
            id: v.limit.id,
            name: v.limit.name.clone(),
            action: v.limit.action,
            used: v.used,
            cap: v.limit.cap,
            should_notify: v.should_notify,
            kind: "limit",
        }
    }

    pub fn from_group(v: &GroupViolation) -> (r: Self)
        ensures
            r.id == v.group.id,
            r.name@ == v.group.name@,
            r.action == v.group.action,
            r.used == v.used,
            r.cap == v.group.cap,
            r.should_notify == v.should_notify,
            r.kind@ == "limit group"@,
    {
        ViolationAction {
            id: v.group.id,
            name: v.group.name.clone(),
            action: v.group.action,
            used: v.used,
            cap: v.group.cap,
            should_notify: v.should_notify,
            kind: "limit group",
        }
    }
}

/// A millionths figure rounded to whole units, ties to even, as `{:.0}`
/// writes a number.
pub open spec fn round_whole(micro: int) -> nat {
    let q = micro / (UNIT as int);
    let rem = micro % (UNIT as int);
    if rem * 2 > UNIT {
        (q + 1) as nat
    } else if rem * 2 < UNIT {
        q as nat
    } else if q % 2 == 0 {
        q as nat
    } else {
        (q + 1) as nat
    }
}

fn round_whole_exec(micro: u128) -> (r: u128)
    ensures
        r == round_whole(micro as int),
{
    let unit = UNIT as u128;
    let q = micro / unit;
    let rem = micro % unit;
    if rem * 2 > unit {
        q + 1
    } else if rem * 2 < unit {
        q
    } else if q % 2 == 0 {
        q
    } else {
        q + 1
    }
}

/// `"{kind} exceeded: {name} ({used}/{cap})"` with both figures in whole units.
pub open spec fn blocked_message(kind: Seq<char>, name: Seq<char>, used: int, cap: int) -> Seq<char> {
    kind + " exceeded: "@ + name + " ("@ + decimal_string(round_whole(used)) + "/"@
        + decimal_string(round_whole(cap)) + ")"@
}

/// `"{kind} exceeded: {name} — proxy paused"`.
pub open spec fn paused_message(kind: Seq<char>, name: Seq<char>) -> Seq<char> {
    kind + " exceeded: "@ + name + " \u{2014} proxy paused"@
}

/// The outcome, notice and pausing that handling a violation leads to.
pub struct AppliedViolation {
    pub outcome: ViolationOutcome,
    /// The notification to show, if any.
    pub notice: Option<ViolationNotice>,
    /// Whether the paused flag changed (the caller then announces it).
    pub pause_changed: bool,
}

fn blocked_message_exec(kind: &str, name: &str, used: u128, cap: u64) -> (r: String)
    ensures
        r@ == blocked_message(kind@, name@, used as int, cap as int),
{
    let mut m = String::new();
    string_push_str(&mut m, kind);
    string_push_str(&mut m, " exceeded: ");
    string_push_str(&mut m, name);
    string_push_str(&mut m, " (");
    let u = u128_to_decimal(round_whole_exec(used));
    string_push_str(&mut m, u.as_str());
    string_push_str(&mut m, "/");
    let c = u128_to_decimal(round_whole_exec(cap as u128));
    string_push_str(&mut m, c.as_str());
    string_push_str(&mut m, ")");
    m
}

fn paused_message_exec(kind: &str, name: &str) -> (r: String)
    ensures
        r@ == paused_message(kind@, name@),
{
    let mut m = String::new();
    string_push_str(&mut m, kind);
    string_push_str(&mut m, " exceeded: ");
    string_push_str(&mut m, name);
    string_push_str(&mut m, " \u{2014} proxy paused");
    m
}

/// A project's budget and its status against the spend in its period.
pub open spec fn budget_check_spec(
    projects: Seq<Project>,
    tag: Seq<char>,
    used: u64,
    budget_last: Option<u64>,
    now_ms: u64,
) -> Option<(u64, u64, LimitAction, bool)> {
    match first_index(projects, |p: Project| p.name@ == tag) {
        Some(i) => {
            let p = projects[i];
            if p.budget == 0 || used < p.budget {
                None
            } else {
                let notify = match p.budget_action {
                    LimitAction::Warn => cooldown_allows_spec(budget_last, now_ms),
                    _ => true,
                };
                Some((used, p.budget, p.budget_action, notify))
            }
        },
        None => None,
    }
}

/// The first project whose label key is `key`.
pub open spec fn project_for_key_spec(projects: Seq<Project>, key: Seq<char>) -> Option<Seq<char>> {
    match first_index(projects, |p: Project| p.label_key@ == key) {
        Some(i) => Some(projects[i].name@),
        None => None,
    }
}

/// Index of the first project satisfying a name or key test.
fn find_project(projects: &[Project], text: &str, by_key: bool) -> (r: Option<usize>)
    ensures
        opt_index(r) == (if by_key {
            first_index(projects@, |p: Project| p.label_key@ == text@)
        } else {
            first_index(projects@, |p: Project| p.name@ == text@)
        }),
        r matches Some(i) ==> i < projects@.len(),
{
    let ghost f = if by_key {
        |p: Project| p.label_key@ == text@
    } else {
        |p: Project| p.name@ == text@
    };
    let mut i: usize = 0;
    assert(projects@.subrange(0, 0) =~= Seq::<Project>::empty());
    while i < projects.len()
        invariant
            i <= projects@.len(),
            first_index(projects@.subrange(0, i as int), f) == None::<int>,
            f == (if by_key {
                |p: Project| p.label_key@ == text@
            } else {
                |p: Project| p.name@ == text@
            }),
        decreases projects.len() - i,
    {
        proof {
            lemma_first_index_push(projects@, f, i as int);
        }
        let hit = if by_key {
            str_eq(projects[i].label_key.as_str(), text)
        } else {
            str_eq(projects[i].name.as_str(), text)
        };
        if hit {
            proof {
                lemma_first_index_prefix(projects@, f, i as int + 1);
            }
            return Some(i);
        }
        i = i + 1;
    }
    assert(projects@.subrange(0, projects@.len() as int) =~= projects@);
    None
}

/// Map a client-supplied API key to the name of the project it labels.
pub fn project_for_key(projects: &[Project], key: &str) -> (r: Option<String>)
    ensures
        opt_chars(r) == project_for_key_spec(projects@, key@),
{
    match find_project(projects, key, true) {
        Some(i) => Some(projects[i].name.clone()),
        None => None,
    }
}

/// Counters, cooldowns and the other state the limit engine keeps between
/// requests.
pub struct LimitState {
    limit_counters: LimitCounters,
    group_counters: LimitCounters,
    last_warning: Cooldowns,
    last_block_notify: Cooldowns,
    last_budget_warning: TagCooldowns,
    paused: bool,
}

impl LimitState {
    pub closed spec fn limit_counters_view(&self) -> Map<i64, u64> {
        self.limit_counters.view()
    }

    pub closed spec fn group_counters_view(&self) -> Map<i64, u64> {
        self.group_counters.view()
    }

    pub closed spec fn warn_view(&self) -> Map<i64, u64> {
        self.last_warning.view()
    }

    pub closed spec fn block_view(&self) -> Map<i64, u64> {
        self.last_block_notify.view()
    }

    pub closed spec fn paused(&self) -> bool {
        self.paused
    }

    pub closed spec fn budget_last(&self, tag: Seq<char>) -> Option<u64> {
        self.last_budget_warning.last_at(tag)
    }

    pub fn new() -> (s: Self)
        ensures
            s.limit_counters_view() =~= Map::empty(),
            s.group_counters_view() =~= Map::empty(),
            s.warn_view() =~= Map::empty(),
            s.block_view() =~= Map::empty(),
            forall|t: Seq<char>| s.budget_last(t) == None::<u64>,
            !s.paused(),
    {
        LimitState {
            limit_counters: LimitCounters::new(),
            group_counters: LimitCounters::new(),
            last_warning: Cooldowns::new(),
            last_block_notify: Cooldowns::new(),
            last_budget_warning: TagCooldowns::new(),
            paused: false,
        }
    }

    /// Check every enabled limit and limit group that applies to a request
    /// and report those it exceeds.
    ///
    /// `persisted[i]` is the usage the database holds for `limits[i]` over
    /// its period, in millionths of its unit (a missing entry counts as zero),
    /// and likewise `group_persisted` for `groups`. Request-counting limits
    /// reserve their amount in the in-flight counters; every reservation is
    /// returned so the caller can release it exactly once. A limit past its
    /// warning threshold (but not its cap) is recorded as notified here.
    /// `duration_ms` only matters for time limits and is zero before a request.
    pub fn check_limits(
        &mut self,
        limits: &[Limit],
        groups: &[LimitGroup],
        projects: &[Project],
        persisted: &[u64],
        group_persisted: &[u64],
        provider_id: i64,
        project_tag: Option<&str>,
        model: Option<&str>,
        cost: u64,
        tokens: u64,
        duration_ms: u64,
        now_ms: u64,
        clock: Clock,
        has_webhook: bool,
    ) -> (r: LimitCheckResult)
        requires
            clock.weekday < 7,
        ensures
            ({
                let f = RequestFacts {
                    provider_id, project_tag: opt_str(project_tag), model: opt_str(model),
                    cost, tokens, duration_ms, now_ms, clock, has_webhook,
                };
                let run1 = engine_fold(limit_rules(limits@), persisted@, f, projects@, false, false,
                    EngineView { counters: old(self).limit_counters_view(), warn: old(self).warn_view(), block: old(self).block_view() },
                    limits@.len());
                let run2 = engine_fold(group_rules(groups@), group_persisted@, f, projects@, true, false,
                    EngineView { counters: old(self).group_counters_view(), warn: run1.state.warn, block: old(self).block_view() },
                    groups@.len());
                &&& final(self).limit_counters_view() == run1.state.counters
                &&& final(self).group_counters_view() == run2.state.counters
                &&& final(self).warn_view() == run2.state.warn
                &&& final(self).block_view() == old(self).block_view()
                &&& (forall|t: Seq<char>| final(self).budget_last(t) == old(self).budget_last(t))
                &&& final(self).paused() == old(self).paused()
                &&& r.effects@ == run1.effects + run2.effects
                &&& r.reservations@ == run1.reservations
                &&& r.group_reservations@ == run2.reservations
                &&& limit_violations_match(r.violations@, run1.violations, limits@)
                &&& group_violations_match(r.group_violations@, run2.violations, groups@)
            }),
    {
        self.check_impl(limits, groups, projects, persisted, group_persisted, false, provider_id, project_tag,
            model, cost, tokens, duration_ms, now_ms, clock, has_webhook)
    }

    /// Post-flight check of time limits only, against the real duration of a
    /// finished request. Nothing is reserved.
    pub fn check_time_limits(
        &mut self,
        limits: &[Limit],
        groups: &[LimitGroup],
        projects: &[Project],
        persisted: &[u64],
        group_persisted: &[u64],
        provider_id: i64,
        project_tag: Option<&str>,
        model: Option<&str>,
        duration_ms: u64,
        now_ms: u64,
        clock: Clock,
        has_webhook: bool,
    ) -> (r: LimitCheckResult)
        requires
            clock.weekday < 7,
        ensures
            ({
                let f = RequestFacts {
                    provider_id, project_tag: opt_str(project_tag), model: opt_str(model),
                    cost: 0, tokens: 0, duration_ms, now_ms, clock, has_webhook,
                };
                let run1 = engine_fold(limit_rules(limits@), persisted@, f, projects@, false, true,
                    EngineView { counters: old(self).limit_counters_view(), warn: old(self).warn_view(), block: old(self).block_view() },
                    limits@.len());
                let run2 = engine_fold(group_rules(groups@), group_persisted@, f, projects@, true, true,
                    EngineView { counters: old(self).group_counters_view(), warn: run1.state.warn, block: old(self).block_view() },
                    groups@.len());
                &&& final(self).limit_counters_view() == run1.state.counters
                &&& final(self).group_counters_view() == run2.state.counters
                &&& final(self).warn_view() == run2.state.warn
                &&& final(self).block_view() == old(self).block_view()
                &&& (forall|t: Seq<char>| final(self).budget_last(t) == old(self).budget_last(t))
                &&& final(self).paused() == old(self).paused()
                &&& r.effects@ == run1.effects + run2.effects
                &&& r.reservations@ == run1.reservations
                &&& r.group_reservations@ == run2.reservations
                &&& limit_violations_match(r.violations@, run1.violations, limits@)
                &&& group_violations_match(r.group_violations@, run2.violations, groups@)
            }),
    {
        self.check_impl(limits, groups, projects, persisted, group_persisted, true, provider_id, project_tag,
            model, 0, 0, duration_ms, now_ms, clock, has_webhook)
    }

    fn check_impl(
        &mut self,
        limits: &[Limit],
        groups: &[LimitGroup],
        projects: &[Project],
        persisted: &[u64],
        group_persisted: &[u64],
        time_only: bool,
        provider_id: i64,
        project_tag: Option<&str>,
        model: Option<&str>,
        cost: u64,
        tokens: u64,
        duration_ms: u64,
        now_ms: u64,
        clock: Clock,
        has_webhook: bool,
    ) -> (r: LimitCheckResult)
        requires
            clock.weekday < 7,
        ensures
            ({
                let f = RequestFacts {
                    provider_id, project_tag: opt_str(project_tag), model: opt_str(model),
                    cost, tokens, duration_ms, now_ms, clock, has_webhook,
                };
                let run1 = engine_fold(limit_rules(limits@), persisted@, f, projects@, false, time_only,
                    EngineView { counters: old(self).limit_counters_view(), warn: old(self).warn_view(), block: old(self).block_view() },
                    limits@.len());
                let run2 = engine_fold(group_rules(groups@), group_persisted@, f, projects@, true, time_only,
                    EngineView { counters: old(self).group_counters_view(), warn: run1.state.warn, block: old(self).block_view() },
                    groups@.len());
                &&& final(self).limit_counters_view() == run1.state.counters
                &&& final(self).group_counters_view() == run2.state.counters
                &&& final(self).warn_view() == run2.state.warn
                &&& final(self).block_view() == old(self).block_view()
                &&& (forall|t: Seq<char>| final(self).budget_last(t) == old(self).budget_last(t))
                &&& final(self).paused() == old(self).paused()
                &&& r.effects@ == run1.effects + run2.effects
                &&& r.reservations@ == run1.reservations
                &&& r.group_reservations@ == run2.reservations
                &&& limit_violations_match(r.violations@, run1.violations, limits@)
                &&& group_violations_match(r.group_violations@, run2.violations, groups@)
            }),
    {
        let ghost f = RequestFacts {
            provider_id, project_tag: opt_str(project_tag), model: opt_str(model),
            cost, tokens, duration_ms, now_ms, clock, has_webhook,
        };
        let mut effects: Vec<LimitEffect> = Vec::new();
        let mut violations: Vec<LimitViolation> = Vec::new();
        let mut group_violations: Vec<GroupViolation> = Vec::new();
        let mut reservations: Vec<(i64, u64)> = Vec::new();
        let mut group_reservations: Vec<(i64, u64)> = Vec::new();
        run_limits(limits, persisted, projects, time_only, provider_id, project_tag, model, cost, tokens,
            duration_ms, now_ms, clock, has_webhook, &mut self.limit_counters, &mut self.last_warning,
            &self.last_block_notify, &mut effects, &mut violations, &mut reservations, Ghost(f));
        let ghost e1 = effects@;
        run_groups(groups, group_persisted, projects, time_only, provider_id, project_tag, model, cost, tokens,
            duration_ms, now_ms, clock, has_webhook, &mut self.group_counters, &mut self.last_warning,
            &self.last_block_notify, &mut effects, &mut group_violations, &mut group_reservations, Ghost(f));
        proof {
            assert(violations@.subrange(0, violations@.len() as int) =~= violations@);
            assert(group_violations@.subrange(0, group_violations@.len() as int) =~= group_violations@);
            assert(Seq::<LimitEffect>::empty() + e1 =~= e1);
        }
        LimitCheckResult { violations, group_violations, reservations, group_reservations, effects }
    }


    /// Release in-flight reservations made by `check_limits`, clamping at zero.
    pub fn release_request_limits(&mut self, reservations: &[(i64, u64)])
        ensures
            final(self).limit_counters_view() == release_all(old(self).limit_counters_view(), reservations@),
            final(self).group_counters_view() == old(self).group_counters_view(),
            final(self).warn_view() == old(self).warn_view(),
            final(self).block_view() == old(self).block_view(),
            forall|t: Seq<char>| final(self).budget_last(t) == old(self).budget_last(t),
            final(self).paused() == old(self).paused(),
    {
        release_list(&mut self.limit_counters, reservations);
    }

    /// Release in-flight group reservations made by `check_limits`.
    pub fn release_group_limits(&mut self, reservations: &[(i64, u64)])
        ensures
            final(self).group_counters_view() == release_all(old(self).group_counters_view(), reservations@),
            final(self).limit_counters_view() == old(self).limit_counters_view(),
            final(self).warn_view() == old(self).warn_view(),
            final(self).block_view() == old(self).block_view(),
            forall|t: Seq<char>| final(self).budget_last(t) == old(self).budget_last(t),
            final(self).paused() == old(self).paused(),
    {
        release_list(&mut self.group_counters, reservations);
    }

    /// In-flight amount held for one limit.
    pub fn in_flight_for_limit(&self, limit_id: i64) -> (r: u64)
        ensures
            r == map_get_or_zero(self.limit_counters_view(), limit_id),
    {
        self.limit_counters.get(limit_id)
    }

    /// Non-mutating peek: is a block/pause notification for this limit out of cooldown?
    pub fn can_notify_block(&self, limit_id: i64, now_ms: u64) -> (b: bool)
        ensures
            b == cooldown_allows_spec(map_last(self.block_view(), limit_id), now_ms),
    {
        self.last_block_notify.peek(limit_id, now_ms)
    }

    /// Record that a block/pause notification was sent for this limit.
    pub fn mark_block_notified(&mut self, limit_id: i64, now_ms: u64)
        ensures
            final(self).block_view() == old(self).block_view().insert(limit_id, now_ms),
            final(self).warn_view() == old(self).warn_view(),
            final(self).limit_counters_view() == old(self).limit_counters_view(),
            final(self).group_counters_view() == old(self).group_counters_view(),
            forall|t: Seq<char>| final(self).budget_last(t) == old(self).budget_last(t),
            final(self).paused() == old(self).paused(),
    {
        self.last_block_notify.mark(limit_id, now_ms);
    }

    /// Non-mutating peek: is a warning notification for this limit out of cooldown?
    pub fn can_notify_warning(&self, limit_id: i64, now_ms: u64) -> (b: bool)
        ensures
            b == cooldown_allows_spec(map_last(self.warn_view(), limit_id), now_ms),
    {
        self.last_warning.peek(limit_id, now_ms)
    }

    /// Record that a warning notification was sent for this limit.
    pub fn mark_warning_notified(&mut self, limit_id: i64, now_ms: u64)
        ensures
            final(self).warn_view() == old(self).warn_view().insert(limit_id, now_ms),
            final(self).block_view() == old(self).block_view(),
            final(self).limit_counters_view() == old(self).limit_counters_view(),
            final(self).group_counters_view() == old(self).group_counters_view(),
            forall|t: Seq<char>| final(self).budget_last(t) == old(self).budget_last(t),
            final(self).paused() == old(self).paused(),
    {
        self.last_warning.mark(limit_id, now_ms);
    }

    /// Non-mutating peek: is a budget warning for this project out of cooldown?
    pub fn can_notify_budget(&self, project_tag: &str, now_ms: u64) -> (b: bool)
        ensures
            b == cooldown_allows_spec(self.budget_last(project_tag@), now_ms),
    {
        self.last_budget_warning.peek(project_tag, now_ms)
    }

    /// Record that a budget warning was sent for this project.
    pub fn mark_budget_notified(&mut self, project_tag: &str, now_ms: u64)
        ensures
            forall|t: Seq<char>| #[trigger] final(self).budget_last(t) == if t == project_tag@ {
                Some(now_ms)
            } else {
                old(self).budget_last(t)
            },
            final(self).warn_view() == old(self).warn_view(),
            final(self).block_view() == old(self).block_view(),
            final(self).limit_counters_view() == old(self).limit_counters_view(),
            final(self).group_counters_view() == old(self).group_counters_view(),
            final(self).paused() == old(self).paused(),
    {
        self.last_budget_warning.mark(project_tag, now_ms);
    }

    /// Whether the proxy is paused.
    pub fn is_paused(&self) -> (b: bool)
        ensures
            b == self.paused(),
    {
        self.paused
    }

    /// Idempotently set the paused flag; returns whether it changed, which is
    /// when the caller notifies and refreshes the tray.
    pub fn set_paused(&mut self, paused: bool) -> (changed: bool)
        ensures
            final(self).paused() == paused,
            changed == (old(self).paused() != paused),
            final(self).warn_view() == old(self).warn_view(),
            final(self).block_view() == old(self).block_view(),
            final(self).limit_counters_view() == old(self).limit_counters_view(),
            final(self).group_counters_view() == old(self).group_counters_view(),
            forall|t: Seq<char>| final(self).budget_last(t) == old(self).budget_last(t),
    {
        let was = self.paused;
        self.paused = paused;
        was != paused
    }

    /// Flip the paused flag. Returns the new state.
    pub fn toggle_pause(&mut self) -> (r: bool)
        ensures
            r == !old(self).paused(),
            final(self).paused() == r,
            final(self).warn_view() == old(self).warn_view(),
            final(self).block_view() == old(self).block_view(),
            final(self).limit_counters_view() == old(self).limit_counters_view(),
            final(self).group_counters_view() == old(self).group_counters_view(),
            forall|t: Seq<char>| final(self).budget_last(t) == old(self).budget_last(t),
    {
        let new = !self.paused;
        self.set_paused(new);
        new
    }


    /// Notify, pause and decide for one violation. `Block` refuses only
    /// before forwarding; `Pause` pauses the proxy in either phase and refuses
    /// before forwarding; `Warn` never refuses. A notification is shown only
    /// when the violation says so, and its cooldown is then recorded.
    pub fn apply_violation(&mut self, v: &ViolationAction, phase: LimitPhase, now_ms: u64) -> (r: AppliedViolation)
        ensures
            r.notice == (if v.should_notify {
                Some(match v.action {
                    LimitAction::Block => ViolationNotice::Blocked,
                    LimitAction::Pause => ViolationNotice::Paused,
                    LimitAction::Warn => ViolationNotice::Warning,
                })
            } else {
                None
            }),
            final(self).block_view() == (if v.should_notify && v.action != LimitAction::Warn {
                old(self).block_view().insert(v.id, now_ms)
            } else {
                old(self).block_view()
            }),
            final(self).warn_view() == (if v.should_notify && v.action == LimitAction::Warn {
                old(self).warn_view().insert(v.id, now_ms)
            } else {
                old(self).warn_view()
            }),
            final(self).paused() == (old(self).paused() || v.action == LimitAction::Pause),
            r.pause_changed == (v.action == LimitAction::Pause && !old(self).paused()),
            final(self).limit_counters_view() == old(self).limit_counters_view(),
            final(self).group_counters_view() == old(self).group_counters_view(),
            forall|t: Seq<char>| final(self).budget_last(t) == old(self).budget_last(t),
            match r.outcome {
                ViolationOutcome::Continue => v.action == LimitAction::Warn || phase == LimitPhase::PostFlight,
                ViolationOutcome::Blocked(m) => v.action == LimitAction::Block && phase == LimitPhase::PreFlight
                    && m@ == blocked_message(v.kind@, v.name@, v.used as int, v.cap as int),
                ViolationOutcome::Paused(m) => v.action == LimitAction::Pause && phase == LimitPhase::PreFlight
                    && m@ == paused_message(v.kind@, v.name@),
            },
            (v.action == LimitAction::Warn || phase == LimitPhase::PostFlight) ==> r.outcome is Continue,
    {
        let refusable = phase == LimitPhase::PreFlight;
        match v.action {
            LimitAction::Block => {
                let mut notice = None;
                if v.should_notify {
                    notice = Some(ViolationNotice::Blocked);
                    self.mark_block_notified(v.id, now_ms);
                }
                let outcome = if refusable {
                    ViolationOutcome::Blocked(blocked_message_exec(v.kind, v.name.as_str(), v.used, v.cap))
                } else {
                    ViolationOutcome::Continue
                };
                AppliedViolation { outcome, notice, pause_changed: false }
            },
            LimitAction::Pause => {
                let mut notice = None;
                if v.should_notify {
                    notice = Some(ViolationNotice::Paused);
                    self.mark_block_notified(v.id, now_ms);
                }
                let changed = self.set_paused(true);
                let outcome = if refusable {
                    ViolationOutcome::Paused(paused_message_exec(v.kind, v.name.as_str()))
                } else {
                    ViolationOutcome::Continue
                };
                AppliedViolation { outcome, notice, pause_changed: changed }
            },
            LimitAction::Warn => {
                let mut notice = None;
                if v.should_notify {
                    notice = Some(ViolationNotice::Warning);
                    self.mark_warning_notified(v.id, now_ms);
                }
                AppliedViolation { outcome: ViolationOutcome::Continue, notice, pause_changed: false }
            },
        }
    }

    /// A project's budget status: `Some((used, budget, action, should_notify))`
    /// when the first project named `project_tag` has a budget and `used`
    /// (its spend over its budget period) has reached it. `should_notify` is a
    /// cooldown peek for `Warn` and always true otherwise.
    pub fn check_project_budget(&self, projects: &[Project], project_tag: &str, used: u64, now_ms: u64)
        -> (r: Option<(u64, u64, LimitAction, bool)>)
        ensures
            r == budget_check_spec(projects@, project_tag@, used, self.budget_last(project_tag@), now_ms),
    {
        let i = match find_project(projects, project_tag, false) {
            Some(i) => i,
            None => return None,
        };
        let p = &projects[i];
        if p.budget == 0 || used < p.budget {
            return None;
        }
        let notify = match p.budget_action {
            LimitAction::Warn => self.can_notify_budget(project_tag, now_ms),
            _ => true,
        };
        Some((used, p.budget, p.budget_action, notify))
    }

}

// ---------------------------------------------------------------------------
// Settling a request
// ---------------------------------------------------------------------------

/// The reservations one request holds in the in-flight counters, released
/// exactly once: when the request settles, or when it is refused or
/// cancelled first.
pub struct RequestSettlement {
    reservations: Vec<(i64, u64)>,
    group_reservations: Vec<(i64, u64)>,
    released: bool,
}

fn copy_reservations(v: &Vec<(i64, u64)>) -> (r: Vec<(i64, u64)>)
    ensures
        r@ == v@,
{
    let mut out: Vec<(i64, u64)> = Vec::new();
    let mut i: usize = 0;
    while i < v.len()
        invariant
            i <= v@.len(),
            out@ == v@.subrange(0, i as int),
        decreases v.len() - i,
    {
        out.push(v[i]);
        i = i + 1;
        assert(out@ =~= v@.subrange(0, i as int));
    }
    assert(v@.subrange(0, v@.len() as int) =~= v@);
    out
}

impl RequestSettlement {
    pub closed spec fn reservations(&self) -> Seq<(i64, u64)> {
        self.reservations@
    }

    pub closed spec fn group_reservations(&self) -> Seq<(i64, u64)> {
        self.group_reservations@
    }

    pub closed spec fn is_released(&self) -> bool {
        self.released
    }

    /// Hold the reservations a limit check made.
    pub fn new(check: &LimitCheckResult) -> (s: Self)
        ensures
            s.reservations() == check.reservations@,
            s.group_reservations() == check.group_reservations@,
            !s.is_released(),
    {
        RequestSettlement {
            reservations: copy_reservations(&check.reservations),
            group_reservations: copy_reservations(&check.group_reservations),
            released: false,
        }
    }

    /// Whether the reservations were released.
    pub fn released(&self) -> (b: bool)
        ensures
            b == self.is_released(),
    {
        self.released
    }

    /// Release the reservations, the first time only: a later call changes
    /// nothing, so a request settled and then dropped releases once.
    pub fn release(&mut self, state: &mut LimitState)
        ensures
            final(self).is_released(),
            final(self).reservations() == old(self).reservations(),
            final(self).group_reservations() == old(self).group_reservations(),
            final(state).limit_counters_view() == if old(self).is_released() {
                old(state).limit_counters_view()
            } else {
                release_all(old(state).limit_counters_view(), old(self).reservations())
            },
            final(state).group_counters_view() == if old(self).is_released() {
                old(state).group_counters_view()
            } else {
                release_all(old(state).group_counters_view(), old(self).group_reservations())
            },
            final(state).warn_view() == old(state).warn_view(),
            final(state).block_view() == old(state).block_view(),
            final(state).paused() == old(state).paused(),
            forall|t: Seq<char>| final(state).budget_last(t) == old(state).budget_last(t),
    {
        if self.released {
            return;
        }
        self.released = true;
        state.release_request_limits(self.reservations.as_slice());
        state.release_group_limits(self.group_reservations.as_slice());
    }

    /// Settle a finished request: release its reservations (unless already
    /// released), then check the time limits against its real duration and
    /// apply what they report after the fact: notices and pausing, never a
    /// refusal. Returns the check (its effects are the caller's to perform)
    /// and what applying each violation gave, limits first, then groups.
    pub fn settle(
        self,
        state: &mut LimitState,
        limits: &[Limit],
        groups: &[LimitGroup],
        projects: &[Project],
        persisted: &[u64],
        group_persisted: &[u64],
        provider_id: i64,
        project_tag: Option<&str>,
        model: Option<&str>,
        duration_ms: u64,
        now_ms: u64,
        clock: Clock,
        has_webhook: bool,
    ) -> (r: (LimitCheckResult, Vec<AppliedViolation>))
        requires
            clock.weekday < 7,
        ensures
            ({
                let counters = if self.is_released() {
                    old(state).limit_counters_view()
                } else {
                    release_all(old(state).limit_counters_view(), self.reservations())
                };
                let group_counters = if self.is_released() {
                    old(state).group_counters_view()
                } else {
                    release_all(old(state).group_counters_view(), self.group_reservations())
                };
                let f = RequestFacts {
                    provider_id, project_tag: opt_str(project_tag), model: opt_str(model),
                    cost: 0, tokens: 0, duration_ms, now_ms, clock, has_webhook,
                };
                let run1 = engine_fold(limit_rules(limits@), persisted@, f, projects@, false, true,
                    EngineView { counters, warn: old(state).warn_view(), block: old(state).block_view() },
                    limits@.len());
                let run2 = engine_fold(group_rules(groups@), group_persisted@, f, projects@, true, true,
                    EngineView { counters: group_counters, warn: run1.state.warn, block: old(state).block_view() },
                    groups@.len());
                let keys = violation_keys(r.0.violations@, r.0.group_violations@);
                let start = NoticeState { warn: run2.state.warn, block: old(state).block_view(), paused: old(state).paused() };
                let end = apply_all(start, keys, now_ms);
                &&& final(state).limit_counters_view() == run1.state.counters
                &&& final(state).group_counters_view() == run2.state.counters
                &&& final(state).warn_view() == end.warn
                &&& final(state).block_view() == end.block
                &&& final(state).paused() == end.paused
                &&& (forall|t: Seq<char>| final(state).budget_last(t) == old(state).budget_last(t))
                &&& r.0.effects@ == run1.effects + run2.effects
                &&& r.0.reservations@ == run1.reservations
                &&& r.0.group_reservations@ == run2.reservations
                &&& limit_violations_match(r.0.violations@, run1.violations, limits@)
                &&& group_violations_match(r.0.group_violations@, run2.violations, groups@)
                &&& r.1@.len() == keys.len()
                &&& forall|i: int| 0 <= i < keys.len() ==> {
                    &&& (#[trigger] r.1@[i]).outcome is Continue
                    &&& r.1@[i].notice == notice_for(keys[i].1, keys[i].2)
                    &&& r.1@[i].pause_changed == (keys[i].1 == LimitAction::Pause
                        && !apply_all(start, keys.subrange(0, i), now_ms).paused)
                }
            }),
    {
        let mut this = self;
        this.release(state);
        let check = state.check_time_limits(limits, groups, projects, persisted, group_persisted, provider_id,
            project_tag, model, duration_ms, now_ms, clock, has_webhook);
        let ghost keys = violation_keys(check.violations@, check.group_violations@);
        let ghost start = NoticeState { warn: state.warn_view(), block: state.block_view(), paused: state.paused() };
        let ghost counters = state.limit_counters_view();
        let ghost group_counters = state.group_counters_view();
        let ghost lv = check.violations@;
        let ghost gv = check.group_violations@;
        let mut applied: Vec<AppliedViolation> = Vec::new();
        let mut i: usize = 0;
        assert(keys.subrange(0, 0) =~= Seq::<(i64, LimitAction, bool)>::empty());
        while i < check.violations.len()
            invariant
                i <= lv.len(),
                lv == check.violations@,
                gv == check.group_violations@,
                keys == violation_keys(lv, gv),
                keys.len() == lv.len() + gv.len(),
                applied@.len() == i,
                state.limit_counters_view() == counters,
                state.group_counters_view() == group_counters,
                forall|t: Seq<char>| state.budget_last(t) == old(state).budget_last(t),
                start.block == old(state).block_view(),
                start.paused == old(state).paused(),
                apply_all(start, keys.subrange(0, i as int), now_ms) == (NoticeState {
                    warn: state.warn_view(), block: state.block_view(), paused: state.paused() }),
                forall|k: int| 0 <= k < i ==> {
                    &&& (#[trigger] applied@[k]).outcome is Continue
                    &&& applied@[k].notice == notice_for(keys[k].1, keys[k].2)
                    &&& applied@[k].pause_changed == (keys[k].1 == LimitAction::Pause
                        && !apply_all(start, keys.subrange(0, k), now_ms).paused)
                },
            decreases lv.len() - i,
        {
            let v = ViolationAction::from_limit(&check.violations[i]);
            assert(keys[i as int] == (lv[i as int].limit.id, lv[i as int].limit.action, lv[i as int].should_notify));
            let a = state.apply_violation(&v, LimitPhase::PostFlight, now_ms);
            applied.push(a);
            assert(keys.subrange(0, i as int + 1).drop_last() =~= keys.subrange(0, i as int));
            i = i + 1;
        }
        let mut j: usize = 0;
        while j < check.group_violations.len()
            invariant
                j <= gv.len(),
                lv == check.violations@,
                gv == check.group_violations@,
                keys == violation_keys(lv, gv),
                keys.len() == lv.len() + gv.len(),
                applied@.len() == lv.len() + j,
                state.limit_counters_view() == counters,
                state.group_counters_view() == group_counters,
                forall|t: Seq<char>| state.budget_last(t) == old(state).budget_last(t),
                start.block == old(state).block_view(),
                start.paused == old(state).paused(),
                apply_all(start, keys.subrange(0, lv.len() + j), now_ms) == (NoticeState {
                    warn: state.warn_view(), block: state.block_view(), paused: state.paused() }),
                forall|k: int| 0 <= k < lv.len() + j ==> {
                    &&& (#[trigger] applied@[k]).outcome is Continue
                    &&& applied@[k].notice == notice_for(keys[k].1, keys[k].2)
                    &&& applied@[k].pause_changed == (keys[k].1 == LimitAction::Pause
                        && !apply_all(start, keys.subrange(0, k), now_ms).paused)
                },
            decreases gv.len() - j,
        {
            let v = ViolationAction::from_group(&check.group_violations[j]);
            let ghost k = lv.len() + j;
            assert(keys[k] == (gv[j as int].group.id, gv[j as int].group.action, gv[j as int].should_notify));
            let a = state.apply_violation(&v, LimitPhase::PostFlight, now_ms);
            applied.push(a);
            assert(keys.subrange(0, k + 1).drop_last() =~= keys.subrange(0, k));
            j = j + 1;
        }
        assert(keys.subrange(0, keys.len() as int) =~= keys);
        (check, applied)
    }
}

/// A violation refuses the request before it is forwarded unless it only
/// warns.
pub open spec fn refusing(key: (i64, LimitAction, bool)) -> bool {
    key.1 != LimitAction::Warn
}

/// The first violation that refuses the request.
pub open spec fn refusal_index(keys: Seq<(i64, LimitAction, bool)>) -> Option<int> {
    first_index(keys, |k: (i64, LimitAction, bool)| refusing(k))
}

/// The wording of violation `i` of a check (limits first, then groups):
/// its kind, name, usage and cap.
pub open spec fn violation_words(lv: Seq<LimitViolation>, gv: Seq<GroupViolation>, i: int) -> (Seq<char>, Seq<char>, int, int) {
    if i < lv.len() {
        ("limit"@, lv[i].limit.name@, lv[i].used as int, lv[i].limit.cap as int)
    } else {
        let g = gv[i - lv.len()];
        ("limit group"@, g.group.name@, g.used as int, g.group.cap as int)
    }
}

/// The refusal that a refusing violation gives.
pub open spec fn refusal_matches(o: ViolationOutcome, action: LimitAction, w: (Seq<char>, Seq<char>, int, int)) -> bool {
    match o {
        ViolationOutcome::Blocked(m) => action == LimitAction::Block && m@ == blocked_message(w.0, w.1, w.2, w.3),
        ViolationOutcome::Paused(m) => action == LimitAction::Pause && m@ == paused_message(w.0, w.1),
        ViolationOutcome::Continue => false,
    }
}

impl LimitState {
    /// Act on what a pre-flight check reports, limits first, then groups:
    /// each violation notifies and marks its cooldown as it says, a warning
    /// lets the request on, and the first `Block` or `Pause` refuses it (a
    /// `Pause` also pauses the proxy); the violations after it are left
    /// alone. Returns what each violation acted on gave, and the index of
    /// the refusing one. Reservations are the settlement's to release.
    pub fn preflight(&mut self, check: &LimitCheckResult, now_ms: u64) -> (r: (Vec<AppliedViolation>, Option<usize>))
        ensures
            ({
                let keys = violation_keys(check.violations@, check.group_violations@);
                let n = match refusal_index(keys) {
                    Some(i) => i + 1,
                    None => keys.len() as int,
                };
                let start = NoticeState { warn: old(self).warn_view(), block: old(self).block_view(), paused: old(self).paused() };
                let end = apply_all(start, keys.subrange(0, n), now_ms);
                &&& opt_index(r.1) == refusal_index(keys)
                &&& r.0@.len() == n
                &&& final(self).warn_view() == end.warn
                &&& final(self).block_view() == end.block
                &&& final(self).paused() == end.paused
                &&& final(self).limit_counters_view() == old(self).limit_counters_view()
                &&& final(self).group_counters_view() == old(self).group_counters_view()
                &&& (forall|t: Seq<char>| final(self).budget_last(t) == old(self).budget_last(t))
                &&& forall|i: int| 0 <= i < n ==> {
                    &&& (#[trigger] r.0@[i]).notice == notice_for(keys[i].1, keys[i].2)
                    &&& r.0@[i].pause_changed == (keys[i].1 == LimitAction::Pause
                        && !apply_all(start, keys.subrange(0, i), now_ms).paused)
                    &&& if refusal_index(keys) == Some(i) {
                        refusal_matches(r.0@[i].outcome, keys[i].1,
                            violation_words(check.violations@, check.group_violations@, i))
                    } else {
                        r.0@[i].outcome is Continue
                    }
                }
            }),
    {
        let ghost lv = check.violations@;
        let ghost gv = check.group_violations@;
        let ghost keys = violation_keys(lv, gv);
        let ghost start = NoticeState { warn: self.warn_view(), block: self.block_view(), paused: self.paused() };
        let mut applied: Vec<AppliedViolation> = Vec::new();
        let mut i: usize = 0;
        assert(keys.subrange(0, 0) =~= Seq::<(i64, LimitAction, bool)>::empty());
        while i < check.violations.len()
            invariant
                i <= lv.len(),
                lv == check.violations@,
                gv == check.group_violations@,
                keys == violation_keys(lv, gv),
                keys.len() == lv.len() + gv.len(),
                start == (NoticeState { warn: old(self).warn_view(), block: old(self).block_view(), paused: old(self).paused() }),
                self.preflight_progress(*old(self), applied@, keys, start, i as int, now_ms),
            decreases lv.len() - i,
        {
            let v = ViolationAction::from_limit(&check.violations[i]);
            assert(keys[i as int] == (v.id, v.action, v.should_notify));
            let refused = self.preflight_step(&mut applied, &v, Ghost(keys), Ghost(start), Ghost(*old(self)), now_ms);
            if refused {
                proof {
                    let w = violation_words(lv, gv, i as int);
                    assert(v.kind@ == w.0 && v.name@ == w.1 && v.used as int == w.2 && v.cap as int == w.3);
                    self.lemma_preflight_done(*old(self), applied@, keys, start, i as int, lv, gv, now_ms);
                }
                return (applied, Some(i));
            }
            i = i + 1;
        }
        let mut j: usize = 0;
        while j < check.group_violations.len()
            invariant
                j <= gv.len(),
                lv == check.violations@,
                gv == check.group_violations@,
                keys == violation_keys(lv, gv),
                keys.len() == lv.len() + gv.len(),
                start == (NoticeState { warn: old(self).warn_view(), block: old(self).block_view(), paused: old(self).paused() }),
                self.preflight_progress(*old(self), applied@, keys, start, lv.len() + j, now_ms),
            decreases gv.len() - j,
        {
            let v = ViolationAction::from_group(&check.group_violations[j]);
            let ghost k = lv.len() + j;
            assert(keys[k] == (v.id, v.action, v.should_notify));
            let refused = self.preflight_step(&mut applied, &v, Ghost(keys), Ghost(start), Ghost(*old(self)), now_ms);
            if refused {
                proof {
                    let w = violation_words(lv, gv, k);
                    assert(v.kind@ == w.0 && v.name@ == w.1 && v.used as int == w.2 && v.cap as int == w.3);
                    self.lemma_preflight_done(*old(self), applied@, keys, start, k, lv, gv, now_ms);
                }
                let idx = applied.len() - 1;
                return (applied, Some(idx));
            }
            j = j + 1;
        }
        proof {
            self.lemma_preflight_all(*old(self), applied@, keys, start, now_ms);
        }
        (applied, None)
    }

    /// The first `i` violations applied, none of them refusing.
    pub open spec fn preflight_progress(
        &self,
        before: LimitState,
        applied: Seq<AppliedViolation>,
        keys: Seq<(i64, LimitAction, bool)>,
        start: NoticeState,
        i: int,
        now_ms: u64,
    ) -> bool {
        &&& 0 <= i <= keys.len()
        &&& first_index(keys.subrange(0, i), |k: (i64, LimitAction, bool)| refusing(k)) is None
        &&& applied.len() == i
        &&& self.limit_counters_view() == before.limit_counters_view()
        &&& self.group_counters_view() == before.group_counters_view()
        &&& (forall|t: Seq<char>| self.budget_last(t) == before.budget_last(t))
        &&& apply_all(start, keys.subrange(0, i), now_ms) == (NoticeState {
            warn: self.warn_view(), block: self.block_view(), paused: self.paused() })
        &&& forall|k: int| 0 <= k < i ==> {
            &&& (#[trigger] applied[k]).outcome is Continue
            &&& applied[k].notice == notice_for(keys[k].1, keys[k].2)
            &&& applied[k].pause_changed == (keys[k].1 == LimitAction::Pause
                && !apply_all(start, keys.subrange(0, k), now_ms).paused)
        }
    }

    fn preflight_step(
        &mut self,
        applied: &mut Vec<AppliedViolation>,
        v: &ViolationAction,
        Ghost(keys): Ghost<Seq<(i64, LimitAction, bool)>>,
        Ghost(start): Ghost<NoticeState>,
        Ghost(before): Ghost<LimitState>,
        now_ms: u64,
    ) -> (refused: bool)
        requires
            old(self).preflight_progress(before, old(applied)@, keys, start, old(applied)@.len() as int, now_ms),
            old(applied)@.len() < keys.len(),
            keys[old(applied)@.len() as int] == (v.id, v.action, v.should_notify),
        ensures
            refused == (v.action != LimitAction::Warn),
            final(applied)@.len() == old(applied)@.len() + 1,
            final(applied)@.drop_last() == old(applied)@,
            !refused ==> final(self).preflight_progress(before, final(applied)@, keys, start, final(applied)@.len() as int, now_ms),
            refused ==> {
                let i = old(applied)@.len() as int;
                let a = final(applied)@[i];
                &&& first_index(keys.subrange(0, i), |k: (i64, LimitAction, bool)| refusing(k)) is None
                &&& match a.outcome {
                    ViolationOutcome::Blocked(m) => v.action == LimitAction::Block
                        && m@ == blocked_message(v.kind@, v.name@, v.used as int, v.cap as int),
                    ViolationOutcome::Paused(m) => v.action == LimitAction::Pause && m@ == paused_message(v.kind@, v.name@),
                    ViolationOutcome::Continue => false,
                }
                &&& a.notice == notice_for(keys[i].1, keys[i].2)
                &&& a.pause_changed == (keys[i].1 == LimitAction::Pause && !apply_all(start, keys.subrange(0, i), now_ms).paused)
                &&& apply_all(start, keys.subrange(0, i + 1), now_ms) == (NoticeState {
                    warn: final(self).warn_view(), block: final(self).block_view(), paused: final(self).paused() })
                &&& final(self).limit_counters_view() == before.limit_counters_view()
                &&& final(self).group_counters_view() == before.group_counters_view()
                &&& (forall|t: Seq<char>| final(self).budget_last(t) == before.budget_last(t))
                &&& forall|k: int| 0 <= k < i ==> final(applied)@[k] == old(applied)@[k]
            },
    {
        let ghost i = applied@.len() as int;
        let ghost f = |k: (i64, LimitAction, bool)| refusing(k);
        proof {
            lemma_first_index_push(keys, f, i);
        }
        let a = self.apply_violation(v, LimitPhase::PreFlight, now_ms);
        applied.push(a);
        assert(keys.subrange(0, i + 1).drop_last() =~= keys.subrange(0, i));
        assert(applied@.drop_last() =~= old(applied)@);
        v.action != LimitAction::Warn
    }

    proof fn lemma_preflight_done(
        &self,
        before: LimitState,
        applied: Seq<AppliedViolation>,
        keys: Seq<(i64, LimitAction, bool)>,
        start: NoticeState,
        i: int,
        lv: Seq<LimitViolation>,
        gv: Seq<GroupViolation>,
        now_ms: u64,
    )
        requires
            0 <= i < keys.len(),
            applied.len() == i + 1,
            first_index(keys.subrange(0, i), |k: (i64, LimitAction, bool)| refusing(k)) is None,
            refusing(keys[i]),
            refusal_matches(applied[i].outcome, keys[i].1, violation_words(lv, gv, i)),
        ensures
            refusal_index(keys) == Some(i),
    {
        let f = |k: (i64, LimitAction, bool)| refusing(k);
        crate::text::lemma_first_index_push(keys, f, i);
        crate::text::lemma_first_index_prefix(keys, f, i + 1);
    }

    proof fn lemma_preflight_all(
        &self,
        before: LimitState,
        applied: Seq<AppliedViolation>,
        keys: Seq<(i64, LimitAction, bool)>,
        start: NoticeState,
        now_ms: u64,
    )
        requires
            first_index(keys.subrange(0, keys.len() as int), |k: (i64, LimitAction, bool)| refusing(k)) is None,
        ensures
            refusal_index(keys) is None,
    {
        assert(keys.subrange(0, keys.len() as int) =~= keys);
    }
}

/// What post-flight violations act on: the warning and blocking cooldowns
/// and the paused flag.
pub struct NoticeState {
    pub warn: Map<i64, u64>,
    pub block: Map<i64, u64>,
    pub paused: bool,
}

/// The notice shown for a violation with this action, when it notifies.
pub open spec fn notice_for(action: LimitAction, notify: bool) -> Option<ViolationNotice> {
    if notify {
        Some(match action {
            LimitAction::Block => ViolationNotice::Blocked,
            LimitAction::Pause => ViolationNotice::Paused,
            LimitAction::Warn => ViolationNotice::Warning,
        })
    } else {
        None
    }
}

/// One violation applied: a notice marks its cooldown (warnings apart from
/// blocks and pauses), and `Pause` pauses.
pub open spec fn apply_one(st: NoticeState, key: (i64, LimitAction, bool), now: u64) -> NoticeState {
    let (id, action, notify) = key;
    NoticeState {
        warn: if notify && action == LimitAction::Warn { st.warn.insert(id, now) } else { st.warn },
        block: if notify && action != LimitAction::Warn { st.block.insert(id, now) } else { st.block },
        paused: st.paused || action == LimitAction::Pause,
    }
}

/// Violations applied in order.
pub open spec fn apply_all(st: NoticeState, keys: Seq<(i64, LimitAction, bool)>, now: u64) -> NoticeState
    decreases keys.len(),
{
    if keys.len() == 0 {
        st
    } else {
        apply_one(apply_all(st, keys.drop_last(), now), keys.last(), now)
    }
}

/// The id, action and notify flag of each violation, limits first.
pub open spec fn violation_keys(lv: Seq<LimitViolation>, gv: Seq<GroupViolation>) -> Seq<(i64, LimitAction, bool)> {
    lv.map_values(|v: LimitViolation| (v.limit.id, v.limit.action, v.should_notify))
        + gv.map_values(|v: GroupViolation| (v.group.id, v.group.action, v.should_notify))
}

// ---------------------------------------------------------------------------
// Refusing a request on its limits
// ---------------------------------------------------------------------------

/// The status a refused request is answered with: 429 when a limit blocks
/// it, 503 when a limit pauses the proxy.
pub open spec fn refusal_status(action: LimitAction) -> u16 {
    if action == LimitAction::Block { 429 } else { 503 }
}

/// The message a refusing violation answers with.
pub open spec fn refusal_message(action: LimitAction, w: (Seq<char>, Seq<char>, int, int)) -> Seq<char> {
    if action == LimitAction::Block {
        blocked_message(w.0, w.1, w.2, w.3)
    } else {
        paused_message(w.0, w.1)
    }
}

/// Act on a pre-flight check for a request that holds `settlement`: the
/// violations are applied as [`LimitState::preflight`] does, and when one
/// refuses the request, its reservations (individual and group) are
/// released at once and the reply is 429 (block) or 503 (pause) with the
/// violation's message. A request that is let on keeps its reservations.
pub fn screen_limits(
    state: &mut LimitState,
    settlement: &mut RequestSettlement,
    check: &LimitCheckResult,
    now_ms: u64,
) -> (r: (Vec<AppliedViolation>, Option<(u16, String)>))
    ensures
        ({
            let keys = violation_keys(check.violations@, check.group_violations@);
            let n = match refusal_index(keys) {
                Some(i) => i + 1,
                None => keys.len() as int,
            };
            let start = NoticeState { warn: old(state).warn_view(), block: old(state).block_view(), paused: old(state).paused() };
            let end = apply_all(start, keys.subrange(0, n), now_ms);
            let refused = refusal_index(keys) is Some;
            let release = refused && !old(settlement).is_released();
            &&& r.0@.len() == n
            &&& forall|i: int| 0 <= i < n ==> (#[trigger] r.0@[i]).notice == notice_for(keys[i].1, keys[i].2)
            &&& (r.1 is Some) == refused
            &&& match refusal_index(keys) {
                Some(i) => r.1 matches Some(reply) && reply.0 == refusal_status(keys[i].1)
                    && reply.1@ == refusal_message(keys[i].1, violation_words(check.violations@, check.group_violations@, i)),
                None => true,
            }
            &&& final(state).warn_view() == end.warn
            &&& final(state).block_view() == end.block
            &&& final(state).paused() == end.paused
            &&& final(state).limit_counters_view() == if release {
                release_all(old(state).limit_counters_view(), old(settlement).reservations())
            } else {
                old(state).limit_counters_view()
            }
            &&& final(state).group_counters_view() == if release {
                release_all(old(state).group_counters_view(), old(settlement).group_reservations())
            } else {
                old(state).group_counters_view()
            }
            &&& (forall|t: Seq<char>| final(state).budget_last(t) == old(state).budget_last(t))
            &&& final(settlement).is_released() == (old(settlement).is_released() || refused)
            &&& final(settlement).reservations() == old(settlement).reservations()
            &&& final(settlement).group_reservations() == old(settlement).group_reservations()
        }),
{
    let (applied, refusal) = state.preflight(check, now_ms);
    match refusal {
        None => (applied, None),
        Some(i) => {
            settlement.release(state);
            let reply = match &applied[i].outcome {
                ViolationOutcome::Blocked(m) => Some((429u16, m.clone())),
                ViolationOutcome::Paused(m) => Some((503u16, m.clone())),
                ViolationOutcome::Continue => None,
            };
            (applied, reply)
        },
    }
}

} // verus!
