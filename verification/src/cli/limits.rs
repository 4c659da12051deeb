//! Parsing of limit options given on the command line.

use vstd::prelude::*;
use crate::config::{
    Limit, LimitAction, LimitMetric, LimitPeriod, LimitScope, period_db_name,
};
use crate::text::{
    chars_of, has_prefix, lowercase, parse_u64_range, parse_u64_spec, str_eq, string_push_str, to_lowercase,
    u128_to_decimal, decimal_string,
};

verus! {

/// What a metric argument names, case-insensitively.
pub open spec fn metric_arg(l: Seq<char>) -> Option<LimitMetric> {
    if l == "money"@ {
        Some(LimitMetric::Money)
    } else if l == "tokens"@ {
        Some(LimitMetric::Tokens)
    } else if l == "requests"@ {
        Some(LimitMetric::Requests)
    } else if l == "timesec"@ || l == "time"@ {
        Some(LimitMetric::TimeSec)
    } else if l == "requestsperminute"@ || l == "rpm"@ {
        Some(LimitMetric::RequestsPerMinute)
    } else if l == "tokensperminute"@ || l == "tpm"@ {
        Some(LimitMetric::TokensPerMinute)
    } else {
        None
    }
}

/// `"{prefix}'{arg}'{suffix}"`, the shape of every parse error here.
pub open spec fn quoted_error(prefix: Seq<char>, arg: Seq<char>, suffix: Seq<char>) -> Seq<char> {
    prefix + "'"@ + arg + "'"@ + suffix
}

fn quoted_error_exec(prefix: &str, arg: &str, suffix: &str) -> (r: String)
    ensures
        r@ == quoted_error(prefix@, arg@, suffix@),
{
    let mut m = prefix.to_owned();
    string_push_str(&mut m, "'");
    string_push_str(&mut m, arg);
    string_push_str(&mut m, "'");
    string_push_str(&mut m, suffix);
    m
}

pub fn parse_metric(s: &str) -> (r: Result<LimitMetric, String>)
    ensures
        match metric_arg(lowercase(s@)) {
            Some(m) => r == Ok::<LimitMetric, String>(m),
            None => r matches Err(e) && e@ == quoted_error("unknown metric "@, s@,
                "; use money, tokens, requests, time, rpm, tpm"@),
        },
{
    let l = to_lowercase(s);
    let l = l.as_str();
    if str_eq(l, "money") {
        Ok(LimitMetric::Money)
    } else if str_eq(l, "tokens") {
        Ok(LimitMetric::Tokens)
    } else if str_eq(l, "requests") {
        Ok(LimitMetric::Requests)
    } else if str_eq(l, "timesec") || str_eq(l, "time") {
        Ok(LimitMetric::TimeSec)
    } else if str_eq(l, "requestsperminute") || str_eq(l, "rpm") {
        Ok(LimitMetric::RequestsPerMinute)
    } else if str_eq(l, "tokensperminute") || str_eq(l, "tpm") {
        Ok(LimitMetric::TokensPerMinute)
    } else {
        Err(quoted_error_exec("unknown metric ", s, "; use money, tokens, requests, time, rpm, tpm"))
    }
}

/// What a period argument names, case-insensitively; `custom_sec:<n>`
/// carries its seconds.
pub open spec fn period_arg(l: Seq<char>) -> Option<Result<LimitPeriod, ()>> {
    if l == "once"@ {
        Some(Ok(LimitPeriod::Once))
    } else if l == "hourly"@ {
        Some(Ok(LimitPeriod::Hourly))
    } else if l == "daily"@ {
        Some(Ok(LimitPeriod::Daily))
    } else if l == "weekly"@ {
        Some(Ok(LimitPeriod::Weekly))
    } else if l == "monthly"@ {
        Some(Ok(LimitPeriod::Monthly))
    } else if has_prefix(l, "custom_sec:"@) {
        match parse_u64_spec(l.subrange(11, l.len() as int)) {
            Some(n) => Some(Ok(LimitPeriod::CustomSec(n))),
            None => Some(Err(())),
        }
    } else {
        None
    }
}

pub fn parse_period(s: &str) -> (r: Result<LimitPeriod, String>)
    ensures
        match period_arg(lowercase(s@)) {
            Some(Ok(p)) => r == Ok::<LimitPeriod, String>(p),
            Some(Err(_)) => r matches Err(e) && e@ == "custom period seconds"@,
            None => r matches Err(e) && e@ == quoted_error("unknown period "@, s@,
                "; use once, hourly, daily, weekly, monthly, or custom_sec:<seconds>"@),
        },
{
    let lower = to_lowercase(s);
    let l = lower.as_str();
    if str_eq(l, "once") {
        Ok(LimitPeriod::Once)
    } else if str_eq(l, "hourly") {
        Ok(LimitPeriod::Hourly)
    } else if str_eq(l, "daily") {
        Ok(LimitPeriod::Daily)
    } else if str_eq(l, "weekly") {
        Ok(LimitPeriod::Weekly)
    } else if str_eq(l, "monthly") {
        Ok(LimitPeriod::Monthly)
    } else {
        let v = chars_of(l);
        let p = chars_of("custom_sec:");
        proof {
            reveal_strlit("custom_sec:");
        }
        let mut is_custom = v.len() >= p.len();
        let mut k: usize = 0;
        while is_custom && k < p.len()
            invariant
                p@ == "custom_sec:"@,
                k <= p@.len(),
                is_custom ==> v@.len() >= p@.len(),
                is_custom ==> forall|j: int| 0 <= j < k ==> v@[j] == p@[j],
                !is_custom ==> !has_prefix(v@, p@),
            decreases p.len() - k,
        {
            if v[k] != p[k] {
                is_custom = false;
                assert(v@.subrange(0, p@.len() as int)[k as int] != p@[k as int]);
            }
            k = k + 1;
        }
        if is_custom {
            assert(v@.subrange(0, p@.len() as int) =~= p@);
            match parse_u64_range(&v, 11, v.len()) {
                Some(n) => Ok(LimitPeriod::CustomSec(n)),
                None => Err("custom period seconds".to_owned()),
            }
        } else {
            Err(quoted_error_exec("unknown period ", s,
                "; use once, hourly, daily, weekly, monthly, or custom_sec:<seconds>"))
        }
    }
}

/// What a scope argument names, case-insensitively.
pub open spec fn scope_arg(l: Seq<char>) -> Option<LimitScope> {
    if l == "global"@ {
        Some(LimitScope::Global)
    } else if l == "provider"@ {
        Some(LimitScope::Provider)
    } else if l == "project"@ {
        Some(LimitScope::Project)
    } else if l == "model"@ {
        Some(LimitScope::Model)
    } else {
        None
    }
}

pub fn parse_scope(s: &str) -> (r: Result<LimitScope, String>)
    ensures
        match scope_arg(lowercase(s@)) {
            Some(x) => r == Ok::<LimitScope, String>(x),
            None => r matches Err(e) && e@ == quoted_error("unknown scope "@, s@,
                "; use global, provider, project, or model"@),
        },
{
    let lower = to_lowercase(s);
    let l = lower.as_str();
    if str_eq(l, "global") {
        Ok(LimitScope::Global)
    } else if str_eq(l, "provider") {
        Ok(LimitScope::Provider)
    } else if str_eq(l, "project") {
        Ok(LimitScope::Project)
    } else if str_eq(l, "model") {
        Ok(LimitScope::Model)
    } else {
        Err(quoted_error_exec("unknown scope ", s, "; use global, provider, project, or model"))
    }
}

/// What an action argument names, case-insensitively.
pub open spec fn action_arg(l: Seq<char>) -> Option<LimitAction> {
    if l == "warn"@ {
        Some(LimitAction::Warn)
    } else if l == "block"@ {
        Some(LimitAction::Block)
    } else if l == "pause"@ {
        Some(LimitAction::Pause)
    } else {
        None
    }
}

pub fn parse_action(s: &str) -> (r: Result<LimitAction, String>)
    ensures
        match action_arg(lowercase(s@)) {
            Some(x) => r == Ok::<LimitAction, String>(x),
            None => r matches Err(e) && e@ == quoted_error("unknown action "@, s@,
                "; use warn, block, or pause"@),
        },
{
    let lower = to_lowercase(s);
    let l = lower.as_str();
    if str_eq(l, "warn") {
        Ok(LimitAction::Warn)
    } else if str_eq(l, "block") {
        Ok(LimitAction::Block)
    } else if str_eq(l, "pause") {
        Ok(LimitAction::Pause)
    } else {
        Err(quoted_error_exec("unknown action ", s, "; use warn, block, or pause"))
    }
}

/// How a period is shown: `custom_sec:<n>` for a custom period, its database
/// name otherwise.
pub open spec fn period_str_spec(p: LimitPeriod) -> Seq<char> {
    match p {
        LimitPeriod::CustomSec(s) => "custom_sec:"@ + decimal_string(s as nat),
        _ => period_db_name(p),
    }
}

pub fn period_str(p: &LimitPeriod) -> (r: String)
    ensures
        r@ == period_str_spec(*p),
{
    match p {
        LimitPeriod::CustomSec(s) => {
            let mut out = "custom_sec:".to_owned();
            let n = u128_to_decimal(*s as u128);
            string_push_str(&mut out, n.as_str());
            out
        },
        _ => p.as_db_str().to_owned(),
    }
}

/// Why a limit input is rejected, if it is: an empty name, a provider or
/// project scope without its id, or a model scope without a pattern.
pub open spec fn limit_input_error(name: Seq<char>, scope: LimitScope, scope_id: Option<i64>, pattern_given: bool) -> Option<Seq<char>> {
    if name.len() == 0 {
        Some("limit name cannot be empty"@)
    } else if (scope == LimitScope::Provider || scope == LimitScope::Project) && scope_id is None {
        Some("scope_id is required for provider/project scope"@)
    } else if scope == LimitScope::Model && !pattern_given {
        Some("model_pattern is required for model scope"@)
    } else {
        None
    }
}

/// Check a limit before it is stored.
pub fn validate_limit_input(input: &Limit) -> (r: Result<(), String>)
    ensures
        match limit_input_error(input.name@, input.scope, input.scope_id, input.model_pattern is Some) {
            Some(m) => r matches Err(e) && e@ == m,
            None => r is Ok,
        },
{
    if input.name.as_str().is_empty() {
        return Err("limit name cannot be empty".to_owned());
    }
    if (input.scope == LimitScope::Provider || input.scope == LimitScope::Project) && input.scope_id.is_none() {
        return Err("scope_id is required for provider/project scope".to_owned());
    }
    if input.scope == LimitScope::Model && input.model_pattern.is_none() {
        return Err("model_pattern is required for model scope".to_owned());
    }
    Ok(())
}

/// The options `limit update` was given; what is absent stays as it was.
/// `cap` and `warning_threshold` are in millionths, as in [`Limit`].
pub struct LimitChanges {
    pub name: Option<String>,
    pub metric: Option<String>,
    pub cap: Option<u64>,
    pub action: Option<String>,
    pub period: Option<String>,
    pub warning_threshold: Option<u64>,
    pub enabled: Option<bool>,
    pub scope: Option<String>,
    pub scope_id: Option<i64>,
    pub model_pattern: Option<String>,
    pub active_hours_start: Option<String>,
    pub active_hours_end: Option<String>,
    pub active_days: Option<u8>,
}

/// An optional value, by view.
pub open spec fn opt_view(o: Option<String>) -> Option<Seq<char>> {
    match o {
        Some(s) => Some(s@),
        None => None,
    }
}

/// The value of an option when given, else the current one.
pub open spec fn given_or<T>(o: Option<T>, current: T) -> T {
    match o {
        Some(v) => v,
        None => current,
    }
}

/// Why an update's arguments are refused, if they are: the first of the
/// metric, action, period and scope arguments that does not parse.
pub open spec fn change_parse_error(c: LimitChanges) -> Option<Seq<char>> {
    match c.metric {
        Some(m) if metric_arg(lowercase(m@)) is None => Some(quoted_error("unknown metric "@, m@,
            "; use money, tokens, requests, time, rpm, tpm"@)),
        _ => match c.action {
            Some(a) if action_arg(lowercase(a@)) is None => Some(quoted_error("unknown action "@, a@,
                "; use warn, block, or pause"@)),
            _ => match c.period {
                Some(p) if period_arg(lowercase(p@)) is None => Some(quoted_error("unknown period "@, p@,
                    "; use once, hourly, daily, weekly, monthly, or custom_sec:<seconds>"@)),
                Some(p) if period_arg(lowercase(p@)) matches Some(Err(_)) => Some("custom period seconds"@),
                _ => match c.scope {
                    Some(x) if scope_arg(lowercase(x@)) is None => Some(quoted_error("unknown scope "@, x@,
                        "; use global, provider, project, or model"@)),
                    _ => None,
                },
            },
        },
    }
}

/// A limit updated with the given options: each given option replaces the
/// field (metric, action, period and scope parsed as on creation), the
/// others stay; the result is checked as a new limit would be.
pub fn apply_limit_update(existing: &Limit, changes: LimitChanges) -> (r: Result<Limit, String>)
    ensures
        match change_parse_error(changes) {
            Some(e) => r matches Err(m) && m@ == e,
            None => {
                let name = given_or(opt_view(changes.name), existing.name@);
                let scope = match changes.scope {
                    Some(x) => scope_arg(lowercase(x@)).unwrap(),
                    None => existing.scope,
                };
                let scope_id = match changes.scope_id {
                    Some(i) => Some(i),
                    None => existing.scope_id,
                };
                let pattern = match changes.model_pattern {
                    Some(p) => Some(p@),
                    None => opt_view(existing.model_pattern),
                };
                match limit_input_error(name, scope, scope_id, pattern is Some) {
                    Some(e) => r matches Err(m) && m@ == e,
                    None => r matches Ok(l) && {
                        &&& l.id == existing.id
                        &&& l.name@ == name
                        &&& l.metric == match changes.metric {
                            Some(m) => metric_arg(lowercase(m@)).unwrap(),
                            None => existing.metric,
                        }
                        &&& l.cap == given_or(changes.cap, existing.cap)
                        &&& l.action == match changes.action {
                            Some(a) => action_arg(lowercase(a@)).unwrap(),
                            None => existing.action,
                        }
                        &&& l.period == match changes.period {
                            Some(p) => period_arg(lowercase(p@)).unwrap().unwrap(),
                            None => existing.period,
                        }
                        &&& l.warning_threshold == given_or(changes.warning_threshold, existing.warning_threshold)
                        &&& l.enabled == given_or(changes.enabled, existing.enabled)
                        &&& l.scope == scope
                        &&& l.scope_id == scope_id
                        &&& opt_view(l.model_pattern) == pattern
                        &&& opt_view(l.active_hours_start) == match changes.active_hours_start {
                            Some(h) => Some(h@),
                            None => opt_view(existing.active_hours_start),
                        }
                        &&& opt_view(l.active_hours_end) == match changes.active_hours_end {
                            Some(h) => Some(h@),
                            None => opt_view(existing.active_hours_end),
                        }
                        &&& l.active_days == given_or(changes.active_days, existing.active_days)
                    },
                }
            },
        },
{
    let metric = match &changes.metric {
        Some(m) => parse_metric(m.as_str())?,
        None => existing.metric,
    };
    let action = match &changes.action {
        Some(a) => parse_action(a.as_str())?,
        None => existing.action,
    };
    let period = match &changes.period {
        Some(p) => parse_period(p.as_str())?,
        None => existing.period,
    };
    let scope = match &changes.scope {
        Some(x) => parse_scope(x.as_str())?,
        None => existing.scope,
    };
    let limit = Limit {
        id: existing.id,
        name: match changes.name {
            Some(n) => n,
            None => existing.name.clone(),
        },
        metric,
        period,
        cap: match changes.cap {
            Some(c) => c,
            None => existing.cap,
        },
        warning_threshold: match changes.warning_threshold {
            Some(w) => w,
            None => existing.warning_threshold,
        },
        scope,
        scope_id: match changes.scope_id {
            Some(i) => Some(i),
            None => existing.scope_id,
        },
        action,
        enabled: match changes.enabled {
            Some(e) => e,
            None => existing.enabled,
        },
        active_hours_start: match changes.active_hours_start {
            Some(h) => Some(h),
            None => existing.active_hours_start.clone(),
        },
        active_hours_end: match changes.active_hours_end {
            Some(h) => Some(h),
            None => existing.active_hours_end.clone(),
        },
        active_days: match changes.active_days {
            Some(d) => d,
            None => existing.active_days,
        },
        model_pattern: match changes.model_pattern {
            Some(p) => Some(p),
            None => existing.model_pattern.clone(),
        },
    };
    validate_limit_input(&limit)?;
    Ok(limit)
}

} // verus!
