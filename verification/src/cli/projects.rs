//! Parsing of project options given on the command line.

use vstd::prelude::*;
use crate::config::{BudgetPeriod, LimitAction};
use crate::text::{lowercase, str_eq, string_push_str, to_lowercase};

verus! {

/// What a budget-period argument names, case-insensitively.
pub open spec fn budget_period_arg(l: Seq<char>) -> Option<BudgetPeriod> {
    if l == "daily"@ {
        Some(BudgetPeriod::Daily)
    } else if l == "weekly"@ {
        Some(BudgetPeriod::Weekly)
    } else if l == "monthly"@ {
        Some(BudgetPeriod::Monthly)
    } else {
        None
    }
}

/// What a budget-action argument names, case-insensitively.
pub open spec fn budget_action_arg(l: Seq<char>) -> Option<LimitAction> {
    if l == "warn"@ {
        Some(LimitAction::Warn)
    } else if l == "block"@ {
        Some(LimitAction::Block)
    } else if l == "pause"@ {
        Some(LimitAction::Pause)
    } else {
        None
    }
}

pub fn parse_budget_period(s: &str) -> (r: Result<BudgetPeriod, String>)
    ensures
        match budget_period_arg(lowercase(s@)) {
            Some(p) => r == Ok::<BudgetPeriod, String>(p),
            None => r matches Err(e) && e@ == "unknown budget period '"@ + s@ + "'; use daily, weekly, or monthly"@,
        },
{
    let lower = to_lowercase(s);
    let l = lower.as_str();
    if str_eq(l, "daily") {
        Ok(BudgetPeriod::Daily)
    } else if str_eq(l, "weekly") {
        Ok(BudgetPeriod::Weekly)
    } else if str_eq(l, "monthly") {
        Ok(BudgetPeriod::Monthly)
    } else {
        let mut m = "unknown budget period '".to_owned();
        string_push_str(&mut m, s);
        string_push_str(&mut m, "'; use daily, weekly, or monthly");
        Err(m)
    }
}

pub fn parse_budget_action(s: &str) -> (r: Result<LimitAction, String>)
    ensures
        match budget_action_arg(lowercase(s@)) {
            Some(a) => r == Ok::<LimitAction, String>(a),
            None => r matches Err(e) && e@ == "unknown budget action '"@ + s@ + "'; use warn, block, or pause"@,
        },
{
    let lower = to_lowercase(s);
    let l = lower.as_str();
    if str_eq(l, "warn") {
        Ok(LimitAction::Warn)
    } else if str_eq(l, "block") {
        Ok(LimitAction::Block)
    } else if str_eq(l, "pause") {
        Ok(LimitAction::Pause)
    } else {
        let mut m = "unknown budget action '".to_owned();
        string_push_str(&mut m, s);
        string_push_str(&mut m, "'; use warn, block, or pause");
        Err(m)
    }
}

} // verus!
