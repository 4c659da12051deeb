//! Fields of the webhook payload sent on limit events.

use vstd::prelude::*;
use crate::config::{LimitMetric, LimitScope, metric_db_name, scope_db_name};

verus! {

/// The metric as the payload names it: its database name.
pub fn metric_name(metric: LimitMetric) -> (r: String)
    ensures
        r@ == metric_db_name(metric),
{
    metric.as_db_str().to_owned()
}

/// The scope as the payload names it: its database name.
pub fn scope_name(scope: LimitScope) -> (r: String)
    ensures
        r@ == scope_db_name(scope),
{
    scope.as_db_str().to_owned()
}

} // verus!
