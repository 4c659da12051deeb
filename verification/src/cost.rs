//! Cost calculation. Per-model pricing is approximate and user-overridable.
//!
//! Prices are whole nano-dollars per 1K tokens (equivalently micro-dollars
//! per million tokens), and a cost comes out exactly in pico-dollars
//! (10^-12 USD): `tokens * price` is the cost of `tokens` at `price`.
//! A batch discount is a multiplier in millionths (`500_000` halves the
//! token cost) and a request fee is in nano-dollars.

use vstd::prelude::*;
use crate::json::{Json, JsonView, get_u64, jget, ju64};
use crate::schedule::{Clock, find_char, find_char_from, lemma_find_char_bounds};
use crate::text::{
    chars_of, contains_exec, contains_seq, first_index, has_prefix, lemma_first_index_prefix,
    lemma_first_index_push, lowercase, opt_index, parse_u32_range, parse_u32_spec, str_eq, to_lowercase,
};

verus! {

/// A context-window band of a model's pricing.
pub struct ContextTier {
    /// Upper bound of the band, in prompt tokens; `None` takes every size.
    pub max_context_tokens: Option<u64>,
    pub input_per_1k: u64,
    pub output_per_1k: u64,
    pub cached_input_per_1k: Option<u64>,
}

/// A time-of-day pricing band (UTC).
pub struct TimeTier {
    pub name: String,
    /// Days it applies on, 0 = Monday .. 6 = Sunday; empty means every day.
    pub days: Vec<u8>,
    /// Start, `HH:MM`, inclusive.
    pub start: String,
    /// End, `HH:MM`, inclusive; a band may wrap past midnight.
    pub end: String,
    pub input_per_1k: u64,
    pub output_per_1k: u64,
    pub cached_input_per_1k: Option<u64>,
}

/// A model's pricing. Every part is optional, so the built-in table can
/// supply some and a user override others.
pub struct PricingProfile {
    pub input_per_1k: Option<u64>,
    pub output_per_1k: Option<u64>,
    pub cached_input_per_1k: Option<u64>,
    pub context_tiers: Option<Vec<ContextTier>>,
    pub time_tiers: Option<Vec<TimeTier>>,
    /// Multiplier on the token cost, in millionths.
    pub batch_discount: Option<u64>,
    /// Price of reasoning tokens; the rest of the completion is charged at
    /// the output price.
    pub reasoning_per_1k: Option<u64>,
    /// Flat fee per request, in nano-dollars; not discounted.
    pub request_fee: Option<u64>,
}

/// A profile with nothing set.
pub open spec fn no_profile() -> PricingProfile {
    PricingProfile {
        input_per_1k: None,
        output_per_1k: None,
        cached_input_per_1k: None,
        context_tiers: None,
        time_tiers: None,
        batch_discount: None,
        reasoning_per_1k: None,
        request_fee: None,
    }
}

impl Default for PricingProfile {
    fn default() -> (r: Self)
        ensures
            r == no_profile(),
    {
        PricingProfile {
            input_per_1k: None,
            output_per_1k: None,
            cached_input_per_1k: None,
            context_tiers: None,
            time_tiers: None,
            batch_discount: None,
            reasoning_per_1k: None,
            request_fee: None,
        }
    }
}

/// Token usage of one request, with the time it ran (for time-of-day
/// pricing; none skips time tiers).
pub struct UsageBreakdown {
    pub prompt_tokens: u64,
    pub completion_tokens: u64,
    pub cached_tokens: u64,
    pub reasoning_tokens: u64,
    pub timestamp: Option<Clock>,
}

/// An entry of the built-in price table: a model-name pattern matched by
/// prefix (or anywhere, for `contains`), and its pricing.
pub struct PriceEntry {
    pub pattern: String,
    pub match_type: String,
    pub profile: PricingProfile,
}

// ---------------------------------------------------------------------------
// Looking a model up
// ---------------------------------------------------------------------------

/// An entry's pattern matches a (lower-cased) model name.
pub open spec fn entry_matches(e: PriceEntry, model_lower: Seq<char>) -> bool {
    let p = lowercase(e.pattern@);
    if e.match_type@ == "contains"@ {
        contains_seq(model_lower, p)
    } else {
        has_prefix(model_lower, p)
    }
}

/// The length of an entry's pattern in bytes, as `str::len` reports it.
pub open spec fn pattern_len(e: PriceEntry) -> usize {
    vstd::utf8::encode_utf8(e.pattern@).len() as usize
}

/// The most specific matching entry: the one with the longest pattern, the
/// earliest among equally long ones.
pub open spec fn lookup_index(table: Seq<PriceEntry>, model_lower: Seq<char>) -> Option<int>
    decreases table.len(),
{
    if table.len() == 0 {
        None
    } else {
        let b = lookup_index(table.drop_last(), model_lower);
        let i = table.len() - 1;
        if entry_matches(table[i], model_lower) && (b is None || pattern_len(table[i]) > pattern_len(table[b->0])) {
            Some(i)
        } else {
            b
        }
    }
}

proof fn lemma_lookup_index_bounds(table: Seq<PriceEntry>, m: Seq<char>)
    ensures
        lookup_index(table, m) matches Some(i) ==> 0 <= i < table.len(),
    decreases table.len(),
{
    if table.len() > 0 {
        lemma_lookup_index_bounds(table.drop_last(), m);
    }
}

/// The index of the table entry pricing `model` (compared lower-cased).
pub fn lookup(table: &[PriceEntry], model: &str) -> (r: Option<usize>)
    ensures
        opt_index(r) == lookup_index(table@, lowercase(model@)),
        r matches Some(i) ==> i < table@.len(),
{
    let lower = to_lowercase(model);
    let m = chars_of(lower.as_str());
    let mut best: Option<usize> = None;
    let mut i: usize = 0;
    assert(table@.subrange(0, 0) =~= Seq::<PriceEntry>::empty());
    while i < table.len()
        invariant
            i <= table@.len(),
            m@ == lowercase(model@),
            opt_index(best) == lookup_index(table@.subrange(0, i as int), m@),
            best matches Some(b) ==> b < i,
        decreases table.len() - i,
    {
        let e = &table[i];
        let p = chars_of(to_lowercase(e.pattern.as_str()).as_str());
        let hit = if str_eq(e.match_type.as_str(), "contains") {
            contains_exec(&m, &p)
        } else {
            crate::text::starts_with_exec(&m, &p)
        };
        proof {
            reveal_strlit("contains");
            let t = table@.subrange(0, i + 1);
            assert(t.drop_last() =~= table@.subrange(0, i as int));
            assert(t[i as int] == table@[i as int]);
            if let Some(b) = best {
                assert(t[b as int] == table@[b as int]);
            }
        }
        let longer = match best {
            Some(b) => e.pattern.as_str().len() > table[b].pattern.as_str().len(),
            None => true,
        };
        if hit && longer {
            best = Some(i);
        }
        i = i + 1;
    }
    assert(table@.subrange(0, table@.len() as int) =~= table@);
    best
}

// ---------------------------------------------------------------------------
// Pricing bands
// ---------------------------------------------------------------------------

/// A band takes `prompt` tokens under its bound.
pub open spec fn fits(t: ContextTier, prompt: u64) -> bool {
    match t.max_context_tokens {
        Some(m) => prompt <= m,
        None => false,
    }
}

/// The bounded band with the least bound that takes `prompt` tokens, the
/// earliest among equal bounds.
pub open spec fn best_bounded(ts: Seq<ContextTier>, prompt: u64) -> Option<int>
    decreases ts.len(),
{
    if ts.len() == 0 {
        None
    } else {
        let b = best_bounded(ts.drop_last(), prompt);
        let i = ts.len() - 1;
        if fits(ts[i], prompt) && (b is None || ts[i].max_context_tokens->0 < ts[b->0].max_context_tokens->0) {
            Some(i)
        } else {
            b
        }
    }
}

/// The band for a prompt: the tightest bounded band that takes it, else the
/// first unbounded band.
pub open spec fn context_tier_index(ts: Seq<ContextTier>, prompt: u64) -> Option<int> {
    match best_bounded(ts, prompt) {
        Some(i) => Some(i),
        None => first_index(ts, |t: ContextTier| t.max_context_tokens is None),
    }
}

/// Minutes since midnight of an `HH:MM` band bound: the text before the
/// first `:` and the text after it (up to any further `:`), each as
/// `str::parse::<u32>` reads it; none when either is missing or unreadable.
pub open spec fn tier_minutes(s: Seq<char>) -> Option<int> {
    let i = find_char_from(s, ':', 0);
    if i >= s.len() {
        None
    } else {
        let j = find_char_from(s, ':', i + 1);
        match (parse_u32_spec(s.subrange(0, i)), parse_u32_spec(s.subrange(i + 1, j))) {
            (Some(h), Some(m)) => Some(h * 60 + m),
            _ => None,
        }
    }
}

/// A time band applies at `c`: on one of its days (any day when it names
/// none) and between its start (default midnight) and end (default 23:59),
/// both inclusive, wrapping past midnight when the start is later.
pub open spec fn time_tier_applies(t: TimeTier, c: Clock) -> bool {
    let start: int = match tier_minutes(t.start@) {
        Some(m) => m,
        None => 0int,
    };
    let end: int = match tier_minutes(t.end@) {
        Some(m) => m,
        None => 1439int,
    };
    &&& (t.days@.len() == 0 || t.days@.contains(c.weekday))
    &&& if start <= end {
        start <= c.minute_of_day && c.minute_of_day <= end
    } else {
        c.minute_of_day >= start || c.minute_of_day <= end
    }
}

/// The bands that apply at `c`.
pub open spec fn applies_at(c: Clock) -> spec_fn(TimeTier) -> bool {
    |t: TimeTier| time_tier_applies(t, c)
}

/// The first time band that applies.
pub open spec fn time_tier_index(ts: Seq<TimeTier>, c: Clock) -> Option<int> {
    first_index(ts, applies_at(c))
}

/// Input, output and cached-input prices of a band.
pub type Rates = (u64, u64, Option<u64>);

/// The rates of a profile's context band for `prompt` tokens.
pub open spec fn context_rates(p: PricingProfile, prompt: u64) -> Option<Rates> {
    match p.context_tiers {
        Some(ts) => match context_tier_index(ts@, prompt) {
            Some(i) => Some((ts@[i].input_per_1k, ts@[i].output_per_1k, ts@[i].cached_input_per_1k)),
            None => None,
        },
        None => None,
    }
}

/// The rates of a profile's time band at `at`.
pub open spec fn time_rates(p: PricingProfile, at: Option<Clock>) -> Option<Rates> {
    match at {
        Some(c) => match p.time_tiers {
            Some(ts) => match time_tier_index(ts@, c) {
                Some(i) => Some((ts@[i].input_per_1k, ts@[i].output_per_1k, ts@[i].cached_input_per_1k)),
                None => None,
            },
            None => None,
        },
        None => None,
    }
}

proof fn lemma_best_bounded_bounds(ts: Seq<ContextTier>, prompt: u64)
    ensures
        best_bounded(ts, prompt) matches Some(i) ==> 0 <= i < ts.len() && fits(ts[i], prompt),
    decreases ts.len(),
{
    if ts.len() > 0 {
        lemma_best_bounded_bounds(ts.drop_last(), prompt);
    }
}

fn select_context_tier(p: &PricingProfile, prompt: u64) -> (r: Option<Rates>)
    ensures
        r == context_rates(*p, prompt),
{
    let ts = match &p.context_tiers {
        Some(ts) => ts,
        None => return None,
    };
    let mut best: Option<usize> = None;
    let mut first_open: Option<usize> = None;
    let mut i: usize = 0;
    let ghost f = |t: ContextTier| t.max_context_tokens is None;
    assert(ts@.subrange(0, 0) =~= Seq::<ContextTier>::empty());
    while i < ts.len()
        invariant
            i <= ts@.len(),
            p.context_tiers == Some(*ts),
            f == |t: ContextTier| t.max_context_tokens is None,
            opt_index(best) == best_bounded(ts@.subrange(0, i as int), prompt),
            best matches Some(b) ==> b < i,
            opt_index(first_open) == first_index(ts@.subrange(0, i as int), f),
            first_open matches Some(b) ==> b < i,
        decreases ts.len() - i,
    {
        proof {
            let t = ts@.subrange(0, i + 1);
            assert(t.drop_last() =~= ts@.subrange(0, i as int));
            assert(t[i as int] == ts@[i as int]);
            if let Some(b) = best {
                assert(t[b as int] == ts@[b as int]);
            }
            lemma_first_index_push(ts@, f, i as int);
        }
        let t = &ts[i];
        match t.max_context_tokens {
            Some(m) => {
                if prompt <= m {
                    let tighter = match best {
                        Some(b) => match ts[b].max_context_tokens {
                            Some(bm) => m < bm,
                            None => true,
                        },
                        None => true,
                    };
                    proof {
                        if let Some(b) = best {
                            lemma_best_bounded_bounds(ts@.subrange(0, i as int), prompt);
                            assert(ts@.subrange(0, i as int)[b as int] == ts@[b as int]);
                        }
                    }
                    if tighter {
                        best = Some(i);
                    }
                }
            },
            None => {
                if first_open.is_none() {
                    first_open = Some(i);
                }
            },
        }
        i = i + 1;
    }
    assert(ts@.subrange(0, ts@.len() as int) =~= ts@);
    let chosen = match best {
        Some(b) => Some(b),
        None => first_open,
    };
    match chosen {
        Some(k) => Some((ts[k].input_per_1k, ts[k].output_per_1k, ts[k].cached_input_per_1k)),
        None => None,
    }
}

fn tier_minutes_exec(s: &str) -> (r: Option<u64>)
    ensures
        match r {
            Some(m) => tier_minutes(s@) == Some(m as int),
            None => tier_minutes(s@) is None,
        },
{
    let v = chars_of(s);
    let i = find_char(&v, ':', 0);
    if i >= v.len() {
        return None;
    }
    let j = find_char(&v, ':', i + 1);
    proof {
        lemma_find_char_bounds(v@, ':', i as int + 1);
    }
    let h = match parse_u32_range(&v, 0, i) {
        Some(h) => h,
        None => return None,
    };
    let m = match parse_u32_range(&v, i + 1, j) {
        Some(m) => m,
        None => return None,
    };
    Some((h as u64) * 60 + (m as u64))
}

fn has_day(days: &Vec<u8>, d: u8) -> (b: bool)
    ensures
        b == days@.contains(d),
{
    let mut i: usize = 0;
    while i < days.len()
        invariant
            i <= days@.len(),
            forall|k: int| 0 <= k < i ==> days@[k] != d,
        decreases days.len() - i,
    {
        if days[i] == d {
            return true;
        }
        i = i + 1;
    }
    false
}

fn time_tier_applies_exec(t: &TimeTier, c: Clock) -> (b: bool)
    ensures
        b == time_tier_applies(*t, c),
{
    if !(t.days.len() == 0 || has_day(&t.days, c.weekday)) {
        return false;
    }
    let start: u64 = match tier_minutes_exec(t.start.as_str()) {
        Some(m) => m,
        None => 0,
    };
    let end: u64 = match tier_minutes_exec(t.end.as_str()) {
        Some(m) => m,
        None => 23 * 60 + 59,
    };
    let now = c.minute_of_day as u64;
    if start <= end {
        start <= now && now <= end
    } else {
        now >= start || now <= end
    }
}

fn select_time_tier(p: &PricingProfile, at: Option<Clock>) -> (r: Option<Rates>)
    ensures
        r == time_rates(*p, at),
{
    let ts = match &p.time_tiers {
        Some(ts) => ts,
        None => return None,
    };
    let c = match at {
        Some(c) => c,
        None => return None,
    };
    let ghost f = applies_at(c);
    let mut i: usize = 0;
    assert(ts@.subrange(0, 0) =~= Seq::<TimeTier>::empty());
    while i < ts.len()
        invariant
            i <= ts@.len(),
            p.time_tiers == Some(*ts),
            at == Some(c),
            f == applies_at(c),
            first_index(ts@.subrange(0, i as int), f) == None::<int>,
        decreases ts.len() - i,
    {
        proof {
            lemma_first_index_push(ts@, f, i as int);
        }
        if time_tier_applies_exec(&ts[i], c) {
            proof {
                assert(f(ts@[i as int]));
                lemma_first_index_prefix(ts@, f, i as int + 1);
            }
            return Some((ts[i].input_per_1k, ts[i].output_per_1k, ts[i].cached_input_per_1k));
        }
        assert(!f(ts@[i as int]));
        i = i + 1;
    }
    assert(ts@.subrange(0, ts@.len() as int) =~= ts@);
    None
}

// ---------------------------------------------------------------------------
// Estimating a cost
// ---------------------------------------------------------------------------

/// `n`, or `u128::MAX` when it does not fit.
pub open spec fn sat128(n: int) -> u128 {
    if n > u128::MAX { u128::MAX } else { n as u128 }
}

/// The first price present.
pub open spec fn price_or(a: Option<u64>, b: Option<u64>) -> Option<u64> {
    match a {
        Some(x) => Some(x),
        None => b,
    }
}

/// The first band rates present.
pub open spec fn rates_or(a: Option<Rates>, b: Option<Rates>) -> Option<Rates> {
    match a {
        Some(x) => Some(x),
        None => b,
    }
}

/// The input price of optional band rates.
pub open spec fn rate_in(r: Option<Rates>) -> Option<u64> {
    match r {
        Some(x) => Some(x.0),
        None => None,
    }
}

/// The output price of optional band rates.
pub open spec fn rate_out(r: Option<Rates>) -> Option<u64> {
    match r {
        Some(x) => Some(x.1),
        None => None,
    }
}

/// The cached-input price of optional band rates.
pub open spec fn rate_cached(r: Option<Rates>) -> Option<u64> {
    match r {
        Some(x) => x.2,
        None => None,
    }
}

/// The table's pricing of a model: the entry for its local name, else the
/// one for its remote name, else nothing.
pub open spec fn table_profile(table: Seq<PriceEntry>, local: Seq<char>, remote: Seq<char>) -> PricingProfile {
    match lookup_index(table, lowercase(local)) {
        Some(i) => table[i].profile,
        None => match lookup_index(table, lowercase(remote)) {
            Some(i) => table[i].profile,
            None => no_profile(),
        },
    }
}

/// The prices that apply: the override's own, else the time band's, else
/// the context band's, else the table's (bands from the override when it
/// has a matching one, else from the table); input and output default to
/// zero, cached input to the input price, reasoning to the output price.
pub open spec fn resolved_prices(tp: PricingProfile, u: UsageBreakdown, ovr: PricingProfile) -> (u64, u64, u64, u64) {
    let ctx = rates_or(context_rates(ovr, u.prompt_tokens), context_rates(tp, u.prompt_tokens));
    let tim = rates_or(time_rates(ovr, u.timestamp), time_rates(tp, u.timestamp));
    let input = match price_or(ovr.input_per_1k, price_or(rate_in(tim), price_or(rate_in(ctx), tp.input_per_1k))) {
        Some(x) => x,
        None => 0,
    };
    let output = match price_or(ovr.output_per_1k, price_or(rate_out(tim), price_or(rate_out(ctx), tp.output_per_1k))) {
        Some(x) => x,
        None => 0,
    };
    let cached = match price_or(ovr.cached_input_per_1k, price_or(rate_cached(tim), price_or(rate_cached(ctx), tp.cached_input_per_1k))) {
        Some(x) => x,
        None => input,
    };
    let reasoning = match price_or(ovr.reasoning_per_1k, tp.reasoning_per_1k) {
        Some(x) => x,
        None => output,
    };
    (input, output, cached, reasoning)
}

/// The cost of a request in pico-dollars: uncached prompt tokens at the
/// input price, cached ones at the cached price, reasoning tokens (at most
/// the completion) at the reasoning price and the rest of the completion at
/// the output price; then the batch discount, then the request fee. Each
/// step saturates at `u128::MAX`.
pub open spec fn estimate_spec(table: Seq<PriceEntry>, local: Seq<char>, remote: Seq<char>, u: UsageBreakdown, ovr: PricingProfile) -> u128 {
    let tp = table_profile(table, local, remote);
    let (input, output, cached, reasoning_rate) = resolved_prices(tp, u, ovr);
    let regular_input: int = if u.prompt_tokens >= u.cached_tokens { u.prompt_tokens - u.cached_tokens } else { 0 };
    let reasoning: int = if u.reasoning_tokens <= u.completion_tokens { u.reasoning_tokens as int } else { u.completion_tokens as int };
    let regular_completion: int = u.completion_tokens - reasoning;
    let c1 = sat128(regular_input * input);
    let c2 = sat128(c1 + u.cached_tokens * cached);
    let c3 = sat128(c2 + reasoning * reasoning_rate);
    let c4 = sat128(c3 + regular_completion * output);
    let c5 = match price_or(ovr.batch_discount, tp.batch_discount) {
        Some(d) => sat128(c4 * d / 1_000_000),
        None => c4,
    };
    match price_or(ovr.request_fee, tp.request_fee) {
        Some(f) => sat128(c5 + f * 1000),
        None => c5,
    }
}

fn add_product(acc: u128, a: u64, b: u64) -> (r: u128)
    ensures
        r == sat128(acc + a * b),
{
    assert((a as int) * (b as int) <= 18446744073709551615 * 18446744073709551615) by (nonlinear_arith)
        requires
            a <= 18446744073709551615,
            b <= 18446744073709551615,
    ;
    assert(0 <= (a as int) * (b as int)) by (nonlinear_arith);
    let p: u128 = (a as u128) * (b as u128);
    match acc.checked_add(p) {
        Some(s) => s,
        None => u128::MAX,
    }
}

fn apply_discount(c: u128, d: u64) -> (r: u128)
    ensures
        r == sat128(c * d / 1_000_000),
{
    let q = c / 1_000_000;
    let rem = c % 1_000_000;
    assert(c * d == 1_000_000 * (q * d) + rem * d) by (nonlinear_arith)
        requires
            c == 1_000_000 * q + rem,
    ;
    assert(0 <= rem * d <= 1_000_000 * 18446744073709551615) by (nonlinear_arith)
        requires
            0 <= rem < 1_000_000,
            0 <= d <= 18446744073709551615,
    ;
    assert(0 <= q * d) by (nonlinear_arith)
        requires
            0 <= q,
            0 <= d,
    ;
    let lo: u128 = rem * (d as u128) / 1_000_000;
    assert((c * d) / 1_000_000 == q * d + (rem * d) / 1_000_000);
    match q.checked_mul(d as u128) {
        Some(hi) => match hi.checked_add(lo) {
            Some(s) => s,
            None => u128::MAX,
        },
        None => {
            assert(q * d > u128::MAX);
            u128::MAX
        },
    }
}

fn price_or_exec(a: Option<u64>, b: Option<u64>) -> (r: Option<u64>)
    ensures
        r == price_or(a, b),
{
    match a {
        Some(x) => Some(x),
        None => b,
    }
}

fn rates_or_exec(a: Option<Rates>, b: Option<Rates>) -> (r: Option<Rates>)
    ensures
        r == rates_or(a, b),
{
    match a {
        Some(x) => Some(x),
        None => b,
    }
}

fn resolved_prices_exec(tp: &PricingProfile, u: &UsageBreakdown, ovr: &PricingProfile) -> (r: (u64, u64, u64, u64))
    ensures
        r == resolved_prices(*tp, *u, *ovr),
{
    let ctx = rates_or_exec(select_context_tier(ovr, u.prompt_tokens), select_context_tier(tp, u.prompt_tokens));
    let tim = rates_or_exec(select_time_tier(ovr, u.timestamp), select_time_tier(tp, u.timestamp));
    let tim_in = match tim { Some(x) => Some(x.0), None => None };
    let tim_out = match tim { Some(x) => Some(x.1), None => None };
    let tim_cached = match tim { Some(x) => x.2, None => None };
    let ctx_in = match ctx { Some(x) => Some(x.0), None => None };
    let ctx_out = match ctx { Some(x) => Some(x.1), None => None };
    let ctx_cached = match ctx { Some(x) => x.2, None => None };
    let input = match price_or_exec(ovr.input_per_1k, price_or_exec(tim_in, price_or_exec(ctx_in, tp.input_per_1k))) {
        Some(x) => x,
        None => 0,
    };
    let output = match price_or_exec(ovr.output_per_1k, price_or_exec(tim_out, price_or_exec(ctx_out, tp.output_per_1k))) {
        Some(x) => x,
        None => 0,
    };
    let cached = match price_or_exec(ovr.cached_input_per_1k, price_or_exec(tim_cached, price_or_exec(ctx_cached, tp.cached_input_per_1k))) {
        Some(x) => x,
        None => input,
    };
    let reasoning = match price_or_exec(ovr.reasoning_per_1k, tp.reasoning_per_1k) {
        Some(x) => x,
        None => output,
    };
    (input, output, cached, reasoning)
}

/// Estimate the cost of a request in pico-dollars. `table` is the built-in
/// price table; `override_profile` overrides it for custom providers and
/// per-model mappings.
pub fn estimate(
    table: &[PriceEntry],
    model_local: &str,
    model_remote: &str,
    usage: &UsageBreakdown,
    override_profile: &PricingProfile,
) -> (r: u128)
    ensures
        r == estimate_spec(table@, model_local@, model_remote@, *usage, *override_profile),
{
    let none = PricingProfile::default();
    let tp: &PricingProfile = match lookup(table, model_local) {
        Some(i) => &table[i].profile,
        None => match lookup(table, model_remote) {
            Some(i) => &table[i].profile,
            None => &none,
        },
    };
    let (input, output, cached, reasoning_rate) = resolved_prices_exec(tp, usage, override_profile);
    let regular_input = if usage.prompt_tokens >= usage.cached_tokens {
        usage.prompt_tokens - usage.cached_tokens
    } else {
        0
    };
    let reasoning = if usage.reasoning_tokens <= usage.completion_tokens {
        usage.reasoning_tokens
    } else {
        usage.completion_tokens
    };
    let regular_completion = usage.completion_tokens - reasoning;
    let c1 = add_product(0, regular_input, input);
    let c2 = add_product(c1, usage.cached_tokens, cached);
    let c3 = add_product(c2, reasoning, reasoning_rate);
    let c4 = add_product(c3, regular_completion, output);
    let c5 = match price_or_exec(override_profile.batch_discount, tp.batch_discount) {
        Some(d) => apply_discount(c4, d),
        None => c4,
    };
    match price_or_exec(override_profile.request_fee, tp.request_fee) {
        Some(f) => {
            let fee = (f as u128) * 1000;
            match c5.checked_add(fee) {
                Some(s) => s,
                None => u128::MAX,
            }
        },
        None => c5,
    }
}

/// The completion limit a request declares: its `max_tokens`, else
/// `max_completion_tokens`, else `max_output_tokens` (the first present),
/// where that is a non-negative integer; zero otherwise.
pub open spec fn declared_max(body: JsonView) -> u64 {
    let m = match jget(body, "max_tokens"@) {
        Some(v) => Some(v),
        None => match jget(body, "max_completion_tokens"@) {
            Some(v) => Some(v),
            None => jget(body, "max_output_tokens"@),
        },
    };
    match m {
        Some(v) => match ju64(v) {
            Some(n) => n,
            None => 0,
        },
        None => 0,
    }
}

/// How many completions a request asks for: its `n`, at least one.
pub open spec fn declared_choices(body: JsonView) -> u64 {
    match get_u64(body, "n"@) {
        Some(n) => if n >= 1 { n } else { 1 },
        None => 1,
    }
}

/// The tokens a request may complete at most: the declared limit times the
/// number of completions, saturating at `u64::MAX` (values a client sends
/// must not wrap round to a small estimate).
pub open spec fn request_tokens(body: JsonView) -> u64 {
    let t = declared_max(body) * declared_choices(body);
    if t > u64::MAX { u64::MAX } else { t as u64 }
}

/// Pre-flight estimate from a request body, before any token is counted:
/// the most it may complete, priced at the output rate at `now`. Returns
/// the cost in pico-dollars and the token count, a safe upper bound for the
/// money and token limits.
pub fn estimate_request(
    table: &[PriceEntry],
    body: &Json,
    model_local: &str,
    model_remote: &str,
    profile: &PricingProfile,
    now: Clock,
) -> (r: (u128, u64))
    ensures
        r.1 == request_tokens(body.view()),
        r.0 == estimate_spec(
            table@,
            model_local@,
            model_remote@,
            UsageBreakdown {
                prompt_tokens: 0,
                completion_tokens: request_tokens(body.view()),
                cached_tokens: 0,
                reasoning_tokens: 0,
                timestamp: Some(now),
            },
            *profile,
        ),
{
    let m = match body.get("max_tokens") {
        Some(v) => Some(v),
        None => match body.get("max_completion_tokens") {
            Some(v) => Some(v),
            None => body.get("max_output_tokens"),
        },
    };
    let max_completion = match m {
        Some(v) => match v.as_u64() {
            Some(n) => n,
            None => 0,
        },
        None => 0,
    };
    let n = match body.get_u64("n") {
        Some(n) => if n >= 1 { n } else { 1 },
        None => 1,
    };
    let total = match max_completion.checked_mul(n) {
        Some(t) => t,
        None => u64::MAX,
    };
    let usage = UsageBreakdown {
        prompt_tokens: 0,
        completion_tokens: total,
        cached_tokens: 0,
        reasoning_tokens: 0,
        timestamp: Some(now),
    };
    let cost = estimate(table, model_local, model_remote, &usage, profile);
    (cost, total)
}

/// A cost in pico-dollars as millionths of a dollar, the unit of money
/// limits, rounded up so that a charge is never under-counted; saturating at
/// `u64::MAX`.
pub fn pico_to_millionths(pico: u128) -> (r: u64)
    ensures
        r == (if (pico + 999_999) / 1_000_000 > u64::MAX { u64::MAX as int } else { (pico + 999_999) / 1_000_000 }),
{
    let q = pico / 1_000_000;
    let up = if pico % 1_000_000 == 0 { q } else { q + 1 };
    assert(up == (pico + 999_999) / 1_000_000);
    if up > u64::MAX as u128 {
        u64::MAX
    } else {
        up as u64
    }
}

} // verus!
