//! In-flight limit counters.

use vstd::prelude::*;
use dashmap::DashMap;

verus! {

#[verifier::external_type_specification]
#[verifier::external_body]
#[verifier::reject_recursive_types(K)]
#[verifier::reject_recursive_types(V)]
#[verifier::reject_recursive_types(S)]
pub struct ExDashMap<K, V, S>(DashMap<K, V, S>);

/// The counter map type: in-flight amount per limit id.
pub type CounterMap = DashMap<i64, u64>;

/// What a counter map holds: the in-flight amount per limit id.
pub uninterp spec fn counter_contents(m: CounterMap) -> Map<i64, u64>;

/// `DashMap::new`: a map with no entries.
#[verifier::external_body]
fn counter_map_new() -> (m: CounterMap)
    ensures
        counter_contents(m) =~= Map::empty(),
{
    DashMap::new()
}

/// `DashMap::get`: the value stored under `key`, if any.
#[verifier::external_body]
fn counter_map_get(m: &CounterMap, key: i64) -> (r: Option<u64>)
    ensures
        r == (if counter_contents(*m).dom().contains(key) { Some(counter_contents(*m)[key]) } else { None }),
{
    m.get(&key).map(|v| *v)
}

/// `DashMap::insert`: stores `value` under `key`, replacing any earlier value.
#[verifier::external_body]
fn counter_map_insert(m: &mut CounterMap, key: i64, value: u64)
    ensures
        counter_contents(*final(m)) == counter_contents(*old(m)).insert(key, value),
{
    m.insert(key, value);
}

/// `DashMap::len`: the number of entries.
#[verifier::external_body]
fn counter_map_len(m: &CounterMap) -> (n: usize)
    ensures
        n == counter_contents(*m).dom().len(),
{
    m.len()
}

/// In-flight amounts reserved per limit, between the limit check and the
/// moment the request is logged.
pub struct LimitCounters {
    counters: CounterMap,
}

impl LimitCounters {
    pub closed spec fn view(&self) -> Map<i64, u64> {
        counter_contents(self.counters)
    }

    pub fn new() -> (c: Self)
        ensures
            c.view() =~= Map::empty(),
    {
        LimitCounters { counters: counter_map_new() }
    }

    /// The in-flight amount held for `limit_id`.
    pub open spec fn amount(&self, limit_id: i64) -> u64 {
        amount_in(self.view(), limit_id)
    }

    /// Add `delta` to the in-flight counter for a limit and return the new
    /// value. The counter saturates at `u64::MAX`.
    pub fn increment(&mut self, limit_id: i64, delta: u64) -> (r: u64)
        ensures
            r == sat_add(old(self).amount(limit_id), delta),
            final(self).view() == old(self).view().insert(limit_id, r),
    {
        let cur = match counter_map_get(&self.counters, limit_id) {
            Some(v) => v,
            None => 0,
        };
        let new = cur.saturating_add(delta);
        counter_map_insert(&mut self.counters, limit_id, new);
        new
    }

    /// Release `amount` previously reserved units, clamping at zero so a
    /// double release can never drive the counter below zero. A limit with
    /// no counter is left without one. Returns the new value.
    pub fn release_amount(&mut self, limit_id: i64, amount: u64) -> (r: u64)
        ensures
            r == sat_sub(old(self).amount(limit_id), amount),
            final(self).view() == if old(self).view().dom().contains(limit_id) {
                old(self).view().insert(limit_id, r)
            } else {
                old(self).view()
            },
    {
        match counter_map_get(&self.counters, limit_id) {
            Some(cur) => {
                let new = cur.saturating_sub(amount);
                counter_map_insert(&mut self.counters, limit_id, new);
                new
            },
            None => 0,
        }
    }

    /// Release one previously reserved unit.
    pub fn release(&mut self, limit_id: i64) -> (r: u64)
        ensures
            r == sat_sub(old(self).amount(limit_id), 1),
            final(self).view() == if old(self).view().dom().contains(limit_id) {
                old(self).view().insert(limit_id, r)
            } else {
                old(self).view()
            },
    {
        self.release_amount(limit_id, 1)
    }

    /// The number of limits holding a counter.
    pub fn len(&self) -> (n: usize)
        ensures
            n == self.view().dom().len(),
    {
        counter_map_len(&self.counters)
    }

    /// The current in-flight counter for a limit, without modifying it.
    pub fn get(&self, limit_id: i64) -> (r: u64)
        ensures
            r == self.amount(limit_id),
    {
        match counter_map_get(&self.counters, limit_id) {
            Some(v) => v,
            None => 0,
        }
    }
}

/// The in-flight amount a counter map holds for `limit_id`; zero without a
/// counter.
pub open spec fn amount_in(m: Map<i64, u64>, limit_id: i64) -> u64 {
    if m.dom().contains(limit_id) { m[limit_id] } else { 0 }
}

/// `a + b`, saturating at `u64::MAX`.
pub open spec fn sat_add(a: u64, b: u64) -> u64 {
    if a + b > u64::MAX { u64::MAX } else { (a + b) as u64 }
}

/// `a - b`, saturating at zero.
pub open spec fn sat_sub(a: u64, b: u64) -> u64 {
    if a < b { 0 } else { (a - b) as u64 }
}

} // verus!
