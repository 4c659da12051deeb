//! Clock times, weekly schedules and notification cooldowns.

use vstd::prelude::*;
use std::collections::HashMap;
use crate::text::{chars_of, parse_u32_range, parse_u32_spec, str_eq};

verus! {

broadcast use vstd::std_specs::hash::group_hash_axioms;

/// Index of the first `c` in `s` at or after `from`, or `s.len()` if there is none.
pub open spec fn find_char_from(s: Seq<char>, c: char, from: int) -> int
    decreases s.len() - from,
{
    if from >= s.len() {
        s.len() as int
    } else if s[from] == c {
        from
    } else {
        find_char_from(s, c, from + 1)
    }
}

pub proof fn lemma_find_char_bounds(s: Seq<char>, c: char, from: int)
    requires
        0 <= from,
    ensures
        from <= find_char_from(s, c, from) || (from > s.len() && find_char_from(s, c, from) == s.len()),
        find_char_from(s, c, from) <= s.len() || from > s.len(),
        find_char_from(s, c, from) < s.len() ==> s[find_char_from(s, c, from)] == c,
    decreases s.len() - from,
{
    if from < s.len() && s[from] != c {
        lemma_find_char_bounds(s, c, from + 1);
    }
}

/// Index of the first `c` in `v` at or after `from`, or `v.len()`.
pub fn find_char(v: &Vec<char>, c: char, from: usize) -> (r: usize)
    requires
        from <= v.len(),
    ensures
        r == find_char_from(v@, c, from as int),
        from <= r <= v.len(),
{
    let mut i = from;
    while i < v.len() && v[i] != c
        invariant
            from <= i <= v.len(),
            find_char_from(v@, c, from as int) == find_char_from(v@, c, i as int),
        decreases v.len() - i,
    {
        i = i + 1;
    }
    i
}

/// Minutes since midnight that a `"HH:MM"` string names, as the schedule
/// reads it: the text before the first `:` is the hour and the text after it,
/// up to any further `:`, the minute; both are decimal numbers as
/// `str::parse::<u32>` reads them, the hour below 24 and the minute below 60.
pub open spec fn parse_minutes_spec(s: Seq<char>) -> Option<u32> {
    let i = find_char_from(s, ':', 0);
    if i >= s.len() {
        None
    } else {
        let j = find_char_from(s, ':', i + 1);
        match (parse_u32_spec(s.subrange(0, i)), parse_u32_spec(s.subrange(i + 1, j))) {
            (Some(h), Some(m)) => if h < 24 && m < 60 {
                Some((h * 60 + m) as u32)
            } else {
                None
            },
            _ => None,
        }
    }
}

/// Parse an `"HH:MM"` string into minutes since midnight.
pub fn parse_minutes(s: &str) -> (r: Option<u32>)
    ensures
        r == parse_minutes_spec(s@),
{
    let v = chars_of(s);
    let i = find_char(&v, ':', 0);
    if i >= v.len() {
        return None;
    }
    let j = find_char(&v, ':', i + 1);
    let h = match parse_u32_range(&v, 0, i) {
        Some(h) => h,
        None => return None,
    };
    let m = match parse_u32_range(&v, i + 1, j) {
        Some(m) => m,
        None => return None,
    };
    if h >= 24 || m >= 60 {
        return None;
    }
    Some(h * 60 + m)
}

/// The current moment in UTC, as a weekly schedule sees it.
#[derive(Clone, Copy, Debug)]
pub struct Clock {
    /// 0 = Monday .. 6 = Sunday.
    pub weekday: u8,
    /// Minutes since midnight.
    pub minute_of_day: u32,
}

/// Whether a schedule is active at `now`. Bit `d` of `active_days` enables
/// weekday `d` (0 = Monday); all seven bits set means every day. The hours,
/// when both bounds parse, are an inclusive window that may wrap midnight.
pub open spec fn schedule_active_spec(
    active_days: u8,
    start: Option<Seq<char>>,
    end: Option<Seq<char>>,
    now: Clock,
) -> bool {
    if active_days != 0x7f && active_days & (1u8 << now.weekday) == 0 {
        false
    } else {
        match (start, end) {
            (Some(s), Some(e)) => match (parse_minutes_spec(s), parse_minutes_spec(e)) {
                (Some(a), Some(b)) => if a <= b {
                    a <= now.minute_of_day && now.minute_of_day <= b
                } else {
                    now.minute_of_day >= a || now.minute_of_day <= b
                },
                _ => true,
            },
            _ => true,
        }
    }
}

/// Whether a schedule is active at `now`.
pub fn is_schedule_active(
    active_days: u8,
    active_hours_start: Option<&str>,
    active_hours_end: Option<&str>,
    now: Clock,
) -> (b: bool)
    requires
        now.weekday < 7,
    ensures
        b == schedule_active_spec(
            active_days,
            match active_hours_start { Some(s) => Some(s@), None => None },
            match active_hours_end { Some(s) => Some(s@), None => None },
            now,
        ),
{
    if active_days != 0x7f {
        if active_days & (1u8 << now.weekday) == 0 {
            return false;
        }
    }
    if let (Some(start), Some(end)) = (active_hours_start, active_hours_end) {
        if let (Some(a), Some(b)) = (parse_minutes(start), parse_minutes(end)) {
            let cur = now.minute_of_day;
            if a <= b {
                return cur >= a && cur <= b;
            } else {
                return cur >= a || cur <= b;
            }
        }
    }
    true
}

// ---------------------------------------------------------------------------
// Notification cooldowns
// ---------------------------------------------------------------------------

/// How long a notification for one limit silences the next, in milliseconds.
pub const WARNING_COOLDOWN_MS: u64 = 300_000;

/// A notification last sent at `last` (milliseconds on a monotonic clock) no
/// longer silences one at `now` once the cooldown has passed; a clock that
/// reads earlier than `last` counts as no time passed.
pub open spec fn cooldown_allows_spec(last: Option<u64>, now: u64) -> bool {
    match last {
        None => true,
        Some(l) => now >= l && now - l >= WARNING_COOLDOWN_MS,
    }
}

/// Whether a notification may be sent at `now`, given when the last one was.
pub fn cooldown_allows(last: Option<u64>, now: u64) -> (b: bool)
    ensures
        b == cooldown_allows_spec(last, now),
{
    match last {
        None => true,
        Some(l) => now >= l && now - l >= WARNING_COOLDOWN_MS,
    }
}

/// When the last notification for `key` was sent, in a map of them.
pub open spec fn last_in(m: Map<i64, u64>, key: i64) -> Option<u64> {
    if m.contains_key(key) {
        Some(m[key])
    } else {
        None
    }
}

/// When the last notification was sent, per limit id.
pub struct Cooldowns {
    last: HashMap<i64, u64>,
}

impl Cooldowns {
    pub closed spec fn view(&self) -> Map<i64, u64> {
        self.last@
    }

    pub open spec fn last_at(&self, key: i64) -> Option<u64> {
        last_in(self.view(), key)
    }

    pub fn new() -> (c: Self)
        ensures
            c.view() =~= Map::empty(),
    {
        Cooldowns { last: HashMap::new() }
    }

    /// Non-mutating peek: is `key` out of cooldown at `now`?
    pub fn peek(&self, key: i64, now: u64) -> (b: bool)
        ensures
            b == cooldown_allows_spec(self.last_at(key), now),
    {
        let last = match self.last.get(&key) {
            Some(t) => Some(*t),
            None => None,
        };
        cooldown_allows(last, now)
    }

    /// Record that a notification for `key` was sent at `now`.
    pub fn mark(&mut self, key: i64, now: u64)
        ensures
            final(self).view() == old(self).view().insert(key, now),
    {
        self.last.insert(key, now);
    }
}

/// Non-mutating peek: is `key` out of cooldown at `now`? Nothing is recorded;
/// call [`cooldown_mark`] after actually notifying.
pub fn cooldown_peek(map: &Cooldowns, key: i64, now: u64) -> (b: bool)
    ensures
        b == cooldown_allows_spec(map.last_at(key), now),
{
    map.peek(key, now)
}

/// Record that a notification for `key` was sent at `now`.
pub fn cooldown_mark(map: &mut Cooldowns, key: i64, now: u64)
    ensures
        final(map).view() == old(map).view().insert(key, now),
{
    map.mark(key, now);
}

/// When the last notification was sent, per project name.
pub struct TagCooldowns {
    last: Vec<(String, u64)>,
}

/// The last entry recorded for `key`, scanning `entries` from the end.
pub open spec fn tag_last_at(entries: Seq<(Seq<char>, u64)>, key: Seq<char>) -> Option<u64>
    decreases entries.len(),
{
    if entries.len() == 0 {
        None
    } else if entries.last().0 == key {
        Some(entries.last().1)
    } else {
        tag_last_at(entries.drop_last(), key)
    }
}

/// No tag occurs twice among the entries.
pub open spec fn distinct_tags(entries: Seq<(Seq<char>, u64)>) -> bool {
    forall|a: int, b: int| 0 <= a < b < entries.len() ==> (#[trigger] entries[a]).0 != (#[trigger] entries[b]).0
}

/// The entry for `key` holds its time when no other entry has that tag.
proof fn lemma_tag_last_unique(entries: Seq<(Seq<char>, u64)>, i: int, key: Seq<char>)
    requires
        0 <= i < entries.len(),
        entries[i].0 == key,
        forall|j: int| 0 <= j < entries.len() && j != i ==> (#[trigger] entries[j]).0 != key,
    ensures
        tag_last_at(entries, key) == Some(entries[i].1),
    decreases entries.len(),
{
    if i < entries.len() - 1 {
        let init = entries.drop_last();
        assert(entries.last() == entries[entries.len() - 1]);
        assert forall|j: int| 0 <= j < init.len() && j != i implies (#[trigger] init[j]).0 != key by {
            assert(init[j] == entries[j]);
        }
        lemma_tag_last_unique(init, i, key);
        assert(init[i] == entries[i]);
    }
}

/// Replacing the time of the entry at `i` changes what is found for its tag
/// only, given that tags are distinct.
proof fn lemma_tag_last_update(entries: Seq<(Seq<char>, u64)>, i: int, now: u64)
    requires
        0 <= i < entries.len(),
        distinct_tags(entries),
    ensures
        distinct_tags(entries.update(i, (entries[i].0, now))),
        forall|k: Seq<char>| #[trigger] tag_last_at(entries.update(i, (entries[i].0, now)), k) == if k == entries[i].0 {
            Some(now)
        } else {
            tag_last_at(entries, k)
        },
{
    let key = entries[i].0;
    let u = entries.update(i, (key, now));
    assert forall|a: int, b: int| 0 <= a < b < u.len() implies (#[trigger] u[a]).0 != (#[trigger] u[b]).0 by {
        assert(entries[a].0 != entries[b].0);
    }
    assert forall|k: Seq<char>| #[trigger] tag_last_at(u, k) == if k == key { Some(now) } else { tag_last_at(entries, k) } by {
        if k == key {
            assert forall|j: int| 0 <= j < u.len() && j != i implies (#[trigger] u[j]).0 != key by {
                if j < i {
                    assert(entries[j].0 != entries[i].0);
                } else {
                    assert(entries[i].0 != entries[j].0);
                }
            }
            lemma_tag_last_unique(u, i, key);
        } else {
            lemma_tag_last_other(entries, i, now, k);
        }
    }
}

/// Replacing the entry at `i` leaves what is found for another tag.
proof fn lemma_tag_last_other(entries: Seq<(Seq<char>, u64)>, i: int, now: u64, k: Seq<char>)
    requires
        0 <= i < entries.len(),
        k != entries[i].0,
    ensures
        tag_last_at(entries.update(i, (entries[i].0, now)), k) == tag_last_at(entries, k),
    decreases entries.len(),
{
    let u = entries.update(i, (entries[i].0, now));
    if i < entries.len() - 1 {
        assert(u.drop_last() =~= entries.drop_last().update(i, (entries[i].0, now)));
        assert(u.last() == entries.last());
        lemma_tag_last_other(entries.drop_last(), i, now, k);
        assert(entries.drop_last()[i] == entries[i]);
    } else {
        assert(u.drop_last() =~= entries.drop_last());
    }
}

impl TagCooldowns {
    pub closed spec fn entries(&self) -> Seq<(Seq<char>, u64)> {
        self.last@.map_values(|e: (String, u64)| (e.0@, e.1))
    }

    /// Each project has one entry at most.
    #[verifier::type_invariant]
    spec fn one_entry_per_tag(self) -> bool {
        distinct_tags(self.last@.map_values(|e: (String, u64)| (e.0@, e.1)))
    }

    pub open spec fn last_at(&self, key: Seq<char>) -> Option<u64> {
        tag_last_at(self.entries(), key)
    }

    pub fn new() -> (c: Self)
        ensures
            forall|k: Seq<char>| c.last_at(k) == None::<u64>,
    {
        let c = TagCooldowns { last: Vec::new() };
        assert(c.entries() =~= Seq::<(Seq<char>, u64)>::empty());
        c
    }

    /// How many projects have a recorded time.
    pub fn len(&self) -> (n: usize)
        ensures
            n == self.entries().len(),
    {
        self.last.len()
    }

    /// Non-mutating peek: is `key` out of cooldown at `now`?
    pub fn peek(&self, key: &str, now: u64) -> (b: bool)
        ensures
            b == cooldown_allows_spec(self.last_at(key@), now),
    {
        let mut i = self.last.len();
        assert(self.entries().subrange(0, i as int) =~= self.entries());
        while i > 0
            invariant
                i <= self.last@.len(),
                tag_last_at(self.entries(), key@) == tag_last_at(self.entries().subrange(0, i as int), key@),
            decreases i,
        {
            let e = &self.last[i - 1];
            let ghost pre = self.entries().subrange(0, i as int);
            assert(pre.last() == (self.last@[i - 1].0@, self.last@[i - 1].1));
            assert(pre.drop_last() =~= self.entries().subrange(0, i - 1));
            if str_eq(e.0.as_str(), key) {
                return cooldown_allows(Some(e.1), now);
            }
            i = i - 1;
        }
        cooldown_allows(None, now)
    }

    /// Record that a notification for `key` was sent at `now`, replacing the
    /// time recorded for it before.
    pub fn mark(&mut self, key: &str, now: u64)
        ensures
            forall|k: Seq<char>| #[trigger] final(self).last_at(k) == if k == key@ {
                Some(now)
            } else {
                old(self).last_at(k)
            },
    {
        proof {
            use_type_invariant(&*self);
        }
        let ghost before = self.entries();
        let mut v: Vec<(String, u64)> = Vec::new();
        std::mem::swap(&mut v, &mut self.last);
        assert(v@.map_values(|e: (String, u64)| (e.0@, e.1)) == before);
        let mut i: usize = 0;
        let mut found: Option<usize> = None;
        while i < v.len()
            invariant_except_break
                found is None,
            invariant
                i <= v@.len(),
                before == v@.map_values(|e: (String, u64)| (e.0@, e.1)),
                before.len() == v@.len(),
                distinct_tags(before),
                forall|j: int| 0 <= j < i ==> (#[trigger] before[j]).0 != key@,
            ensures
                match found {
                    Some(f) => f < before.len() && before[f as int].0 == key@,
                    None => forall|j: int| 0 <= j < before.len() ==> (#[trigger] before[j]).0 != key@,
                },
            decreases v.len() - i,
        {
            assert(before[i as int] == (v@[i as int].0@, v@[i as int].1));
            if str_eq(v[i].0.as_str(), key) {
                found = Some(i);
                break;
            }
            i = i + 1;
        }
        if let Some(f) = found {
            v.set(f, (key.to_owned(), now));
            proof {
                assert(v@.map_values(|e: (String, u64)| (e.0@, e.1)) =~= before.update(f as int, (key@, now)));
                lemma_tag_last_update(before, f as int, now);
            }
            self.last = v;
            assert(self.entries() == before.update(f as int, (before[f as int].0, now)));
            return;
        }
        v.push((key.to_owned(), now));
        let ghost after = v@.map_values(|e: (String, u64)| (e.0@, e.1));
        proof {
            assert(after =~= before.push((key@, now)));
            assert(after.drop_last() =~= before);
            assert forall|a: int, b: int| 0 <= a < b < after.len() implies (#[trigger] after[a]).0
                != (#[trigger] after[b]).0 by {
                if b < before.len() {
                    assert(after[a] == before[a] && after[b] == before[b]);
                } else {
                    assert(after[a] == before[a]);
                }
            }
            assert forall|k: Seq<char>| #[trigger] tag_last_at(after, k) == if k == key@ {
                Some(now)
            } else {
                tag_last_at(before, k)
            } by {
                assert(after.last() == (key@, now));
            }
        }
        self.last = v;
    }
}

} // verus!
