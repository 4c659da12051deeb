//! Log listing helpers.

use vstd::prelude::*;
use crate::text::{chars_of, string_from_range, string_push_str};

verus! {

/// `s` unchanged when it has at most `max` characters, else its first
/// `max - 1` characters followed by `…`, so the result has `max` characters.
pub open spec fn truncate_spec(s: Seq<char>, max: nat) -> Seq<char> {
    if s.len() <= max {
        s
    } else {
        s.subrange(0, max - 1) + "\u{2026}"@
    }
}

/// Shorten `s` to at most `max` characters, the last one an ellipsis.
/// A string longer than `max` needs room for the ellipsis: `max` is at
/// least one then.
pub fn truncate(s: &str, max: usize) -> (r: String)
    requires
        max > 0 || s@.len() == 0,
    ensures
        r@ == truncate_spec(s@, max as nat),
{
    let v = chars_of(s);
    if v.len() <= max {
        return s.to_owned();
    }
    let mut out = string_from_range(&v, 0, max - 1);
    string_push_str(&mut out, "\u{2026}");
    out
}

} // verus!
