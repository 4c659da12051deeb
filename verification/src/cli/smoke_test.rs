//! Smoke-test output helpers.

use vstd::prelude::*;
use crate::text::{chars_of, string_from_range, string_push_str};

verus! {

/// Arguments of the end-to-end smoke test.
pub struct TestArgs {
    /// Project label key used as the bearer token.
    pub key: String,
    /// Model to request.
    pub model: String,
    /// Prompt text.
    pub prompt: String,
    /// Gateway base URL; defaults to loopback on the configured port.
    pub base_url: Option<String>,
}

/// `s` unchanged when it has at most `max` characters, else its first `max`
/// characters followed by `…`.
pub open spec fn truncate_spec(s: Seq<char>, max: nat) -> Seq<char> {
    if s.len() <= max {
        s
    } else {
        s.subrange(0, max as int) + "\u{2026}"@
    }
}

/// Shorten `s` to `max` characters plus an ellipsis.
pub fn truncate(s: &str, max: usize) -> (r: String)
    ensures
        r@ == truncate_spec(s@, max as nat),
{
    let v = chars_of(s);
    if v.len() <= max {
        return s.to_owned();
    }
    let mut out = string_from_range(&v, 0, max);
    string_push_str(&mut out, "\u{2026}");
    out
}

} // verus!
