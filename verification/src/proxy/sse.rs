//! Token usage read from streamed and non-streamed responses.

use vstd::prelude::*;
use crate::json::{
    Json, JsonView, get_arr, get_u64, jget, json_parse_bytes, lemma_views, parse_json_bytes, views,
};

verus! {

/// Token usage of one request.
#[derive(Clone, Copy, Debug, PartialEq, Eq, Structural)]
pub struct Usage {
    pub prompt: u64,
    pub completion: u64,
    pub cached: u64,
}

impl Default for Usage {
    fn default() -> (r: Self)
        ensures
            r == (Usage { prompt: 0, completion: 0, cached: 0 }),
    {
        Usage { prompt: 0, completion: 0, cached: 0 }
    }
}

/// A count, or zero when there is none.
pub open spec fn or_zero(o: Option<u64>) -> nat {
    match o {
        Some(n) => n as nat,
        None => 0,
    }
}

/// `n`, or `u64::MAX` when it does not fit.
pub open spec fn clamp(n: nat) -> u64 {
    if n > u64::MAX { u64::MAX } else { n as u64 }
}

/// The last count present among three spellings, else `old`.
pub open spec fn last_present(old: u64, a: Option<u64>, b: Option<u64>, c: Option<u64>) -> u64 {
    match c {
        Some(x) => x,
        None => match b {
            Some(x) => x,
            None => match a {
                Some(x) => x,
                None => old,
            },
        },
    }
}

/// The sum of the `tokenCount`s of a list of detail entries.
pub open spec fn token_counts(a: Seq<JsonView>) -> nat
    decreases a.len(),
{
    if a.len() == 0 {
        0
    } else {
        token_counts(a.drop_last()) + or_zero(get_u64(a.last(), "tokenCount"@))
    }
}

/// The sum of the `tokenCount`s of member `key`, where it is an array.
pub open spec fn detail_counts(u: JsonView, key: Seq<char>) -> nat {
    match get_arr(u, key) {
        Some(a) => token_counts(a),
        None => 0,
    }
}

/// Cached input tokens under every dialect's naming: the OpenAI
/// `prompt_tokens_details.cached_tokens`, Anthropic's cache reads and
/// writes, and Gemini's prompt and cache detail counts.
pub open spec fn cached_tokens(u: JsonView) -> nat {
    let openai = match jget(u, "prompt_tokens_details"@) {
        Some(d) => or_zero(get_u64(d, "cached_tokens"@)),
        None => 0,
    };
    openai + or_zero(get_u64(u, "cache_read_input_tokens"@)) + or_zero(get_u64(u, "cache_creation_input_tokens"@))
        + detail_counts(u, "promptTokensDetails"@) + detail_counts(u, "cacheTokensDetails"@)
}

/// Usage after reading one usage object: prompt and completion counts are
/// taken from whichever naming is present (OpenAI, then Anthropic /
/// Responses, then Gemini, the later winning) and kept otherwise; the cached
/// count is replaced, saturating at `u64::MAX`.
pub open spec fn usage_after(old: Usage, u: JsonView) -> Usage {
    Usage {
        prompt: last_present(old.prompt, get_u64(u, "prompt_tokens"@), get_u64(u, "input_tokens"@), get_u64(u, "promptTokenCount"@)),
        completion: last_present(old.completion, get_u64(u, "completion_tokens"@), get_u64(u, "output_tokens"@), get_u64(u, "candidatesTokenCount"@)),
        cached: clamp(cached_tokens(u)),
    }
}

fn add_detail_counts(acc: u64, u: &Json, key: &str) -> (r: u64)
    ensures
        r == clamp(acc as nat + detail_counts(u.view(), key@)),
{
    match u.get_array(key) {
        Some(arr) => {
            proof {
                lemma_views(arr@);
            }
            let ghost a = views(arr@);
            let mut total = acc;
            let mut i: usize = 0;
            while i < arr.len()
                invariant
                    i <= arr@.len(),
                    a == views(arr@),
                    a.len() == arr@.len(),
                    forall|k: int| 0 <= k < arr@.len() ==> #[trigger] a[k] == arr@[k].view(),
                    total == clamp(acc as nat + token_counts(a.subrange(0, i as int))),
                decreases arr.len() - i,
            {
                assert(a.subrange(0, i + 1).drop_last() =~= a.subrange(0, i as int));
                let c = match arr[i].get_u64("tokenCount") {
                    Some(c) => c,
                    None => 0,
                };
                total = total.saturating_add(c);
                i = i + 1;
            }
            assert(a.subrange(0, a.len() as int) =~= a);
            total
        },
        None => acc,
    }
}

fn opt_or_zero(o: Option<u64>) -> (r: u64)
    ensures
        r == or_zero(o),
{
    match o {
        Some(n) => n,
        None => 0,
    }
}

/// Read one usage object into `into`.
pub fn extract_from_usage_object(u: &Json, into: &mut Usage)
    ensures
        *final(into) == usage_after(*old(into), u.view()),
{
    if let Some(p) = u.get_u64("prompt_tokens") {
        into.prompt = p;
    }
    if let Some(c) = u.get_u64("completion_tokens") {
        into.completion = c;
    }
    if let Some(p) = u.get_u64("input_tokens") {
        into.prompt = p;
    }
    if let Some(c) = u.get_u64("output_tokens") {
        into.completion = c;
    }
    if let Some(p) = u.get_u64("promptTokenCount") {
        into.prompt = p;
    }
    if let Some(c) = u.get_u64("candidatesTokenCount") {
        into.completion = c;
    }
    let mut cached: u64 = 0;
    if let Some(details) = u.get("prompt_tokens_details") {
        cached = opt_or_zero(details.get_u64("cached_tokens"));
    }
    cached = cached.saturating_add(opt_or_zero(u.get_u64("cache_read_input_tokens")));
    cached = cached.saturating_add(opt_or_zero(u.get_u64("cache_creation_input_tokens")));
    cached = add_detail_counts(cached, u, "promptTokensDetails");
    cached = add_detail_counts(cached, u, "cacheTokensDetails");
    into.cached = cached;
}

/// The usage object of a response: `usage`, else `response.usage`, else
/// `usageMetadata`.
pub open spec fn response_usage(v: JsonView) -> Option<JsonView> {
    match jget(v, "usage"@) {
        Some(u) => Some(u),
        None => match jget(v, "response"@) {
            Some(r) => match jget(r, "usage"@) {
                Some(u) => Some(u),
                None => jget(v, "usageMetadata"@),
            },
            None => jget(v, "usageMetadata"@),
        },
    }
}

/// The usage object of one element of a buffered stream: `usage`, else
/// `usageMetadata`.
pub open spec fn item_usage(v: JsonView) -> Option<JsonView> {
    match jget(v, "usage"@) {
        Some(u) => Some(u),
        None => jget(v, "usageMetadata"@),
    }
}

/// Usage after reading the usage objects of a buffered stream, in order.
pub open spec fn usage_of_items(u: Usage, items: Seq<JsonView>) -> Usage
    decreases items.len(),
{
    if items.len() == 0 {
        u
    } else {
        let before = usage_of_items(u, items.drop_last());
        match item_usage(items.last()) {
            Some(x) => usage_after(before, x),
            None => before,
        }
    }
}

/// The zero usage.
pub open spec fn no_usage() -> Usage {
    Usage { prompt: 0, completion: 0, cached: 0 }
}

/// Usage of a complete response value: a top-level array (a buffered Gemini
/// stream) is read element by element; anything else through its usage
/// object.
pub open spec fn usage_of_value(v: JsonView) -> Usage {
    match v {
        JsonView::Array(items) => usage_of_items(no_usage(), items),
        _ => match response_usage(v) {
            Some(u) => usage_after(no_usage(), u),
            None => no_usage(),
        },
    }
}

fn usage_of_json(v: &Json) -> (r: Usage)
    ensures
        r == usage_of_value(v.view()),
{
    let mut u = Usage::default();
    match v.as_array() {
        Some(items) => {
            proof {
                lemma_views(items@);
            }
            let ghost a = views(items@);
            let mut i: usize = 0;
            while i < items.len()
                invariant
                    i <= items@.len(),
                    a == views(items@),
                    v.view() == JsonView::Array(a),
                    a.len() == items@.len(),
                    forall|k: int| 0 <= k < items@.len() ==> #[trigger] a[k] == items@[k].view(),
                    u == usage_of_items(no_usage(), a.subrange(0, i as int)),
                decreases items.len() - i,
            {
                assert(a.subrange(0, i + 1).drop_last() =~= a.subrange(0, i as int));
                let item = &items[i];
                let usage = match item.get("usage") {
                    Some(x) => Some(x),
                    None => item.get("usageMetadata"),
                };
                if let Some(x) = usage {
                    extract_from_usage_object(x, &mut u);
                }
                i = i + 1;
            }
            assert(a.subrange(0, a.len() as int) =~= a);
            u
        },
        None => {
            let usage = match v.get("usage") {
                Some(x) => Some(x),
                None => match v.get("response") {
                    Some(r) => match r.get("usage") {
                        Some(x) => Some(x),
                        None => v.get("usageMetadata"),
                    },
                    None => v.get("usageMetadata"),
                },
            };
            if let Some(x) = usage {
                extract_from_usage_object(x, &mut u);
            }
            u
        },
    }
}

/// Usage of a complete (non-streaming) response body; zero when the body is
/// not JSON.
pub fn extract_json(body: &[u8]) -> (r: Usage)
    ensures
        r == match json_parse_bytes(body@) {
            Some(v) => usage_of_value(v),
            None => no_usage(),
        },
{
    match parse_json_bytes(body) {
        Some(v) => usage_of_json(&v),
        None => Usage::default(),
    }
}

} // verus!
