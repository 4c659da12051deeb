//! Properties that relate several operations of the library, or one
//! operation over all its inputs.

use vstd::prelude::*;
use crate::config::ProviderFormat;
use crate::json::JsonView;
use crate::proxy::reply::{
    convert_response_spec, convert_sse_spec,
};
use crate::proxy::stream::{
    StreamState, data_chunk, drain_lines, ensure_message, finish_stream, line_step, newline_at,
    openai_tool_calls,
};
use crate::json::{
    json_parse, tool_call_id,
};
use crate::limits::{
    amount_in, sat_add, sat_sub,
};
use crate::proxy::convert::parse_data_url_spec;
use crate::schedule::{
    WARNING_COOLDOWN_MS, cooldown_allows_spec, last_in,
};
use crate::text::{
    before_first, decimal_string, decimal_value, digit_char, digit_value, has_char, index_of_from, join_seq,
    lemma_index_of_bounds, occurs_at, split_seq,
};
use crate::proxy::server::{
    is_key_param, key_param_spec, kept_params,
};
use crate::proxy::reply::{
    first_in, opt_member,
};
use crate::proxy::sse::usage_after;
use crate::proxy::forwarder::{
    ForwardPlan, ForwardStep, PRIMARY_ATTEMPTS, request_is_stream, request_json_spec, retryable, unsettled,
    upstream_body_spec, client_reply_spec, reply_json_spec,
};
use crate::proxy::convert::convert_request_spec;
use crate::json::{get_arr, get_bool, get_float, get_str, get_u64, jget, keyed};
use crate::state::remote_name_spec;
use crate::state::{rule_step, LimitEffect, RequestFacts, EngineView, map_get_or_zero};
use crate::state::{engine_fold, persisted_at, rule_applies};
use crate::config::{LimitMetric, Project, RuleView};
use crate::state::{route_index, serves};
use crate::text::lemma_first_index_exact;
use crate::cost::{
    best_bounded, context_tier_index, fits, ContextTier,
    entry_matches, estimate_spec, lookup_index, no_profile, table_profile, PriceEntry, PricingProfile, UsageBreakdown,
};
use crate::config::{LimitPeriod, Provider, period_db_name};
use crate::cli::limits::{period_arg, period_str_spec};
use crate::text::lowercase;
use crate::proxy::forwarder::{PumpEvent, ends_pump};
use crate::proxy::stream::usage_source;
use crate::text::{
    first_index, has_prefix, lemma_first_index_bounds, lemma_first_index_prefix, trim_end_seq, trim_seq,
};
use vstd::utf8::{
    decode_utf8, valid_utf8,
};

verus! {

// ---------------------------------------------------------------------------
// Streams
// ---------------------------------------------------------------------------

/// The dialects and the model of a stream converter's state.
pub open spec fn same_setup(a: StreamState, b: StreamState) -> bool {
    a.from == b.from && a.to == b.to && a.model == b.model
}

proof fn lemma_tool_calls_keep_setup(st: StreamState, tcs: Seq<JsonView>)
    ensures
        same_setup(openai_tool_calls(st, tcs).0, st),
    decreases tcs.len(),
{
    if tcs.len() > 0 {
        lemma_tool_calls_keep_setup(st, tcs.drop_last());
    }
}

proof fn lemma_data_keeps_setup(st: StreamState, line: Seq<u8>, v: JsonView)
    ensures
        same_setup(data_chunk(st, line, v).0, st),
{
    let s1 = match usage_source(v) {
        Some(u) => StreamState { usage: usage_after(st.usage, u), ..st },
        None => st,
    };
    match opt_member(opt_member(first_in(v, "choices"@), "delta"@), "tool_calls"@) {
        Some(JsonView::Array(tcs)) => {
            lemma_tool_calls_keep_setup(ensure_message(s1).0, tcs);
        },
        _ => {},
    }
}

proof fn lemma_line_keeps_setup(st: StreamState, line: Seq<u8>)
    ensures
        same_setup(line_step(st, line).0, st),
{
    if valid_utf8(line) {
        let t = trim_end_seq(decode_utf8(line));
        if t.len() > 0 && !has_prefix(t, "event:"@) && has_prefix(t, "data:"@) {
            let payload = trim_seq(t.subrange(5, t.len() as int));
            if let Some(v) = json_parse(payload) {
                lemma_data_keeps_setup(st, line, v);
            }
        }
    }
}

/// A stream converter never changes the dialects it converts between, nor
/// the model it names: not by a line, ...
pub proof fn law_line_keeps_setup(st: StreamState, line: Seq<u8>)
    ensures
        same_setup(line_step(st, line).0, st),
{
    lemma_line_keeps_setup(st, line);
}

/// ... not by a run of lines, ...
pub proof fn law_lines_keep_setup(st: StreamState, buf: Seq<u8>)
    ensures
        same_setup(drain_lines(st, buf).0, st),
    decreases buf.len(),
{
    proof_lemma_bounds(buf);
    match first_index(buf, newline_at()) {
        Some(i) => {
            lemma_line_keeps_setup(st, buf.subrange(0, i + 1));
            law_lines_keep_setup(line_step(st, buf.subrange(0, i + 1)).0, buf.subrange(i + 1, buf.len() as int));
        },
        None => {},
    }
}

proof fn proof_lemma_bounds(buf: Seq<u8>)
    ensures
        match first_index(buf, newline_at()) {
            Some(i) => 0 <= i < buf.len(),
            None => true,
        },
{
    lemma_first_index_bounds(buf, newline_at());
}

/// ... and not by the end of the stream.
pub proof fn law_finish_keeps_setup(st: StreamState, buf: Seq<u8>)
    ensures
        same_setup(finish_stream(st, buf).0, st),
{
    if buf.len() > 0 {
        lemma_line_keeps_setup(st, buf.push(10u8));
    }
}

/// After the end of a stream the client's stream is closed the way its
/// dialect requires: an OpenAI client has had `[DONE]`, and an Anthropic
/// client served by another dialect has had `message_stop`.
pub proof fn law_finish_closes_client_stream(st: StreamState, buf: Seq<u8>)
    ensures
        ({
            let end = finish_stream(st, buf).0;
            &&& st.to == ProviderFormat::OpenAI ==> end.done_sent
            &&& (st.to == ProviderFormat::Anthropic && st.from != ProviderFormat::Anthropic) ==> end.stopped
        }),
{
    law_finish_keeps_setup(st, buf);
    if buf.len() > 0 {
        lemma_line_keeps_setup(st, buf.push(10u8));
    }
}

/// Where upstream bytes are cut into pieces does not matter: feeding `x`
/// and then `y` leaves the same state and unfinished line, and emits the
/// same bytes, as feeding `x + y` at once.
pub proof fn law_chunking_does_not_matter(st: StreamState, x: Seq<u8>, y: Seq<u8>)
    ensures
        ({
            let (s1, r1, o1) = drain_lines(st, x);
            let (s2, r2, o2) = drain_lines(s1, r1 + y);
            let whole = drain_lines(st, x + y);
            &&& whole.0 == s2
            &&& whole.1 == r2
            &&& whole.2 == o1 + o2
        }),
    decreases x.len(),
{
    proof_lemma_bounds(x);
    match first_index(x, newline_at()) {
        Some(i) => {
            assert((x + y).subrange(0, x.len() as int) =~= x);
            lemma_first_index_prefix(x + y, newline_at(), x.len() as int);
            assert((x + y).subrange(0, i + 1) =~= x.subrange(0, i + 1));
            assert((x + y).subrange(i + 1, (x + y).len() as int) =~= x.subrange(i + 1, x.len() as int) + y);
            let s_line = line_step(st, x.subrange(0, i + 1));
            law_chunking_does_not_matter(s_line.0, x.subrange(i + 1, x.len() as int), y);
            let (t1, q1, p1) = drain_lines(s_line.0, x.subrange(i + 1, x.len() as int));
            let (t2, q2, p2) = drain_lines(t1, q1 + y);
            assert(s_line.1 + (p1 + p2) =~= (s_line.1 + p1) + p2);
        },
        None => {
            let whole = drain_lines(st, x + y);
            assert(Seq::<u8>::empty() + whole.2 =~= whole.2);
        },
    }
}

// ---------------------------------------------------------------------------
// Dialects
// ---------------------------------------------------------------------------

/// Between equal dialects a response body passes unchanged, and a stream
/// chunk keeps its event name and its data.
pub proof fn law_same_dialect_passes_through(f: ProviderFormat, body: JsonView, event: Option<Seq<char>>, data: JsonView)
    ensures
        convert_response_spec(f, f, body) == body,
        convert_sse_spec(f, f, event, data) == Some((event, data)),
{
}

// ---------------------------------------------------------------------------
// Data URLs
// ---------------------------------------------------------------------------

/// A data URL built from a MIME type and a payload reads back as that MIME
/// type and payload, whenever the MIME type holds no `;`.
pub proof fn law_data_url_round_trip(mime: Seq<char>, data: Seq<char>)
    requires
        !has_char(mime, ';'),
    ensures
        parse_data_url_spec("data:"@ + mime + ";base64,"@ + data) == Some((mime, data)),
{
    reveal_strlit("data:");
    reveal_strlit(";base64,");
    let sep = ";base64,"@;
    let url = "data:"@ + mime + sep + data;
    assert(url.subrange(0, 5) =~= "data:"@);
    let rest = url.subrange(5, url.len() as int);
    assert(rest =~= mime + sep + data);
    let m = mime.len() as int;
    assert(rest.subrange(m, m + 8) =~= sep);
    assert(occurs_at(rest, sep, m));
    assert forall|j: int| 0 <= j < m implies !occurs_at(rest, sep, j) by {
        if occurs_at(rest, sep, j) {
            assert(rest.subrange(j, j + 8)[0] == sep[0]);
            assert(rest[j] == mime[j]);
        }
    }
    let c = choose|k: int| occurs_at(rest, sep, k) && forall|j: int| 0 <= j < k ==> !occurs_at(rest, sep, j);
    assert(occurs_at(rest, sep, c) && forall|j: int| 0 <= j < c ==> !occurs_at(rest, sep, j));
    if c < m {
    } else if c > m {
        assert(!occurs_at(rest, sep, m));
    }
    assert(c == m);
    assert(rest.subrange(0, m) =~= mime);
    assert(rest.subrange(m + 8, rest.len() as int) =~= data);
}

// ---------------------------------------------------------------------------
// Tool call ids
// ---------------------------------------------------------------------------

proof fn lemma_decimal_value_of_string(n: nat)
    ensures
        decimal_value(decimal_string(n)) == n,
    decreases n,
{
    let s = decimal_string(n);
    if n < 10 {
        assert(s.drop_last() =~= Seq::<char>::empty());
        assert(s.last() == digit_char(n));
        assert(digit_value(digit_char(n)) == n);
        assert(decimal_value(s) == decimal_value(s.drop_last()) * 10 + digit_value(s.last()));
    } else {
        lemma_decimal_value_of_string(n / 10);
        assert(s.drop_last() =~= decimal_string(n / 10));
        assert(s.last() == digit_char(n % 10));
        assert(digit_value(digit_char(n % 10)) == n % 10);
        let q = decimal_value(s.drop_last());
        assert(q == n / 10);
        assert(decimal_value(s) == q * 10 + digit_value(s.last()));
        assert((n / 10) * 10 + n % 10 == n) by (nonlinear_arith);
    }
}

/// Ids minted for calls of one function never repeat: the `a`-th and the
/// `b`-th call of a function get different ids whenever `a != b`.
pub proof fn law_tool_call_ids_distinct(name: Seq<char>, a: usize, b: usize)
    requires
        a != b,
    ensures
        tool_call_id(name, a) != tool_call_id(name, b),
{
    if tool_call_id(name, a) == tool_call_id(name, b) {
        let p = "call_"@ + name + "_"@;
        let x = tool_call_id(name, a);
        assert(x.subrange(p.len() as int, x.len() as int) =~= decimal_string(a as nat));
        assert(x.subrange(p.len() as int, x.len() as int) =~= decimal_string(b as nat));
        lemma_decimal_value_of_string(a as nat);
        lemma_decimal_value_of_string(b as nat);
    }
}

// ---------------------------------------------------------------------------
// Counters and cooldowns
// ---------------------------------------------------------------------------

/// Releasing an amount just reserved for a limit leaves every limit's
/// in-flight amount as it was (while the reservation did not saturate).
pub proof fn law_release_undoes_increment(m: Map<i64, u64>, id: i64, d: u64, k: i64)
    requires
        amount_in(m, id) + d <= u64::MAX,
    ensures
        ({
            let r = sat_add(amount_in(m, id), d);
            let after_increment = m.insert(id, r);
            let after_release = after_increment.insert(id, sat_sub(amount_in(after_increment, id), d));
            amount_in(after_release, k) == amount_in(m, k)
        }),
{
}

/// A notification silences the next one for the same limit for exactly the
/// cooldown window after it was recorded.
pub proof fn law_cooldown_window(m: Map<i64, u64>, key: i64, t: u64, now: u64)
    ensures
        cooldown_allows_spec(last_in(m.insert(key, t), key), now) == (now >= t && now - t >= WARNING_COOLDOWN_MS),
{
}

// ---------------------------------------------------------------------------
// Query strings
// ---------------------------------------------------------------------------

proof fn lemma_index_of_concat(a: Seq<char>, rest: Seq<char>, c: char)
    requires
        index_of_from(a, c, 0) < a.len() || (rest.len() > 0 && rest[0] == c),
    ensures
        index_of_from(a + rest, c, 0) == index_of_from(a, c, 0),
{
    let s = a + rest;
    lemma_index_of_bounds(a, c, 0);
    lemma_index_of_bounds(s, c, 0);
    let i1 = index_of_from(a, c, 0);
    let i2 = index_of_from(s, c, 0);
    if i1 < i2 {
        if i1 < a.len() {
            assert(s[i1] == a[i1]);
        } else {
            assert(s[i1] == rest[0]);
        }
    } else if i2 < i1 {
        assert(s[i2] == a[i2]);
    }
}

proof fn lemma_split_no_sep(s: Seq<char>, c: char)
    requires
        !has_char(s, c),
    ensures
        split_seq(s, c) == seq![s],
{
    lemma_index_of_bounds(s, c, 0);
}

proof fn lemma_split_concat(a: Seq<char>, b: Seq<char>, c: char)
    ensures
        split_seq(a + seq![c] + b, c) == split_seq(a, c) + split_seq(b, c),
    decreases a.len(),
{
    let s = a + seq![c] + b;
    let i = index_of_from(a, c, 0);
    lemma_index_of_bounds(a, c, 0);
    assert(s =~= a + (seq![c] + b));
    lemma_index_of_concat(a, seq![c] + b, c);
    if i < a.len() {
        let a2 = a.subrange(i + 1, a.len() as int);
        lemma_split_concat(a2, b, c);
        assert(s.subrange(0, i) =~= a.subrange(0, i));
        assert(s.subrange(i + 1, s.len() as int) =~= a2 + seq![c] + b);
        assert(split_seq(s, c) =~= seq![a.subrange(0, i)] + split_seq(a2 + seq![c] + b, c));
        assert(split_seq(a, c) =~= seq![a.subrange(0, i)] + split_seq(a2, c));
        assert(split_seq(s, c) =~= split_seq(a, c) + split_seq(b, c));
    } else {
        assert(s.subrange(0, i) =~= a);
        assert(s.subrange(i + 1, s.len() as int) =~= b);
        assert(a.subrange(0, a.len() as int) =~= a);
        assert(split_seq(a, c) =~= seq![a]);
        assert(split_seq(s, c) =~= seq![a] + split_seq(b, c));
    }
}

proof fn lemma_split_join(ps: Seq<Seq<char>>, c: char)
    requires
        ps.len() >= 1,
        forall|k: int| 0 <= k < ps.len() ==> !has_char(#[trigger] ps[k], c),
    ensures
        split_seq(join_seq(ps, seq![c]), c) == ps,
    decreases ps.len(),
{
    if ps.len() == 1 {
        lemma_split_no_sep(ps[0], c);
        assert(seq![ps[0]] =~= ps);
    } else {
        let init = ps.drop_last();
        assert forall|k: int| 0 <= k < init.len() implies !has_char(#[trigger] init[k], c) by {
            assert(init[k] == ps[k]);
        }
        lemma_split_join(init, c);
        lemma_split_concat(join_seq(init, seq![c]), ps.last(), c);
        lemma_split_no_sep(ps.last(), c);
        assert(join_seq(ps, seq![c]) == join_seq(init, seq![c]) + seq![c] + ps.last());
        assert(init + seq![ps.last()] =~= ps);
    }
}

proof fn lemma_split_pieces_lack_sep(s: Seq<char>, c: char)
    ensures
        forall|k: int| 0 <= k < split_seq(s, c).len() ==> !has_char(#[trigger] split_seq(s, c)[k], c),
    decreases s.len(),
{
    let i = index_of_from(s, c, 0);
    lemma_index_of_bounds(s, c, 0);
    if i >= s.len() {
        assert(split_seq(s, c) == seq![s]);
    } else {
        let rest = s.subrange(i + 1, s.len() as int);
        lemma_split_pieces_lack_sep(rest, c);
        let head = s.subrange(0, i);
        assert forall|k: int| 0 <= k < split_seq(s, c).len() implies !has_char(#[trigger] split_seq(s, c)[k], c) by {
            if k == 0 {
                assert(split_seq(s, c)[0] == head);
                if has_char(head, c) {
                    let j = choose|j: int| 0 <= j < head.len() && head[j] == c;
                    assert(s[j] == head[j]);
                }
            } else {
                assert(split_seq(s, c)[k] == split_seq(rest, c)[k - 1]);
            }
        }
    }
}

proof fn lemma_kept_params(parts: Seq<Seq<char>>)
    requires
        forall|k: int| 0 <= k < parts.len() ==> !has_char(#[trigger] parts[k], '&'),
    ensures
        forall|k: int|
            0 <= k < kept_params(parts).len() ==> !has_char(#[trigger] kept_params(parts)[k], '&') && before_first(
                kept_params(parts)[k],
                '=',
            ) != "key"@,
    decreases parts.len(),
{
    if parts.len() > 0 {
        let init = parts.drop_last();
        assert forall|k: int| 0 <= k < init.len() implies !has_char(#[trigger] init[k], '&') by {
            assert(init[k] == parts[k]);
        }
        lemma_kept_params(init);
        let k0 = kept_params(init);
        let p = parts.last();
        assert(p == parts[parts.len() - 1]);
        if p.len() > 0 && before_first(p, '=') != "key"@ {
            assert(kept_params(parts) == k0.push(p));
            assert forall|k: int| 0 <= k < kept_params(parts).len() implies !has_char(#[trigger] kept_params(parts)[k], '&')
                && before_first(kept_params(parts)[k], '=') != "key"@ by {
                if k < k0.len() {
                    assert(kept_params(parts)[k] == k0[k]);
                }
            }
        }
    }
}

proof fn lemma_no_key_param(ps: Seq<Seq<char>>)
    requires
        forall|k: int| 0 <= k < ps.len() ==> !is_key_param(#[trigger] ps[k]),
    ensures
        first_index(ps, |p: Seq<char>| is_key_param(p)) is None,
    decreases ps.len(),
{
    if ps.len() > 0 {
        let init = ps.drop_last();
        assert forall|k: int| 0 <= k < init.len() implies !is_key_param(#[trigger] init[k]) by {
            assert(init[k] == ps[k]);
        }
        lemma_no_key_param(init);
    }
}

/// The query string sent upstream never carries the client's `key`
/// parameter: reading `key` from the stripped query finds none.
pub proof fn law_stripped_query_has_no_key(q: Seq<char>)
    ensures
        key_param_spec(join_seq(kept_params(split_seq(q, '&')), "&"@)) is None,
{
    reveal_strlit("&");
    assert("&"@ =~= seq!['&']);
    let parts = split_seq(q, '&');
    lemma_split_pieces_lack_sep(q, '&');
    lemma_kept_params(parts);
    let kept = kept_params(parts);
    if kept.len() == 0 {
        let e = Seq::<char>::empty();
        assert(join_seq(kept, "&"@) == e);
        assert(split_seq(e, '&') == seq![e]);
        lemma_index_of_bounds(e, '=', 0);
        assert(!is_key_param(e));
        lemma_no_key_param(seq![e]);
    } else {
        lemma_split_join(kept, '&');
        assert forall|k: int| 0 <= k < kept.len() implies !is_key_param(#[trigger] kept[k]) by {}
        lemma_no_key_param(kept);
    }
}

/// Every parameter the filter keeps is non-empty and not `key`.
proof fn lemma_kept_pass(parts: Seq<Seq<char>>)
    ensures
        forall|k: int| 0 <= k < kept_params(parts).len() ==> (#[trigger] kept_params(parts)[k]).len() > 0
            && before_first(kept_params(parts)[k], '=') != "key"@,
    decreases parts.len(),
{
    if parts.len() > 0 {
        lemma_kept_pass(parts.drop_last());
        let k0 = kept_params(parts.drop_last());
        let p = parts.last();
        if p.len() > 0 && before_first(p, '=') != "key"@ {
            assert forall|k: int| 0 <= k < kept_params(parts).len() implies (#[trigger] kept_params(parts)[k]).len() > 0
                && before_first(kept_params(parts)[k], '=') != "key"@ by {
                if k < k0.len() {
                    assert(kept_params(parts)[k] == k0[k]);
                }
            }
        }
    }
}

/// The filter keeps a list whose parameters all pass it.
proof fn lemma_kept_all(ps: Seq<Seq<char>>)
    requires
        forall|k: int| 0 <= k < ps.len() ==> (#[trigger] ps[k]).len() > 0 && before_first(ps[k], '=') != "key"@,
    ensures
        kept_params(ps) == ps,
    decreases ps.len(),
{
    if ps.len() > 0 {
        let init = ps.drop_last();
        assert forall|k: int| 0 <= k < init.len() implies (#[trigger] init[k]).len() > 0 && before_first(init[k], '=') != "key"@ by {
            assert(init[k] == ps[k]);
        }
        lemma_kept_all(init);
        assert(ps.last() == ps[ps.len() - 1]);
        assert(init.push(ps.last()) =~= ps);
    }
}

/// A query string with its `key` parameter (and empty parameters) taken out.
pub open spec fn stripped_query(q: Seq<char>) -> Seq<char> {
    join_seq(kept_params(split_seq(q, '&')), "&"@)
}

/// Stripping the `key` parameter twice changes nothing more than stripping
/// it once.
pub proof fn law_stripping_twice_changes_nothing(q: Seq<char>)
    ensures
        stripped_query(stripped_query(q)) == stripped_query(q),
{
    reveal_strlit("&");
    assert("&"@ =~= seq!['&']);
    let parts = split_seq(q, '&');
    lemma_split_pieces_lack_sep(q, '&');
    lemma_kept_params(parts);
    lemma_kept_pass(parts);
    let kept = kept_params(parts);
    if kept.len() == 0 {
        let e = Seq::<char>::empty();
        assert(join_seq(kept, "&"@) == e);
        assert(split_seq(e, '&') == seq![e]);
        assert(seq![e].drop_last() =~= Seq::<Seq<char>>::empty());
        assert(kept_params(Seq::<Seq<char>>::empty()) == Seq::<Seq<char>>::empty());
        assert(seq![e].last() == e);
        assert(kept_params(seq![e]) == Seq::<Seq<char>>::empty());
        assert(join_seq(Seq::<Seq<char>>::empty(), "&"@) == e);
    } else {
        lemma_split_join(kept, '&');
        lemma_kept_all(kept);
    }
}

// ---------------------------------------------------------------------------
// Retries and the fallback
// ---------------------------------------------------------------------------

/// How many more sends a forwarded request can make.
pub open spec fn sends_left(p: ForwardPlan) -> int {
    (PRIMARY_ATTEMPTS - p.attempts) + if p.fallback_tried { 0int } else { 1int }
}

/// A forwarded request ends: it starts with four sends left (three at the
/// primary, one at a fallback), every send uses one up, and with none left
/// the next step hands back an answer or fails.
pub proof fn law_forwarding_ends(p: ForwardPlan, outcome: Option<u16>)
    requires
        p.wf(),
    ensures
        sends_left(ForwardPlan { attempts: 0, kept: None, kept_from_fallback: false, fallback_tried: false }) == 4,
        p.next_spec() is Attempt ==> p.after_attempt(outcome).wf() && sends_left(p.after_attempt(outcome)) == sends_left(p)
            - 1,
        p.next_spec() is Fallback ==> p.after_fallback(outcome).wf() && sends_left(p.after_fallback(outcome))
            == sends_left(p) - 1,
        sends_left(p) == 0 ==> (p.next_spec() is Finish || p.next_spec() is Fail),
{
}

/// An answer that is neither a server error nor 429 is handed back at
/// once: no more attempts, no fallback.
pub proof fn law_final_answer_stops_retries(p: ForwardPlan, status: u16)
    requires
        p.wf(),
        p.next_spec() is Attempt,
        !retryable(status),
    ensures
        p.after_attempt(Some(status)).next_spec() == (ForwardStep::Finish { from_fallback: false }),
{
}

/// After three attempts that brought no answer, or a 5xx or 429 one, the
/// request goes to the fallback step.
pub proof fn law_unsettled_goes_to_fallback(p: ForwardPlan)
    requires
        p.wf(),
        p.attempts == PRIMARY_ATTEMPTS,
        !p.fallback_tried,
        unsettled(p.kept),
    ensures
        p.next_spec() == ForwardStep::Fallback,
{
}

/// The fallback is tried once: after it, the request ends, with the
/// fallback's answer when there is one, else with the primary's last
/// answer, else failing.
pub proof fn law_fallback_once(p: ForwardPlan, outcome: Option<u16>)
    requires
        p.wf(),
        p.next_spec() is Fallback,
    ensures
        p.after_fallback(outcome).next_spec() == match outcome {
            Some(_) => ForwardStep::Finish { from_fallback: true },
            None => match p.kept {
                Some(_) => ForwardStep::Finish { from_fallback: false },
                None => ForwardStep::Fail,
            },
        },
{
}

/// For every pair of dialects: a request that the provider answers at once,
/// and that is not an OpenAI chat stream, reaches the provider exactly
/// once, carrying exactly the client's body converted to the provider's
/// dialect under the provider's model name; a successful whole reply comes
/// back converted to the client's dialect.
pub proof fn law_answered_request_is_sent_once_converted(
    client: ProviderFormat,
    provider: Provider,
    path: Seq<char>,
    body: Seq<u8>,
    model: Seq<char>,
    status: u16,
    reply: Seq<u8>,
)
    requires
        !retryable(status),
        !(provider.format == ProviderFormat::OpenAI && request_is_stream(client, path, body)),
    ensures
        ({
            let start = ForwardPlan { attempts: 0, kept: None, kept_from_fallback: false, fallback_tried: false };
            &&& start.next_spec() == (ForwardStep::Attempt { delay_ms: 0 })
            &&& start.after_attempt(Some(status)).next_spec() == (ForwardStep::Finish { from_fallback: false })
        }),
        upstream_body_spec(client, provider, path, body, model) == convert_request_spec(
            client,
            provider.format,
            request_json_spec(body),
            remote_name_spec(provider, model),
        ),
        status < 400 ==> client_reply_spec(status, client, provider.format, reply) == convert_response_spec(
            provider.format,
            client,
            reply_json_spec(reply),
        ),
{
}

/// The pump state after a run of events.
pub open spec fn pump_after(ended: bool, events: Seq<PumpEvent>) -> bool
    decreases events.len(),
{
    if events.len() == 0 {
        ended
    } else {
        pump_after(ended, events.drop_last()) || ends_pump(events.last())
    }
}

/// How many times a run of events settles the request.
pub open spec fn settlements(ended: bool, events: Seq<PumpEvent>) -> nat
    decreases events.len(),
{
    if events.len() == 0 {
        0
    } else {
        settlements(ended, events.drop_last()) + if !pump_after(ended, events.drop_last()) && ends_pump(events.last()) {
            1nat
        } else {
            0nat
        }
    }
}

/// A streamed request settles at most once, and not while its chunks are
/// still being delivered: a run of delivered chunks settles nothing, and
/// any run settles exactly once when it holds an ending event.
pub proof fn law_stream_settles_once(events: Seq<PumpEvent>)
    ensures
        settlements(false, events) == if exists|i: int| 0 <= i < events.len() && ends_pump(#[trigger] events[i]) {
            1nat
        } else {
            0nat
        },
        pump_after(false, events) == exists|i: int| 0 <= i < events.len() && ends_pump(#[trigger] events[i]),
    decreases events.len(),
{
    if events.len() > 0 {
        let init = events.drop_last();
        law_stream_settles_once(init);
        if exists|i: int| 0 <= i < init.len() && ends_pump(#[trigger] init[i]) {
            let i = choose|i: int| 0 <= i < init.len() && ends_pump(#[trigger] init[i]);
            assert(events[i] == init[i]);
        }
        if exists|i: int| 0 <= i < events.len() && ends_pump(#[trigger] events[i]) {
            let i = choose|i: int| 0 <= i < events.len() && ends_pump(#[trigger] events[i]);
            if i < init.len() {
                assert(init[i] == events[i]);
            }
        }
    }
}

// ---------------------------------------------------------------------------
// Periods on the command line
// ---------------------------------------------------------------------------

proof fn lemma_digit_round_trip(d: nat)
    requires
        d < 10,
    ensures
        crate::text::is_digit(digit_char(d)),
        crate::text::digit_value(digit_char(d)) == d,
{
    assert(digit_char(d) as int == 48 + d);
}

/// The decimal text of a number is digits only, and reads back as it.
proof fn lemma_decimal_round_trip(n: nat)
    ensures
        decimal_string(n).len() > 0,
        crate::text::all_digits(decimal_string(n)),
        crate::text::decimal_value(decimal_string(n)) == n,
    decreases n,
{
    if n < 10 {
        lemma_digit_round_trip(n);
        assert(crate::text::is_digit(decimal_string(n)[0]));
        assert(decimal_string(n).drop_last() =~= Seq::<char>::empty());
        assert(crate::text::decimal_value(Seq::<char>::empty()) == 0);
        assert(decimal_string(n).last() == digit_char(n));
    } else {
        lemma_digit_round_trip(n % 10);
        lemma_decimal_round_trip(n / 10);
        let d = decimal_string(n);
        assert(d.drop_last() =~= decimal_string(n / 10));
        assert(d.last() == digit_char(n % 10));
        assert(crate::text::decimal_value(d) == crate::text::decimal_value(decimal_string(n / 10)) * 10 + (n % 10));
        assert((n / 10) * 10 + n % 10 == n);
        assert forall|i: int| 0 <= i < d.len() implies crate::text::is_digit(#[trigger] d[i]) by {
            if i < d.len() - 1 {
                assert(d[i] == decimal_string(n / 10)[i]);
            }
        }
    }
}

/// A period as `period_str` writes it is read back by `parse_period` as that
/// period, provided lower-casing leaves the written text unchanged (it is
/// ASCII lower case; what `str::to_lowercase` gives is a named result here).
pub proof fn law_period_round_trip(p: LimitPeriod)
    requires
        lowercase(period_str_spec(p)) == period_str_spec(p),
    ensures
        period_arg(lowercase(period_str_spec(p))) == Some(Ok::<LimitPeriod, ()>(p)),
{
    reveal_strlit("once");
    reveal_strlit("hourly");
    reveal_strlit("daily");
    reveal_strlit("weekly");
    reveal_strlit("monthly");
    reveal_strlit("custom_sec");
    reveal_strlit("custom_sec:");
    match p {
        LimitPeriod::CustomSec(n) => {
            let t = period_str_spec(p);
            let d = decimal_string(n as nat);
            lemma_decimal_round_trip(n as nat);
            assert(t.subrange(0, 11) =~= "custom_sec:"@);
            assert(has_prefix(t, "custom_sec:"@));
            assert(t.subrange(11, t.len() as int) =~= d);
            assert(d[0] != '+') by {
                assert(crate::text::is_digit(d[0]));
            }
            assert(t != "once"@ && t != "hourly"@ && t != "daily"@ && t != "weekly"@ && t != "monthly"@) by {
                assert(t.len() >= 12);
            }
        },
        _ => {
            assert("once"@ != "hourly"@ && "once"@ != "daily"@ && "hourly"@ != "daily"@ && "weekly"@ != "daily"@
                && "monthly"@ != "daily"@ && "once"@ != "weekly"@ && "once"@ != "monthly"@ && "hourly"@ != "weekly"@
                && "hourly"@ != "monthly"@ && "weekly"@ != "monthly"@) by {
                assert("once"@.len() == 4 && "hourly"@.len() == 6 && "daily"@.len() == 5);
                assert("weekly"@.len() == 6 && "monthly"@.len() == 7);
                assert("hourly"@[0] != "weekly"@[0]);
            }
        },
    }
}

// ---------------------------------------------------------------------------
// Limit checks
// ---------------------------------------------------------------------------

/// A rule whose usage comes from the persisted history (money, tokens,
/// output or input tokens, per-request cost, time) is violated exactly when
/// the persisted usage plus what this request adds reaches a non-zero cap.
/// A request adds its tokens for the token metrics, its estimated cost for
/// the money metrics, its duration for time and nothing for input tokens,
/// all in millionths of the unit. The violation reports the persisted usage.
pub proof fn law_limit_hit_counts_request(
    r: RuleView,
    index: int,
    persisted: u64,
    f: RequestFacts,
    group: bool,
    st: EngineView,
)
    requires
        r.metric == LimitMetric::Tokens || r.metric == LimitMetric::OutputTokens
            || r.metric == LimitMetric::InputTokens || r.metric == LimitMetric::Money
            || r.metric == LimitMetric::CostPerRequest || r.metric == LimitMetric::TimeSec,
    ensures
        ({
            let added: int = if r.metric == LimitMetric::Tokens || r.metric == LimitMetric::OutputTokens {
                f.tokens * 1_000_000
            } else if r.metric == LimitMetric::Money || r.metric == LimitMetric::CostPerRequest {
                f.cost as int
            } else if r.metric == LimitMetric::TimeSec {
                f.duration_ms * 1000
            } else {
                0
            };
            let run = rule_step(r, index, persisted, f, group, st);
            &&& (run.violations.len() == 1) == (r.cap > 0 && persisted + added >= r.cap)
            &&& run.violations.len() <= 1
            &&& run.violations.len() == 1 ==> run.violations[0].0 == index && run.violations[0].1 == persisted
            &&& run.reservations.len() == 0
            &&& run.state.counters == st.counters
        }),
{
}

/// A rule counted by reservation (requests, requests or tokens per minute,
/// concurrent requests) is violated exactly when what is already held plus
/// this request reaches a non-zero cap: the persisted usage (none for
/// concurrency), plus the units other requests hold in flight, plus one
/// request, or this request's tokens for tokens per minute. The request's
/// units are reserved in the rule's counter either way.
pub proof fn law_limit_hit_counts_reservation(
    r: RuleView,
    index: int,
    persisted: u64,
    f: RequestFacts,
    group: bool,
    st: EngineView,
)
    requires
        r.metric == LimitMetric::Requests || r.metric == LimitMetric::RequestsPerMinute
            || r.metric == LimitMetric::TokensPerMinute || r.metric == LimitMetric::ConcurrentRequests,
        map_get_or_zero(st.counters, r.id) + f.tokens <= u64::MAX,
        map_get_or_zero(st.counters, r.id) + 1 <= u64::MAX,
    ensures
        ({
            let held: int = map_get_or_zero(st.counters, r.id) as int;
            let units: int = if r.metric == LimitMetric::TokensPerMinute { f.tokens as int } else { 1 };
            let base: int = if r.metric == LimitMetric::ConcurrentRequests { 0 } else { persisted as int };
            let run = rule_step(r, index, persisted, f, group, st);
            &&& (run.violations.len() == 1) == (r.cap > 0 && base + held * 1_000_000 + units * 1_000_000 >= r.cap)
            &&& run.violations.len() <= 1
            &&& run.violations.len() == 1 ==> run.violations[0].0 == index
                && run.violations[0].1 == base + held * 1_000_000
            &&& run.reservations == seq![(r.id, units as u64)]
            &&& run.state.counters == st.counters.insert(r.id, (held + units) as u64)
        }),
{
}

// ---------------------------------------------------------------------------
// Cost estimates
// ---------------------------------------------------------------------------

/// No entry matching a model name means no entry is looked up for it.
proof fn lemma_lookup_none(table: Seq<PriceEntry>, m: Seq<char>)
    requires
        forall|i: int| 0 <= i < table.len() ==> !entry_matches(#[trigger] table[i], m),
    ensures
        lookup_index(table, m) is None,
    decreases table.len(),
{
    if table.len() > 0 {
        let d = table.drop_last();
        assert forall|i: int| 0 <= i < d.len() implies !entry_matches(#[trigger] d[i], m) by {
            assert(d[i] == table[i]);
        }
        lemma_lookup_none(d, m);
    }
}

/// The only entry matching a model name is the one looked up for it.
proof fn lemma_lookup_only(table: Seq<PriceEntry>, m: Seq<char>, j: int)
    requires
        0 <= j < table.len(),
        entry_matches(table[j], m),
        forall|i: int| 0 <= i < table.len() && i != j ==> !entry_matches(#[trigger] table[i], m),
    ensures
        lookup_index(table, m) == Some(j),
    decreases table.len(),
{
    let d = table.drop_last();
    if j == table.len() - 1 {
        assert forall|i: int| 0 <= i < d.len() implies !entry_matches(#[trigger] d[i], m) by {
            assert(d[i] == table[i]);
        }
        lemma_lookup_none(d, m);
    } else {
        assert(d[j] == table[j]);
        assert forall|i: int| 0 <= i < d.len() && i != j implies !entry_matches(#[trigger] d[i], m) by {
            assert(d[i] == table[i]);
        }
        lemma_lookup_only(d, m, j);
    }
}

/// A model whose local name matches no table entry is priced by its remote
/// name: its cost is the cost of the remote model under its own name. A
/// model whose local name matches an entry is priced by that entry, whatever
/// its remote name.
pub proof fn law_estimate_prices_by_remote_name(
    table: Seq<PriceEntry>,
    local: Seq<char>,
    remote: Seq<char>,
    other: Seq<char>,
    u: UsageBreakdown,
    ovr: PricingProfile,
)
    ensures
        (forall|i: int| 0 <= i < table.len() ==> !entry_matches(#[trigger] table[i], lowercase(local)))
            ==> estimate_spec(table, local, remote, u, ovr) == estimate_spec(table, remote, remote, u, ovr),
        (exists|i: int| 0 <= i < table.len() && #[trigger] entry_matches(table[i], lowercase(local)))
            ==> estimate_spec(table, local, remote, u, ovr) == estimate_spec(table, local, other, u, ovr),
{
    if forall|i: int| 0 <= i < table.len() ==> !entry_matches(#[trigger] table[i], lowercase(local)) {
        lemma_lookup_none(table, lowercase(local));
        assert(table_profile(table, local, remote) == table_profile(table, remote, remote));
    }
    if exists|i: int| 0 <= i < table.len() && #[trigger] entry_matches(table[i], lowercase(local)) {
        if lookup_index(table, lowercase(local)) is None {
            let k = choose|i: int| 0 <= i < table.len() && #[trigger] entry_matches(table[i], lowercase(local));
            lemma_lookup_some(table, lowercase(local), k);
        }
        assert(table_profile(table, local, remote) == table_profile(table, local, other));
    }
}

/// Some entry matching a model name means an entry is looked up for it.
proof fn lemma_lookup_some(table: Seq<PriceEntry>, m: Seq<char>, k: int)
    requires
        0 <= k < table.len(),
        entry_matches(table[k], m),
    ensures
        lookup_index(table, m) is Some,
    decreases table.len(),
{
    if k < table.len() - 1 {
        let d = table.drop_last();
        assert(d[k] == table[k]);
        lemma_lookup_some(d, m, k);
    }
}

/// A local alias that no entry matches, mapped to a remote model that one
/// entry prices at flat input and output rates (no bands, discount, fee or
/// separate cached or reasoning price), and with no override, costs its
/// prompt tokens at the input rate plus its completion tokens at the output
/// rate, so any usage of a model with non-zero rates costs something.
pub proof fn law_estimate_flat_remote_price(
    table: Seq<PriceEntry>,
    local: Seq<char>,
    remote: Seq<char>,
    j: int,
    u: UsageBreakdown,
)
    requires
        forall|i: int| 0 <= i < table.len() ==> !entry_matches(#[trigger] table[i], lowercase(local)),
        0 <= j < table.len(),
        entry_matches(table[j], lowercase(remote)),
        forall|i: int| 0 <= i < table.len() && i != j ==> !entry_matches(#[trigger] table[i], lowercase(remote)),
        table[j].profile.input_per_1k is Some,
        table[j].profile.output_per_1k is Some,
        table[j].profile.cached_input_per_1k is None,
        table[j].profile.context_tiers is None,
        table[j].profile.time_tiers is None,
        table[j].profile.batch_discount is None,
        table[j].profile.reasoning_per_1k is None,
        table[j].profile.request_fee is None,
        u.cached_tokens <= u.prompt_tokens,
        u.prompt_tokens * table[j].profile.input_per_1k->0 + u.completion_tokens * table[j].profile.output_per_1k->0
            <= u128::MAX,
    ensures
        estimate_spec(table, local, remote, u, no_profile()) == u.prompt_tokens * table[j].profile.input_per_1k->0
            + u.completion_tokens * table[j].profile.output_per_1k->0,
{
    lemma_lookup_none(table, lowercase(local));
    lemma_lookup_only(table, lowercase(remote), j);
    let x: int = table[j].profile.input_per_1k->0 as int;
    let y: int = table[j].profile.output_per_1k->0 as int;
    let p: int = u.prompt_tokens as int;
    let c: int = u.cached_tokens as int;
    let comp: int = u.completion_tokens as int;
    let r: int = if u.reasoning_tokens <= u.completion_tokens { u.reasoning_tokens as int } else { comp };
    assert(table_profile(table, local, remote) == table[j].profile);
    assert((p - c) * x + c * x == p * x) by (nonlinear_arith);
    assert(r * y + (comp - r) * y == comp * y) by (nonlinear_arith);
    assert(0 <= (p - c) * x && 0 <= c * x && 0 <= r * y && 0 <= (comp - r) * y) by (nonlinear_arith)
        requires
            0 <= c <= p,
            0 <= r <= comp,
            0 <= x,
            0 <= y,
    ;
}

// ---------------------------------------------------------------------------
// Routing
// ---------------------------------------------------------------------------

/// A request is routed to the first provider that serves its model (when it
/// names one); when none does, to the first provider marked default; only
/// when no provider is marked default, to the first provider; and nowhere
/// when there are no providers.
pub proof fn law_route_model_then_default(providers: Seq<Provider>, model: Seq<char>)
    ensures
        ({
            let served = model.len() > 0 && exists|i: int| 0 <= i < providers.len() && serves(#[trigger] providers[i], model);
            let has_default = exists|i: int| 0 <= i < providers.len() && #[trigger] providers[i].is_default;
            let r = route_index(providers, model);
            &&& served ==> (r matches Some(i) && 0 <= i < providers.len() && serves(providers[i], model)
                && forall|k: int| 0 <= k < i ==> !serves(#[trigger] providers[k], model))
            &&& (!served && has_default) ==> (r matches Some(i) && 0 <= i < providers.len() && providers[i].is_default
                && forall|k: int| 0 <= k < i ==> !(#[trigger] providers[k]).is_default)
            &&& (!served && !has_default && providers.len() > 0) ==> r == Some(0int)
            &&& providers.len() == 0 ==> r is None
        }),
{
    let fs = |p: Provider| serves(p, model);
    let fd = |p: Provider| p.is_default;
    lemma_first_index_exact(providers, fs);
    lemma_first_index_exact(providers, fd);
    let served = model.len() > 0 && exists|i: int| 0 <= i < providers.len() && serves(#[trigger] providers[i], model);
    let has_default = exists|i: int| 0 <= i < providers.len() && #[trigger] providers[i].is_default;
    if served {
        let w = choose|i: int| 0 <= i < providers.len() && serves(#[trigger] providers[i], model);
        assert(fs(providers[w]));
    }
    if has_default {
        let w = choose|i: int| 0 <= i < providers.len() && #[trigger] providers[i].is_default;
        assert(fd(providers[w]));
    }
    if !served && model.len() > 0 {
        assert forall|k: int| 0 <= k < providers.len() implies !fs(#[trigger] providers[k]) by {}
    }
    if !has_default {
        assert forall|k: int| 0 <= k < providers.len() implies !fd(#[trigger] providers[k]) by {}
    }
}

// ---------------------------------------------------------------------------
// Request parameters across dialects
// ---------------------------------------------------------------------------

/// Appending a member to an object: a key already present keeps its first
/// value; a key not yet present is found exactly when it is the new member's.
proof fn lemma_jget_push(m: Seq<(Seq<char>, JsonView)>, x: (Seq<char>, JsonView), k: Seq<char>)
    ensures
        jget(JsonView::Object(m.push(x)), k) == match jget(JsonView::Object(m), k) {
            Some(v) => Some(v),
            None => if x.0 == k { Some(x.1) } else { None },
        },
{
    crate::text::lemma_first_index_bounds(m, keyed(k));
    assert(m.push(x).drop_last() =~= m);
    if let Some(i) = first_index(m, keyed(k)) {
        assert(m.push(x)[i] == m[i]);
    }
}

/// The member keys of request bodies are distinct texts.
proof fn lemma_request_keys_distinct()
    ensures
        "model"@ != "top_p"@,
        "model"@ != "tools"@,
        "top_p"@ != "tools"@,
        "stream"@ != "system"@,
        "temperature"@ != "tool_choice"@,
        "model"@.len() == 5,
        "top_p"@.len() == 5,
        "tools"@.len() == 5,
        "stream"@.len() == 6,
        "system"@.len() == 6,
        "temperature"@.len() == 11,
        "tool_choice"@.len() == 11,
        "stop"@.len() == 4,
        "messages"@.len() == 8,
        "max_tokens"@.len() == 10,
        "stop_sequences"@.len() == 14,
        "input"@.len() == 5,
        "input"@ != "model"@,
        "input"@ != "top_p"@,
        "input"@ != "tools"@,
        "max_output_tokens"@.len() == 17,
        "response_format"@.len() == 15,
{
    reveal_strlit("model");
    reveal_strlit("top_p");
    reveal_strlit("tools");
    reveal_strlit("stream");
    reveal_strlit("system");
    reveal_strlit("temperature");
    reveal_strlit("tool_choice");
    reveal_strlit("stop");
    reveal_strlit("messages");
    reveal_strlit("max_tokens");
    reveal_strlit("stop_sequences");
    reveal_strlit("input");
    reveal_strlit("max_output_tokens");
    reveal_strlit("response_format");
    assert("input"@[0] != "model"@[0]);
    assert("input"@[0] != "top_p"@[0]);
    assert("input"@[0] != "tools"@[0]);
    assert("model"@[0] != "top_p"@[0]);
    assert("model"@[0] != "tools"@[0]);
    assert("top_p"@[2] != "tools"@[2]);
    assert("stream"@[1] != "system"@[1]);
    assert("temperature"@[1] != "tool_choice"@[1]);
}

/// The sampling parameters a body carries, as a converted body carries them:
/// the model is the provider's, and `max_tokens`, `temperature`, `top_p` and
/// `stream: true` are those of the source body.
pub open spec fn carries_parameters(out: JsonView, body: JsonView, remote: Seq<char>) -> bool {
    &&& jget(out, "model"@) == Some(JsonView::Str(remote))
    &&& get_u64(out, "max_tokens"@) == get_u64(body, "max_tokens"@)
    &&& match get_float(body, "temperature"@) {
        Some(n) => jget(out, "temperature"@) == Some(JsonView::Number(n)),
        None => jget(out, "temperature"@) is None,
    }
    &&& match get_float(body, "top_p"@) {
        Some(n) => jget(out, "top_p"@) == Some(JsonView::Number(n)),
        None => jget(out, "top_p"@) is None,
    }
    &&& jget(out, "stream"@) == (if get_bool(body, "stream"@) == Some(true) { Some(JsonView::Bool(true)) } else { None })
}

/// An Anthropic request converted for an OpenAI provider names the
/// provider's model and keeps the request's parameters: `max_tokens`,
/// `temperature`, `top_p`, streaming, and its stop sequences, which become
/// `stop` (present exactly when the request has an array `stop_sequences`).
/// Each sampling member of an Anthropic request converted for OpenAI.
proof fn lemma_anthropic_to_openai_member(body: JsonView, remote: Seq<char>, k: Seq<char>)
    requires
        k != "messages"@,
        k != "tools"@,
        k != "tool_choice"@,
    ensures
        jget(convert_request_spec(ProviderFormat::Anthropic, ProviderFormat::OpenAI, body, remote), k) == (
        if k == "model"@ {
            Some(JsonView::Str(remote))
        } else if k == "max_tokens"@ {
            match get_u64(body, "max_tokens"@) {
                Some(v) => Some(JsonView::Number(crate::json::NumberView::PosInt(v))),
                None => None,
            }
        } else if k == "temperature"@ {
            match get_float(body, "temperature"@) {
                Some(n) => Some(JsonView::Number(n)),
                None => None,
            }
        } else if k == "top_p"@ {
            match get_float(body, "top_p"@) {
                Some(n) => Some(JsonView::Number(n)),
                None => None,
            }
        } else if k == "stream"@ {
            if get_bool(body, "stream"@) == Some(true) { Some(JsonView::Bool(true)) } else { None }
        } else if k == "stop"@ {
            match get_arr(body, "stop_sequences"@) {
                Some(a) => Some(JsonView::Array(a)),
                None => None,
            }
        } else {
            None
        }),
{
    lemma_request_keys_distinct();
    let system = match jget(body, "system"@) {
        Some(sys) => seq![crate::proxy::content::obj2(
            "role"@,
            JsonView::Str("system"@),
            "content"@,
            crate::proxy::content::convert_content_spec(sys, ProviderFormat::Anthropic, ProviderFormat::OpenAI),
        )],
        None => Seq::empty(),
    };
    let ms = match jget(body, "messages"@) {
        Some(JsonView::Array(a)) => a,
        _ => Seq::empty(),
    };
    let e = Seq::<(Seq<char>, JsonView)>::empty();
    let p0 = e.push(("model"@, JsonView::Str(remote)));
    lemma_jget_push(e, ("model"@, JsonView::Str(remote)), k);
    let mx = ("messages"@, JsonView::Array(crate::proxy::anthropic::anthropic_messages(system, ms)));
    let m0 = p0.push(mx);
    lemma_jget_push(p0, mx, k);
    let u1 = crate::proxy::anthropic::with_u64(m0, body, "max_tokens"@);
    if let Some(v) = get_u64(body, "max_tokens"@) {
        lemma_jget_push(m0, ("max_tokens"@, JsonView::Number(crate::json::NumberView::PosInt(v))), k);
    }
    let u2 = crate::proxy::anthropic::with_float(u1, body, "temperature"@);
    if let Some(n) = get_float(body, "temperature"@) {
        lemma_jget_push(u1, ("temperature"@, JsonView::Number(n)), k);
    }
    let u3 = crate::proxy::anthropic::with_float(u2, body, "top_p"@);
    if let Some(n) = get_float(body, "top_p"@) {
        lemma_jget_push(u2, ("top_p"@, JsonView::Number(n)), k);
    }
    let m1 = crate::proxy::anthropic::with_stream(u3, body);
    if get_bool(body, "stream"@) == Some(true) {
        lemma_jget_push(u3, ("stream"@, JsonView::Bool(true)), k);
    }
    let m2 = match get_arr(body, "stop_sequences"@) {
        Some(a) => m1.push(("stop"@, JsonView::Array(a))),
        None => m1,
    };
    if let Some(a) = get_arr(body, "stop_sequences"@) {
        lemma_jget_push(m1, ("stop"@, JsonView::Array(a)), k);
    }
    let m3 = match get_arr(body, "tools"@) {
        Some(ts) => if crate::proxy::tools::wrapped_decls(ts, "input_schema"@).len() > 0 {
            m2.push(("tools"@, JsonView::Array(crate::proxy::tools::wrapped_decls(ts, "input_schema"@))))
        } else {
            m2
        },
        None => m2,
    };
    if let Some(ts) = get_arr(body, "tools"@) {
        if crate::proxy::tools::wrapped_decls(ts, "input_schema"@).len() > 0 {
            lemma_jget_push(m2, ("tools"@, JsonView::Array(crate::proxy::tools::wrapped_decls(ts, "input_schema"@))), k);
        }
    }
    if let Some(tc) = jget(body, "tool_choice"@) {
        if let Some(c) = crate::proxy::tools::anthropic_tool_choice_to_openai_spec(tc) {
            lemma_jget_push(m3, ("tool_choice"@, c), k);
        }
    }
}

/// An Anthropic request converted for an OpenAI provider names the
/// provider's model and keeps the request's parameters: `max_tokens`,
/// `temperature`, `top_p`, streaming, and its stop sequences, which become
/// `stop` (present exactly when the request has an array `stop_sequences`).
pub proof fn law_anthropic_to_openai_keeps_parameters(body: JsonView, remote: Seq<char>)
    ensures
        carries_parameters(convert_request_spec(ProviderFormat::Anthropic, ProviderFormat::OpenAI, body, remote), body, remote),
        jget(convert_request_spec(ProviderFormat::Anthropic, ProviderFormat::OpenAI, body, remote), "stop"@)
            == match get_arr(body, "stop_sequences"@) {
                Some(a) => Some(JsonView::Array(a)),
                None => None::<JsonView>,
            },
{
    lemma_request_keys_distinct();
    lemma_anthropic_to_openai_member(body, remote, "model"@);
    lemma_anthropic_to_openai_member(body, remote, "max_tokens"@);
    lemma_anthropic_to_openai_member(body, remote, "temperature"@);
    lemma_anthropic_to_openai_member(body, remote, "top_p"@);
    lemma_anthropic_to_openai_member(body, remote, "stream"@);
    lemma_anthropic_to_openai_member(body, remote, "stop"@);
}

/// Each sampling member of an OpenAI request converted for Anthropic.
proof fn lemma_openai_to_anthropic_member(body: JsonView, remote: Seq<char>, k: Seq<char>)
    requires
        k != "system"@,
        k != "messages"@,
        k != "tools"@,
        k != "tool_choice"@,
    ensures
        jget(convert_request_spec(ProviderFormat::OpenAI, ProviderFormat::Anthropic, body, remote), k) == (
        if k == "model"@ {
            Some(JsonView::Str(remote))
        } else if k == "max_tokens"@ {
            match get_u64(body, "max_tokens"@) {
                Some(v) => Some(JsonView::Number(crate::json::NumberView::PosInt(v))),
                None => None,
            }
        } else if k == "temperature"@ {
            match get_float(body, "temperature"@) {
                Some(n) => Some(JsonView::Number(n)),
                None => None,
            }
        } else if k == "top_p"@ {
            match get_float(body, "top_p"@) {
                Some(n) => Some(JsonView::Number(n)),
                None => None,
            }
        } else if k == "stream"@ {
            if get_bool(body, "stream"@) == Some(true) { Some(JsonView::Bool(true)) } else { None }
        } else if k == "stop_sequences"@ {
            match crate::proxy::tools::openai_stop_spec(jget(body, "stop"@)) {
                Some(a) => Some(JsonView::Array(a)),
                None => None,
            }
        } else {
            None
        }),
{
    lemma_request_keys_distinct();
    let split = crate::proxy::gemini::split_openai_messages_spec(jget(body, "messages"@));
    let e = Seq::<(Seq<char>, JsonView)>::empty();
    let m0 = e.push(("model"@, JsonView::Str(remote)));
    assert(m0 =~= seq![("model"@, JsonView::Str(remote))]);
    lemma_jget_push(e, ("model"@, JsonView::Str(remote)), k);
    let m1 = match split.0 {
        Some(system) => m0.push(("system"@, JsonView::Str(system))),
        None => m0,
    };
    if let Some(system) = split.0 {
        lemma_jget_push(m0, ("system"@, JsonView::Str(system)), k);
    }
    let mx = ("messages"@, JsonView::Array(crate::proxy::anthropic::openai_messages_to_anthropic(split.1)));
    let m2 = m1.push(mx);
    lemma_jget_push(m1, mx, k);
    let u1 = crate::proxy::anthropic::with_u64(m2, body, "max_tokens"@);
    if let Some(v) = get_u64(body, "max_tokens"@) {
        lemma_jget_push(m2, ("max_tokens"@, JsonView::Number(crate::json::NumberView::PosInt(v))), k);
    }
    let u2 = crate::proxy::anthropic::with_float(u1, body, "temperature"@);
    if let Some(n) = get_float(body, "temperature"@) {
        lemma_jget_push(u1, ("temperature"@, JsonView::Number(n)), k);
    }
    let u3 = crate::proxy::anthropic::with_float(u2, body, "top_p"@);
    if let Some(n) = get_float(body, "top_p"@) {
        lemma_jget_push(u2, ("top_p"@, JsonView::Number(n)), k);
    }
    let m3 = crate::proxy::anthropic::with_stream(u3, body);
    if get_bool(body, "stream"@) == Some(true) {
        lemma_jget_push(u3, ("stream"@, JsonView::Bool(true)), k);
    }
    let m4 = match crate::proxy::tools::openai_stop_spec(jget(body, "stop"@)) {
        Some(a) => m3.push(("stop_sequences"@, JsonView::Array(a))),
        None => m3,
    };
    if let Some(a) = crate::proxy::tools::openai_stop_spec(jget(body, "stop"@)) {
        lemma_jget_push(m3, ("stop_sequences"@, JsonView::Array(a)), k);
    }
    let m5 = match get_arr(body, "tools"@) {
        Some(ts) => if crate::proxy::tools::openai_function_decls(ts, "input_schema"@).len() > 0 {
            m4.push(("tools"@, JsonView::Array(crate::proxy::tools::openai_function_decls(ts, "input_schema"@))))
        } else {
            m4
        },
        None => m4,
    };
    if let Some(ts) = get_arr(body, "tools"@) {
        if crate::proxy::tools::openai_function_decls(ts, "input_schema"@).len() > 0 {
            lemma_jget_push(m4, ("tools"@, JsonView::Array(crate::proxy::tools::openai_function_decls(ts, "input_schema"@))), k);
        }
    }
    if let Some(tc) = jget(body, "tool_choice"@) {
        if let Some(c) = crate::proxy::tools::openai_tool_choice_to_anthropic_spec(tc) {
            lemma_jget_push(m5, ("tool_choice"@, c), k);
        }
    }
}

/// An OpenAI request converted for an Anthropic provider names the
/// provider's model and keeps the request's parameters: `max_tokens`,
/// `temperature`, `top_p`, streaming, and its `stop`, which becomes
/// `stop_sequences`: a text as a list of that one text, a non-empty array as
/// it is, and nothing otherwise.
pub proof fn law_openai_to_anthropic_keeps_parameters(body: JsonView, remote: Seq<char>)
    ensures
        carries_parameters(convert_request_spec(ProviderFormat::OpenAI, ProviderFormat::Anthropic, body, remote), body, remote),
        jget(convert_request_spec(ProviderFormat::OpenAI, ProviderFormat::Anthropic, body, remote), "stop_sequences"@)
            == match jget(body, "stop"@) {
                Some(JsonView::Str(t)) => Some(JsonView::Array(seq![JsonView::Str(t)])),
                Some(JsonView::Array(a)) => if a.len() > 0 { Some(JsonView::Array(a)) } else { None::<JsonView> },
                _ => None::<JsonView>,
            },
{
    lemma_request_keys_distinct();
    lemma_openai_to_anthropic_member(body, remote, "model"@);
    lemma_openai_to_anthropic_member(body, remote, "max_tokens"@);
    lemma_openai_to_anthropic_member(body, remote, "temperature"@);
    lemma_openai_to_anthropic_member(body, remote, "top_p"@);
    lemma_openai_to_anthropic_member(body, remote, "stream"@);
    lemma_openai_to_anthropic_member(body, remote, "stop_sequences"@);
}

/// A model priced by one table entry without bands and with no override
/// costs, in pico-dollars: its uncached prompt tokens at the input price,
/// its cached tokens at the cached price (the input price when none is
/// set), its reasoning tokens at the reasoning price (the output price when
/// none is set) and the rest of its completion at the output price (unset
/// prices are zero); then the batch discount, in millionths, where there is
/// one; then the request fee, in nano-dollars, where there is one.
pub proof fn law_estimate_charges_each_kind(table: Seq<PriceEntry>, model: Seq<char>, j: int, u: UsageBreakdown)
    requires
        0 <= j < table.len(),
        entry_matches(table[j], lowercase(model)),
        forall|i: int| 0 <= i < table.len() && i != j ==> !entry_matches(#[trigger] table[i], lowercase(model)),
        table[j].profile.context_tiers is None,
        table[j].profile.time_tiers is None,
        u.cached_tokens <= u.prompt_tokens,
        u.reasoning_tokens <= u.completion_tokens,
        ({
            let p = table[j].profile;
            let input: int = match p.input_per_1k { Some(x) => x as int, None => 0 };
            let output: int = match p.output_per_1k { Some(x) => x as int, None => 0 };
            let cached: int = match p.cached_input_per_1k { Some(x) => x as int, None => input };
            let reasoning: int = match p.reasoning_per_1k { Some(x) => x as int, None => output };
            let tokens: int = (u.prompt_tokens - u.cached_tokens) * input + u.cached_tokens * cached
                + u.reasoning_tokens * reasoning + (u.completion_tokens - u.reasoning_tokens) * output;
            let discounted: int = match p.batch_discount { Some(d) => tokens * d / 1_000_000, None => tokens };
            &&& tokens <= u128::MAX
            &&& discounted + match p.request_fee { Some(f) => f * 1000, None => 0 } <= u128::MAX
        }),
    ensures
        ({
            let p = table[j].profile;
            let input: int = match p.input_per_1k { Some(x) => x as int, None => 0 };
            let output: int = match p.output_per_1k { Some(x) => x as int, None => 0 };
            let cached: int = match p.cached_input_per_1k { Some(x) => x as int, None => input };
            let reasoning: int = match p.reasoning_per_1k { Some(x) => x as int, None => output };
            let tokens: int = (u.prompt_tokens - u.cached_tokens) * input + u.cached_tokens * cached
                + u.reasoning_tokens * reasoning + (u.completion_tokens - u.reasoning_tokens) * output;
            let discounted: int = match p.batch_discount { Some(d) => tokens * d / 1_000_000, None => tokens };
            estimate_spec(table, model, model, u, no_profile())
                == discounted + match p.request_fee { Some(f) => f * 1000, None => 0 }
        }),
{
    lemma_lookup_only(table, lowercase(model), j);
    assert(table_profile(table, model, model) == table[j].profile);
    let p = table[j].profile;
    let input: int = match p.input_per_1k { Some(x) => x as int, None => 0 };
    let output: int = match p.output_per_1k { Some(x) => x as int, None => 0 };
    let cached: int = match p.cached_input_per_1k { Some(x) => x as int, None => input };
    let reasoning: int = match p.reasoning_per_1k { Some(x) => x as int, None => output };
    let a: int = u.prompt_tokens - u.cached_tokens;
    let b: int = u.cached_tokens as int;
    let r: int = u.reasoning_tokens as int;
    let c: int = u.completion_tokens - u.reasoning_tokens;
    assert(0 <= a * input && 0 <= b * cached && 0 <= r * reasoning && 0 <= c * output) by (nonlinear_arith)
        requires
            0 <= a,
            0 <= b,
            0 <= r,
            0 <= c,
            0 <= input,
            0 <= output,
            0 <= cached,
            0 <= reasoning,
    ;
    let tokens: int = a * input + b * cached + r * reasoning + c * output;
    if let Some(d) = p.batch_discount {
        assert(0 <= tokens * d / 1_000_000) by (nonlinear_arith)
            requires
                0 <= tokens,
                0 <= d,
        ;
    }
}

/// A rule that the request does not hit warns when it has a cap and a
/// threshold (in millionths of the cap) that the persisted usage has
/// reached, and no warning for it was given within the cooldown: it audits
/// and shows the warning at that usage and records the time. Otherwise a
/// rule that is not hit does nothing.
pub proof fn law_limit_warns_past_threshold(
    r: RuleView,
    index: int,
    persisted: u64,
    f: RequestFacts,
    group: bool,
    st: EngineView,
)
    requires
        r.metric == LimitMetric::Tokens || r.metric == LimitMetric::OutputTokens
            || r.metric == LimitMetric::InputTokens || r.metric == LimitMetric::Money
            || r.metric == LimitMetric::CostPerRequest || r.metric == LimitMetric::TimeSec,
        rule_step(r, index, persisted, f, group, st).violations.len() == 0,
    ensures
        ({
            let run = rule_step(r, index, persisted, f, group, st);
            let quiet = !st.warn.contains_key(r.id) || (f.now_ms >= st.warn[r.id]
                && f.now_ms - st.warn[r.id] >= crate::schedule::WARNING_COOLDOWN_MS);
            if r.cap > 0 && r.warning_threshold > 0 && persisted * 1_000_000 >= r.warning_threshold * r.cap && quiet {
                &&& run.effects.len() >= 2
                &&& run.effects[0] == LimitEffect::AuditWarning { group, index: index as usize, used: persisted as u128 }
                &&& run.effects[1] == LimitEffect::NotifyWarning { group, index: index as usize, used: persisted as u128 }
                &&& run.state.warn == st.warn.insert(r.id, f.now_ms)
            } else {
                &&& run.effects.len() == 0
                &&& run.state.warn == st.warn
            }
        }),
{
}

/// Each sampling member of a Responses request converted for OpenAI.
proof fn lemma_responses_to_openai_member(body: JsonView, remote: Seq<char>, k: Seq<char>)
    requires
        k != "messages"@,
        k != "tools"@,
        k != "tool_choice"@,
    ensures
        jget(convert_request_spec(ProviderFormat::Responses, ProviderFormat::OpenAI, body, remote), k) == (
        if k == "model"@ {
            Some(JsonView::Str(remote))
        } else if k == "max_tokens"@ {
            match get_u64(body, "max_output_tokens"@) {
                Some(v) => Some(JsonView::Number(crate::json::NumberView::PosInt(v))),
                None => None,
            }
        } else if k == "temperature"@ {
            match get_float(body, "temperature"@) {
                Some(n) => Some(JsonView::Number(n)),
                None => None,
            }
        } else if k == "top_p"@ {
            match get_float(body, "top_p"@) {
                Some(n) => Some(JsonView::Number(n)),
                None => None,
            }
        } else if k == "stream"@ {
            if get_bool(body, "stream"@) == Some(true) { Some(JsonView::Bool(true)) } else { None }
        } else {
            None
        }),
{
    lemma_request_keys_distinct();
    let e = Seq::<(Seq<char>, JsonView)>::empty();
    let p0 = e.push(("model"@, JsonView::Str(remote)));
    lemma_jget_push(e, ("model"@, JsonView::Str(remote)), k);
    let system = match get_str(body, "instructions"@) {
        Some(i) => if i.len() > 0 {
            seq![crate::proxy::content::obj2("role"@, JsonView::Str("system"@), "content"@, JsonView::Str(i))]
        } else {
            Seq::empty()
        },
        None => Seq::empty(),
    };
    let input = match jget(body, "input"@) {
        Some(x) => x,
        None => JsonView::Str(Seq::empty()),
    };
    let turns = match input {
        JsonView::Str(t) => if t.len() > 0 {
            seq![crate::proxy::content::obj2("role"@, JsonView::Str("user"@), "content"@, JsonView::Str(t))]
        } else {
            Seq::empty()
        },
        JsonView::Array(items) => crate::proxy::responses::keep_some(
            items,
            crate::proxy::responses::conversion(crate::proxy::responses::ListConversion::ResponsesItems),
        ),
        _ => Seq::empty(),
    };
    let mx = ("messages"@, JsonView::Array(system + turns));
    let m0 = p0.push(mx);
    lemma_jget_push(p0, mx, k);
    let m1 = match get_u64(body, "max_output_tokens"@) {
        Some(v) => m0.push(("max_tokens"@, JsonView::Number(crate::json::NumberView::PosInt(v)))),
        None => m0,
    };
    if let Some(v) = get_u64(body, "max_output_tokens"@) {
        lemma_jget_push(m0, ("max_tokens"@, JsonView::Number(crate::json::NumberView::PosInt(v))), k);
    }
    let u2 = crate::proxy::anthropic::with_float(m1, body, "temperature"@);
    if let Some(n) = get_float(body, "temperature"@) {
        lemma_jget_push(m1, ("temperature"@, JsonView::Number(n)), k);
    }
    let u3 = crate::proxy::anthropic::with_float(u2, body, "top_p"@);
    if let Some(n) = get_float(body, "top_p"@) {
        lemma_jget_push(u2, ("top_p"@, JsonView::Number(n)), k);
    }
    let m2 = crate::proxy::anthropic::with_stream(u3, body);
    if get_bool(body, "stream"@) == Some(true) {
        lemma_jget_push(u3, ("stream"@, JsonView::Bool(true)), k);
    }
    let tc = crate::proxy::responses::conversion(crate::proxy::responses::ListConversion::ResponsesTools);
    let m3 = match get_arr(body, "tools"@) {
        Some(ts) => if crate::proxy::responses::keep_some(ts, tc).len() > 0 {
            m2.push(("tools"@, JsonView::Array(crate::proxy::responses::keep_some(ts, tc))))
        } else {
            m2
        },
        None => m2,
    };
    if let Some(ts) = get_arr(body, "tools"@) {
        if crate::proxy::responses::keep_some(ts, tc).len() > 0 {
            lemma_jget_push(m2, ("tools"@, JsonView::Array(crate::proxy::responses::keep_some(ts, tc))), k);
        }
    }
    if let Some(t) = jget(body, "tool_choice"@) {
        if let Some(c) = crate::proxy::responses::function_choice_spec(t) {
            lemma_jget_push(m3, ("tool_choice"@, c), k);
        }
    }
}

/// A Responses request converted for an OpenAI provider names the
/// provider's model and keeps the request's parameters: its
/// `max_output_tokens` becomes `max_tokens`, and `temperature`, `top_p` and
/// streaming are kept.
pub proof fn law_responses_to_openai_keeps_parameters(body: JsonView, remote: Seq<char>)
    ensures
        ({
            let out = convert_request_spec(ProviderFormat::Responses, ProviderFormat::OpenAI, body, remote);
            &&& jget(out, "model"@) == Some(JsonView::Str(remote))
            &&& get_u64(out, "max_tokens"@) == get_u64(body, "max_output_tokens"@)
            &&& match get_float(body, "temperature"@) {
                Some(n) => jget(out, "temperature"@) == Some(JsonView::Number(n)),
                None => jget(out, "temperature"@) is None,
            }
            &&& match get_float(body, "top_p"@) {
                Some(n) => jget(out, "top_p"@) == Some(JsonView::Number(n)),
                None => jget(out, "top_p"@) is None,
            }
            &&& jget(out, "stream"@) == (if get_bool(body, "stream"@) == Some(true) { Some(JsonView::Bool(true)) } else { None })
        }),
{
    lemma_request_keys_distinct();
    lemma_responses_to_openai_member(body, remote, "model"@);
    lemma_responses_to_openai_member(body, remote, "max_tokens"@);
    lemma_responses_to_openai_member(body, remote, "temperature"@);
    lemma_responses_to_openai_member(body, remote, "top_p"@);
    lemma_responses_to_openai_member(body, remote, "stream"@);
}

/// Each sampling member of an OpenAI request converted for Responses.
proof fn lemma_openai_to_responses_member(body: JsonView, remote: Seq<char>, k: Seq<char>)
    requires
        k != "input"@,
        k != "tools"@,
        k != "tool_choice"@,
    ensures
        jget(convert_request_spec(ProviderFormat::OpenAI, ProviderFormat::Responses, body, remote), k) == (
        if k == "model"@ {
            Some(JsonView::Str(remote))
        } else if k == "max_output_tokens"@ {
            match get_u64(body, "max_tokens"@) {
                Some(v) => Some(JsonView::Number(crate::json::NumberView::PosInt(v))),
                None => None,
            }
        } else if k == "temperature"@ {
            match get_float(body, "temperature"@) {
                Some(n) => Some(JsonView::Number(n)),
                None => None,
            }
        } else if k == "top_p"@ {
            match get_float(body, "top_p"@) {
                Some(n) => Some(JsonView::Number(n)),
                None => None,
            }
        } else if k == "stream"@ {
            if get_bool(body, "stream"@) == Some(true) { Some(JsonView::Bool(true)) } else { None }
        } else {
            None
        }),
{
    lemma_request_keys_distinct();
    let e = Seq::<(Seq<char>, JsonView)>::empty();
    let p0 = e.push(("model"@, JsonView::Str(remote)));
    lemma_jget_push(e, ("model"@, JsonView::Str(remote)), k);
    let items = match get_arr(body, "messages"@) {
        Some(ms) => crate::proxy::responses::keep_some(
            ms,
            crate::proxy::responses::conversion(crate::proxy::responses::ListConversion::OpenAIMessages),
        ),
        None => Seq::empty(),
    };
    let mx = ("input"@, JsonView::Array(items));
    let m0 = p0.push(mx);
    lemma_jget_push(p0, mx, k);
    let m1 = match get_u64(body, "max_tokens"@) {
        Some(v) => m0.push(("max_output_tokens"@, JsonView::Number(crate::json::NumberView::PosInt(v)))),
        None => m0,
    };
    if let Some(v) = get_u64(body, "max_tokens"@) {
        lemma_jget_push(m0, ("max_output_tokens"@, JsonView::Number(crate::json::NumberView::PosInt(v))), k);
    }
    let u2 = crate::proxy::anthropic::with_float(m1, body, "temperature"@);
    if let Some(n) = get_float(body, "temperature"@) {
        lemma_jget_push(m1, ("temperature"@, JsonView::Number(n)), k);
    }
    let u3 = crate::proxy::anthropic::with_float(u2, body, "top_p"@);
    if let Some(n) = get_float(body, "top_p"@) {
        lemma_jget_push(u2, ("top_p"@, JsonView::Number(n)), k);
    }
    let m2 = crate::proxy::anthropic::with_stream(u3, body);
    if get_bool(body, "stream"@) == Some(true) {
        lemma_jget_push(u3, ("stream"@, JsonView::Bool(true)), k);
    }
    let tc = crate::proxy::responses::conversion(crate::proxy::responses::ListConversion::OpenAITools);
    let m3 = match get_arr(body, "tools"@) {
        Some(ts) => if crate::proxy::responses::keep_some(ts, tc).len() > 0 {
            m2.push(("tools"@, JsonView::Array(crate::proxy::responses::keep_some(ts, tc))))
        } else {
            m2
        },
        None => m2,
    };
    if let Some(ts) = get_arr(body, "tools"@) {
        if crate::proxy::responses::keep_some(ts, tc).len() > 0 {
            lemma_jget_push(m2, ("tools"@, JsonView::Array(crate::proxy::responses::keep_some(ts, tc))), k);
        }
    }
    if let Some(t) = jget(body, "tool_choice"@) {
        if let Some(c) = crate::proxy::responses::function_choice_spec(t) {
            lemma_jget_push(m3, ("tool_choice"@, c), k);
        }
    }
}

/// An OpenAI request converted for a Responses provider names the
/// provider's model and keeps the request's parameters: its `max_tokens`
/// becomes `max_output_tokens`, and `temperature`, `top_p` and streaming are
/// kept.
pub proof fn law_openai_to_responses_keeps_parameters(body: JsonView, remote: Seq<char>)
    ensures
        ({
            let out = convert_request_spec(ProviderFormat::OpenAI, ProviderFormat::Responses, body, remote);
            &&& jget(out, "model"@) == Some(JsonView::Str(remote))
            &&& get_u64(out, "max_output_tokens"@) == get_u64(body, "max_tokens"@)
            &&& match get_float(body, "temperature"@) {
                Some(n) => jget(out, "temperature"@) == Some(JsonView::Number(n)),
                None => jget(out, "temperature"@) is None,
            }
            &&& match get_float(body, "top_p"@) {
                Some(n) => jget(out, "top_p"@) == Some(JsonView::Number(n)),
                None => jget(out, "top_p"@) is None,
            }
            &&& jget(out, "stream"@) == (if get_bool(body, "stream"@) == Some(true) { Some(JsonView::Bool(true)) } else { None })
        }),
{
    lemma_request_keys_distinct();
    lemma_openai_to_responses_member(body, remote, "model"@);
    lemma_openai_to_responses_member(body, remote, "max_output_tokens"@);
    lemma_openai_to_responses_member(body, remote, "temperature"@);
    lemma_openai_to_responses_member(body, remote, "top_p"@);
    lemma_openai_to_responses_member(body, remote, "stream"@);
}

/// Each generation setting of a Gemini request converted for OpenAI.
proof fn lemma_google_to_openai_member(body: JsonView, remote: Seq<char>, k: Seq<char>)
    requires
        k != "messages"@,
        k != "tools"@,
        k != "response_format"@,
    ensures
        ({
            let gen = crate::proxy::gemini::member_or_null(body, "generationConfig"@);
            jget(convert_request_spec(ProviderFormat::Google, ProviderFormat::OpenAI, body, remote), k) == (
            if k == "model"@ {
                Some(JsonView::Str(remote))
            } else if k == "max_tokens"@ {
                match get_u64(gen, "maxOutputTokens"@) {
                    Some(v) => Some(JsonView::Number(crate::json::NumberView::PosInt(v))),
                    None => None,
                }
            } else if k == "temperature"@ {
                match get_float(gen, "temperature"@) {
                    Some(n) => Some(JsonView::Number(n)),
                    None => None,
                }
            } else if k == "top_p"@ {
                match get_float(gen, "topP"@) {
                    Some(n) => Some(JsonView::Number(n)),
                    None => None,
                }
            } else if k == "stop"@ {
                match get_arr(gen, "stopSequences"@) {
                    Some(a) => Some(JsonView::Array(a)),
                    None => None,
                }
            } else {
                None
            })
        }),
{
    lemma_request_keys_distinct();
    let gen = crate::proxy::gemini::member_or_null(body, "generationConfig"@);
    let contents = match get_arr(body, "contents"@) {
        Some(a) => a,
        None => Seq::empty(),
    };
    let folded = crate::proxy::gemini::gemini_turns(
        crate::proxy::gemini::GeminiFold {
            msgs: crate::proxy::gemini::gemini_system(body),
            calls: crate::proxy::gemini::no_ids(),
            results: crate::proxy::gemini::no_ids(),
        },
        contents,
    );
    let e = Seq::<(Seq<char>, JsonView)>::empty();
    let p0 = e.push(("model"@, JsonView::Str(remote)));
    lemma_jget_push(e, ("model"@, JsonView::Str(remote)), k);
    let mx = ("messages"@, JsonView::Array(folded.msgs));
    let m0 = p0.push(mx);
    lemma_jget_push(p0, mx, k);
    let m1 = match get_u64(gen, "maxOutputTokens"@) {
        Some(v) => m0.push(("max_tokens"@, JsonView::Number(crate::json::NumberView::PosInt(v)))),
        None => m0,
    };
    if let Some(v) = get_u64(gen, "maxOutputTokens"@) {
        lemma_jget_push(m0, ("max_tokens"@, JsonView::Number(crate::json::NumberView::PosInt(v))), k);
    }
    let m2 = match get_float(gen, "temperature"@) {
        Some(n) => m1.push(("temperature"@, JsonView::Number(n))),
        None => m1,
    };
    if let Some(n) = get_float(gen, "temperature"@) {
        lemma_jget_push(m1, ("temperature"@, JsonView::Number(n)), k);
    }
    let m3 = match get_float(gen, "topP"@) {
        Some(n) => m2.push(("top_p"@, JsonView::Number(n))),
        None => m2,
    };
    if let Some(n) = get_float(gen, "topP"@) {
        lemma_jget_push(m2, ("top_p"@, JsonView::Number(n)), k);
    }
    let m4 = match get_arr(gen, "stopSequences"@) {
        Some(a) => m3.push(("stop"@, JsonView::Array(a))),
        None => m3,
    };
    if let Some(a) = get_arr(gen, "stopSequences"@) {
        lemma_jget_push(m3, ("stop"@, JsonView::Array(a)), k);
    }
    let m5 = match get_arr(body, "tools"@) {
        Some(ts) => if crate::proxy::tools::google_tools_to_openai_spec(ts).len() > 0 {
            m4.push(("tools"@, JsonView::Array(crate::proxy::tools::google_tools_to_openai_spec(ts))))
        } else {
            m4
        },
        None => m4,
    };
    if let Some(ts) = get_arr(body, "tools"@) {
        if crate::proxy::tools::google_tools_to_openai_spec(ts).len() > 0 {
            lemma_jget_push(m4, ("tools"@, JsonView::Array(crate::proxy::tools::google_tools_to_openai_spec(ts))), k);
        }
    }
    if let Some(mt) = get_str(gen, "responseMimeType"@) {
        if crate::text::contains_seq(mt, "json"@) {
            lemma_jget_push(m5, ("response_format"@, crate::proxy::content::obj1("type"@, JsonView::Str("json_object"@))), k);
        }
    }
}

/// A Gemini request converted for an OpenAI provider names the provider's
/// model and keeps the generation settings: `maxOutputTokens` becomes
/// `max_tokens`, `temperature` is kept, `topP` becomes `top_p` and
/// `stopSequences` becomes `stop`.
pub proof fn law_google_to_openai_keeps_settings(body: JsonView, remote: Seq<char>)
    ensures
        ({
            let gen = crate::proxy::gemini::member_or_null(body, "generationConfig"@);
            let out = convert_request_spec(ProviderFormat::Google, ProviderFormat::OpenAI, body, remote);
            &&& jget(out, "model"@) == Some(JsonView::Str(remote))
            &&& get_u64(out, "max_tokens"@) == get_u64(gen, "maxOutputTokens"@)
            &&& match get_float(gen, "temperature"@) {
                Some(n) => jget(out, "temperature"@) == Some(JsonView::Number(n)),
                None => jget(out, "temperature"@) is None,
            }
            &&& match get_float(gen, "topP"@) {
                Some(n) => jget(out, "top_p"@) == Some(JsonView::Number(n)),
                None => jget(out, "top_p"@) is None,
            }
            &&& jget(out, "stop"@) == match get_arr(gen, "stopSequences"@) {
                Some(a) => Some(JsonView::Array(a)),
                None => None::<JsonView>,
            }
        }),
{
    lemma_request_keys_distinct();
    lemma_google_to_openai_member(body, remote, "model"@);
    lemma_google_to_openai_member(body, remote, "max_tokens"@);
    lemma_google_to_openai_member(body, remote, "temperature"@);
    lemma_google_to_openai_member(body, remote, "top_p"@);
    lemma_google_to_openai_member(body, remote, "stop"@);
}

/// Each generation setting an OpenAI request gives Gemini.
proof fn lemma_openai_generation_member(body: JsonView, k: Seq<char>)
    requires
        k != "responseMimeType"@,
    ensures
        jget(JsonView::Object(crate::proxy::gemini::openai_generation_config(body)), k) == (
        if k == "maxOutputTokens"@ {
            match get_u64(body, "max_tokens"@) {
                Some(v) => Some(JsonView::Number(crate::json::NumberView::PosInt(v))),
                None => None,
            }
        } else if k == "temperature"@ {
            match get_float(body, "temperature"@) {
                Some(n) => Some(JsonView::Number(n)),
                None => None,
            }
        } else if k == "topP"@ {
            match get_float(body, "top_p"@) {
                Some(n) => Some(JsonView::Number(n)),
                None => None,
            }
        } else if k == "stopSequences"@ {
            match crate::proxy::tools::openai_stop_spec(jget(body, "stop"@)) {
                Some(a) => Some(JsonView::Array(a)),
                None => None,
            }
        } else {
            None
        }),
{
    reveal_strlit("maxOutputTokens");
    reveal_strlit("temperature");
    reveal_strlit("topP");
    reveal_strlit("stopSequences");
    reveal_strlit("responseMimeType");
    assert("maxOutputTokens"@.len() == 15 && "temperature"@.len() == 11 && "topP"@.len() == 4);
    assert("stopSequences"@.len() == 13 && "responseMimeType"@.len() == 16);
    let g0 = Seq::<(Seq<char>, JsonView)>::empty();
    let g1 = match get_u64(body, "max_tokens"@) {
        Some(v) => g0.push(("maxOutputTokens"@, JsonView::Number(crate::json::NumberView::PosInt(v)))),
        None => g0,
    };
    if let Some(v) = get_u64(body, "max_tokens"@) {
        lemma_jget_push(g0, ("maxOutputTokens"@, JsonView::Number(crate::json::NumberView::PosInt(v))), k);
    }
    let g2 = match get_float(body, "temperature"@) {
        Some(n) => g1.push(("temperature"@, JsonView::Number(n))),
        None => g1,
    };
    if let Some(n) = get_float(body, "temperature"@) {
        lemma_jget_push(g1, ("temperature"@, JsonView::Number(n)), k);
    }
    let g3 = match get_float(body, "top_p"@) {
        Some(n) => g2.push(("topP"@, JsonView::Number(n))),
        None => g2,
    };
    if let Some(n) = get_float(body, "top_p"@) {
        lemma_jget_push(g2, ("topP"@, JsonView::Number(n)), k);
    }
    let g4 = match crate::proxy::tools::openai_stop_spec(jget(body, "stop"@)) {
        Some(a) => g3.push(("stopSequences"@, JsonView::Array(a))),
        None => g3,
    };
    if let Some(a) = crate::proxy::tools::openai_stop_spec(jget(body, "stop"@)) {
        lemma_jget_push(g3, ("stopSequences"@, JsonView::Array(a)), k);
    }
    if let Some(fmt) = jget(body, "response_format"@) {
        if get_str(fmt, "type"@) == Some("json_object"@) {
            lemma_jget_push(g4, ("responseMimeType"@, JsonView::Str("application/json"@)), k);
        }
    }
}

/// The generation settings of an OpenAI request converted for Gemini.
proof fn lemma_openai_to_google_settings(body: JsonView, remote: Seq<char>)
    ensures
        jget(convert_request_spec(ProviderFormat::OpenAI, ProviderFormat::Google, body, remote), "generationConfig"@)
            == if crate::proxy::gemini::openai_generation_config(body).len() > 0 {
                Some(JsonView::Object(crate::proxy::gemini::openai_generation_config(body)))
            } else {
                None
            },
{
    reveal_strlit("contents");
    reveal_strlit("systemInstruction");
    reveal_strlit("tools");
    reveal_strlit("generationConfig");
    let k = "generationConfig"@;
    assert(k.len() == 16 && "contents"@.len() == 8 && "systemInstruction"@.len() == 17 && "tools"@.len() == 5);
    let split = crate::proxy::gemini::split_openai_messages_spec(jget(body, "messages"@));
    let e = Seq::<(Seq<char>, JsonView)>::empty();
    let cx = ("contents"@, JsonView::Array(crate::proxy::gemini::openai_turns(split.1, split.1)));
    let m0 = e.push(cx);
    assert(m0 =~= seq![cx]);
    lemma_jget_push(e, cx, k);
    let m1 = match split.0 {
        Some(system) => m0.push((
            "systemInstruction"@,
            crate::proxy::content::obj1(
                "parts"@,
                JsonView::Array(seq![crate::proxy::content::obj1("text"@, JsonView::Str(system))]),
            ),
        )),
        None => m0,
    };
    if let Some(system) = split.0 {
        lemma_jget_push(m0, (
            "systemInstruction"@,
            crate::proxy::content::obj1(
                "parts"@,
                JsonView::Array(seq![crate::proxy::content::obj1("text"@, JsonView::Str(system))]),
            ),
        ), k);
    }
    let m2 = match get_arr(body, "tools"@) {
        Some(ts) => if crate::proxy::tools::openai_tools_to_google_spec(ts).len() > 0 {
            m1.push(("tools"@, JsonView::Array(crate::proxy::tools::openai_tools_to_google_spec(ts))))
        } else {
            m1
        },
        None => m1,
    };
    if let Some(ts) = get_arr(body, "tools"@) {
        if crate::proxy::tools::openai_tools_to_google_spec(ts).len() > 0 {
            lemma_jget_push(m1, ("tools"@, JsonView::Array(crate::proxy::tools::openai_tools_to_google_spec(ts))), k);
        }
    }
    let gen = crate::proxy::gemini::openai_generation_config(body);
    if gen.len() > 0 {
        lemma_jget_push(m2, (k, JsonView::Object(gen)), k);
    }
}

/// An OpenAI request converted for Gemini carries its settings in
/// `generationConfig`: `max_tokens` as `maxOutputTokens`, `temperature`,
/// `top_p` as `topP`, and `stop` as `stopSequences` (a text as a list of
/// that one text, a non-empty array as it is); with none of them, and no
/// JSON response format, there is no `generationConfig`.
pub proof fn law_openai_to_google_keeps_settings(body: JsonView, remote: Seq<char>)
    ensures
        ({
            let out = convert_request_spec(ProviderFormat::OpenAI, ProviderFormat::Google, body, remote);
            let gen = crate::proxy::gemini::member_or_null(out, "generationConfig"@);
            &&& get_u64(gen, "maxOutputTokens"@) == get_u64(body, "max_tokens"@)
            &&& match get_float(body, "temperature"@) {
                Some(n) => jget(gen, "temperature"@) == Some(JsonView::Number(n)),
                None => jget(gen, "temperature"@) is None,
            }
            &&& match get_float(body, "top_p"@) {
                Some(n) => jget(gen, "topP"@) == Some(JsonView::Number(n)),
                None => jget(gen, "topP"@) is None,
            }
            &&& jget(gen, "stopSequences"@) == match jget(body, "stop"@) {
                Some(JsonView::Str(t)) => Some(JsonView::Array(seq![JsonView::Str(t)])),
                Some(JsonView::Array(a)) => if a.len() > 0 { Some(JsonView::Array(a)) } else { None::<JsonView> },
                _ => None::<JsonView>,
            }
        }),
{
    reveal_strlit("maxOutputTokens");
    reveal_strlit("temperature");
    reveal_strlit("topP");
    reveal_strlit("stopSequences");
    reveal_strlit("responseMimeType");
    assert("maxOutputTokens"@.len() == 15 && "temperature"@.len() == 11 && "topP"@.len() == 4);
    assert("stopSequences"@.len() == 13 && "responseMimeType"@.len() == 16);
    lemma_openai_to_google_settings(body, remote);
    lemma_openai_generation_member(body, "maxOutputTokens"@);
    lemma_openai_generation_member(body, "temperature"@);
    lemma_openai_generation_member(body, "topP"@);
    lemma_openai_generation_member(body, "stopSequences"@);
}

/// Whether a rule counted from the persisted history is hit by a request:
/// it has a cap, and the persisted usage plus what the request adds (its
/// tokens for the token metrics, its cost for the money metrics, its
/// duration for time, nothing for input tokens, in millionths of the unit)
/// reaches it.
pub open spec fn history_rule_hit(r: RuleView, persisted: u64, f: RequestFacts) -> bool {
    let added: int = if r.metric == LimitMetric::Tokens || r.metric == LimitMetric::OutputTokens {
        f.tokens * 1_000_000
    } else if r.metric == LimitMetric::Money || r.metric == LimitMetric::CostPerRequest {
        f.cost as int
    } else if r.metric == LimitMetric::TimeSec {
        f.duration_ms * 1000
    } else {
        0
    };
    r.cap > 0 && persisted + added >= r.cap
}

/// A rule counted from the persisted history.
pub open spec fn history_metric(m: LimitMetric) -> bool {
    m == LimitMetric::Tokens || m == LimitMetric::OutputTokens || m == LimitMetric::InputTokens
        || m == LimitMetric::Money || m == LimitMetric::CostPerRequest || m == LimitMetric::TimeSec
}

/// Whether a rule takes part in a check, spelled out.
pub open spec fn rule_takes_part(r: RuleView, f: RequestFacts, projects: Seq<Project>, time_only: bool) -> bool {
    &&& r.enabled
    &&& (time_only ==> r.metric == LimitMetric::TimeSec)
    &&& crate::state::rule_scope_matches(r, f.provider_id, f.project_tag, f.model, projects)
    &&& crate::schedule::schedule_active_spec(r.active_days, r.active_hours_start, r.active_hours_end, f.clock)
}

proof fn lemma_engine_hits(
    rules: Seq<RuleView>,
    persisted: Seq<u64>,
    f: RequestFacts,
    projects: Seq<Project>,
    group: bool,
    time_only: bool,
    st: EngineView,
    n: nat,
)
    requires
        n <= rules.len(),
        forall|k: int| 0 <= k < rules.len() ==> history_metric(#[trigger] rules[k].metric),
    ensures
        ({
            let v = engine_fold(rules, persisted, f, projects, group, time_only, st, n).violations;
            &&& forall|j: int| 0 <= j < v.len() ==> {
                &&& 0 <= (#[trigger] v[j]).0 < n
                &&& rule_takes_part(rules[v[j].0], f, projects, time_only)
                &&& history_rule_hit(rules[v[j].0], persisted_at(persisted, v[j].0), f)
                &&& v[j].1 == persisted_at(persisted, v[j].0)
            }
            &&& forall|k: int| 0 <= k < n && rule_takes_part(#[trigger] rules[k], f, projects, time_only)
                && history_rule_hit(rules[k], persisted_at(persisted, k), f)
                ==> exists|j: int| 0 <= j < v.len() && (#[trigger] v[j]).0 == k
            &&& forall|i: int, j: int| 0 <= i < j < v.len() ==> (#[trigger] v[i]).0 < (#[trigger] v[j]).0
        }),
    decreases n,
{
    if n > 0 {
        lemma_engine_hits(rules, persisted, f, projects, group, time_only, st, (n - 1) as nat);
        let prev = engine_fold(rules, persisted, f, projects, group, time_only, st, (n - 1) as nat);
        let k = n - 1;
        if rule_applies(rules[k], f, projects, time_only) {
            law_limit_hit_counts_request(rules[k], k, persisted_at(persisted, k), f, group, prev.state);
            let step = rule_step(rules[k], k, persisted_at(persisted, k), f, group, prev.state);
            let v = prev.violations + step.violations;
            assert(engine_fold(rules, persisted, f, projects, group, time_only, st, n).violations == v);
            assert forall|j: int| 0 <= j < v.len() implies {
                &&& 0 <= (#[trigger] v[j]).0 < n
                &&& rule_takes_part(rules[v[j].0], f, projects, time_only)
                &&& history_rule_hit(rules[v[j].0], persisted_at(persisted, v[j].0), f)
                &&& v[j].1 == persisted_at(persisted, v[j].0)
            } by {
                if j >= prev.violations.len() {
                    assert(v[j] == step.violations[j - prev.violations.len()]);
                } else {
                    assert(v[j] == prev.violations[j]);
                }
            }
            assert forall|kk: int| 0 <= kk < n && rule_takes_part(#[trigger] rules[kk], f, projects, time_only)
                && history_rule_hit(rules[kk], persisted_at(persisted, kk), f)
                implies exists|j: int| 0 <= j < v.len() && (#[trigger] v[j]).0 == kk by {
                if kk == k {
                    assert(v[prev.violations.len() as int] == step.violations[0]);
                } else {
                    let j = choose|j: int| 0 <= j < prev.violations.len() && (#[trigger] prev.violations[j]).0 == kk;
                    assert(v[j] == prev.violations[j]);
                }
            }
            assert forall|i: int, j: int| 0 <= i < j < v.len() implies (#[trigger] v[i]).0 < (#[trigger] v[j]).0 by {
                if j >= prev.violations.len() {
                    assert(v[j] == step.violations[j - prev.violations.len()]);
                    if i >= prev.violations.len() {
                        assert(v[i] == step.violations[i - prev.violations.len()]);
                    } else {
                        assert(v[i] == prev.violations[i]);
                    }
                } else {
                    assert(v[j] == prev.violations[j]);
                    assert(v[i] == prev.violations[i]);
                }
            }
        } else {
            assert(!rule_takes_part(rules[k], f, projects, time_only));
            let v = prev.violations;
            assert(engine_fold(rules, persisted, f, projects, group, time_only, st, n).violations == v);
            assert forall|kk: int| 0 <= kk < n && rule_takes_part(#[trigger] rules[kk], f, projects, time_only)
                && history_rule_hit(rules[kk], persisted_at(persisted, kk), f)
                implies exists|j: int| 0 <= j < v.len() && (#[trigger] v[j]).0 == kk by {
                assert(kk != k);
            }
        }
    }
}

/// A limit check reports, in the order of the rules, exactly the rules
/// counted from the persisted history that take part in the check (enabled,
/// of the kind checked, in scope and scheduled now) and that the request
/// hits, each with its persisted usage; every such rule is reported, not
/// only the first.
pub proof fn law_check_reports_every_hit(
    rules: Seq<RuleView>,
    persisted: Seq<u64>,
    f: RequestFacts,
    projects: Seq<Project>,
    group: bool,
    time_only: bool,
    st: EngineView,
)
    requires
        forall|k: int| 0 <= k < rules.len() ==> history_metric(#[trigger] rules[k].metric),
    ensures
        ({
            let v = engine_fold(rules, persisted, f, projects, group, time_only, st, rules.len()).violations;
            &&& forall|j: int| 0 <= j < v.len() ==> {
                &&& 0 <= (#[trigger] v[j]).0 < rules.len()
                &&& rule_takes_part(rules[v[j].0], f, projects, time_only)
                &&& history_rule_hit(rules[v[j].0], persisted_at(persisted, v[j].0), f)
                &&& v[j].1 == persisted_at(persisted, v[j].0)
            }
            &&& forall|k: int| 0 <= k < rules.len() && rule_takes_part(#[trigger] rules[k], f, projects, time_only)
                && history_rule_hit(rules[k], persisted_at(persisted, k), f)
                ==> exists|j: int| 0 <= j < v.len() && (#[trigger] v[j]).0 == k
            &&& forall|i: int, j: int| 0 <= i < j < v.len() ==> (#[trigger] v[i]).0 < (#[trigger] v[j]).0
        }),
{
    lemma_engine_hits(rules, persisted, f, projects, group, time_only, st, rules.len());
}

/// The tightest bounded band, stated band by band.
proof fn lemma_best_bounded_exact(ts: Seq<ContextTier>, prompt: u64)
    ensures
        match best_bounded(ts, prompt) {
            Some(i) => {
                &&& 0 <= i < ts.len()
                &&& fits(ts[i], prompt)
                &&& forall|k: int| 0 <= k < ts.len() && fits(#[trigger] ts[k], prompt)
                    ==> ts[i].max_context_tokens->0 <= ts[k].max_context_tokens->0
                        && (k < i ==> ts[i].max_context_tokens->0 < ts[k].max_context_tokens->0)
            },
            None => forall|k: int| 0 <= k < ts.len() ==> !fits(#[trigger] ts[k], prompt),
        },
    decreases ts.len(),
{
    if ts.len() > 0 {
        let d = ts.drop_last();
        lemma_best_bounded_exact(d, prompt);
        assert forall|k: int| 0 <= k < d.len() implies #[trigger] d[k] == ts[k] by {}
        let n = ts.len() - 1;
        let b = best_bounded(d, prompt);
        if fits(ts[n], prompt) && (b is None || ts[n].max_context_tokens->0 < ts[b->0].max_context_tokens->0) {
            assert(best_bounded(ts, prompt) == Some(n));
            assert forall|k: int| 0 <= k < ts.len() && fits(#[trigger] ts[k], prompt)
                implies ts[n].max_context_tokens->0 <= ts[k].max_context_tokens->0
                    && (k < n ==> ts[n].max_context_tokens->0 < ts[k].max_context_tokens->0) by {
                if k < n {
                    assert(fits(d[k], prompt));
                }
            }
        } else {
            assert(best_bounded(ts, prompt) == b);
            match b {
                Some(i) => {
                    assert forall|k: int| 0 <= k < ts.len() && fits(#[trigger] ts[k], prompt)
                        implies ts[i].max_context_tokens->0 <= ts[k].max_context_tokens->0
                            && (k < i ==> ts[i].max_context_tokens->0 < ts[k].max_context_tokens->0) by {
                        if k < n {
                            assert(fits(d[k], prompt));
                        }
                    }
                },
                None => {
                    assert forall|k: int| 0 <= k < ts.len() implies !fits(#[trigger] ts[k], prompt) by {
                        if k < n {
                            assert(!fits(d[k], prompt));
                        }
                    }
                },
            }
        }
    }
}

/// The context band that prices a prompt takes it: the bounded band with
/// the least bound at or above the prompt's size (the earliest of equal
/// bounds); only when no bounded band takes the prompt, the first unbounded
/// band; and none when neither exists.
pub proof fn law_context_band_tightest(ts: Seq<ContextTier>, prompt: u64)
    ensures
        match context_tier_index(ts, prompt) {
            Some(i) => {
                &&& 0 <= i < ts.len()
                &&& match ts[i].max_context_tokens {
                    Some(m) => {
                        &&& prompt <= m
                        &&& forall|k: int| 0 <= k < ts.len() && (#[trigger] ts[k]).max_context_tokens is Some
                            && prompt <= ts[k].max_context_tokens->0
                            ==> m <= ts[k].max_context_tokens->0 && (k < i ==> m < ts[k].max_context_tokens->0)
                    },
                    None => {
                        &&& forall|k: int| 0 <= k < ts.len() ==> !((#[trigger] ts[k]).max_context_tokens is Some
                            && prompt <= ts[k].max_context_tokens->0)
                        &&& forall|k: int| 0 <= k < i ==> (#[trigger] ts[k]).max_context_tokens is Some
                    },
                }
            },
            None => forall|k: int| 0 <= k < ts.len() ==> (#[trigger] ts[k]).max_context_tokens is Some
                && ts[k].max_context_tokens->0 < prompt,
        },
{
    lemma_best_bounded_exact(ts, prompt);
    let f = |t: ContextTier| t.max_context_tokens is None;
    lemma_first_index_exact(ts, f);
    match best_bounded(ts, prompt) {
        Some(i) => {},
        None => {
            match first_index(ts, f) {
                Some(i) => {
                    assert forall|k: int| 0 <= k < i implies (#[trigger] ts[k]).max_context_tokens is Some by {
                        assert(!f(ts[k]));
                    }
                },
                None => {
                    assert forall|k: int| 0 <= k < ts.len() implies (#[trigger] ts[k]).max_context_tokens is Some
                        && ts[k].max_context_tokens->0 < prompt by {
                        assert(!f(ts[k]));
                        assert(!fits(ts[k], prompt));
                    }
                },
            }
        },
    }
}

/// An override that sets every price (input, output, cached input,
/// reasoning, batch discount and request fee) decides the cost alone: the
/// price table, and so the model's names, make no difference.
pub proof fn law_estimate_full_override_wins(
    table: Seq<PriceEntry>,
    local: Seq<char>,
    remote: Seq<char>,
    u: UsageBreakdown,
    ovr: PricingProfile,
)
    requires
        ovr.input_per_1k is Some,
        ovr.output_per_1k is Some,
        ovr.cached_input_per_1k is Some,
        ovr.reasoning_per_1k is Some,
        ovr.batch_discount is Some,
        ovr.request_fee is Some,
    ensures
        estimate_spec(table, local, remote, u, ovr) == estimate_spec(Seq::empty(), local, remote, u, ovr),
{
    assert(table_profile(Seq::empty(), local, remote) == no_profile());
}

} // verus!
