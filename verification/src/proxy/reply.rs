//! Upstream replies, whole bodies and stream chunks, in the client's dialect.

use vstd::prelude::*;
use crate::config::ProviderFormat;
use crate::json::{
    Json, JsonView, NumberView, ToolCallCounts, get_arr, get_str, get_u64, jget, jstr, json_to_text,
    lemma_views, member_views, opt_json, opt_owned, push_element, push_member, views,
};
use crate::limits::sat_add;
use crate::proxy::anthropic::{
    anthropic_tool_use_to_openai, anthropic_tool_use_to_openai_spec, concat_all, empty_object,
    empty_object_exec,
};
use crate::proxy::content::{
    obj1, obj1_exec, obj2, obj2_exec,
};
use crate::proxy::convert::{
    finish_a2o, finish_g2o, finish_o2a, finish_o2g, translate_finish_reason_a2o, translate_finish_reason_g2o,
    translate_finish_reason_o2a, translate_finish_reason_o2g,
};
use crate::proxy::gemini::{
    IdCounts, bump, fn_name, no_ids, text_content, text_content_to_string, tool_call_json,
};
use crate::proxy::responses::{
    ListConversion, conversion, convert_list, keep_some,
};
use crate::text::{
    str_eq, string_push_str,
};

verus! {

// ---------------------------------------------------------------------------
// Token usage in each dialect
// ---------------------------------------------------------------------------

/// Prompt, completion and total counts under three member names; the total
/// defaults to the (saturating) sum of the other two.
pub open spec fn usage_triple(u: JsonView, pk: Seq<char>, ck: Seq<char>, tk: Seq<char>) -> Option<(u64, u64, u64)> {
    match (get_u64(u, pk), get_u64(u, ck)) {
        (Some(p), Some(c)) => Some((p, c, match get_u64(u, tk) {
            Some(t) => t,
            None => sat_add(p, c),
        })),
        _ => None,
    }
}

/// OpenAI chat usage.
pub open spec fn usage_openai(u: JsonView) -> Option<(u64, u64, u64)> {
    usage_triple(u, "prompt_tokens"@, "completion_tokens"@, "total_tokens"@)
}

/// Responses usage.
pub open spec fn usage_responses(u: JsonView) -> Option<(u64, u64, u64)> {
    usage_triple(u, "input_tokens"@, "output_tokens"@, "total_tokens"@)
}

/// Gemini usage metadata.
pub open spec fn usage_google(u: JsonView) -> Option<(u64, u64, u64)> {
    usage_triple(u, "promptTokenCount"@, "candidatesTokenCount"@, "totalTokenCount"@)
}

/// Anthropic usage: input and output counts.
pub open spec fn usage_anthropic(u: JsonView) -> Option<(u64, u64)> {
    match (get_u64(u, "input_tokens"@), get_u64(u, "output_tokens"@)) {
        (Some(p), Some(c)) => Some((p, c)),
        _ => None,
    }
}

/// A non-negative integer value.
pub open spec fn num(n: u64) -> JsonView {
    JsonView::Number(NumberView::PosInt(n))
}

/// An object of three counts, in order.
pub open spec fn counts3(k1: Seq<char>, k2: Seq<char>, k3: Seq<char>, a: u64, b: u64, c: u64) -> JsonView {
    JsonView::Object(Seq::empty().push((k1, num(a))).push((k2, num(b))).push((k3, num(c))))
}

/// OpenAI chat usage object.
pub open spec fn openai_usage_json(p: u64, c: u64, t: u64) -> JsonView {
    counts3("prompt_tokens"@, "completion_tokens"@, "total_tokens"@, p, c, t)
}

/// Gemini usage metadata object.
pub open spec fn google_usage_json(p: u64, c: u64, t: u64) -> JsonView {
    counts3("promptTokenCount"@, "candidatesTokenCount"@, "totalTokenCount"@, p, c, t)
}

/// Anthropic usage object.
pub open spec fn anthropic_usage_json(p: u64, c: u64) -> JsonView {
    obj2("input_tokens"@, num(p), "output_tokens"@, num(c))
}

/// Responses usage object, with zero detail counts.
pub open spec fn responses_usage_json(p: u64, c: u64, t: u64) -> JsonView {
    JsonView::Object(Seq::empty().push(("input_tokens"@, num(p))).push(("output_tokens"@, num(c))).push((
        "total_tokens"@,
        num(t),
    )).push(("input_tokens_details"@, obj2("cached_tokens"@, num(0), "cache_write_tokens"@, num(0)))).push((
        "output_tokens_details"@,
        obj1("reasoning_tokens"@, num(0)),
    )))
}

fn usage_triple_exec(u: &Json, pk: &str, ck: &str, tk: &str) -> (r: Option<(u64, u64, u64)>)
    ensures
        r == usage_triple(u.view(), pk@, ck@, tk@),
{
    let p = match u.get_u64(pk) {
        Some(p) => p,
        None => return None,
    };
    let c = match u.get_u64(ck) {
        Some(c) => c,
        None => return None,
    };
    let t = match u.get_u64(tk) {
        Some(t) => t,
        None => p.saturating_add(c),
    };
    Some((p, c, t))
}

/// Read OpenAI chat usage.
pub(crate) fn extract_usage_openai(usage: &Json) -> (r: Option<(u64, u64, u64)>)
    ensures
        r == usage_openai(usage.view()),
{
    usage_triple_exec(usage, "prompt_tokens", "completion_tokens", "total_tokens")
}

/// Read Responses usage.
pub(crate) fn extract_usage_responses(usage: &Json) -> (r: Option<(u64, u64, u64)>)
    ensures
        r == usage_responses(usage.view()),
{
    usage_triple_exec(usage, "input_tokens", "output_tokens", "total_tokens")
}

/// Read Gemini usage metadata.
pub(crate) fn extract_usage_google(usage: &Json) -> (r: Option<(u64, u64, u64)>)
    ensures
        r == usage_google(usage.view()),
{
    usage_triple_exec(usage, "promptTokenCount", "candidatesTokenCount", "totalTokenCount")
}

/// Read Anthropic usage.
pub(crate) fn extract_usage_anthropic(usage: &Json) -> (r: Option<(u64, u64)>)
    ensures
        r == usage_anthropic(usage.view()),
{
    let p = match usage.get_u64("input_tokens") {
        Some(p) => p,
        None => return None,
    };
    let c = match usage.get_u64("output_tokens") {
        Some(c) => c,
        None => return None,
    };
    Some((p, c))
}

fn counts3_exec(k1: &str, k2: &str, k3: &str, a: u64, b: u64, c: u64) -> (r: Json)
    ensures
        r.view() == counts3(k1@, k2@, k3@, a, b, c),
{
    let mut m: Vec<(String, Json)> = Vec::new();
    assert(member_views(m@) =~= Seq::empty());
    push_member(&mut m, k1, Json::unsigned(a));
    push_member(&mut m, k2, Json::unsigned(b));
    push_member(&mut m, k3, Json::unsigned(c));
    Json::object(m)
}

/// OpenAI chat usage object.
pub(crate) fn build_usage_openai(prompt: u64, completion: u64, total: u64) -> (r: Json)
    ensures
        r.view() == openai_usage_json(prompt, completion, total),
{
    counts3_exec("prompt_tokens", "completion_tokens", "total_tokens", prompt, completion, total)
}

/// Gemini usage metadata object.
pub(crate) fn build_usage_google(prompt: u64, completion: u64, total: u64) -> (r: Json)
    ensures
        r.view() == google_usage_json(prompt, completion, total),
{
    counts3_exec("promptTokenCount", "candidatesTokenCount", "totalTokenCount", prompt, completion, total)
}

/// Anthropic usage object.
pub(crate) fn build_usage_anthropic(prompt: u64, completion: u64) -> (r: Json)
    ensures
        r.view() == anthropic_usage_json(prompt, completion),
{
    obj2_exec("input_tokens", Json::unsigned(prompt), "output_tokens", Json::unsigned(completion))
}

/// Responses usage object.
pub(crate) fn build_usage_responses(prompt: u64, completion: u64, total: u64) -> (r: Json)
    ensures
        r.view() == responses_usage_json(prompt, completion, total),
{
    let mut m: Vec<(String, Json)> = Vec::new();
    assert(member_views(m@) =~= Seq::empty());
    push_member(&mut m, "input_tokens", Json::unsigned(prompt));
    push_member(&mut m, "output_tokens", Json::unsigned(completion));
    push_member(&mut m, "total_tokens", Json::unsigned(total));
    push_member(
        &mut m,
        "input_tokens_details",
        obj2_exec("cached_tokens", Json::unsigned(0), "cache_write_tokens", Json::unsigned(0)),
    );
    push_member(&mut m, "output_tokens_details", obj1_exec("reasoning_tokens", Json::unsigned(0)));
    Json::object(m)
}

// ---------------------------------------------------------------------------
// Tool calls
// ---------------------------------------------------------------------------

/// A Responses `function_call` item as an OpenAI tool call; none unless it
/// has string `id`, `name` and `arguments`.
pub open spec fn responses_function_call_spec(fc: JsonView) -> Option<JsonView> {
    match (get_str(fc, "id"@), get_str(fc, "name"@), get_str(fc, "arguments"@)) {
        (Some(id), Some(name), Some(args)) => Some(JsonView::Object(Seq::empty().push(("id"@, JsonView::Str(id))).push((
            "type"@,
            JsonView::Str("function"@),
        )).push(("function"@, obj2("name"@, JsonView::Str(name), "arguments"@, JsonView::Str(args)))))),
        _ => None,
    }
}

/// An OpenAI tool call as a completed Responses `function_call` item; none
/// unless it has a string `id` and a function with string `name` and
/// `arguments`.
pub open spec fn function_call_item_spec(tc: JsonView) -> Option<JsonView> {
    match (get_str(tc, "id"@), jget(tc, "function"@)) {
        (Some(id), Some(f)) => match (get_str(f, "name"@), get_str(f, "arguments"@)) {
            (Some(name), Some(args)) => Some(JsonView::Object(Seq::empty().push(("type"@, JsonView::Str("function_call"@))).push((
                "id"@,
                JsonView::Str(id),
            )).push(("call_id"@, JsonView::Str(id))).push(("name"@, JsonView::Str(name))).push((
                "arguments"@,
                JsonView::Str(args),
            )).push(("status"@, JsonView::Str("completed"@))))),
            _ => None,
        },
        _ => None,
    }
}

/// A Gemini `functionCall` as an OpenAI tool call with id `id` and its
/// `args` (an empty object when absent) as JSON text; none without a string
/// `name`.
pub open spec fn google_function_call_spec(fc: JsonView, id: Seq<char>) -> Option<JsonView> {
    match get_str(fc, "name"@) {
        Some(name) => Some(tool_call_json(id, name, match jget(fc, "args"@) {
            Some(a) => a,
            None => empty_object(),
        })),
        None => None,
    }
}

/// Convert a Responses `function_call` item to an OpenAI tool call.
pub fn responses_function_call_to_openai(fc: &Json) -> (r: Option<Json>)
    ensures
        opt_owned(r) == responses_function_call_spec(fc.view()),
{
    let id = match fc.get_str("id") {
        Some(i) => i,
        None => return None,
    };
    let name = match fc.get_str("name") {
        Some(n) => n,
        None => return None,
    };
    let arguments = match fc.get_str("arguments") {
        Some(a) => a,
        None => return None,
    };
    let mut m: Vec<(String, Json)> = Vec::new();
    assert(member_views(m@) =~= Seq::empty());
    push_member(&mut m, "id", Json::string(id));
    push_member(&mut m, "type", Json::string("function"));
    push_member(&mut m, "function", obj2_exec("name", Json::string(name), "arguments", Json::string(arguments)));
    Some(Json::object(m))
}

/// Convert an OpenAI tool call to a Responses `function_call` item.
pub fn openai_tool_call_to_responses_function_call(tc: &Json) -> (r: Option<Json>)
    ensures
        opt_owned(r) == function_call_item_spec(tc.view()),
{
    let id = match tc.get_str("id") {
        Some(i) => i,
        None => return None,
    };
    let function = match tc.get("function") {
        Some(f) => f,
        None => return None,
    };
    let name = match function.get_str("name") {
        Some(n) => n,
        None => return None,
    };
    let arguments = match function.get_str("arguments") {
        Some(a) => a,
        None => return None,
    };
    let mut m: Vec<(String, Json)> = Vec::new();
    assert(member_views(m@) =~= Seq::empty());
    push_member(&mut m, "type", Json::string("function_call"));
    push_member(&mut m, "id", Json::string(id));
    push_member(&mut m, "call_id", Json::string(id));
    push_member(&mut m, "name", Json::string(name));
    push_member(&mut m, "arguments", Json::string(arguments));
    push_member(&mut m, "status", Json::string("completed"));
    Some(Json::object(m))
}

/// Convert a Gemini `functionCall` to an OpenAI tool call with id `id`.
pub fn google_function_call_to_openai(fc: &Json, id: &str) -> (r: Option<Json>)
    ensures
        opt_owned(r) == google_function_call_spec(fc.view(), id@),
{
    let name = match fc.get_str("name") {
        Some(n) => n,
        None => return None,
    };
    let args = match fc.get("args") {
        Some(a) => a.deep_clone(),
        None => empty_object_exec(),
    };
    let text = json_to_text(&args);
    let mut m: Vec<(String, Json)> = Vec::new();
    assert(member_views(m@) =~= Seq::empty());
    push_member(&mut m, "id", Json::string(id));
    push_member(&mut m, "type", Json::string("function"));
    push_member(&mut m, "function", obj2_exec("name", Json::string(name), "arguments", Json::Str(text)));
    Some(Json::object(m))
}

// ---------------------------------------------------------------------------
// Whole response bodies
// ---------------------------------------------------------------------------

/// The first element of an array member.
pub open spec fn first_in(j: JsonView, key: Seq<char>) -> Option<JsonView> {
    match get_arr(j, key) {
        Some(a) => if a.len() > 0 { Some(a[0]) } else { None },
        None => None,
    }
}

/// Member `key` of an optional value.
pub open spec fn opt_member(x: Option<JsonView>, key: Seq<char>) -> Option<JsonView> {
    match x {
        Some(v) => jget(v, key),
        None => None,
    }
}

/// The text of an optional value, where it is a string.
pub open spec fn opt_str(x: Option<JsonView>) -> Option<Seq<char>> {
    match x {
        Some(v) => jstr(v),
        None => None,
    }
}

/// The message of the first choice of an OpenAI chat response.
pub open spec fn first_message(body: JsonView) -> Option<JsonView> {
    opt_member(first_in(body, "choices"@), "message"@)
}

/// The text of that message's content; empty without one.
pub open spec fn first_message_text(body: JsonView) -> Seq<char> {
    match opt_member(first_message(body), "content"@) {
        Some(c) => text_content(c),
        None => Seq::empty(),
    }
}

/// The tool calls of that message that `c` converts, in order.
pub open spec fn first_message_calls(body: JsonView, c: ListConversion) -> Seq<JsonView> {
    match opt_member(first_message(body), "tool_calls"@) {
        Some(JsonView::Array(a)) => keep_some(a, conversion(c)),
        _ => Seq::empty(),
    }
}

/// The finish reason of the first choice.
pub open spec fn first_finish(body: JsonView) -> Option<Seq<char>> {
    opt_str(opt_member(first_in(body, "choices"@), "finish_reason"@))
}

/// An OpenAI chat response with one choice: an assistant message with this
/// text and, where there are any, these tool calls.
pub open spec fn chat_completion(text: Seq<char>, calls: Seq<JsonView>, finish: Seq<char>) -> Seq<(Seq<char>, JsonView)> {
    let m0 = Seq::empty().push(("role"@, JsonView::Str("assistant"@))).push(("content"@, JsonView::Str(text)));
    let message = JsonView::Object(if calls.len() > 0 { m0.push(("tool_calls"@, JsonView::Array(calls))) } else { m0 });
    let choice = JsonView::Object(Seq::empty().push(("index"@, num(0))).push(("message"@, message)).push((
        "finish_reason"@,
        JsonView::Str(finish),
    )));
    Seq::empty().push(("choices"@, JsonView::Array(Seq::empty().push(choice))))
}

/// `m` with member `key` holding this usage, where there is any.
pub open spec fn with_usage(m: Seq<(Seq<char>, JsonView)>, key: Seq<char>, u: Option<JsonView>) -> Seq<(Seq<char>, JsonView)> {
    match u {
        Some(v) => m.push((key, v)),
        None => m,
    }
}

/// OpenAI chat usage of a body as usage of another dialect.
pub open spec fn openai_usage_as(body: JsonView, target: ProviderFormat) -> Option<JsonView> {
    match jget(body, "usage"@) {
        Some(u) => match usage_openai(u) {
            Some((p, c, t)) => Some(match target {
                ProviderFormat::Anthropic => anthropic_usage_json(p, c),
                ProviderFormat::Google => google_usage_json(p, c, t),
                _ => responses_usage_json(p, c, t),
            }),
            None => None,
        },
        None => None,
    }
}

/// The texts of the `output_text` parts of a Responses message.
pub open spec fn output_texts(ps: Seq<JsonView>) -> Seq<Seq<char>>
    decreases ps.len(),
{
    if ps.len() == 0 {
        Seq::empty()
    } else {
        let prev = output_texts(ps.drop_last());
        if get_str(ps.last(), "type"@) == Some("output_text"@) {
            match get_str(ps.last(), "text"@) {
                Some(t) => prev.push(t),
                None => prev,
            }
        } else {
            prev
        }
    }
}

/// The texts and tool calls of a Responses `output` list.
pub open spec fn responses_output(items: Seq<JsonView>) -> (Seq<Seq<char>>, Seq<JsonView>)
    decreases items.len(),
{
    if items.len() == 0 {
        (Seq::empty(), Seq::empty())
    } else {
        let prev = responses_output(items.drop_last());
        let item = items.last();
        match get_str(item, "type"@) {
            Some(t) => if t == "message"@ {
                match get_arr(item, "content"@) {
                    Some(c) => (prev.0 + output_texts(c), prev.1),
                    None => prev,
                }
            } else if t == "function_call"@ {
                match responses_function_call_spec(item) {
                    Some(tc) => (prev.0, prev.1.push(tc)),
                    None => prev,
                }
            } else {
                prev
            },
            None => prev,
        }
    }
}

/// A Responses body as an OpenAI chat response.
pub open spec fn responses_to_openai_response_spec(body: JsonView) -> JsonView {
    let out = match get_arr(body, "output"@) {
        Some(items) => responses_output(items),
        None => (Seq::empty(), Seq::empty()),
    };
    let finish = if jget(body, "error"@) is Some {
        "stop"@
    } else if jget(body, "incomplete_details"@) is Some {
        "length"@
    } else if out.1.len() > 0 && out.0.len() == 0 {
        "tool_calls"@
    } else {
        "stop"@
    };
    let usage = match jget(body, "usage"@) {
        Some(u) => match usage_responses(u) {
            Some((p, c, t)) => Some(openai_usage_json(p, c, t)),
            None => None,
        },
        None => None,
    };
    JsonView::Object(with_usage(chat_completion(concat_all(out.0), out.1, finish), "usage"@, usage))
}

/// The Responses message item carrying an assistant text.
pub open spec fn message_item(text: Seq<char>) -> JsonView {
    let part = JsonView::Object(Seq::empty().push(("type"@, JsonView::Str("output_text"@))).push(("text"@, JsonView::Str(text))).push((
        "annotations"@,
        JsonView::Array(Seq::empty()),
    )));
    JsonView::Object(Seq::empty().push(("type"@, JsonView::Str("message"@))).push(("id"@, JsonView::Str("msg_tokenguard"@))).push((
        "role"@,
        JsonView::Str("assistant"@),
    )).push(("status"@, JsonView::Str("completed"@))).push(("content"@, JsonView::Array(Seq::empty().push(part)))))
}

/// An OpenAI chat response as a Responses body.
pub open spec fn openai_to_responses_response_spec(body: JsonView) -> JsonView {
    let text = first_message_text(body);
    let items = (if text.len() > 0 { Seq::empty().push(message_item(text)) } else { Seq::empty() }) + first_message_calls(
        body,
        ListConversion::ResponsesCalls,
    );
    let status = if first_finish(body) == Some("length"@) { "incomplete"@ } else { "completed"@ };
    let m = Seq::empty().push(("id"@, JsonView::Str("resp_tokenguard"@))).push(("object"@, JsonView::Str("response"@))).push((
        "status"@,
        JsonView::Str(status),
    )).push(("output"@, JsonView::Array(items)));
    JsonView::Object(with_usage(m, "usage"@, openai_usage_as(body, ProviderFormat::Responses)))
}

/// An OpenAI chat response as an Anthropic message.
pub open spec fn openai_to_anthropic_response_spec(body: JsonView) -> JsonView {
    let text = first_message_text(body);
    let content = (if text.len() > 0 { Seq::empty().push(obj2("type"@, JsonView::Str("text"@), "text"@, JsonView::Str(text))) } else {
        Seq::empty()
    }) + first_message_calls(body, ListConversion::AnthropicCalls);
    let stop = match first_finish(body) {
        Some(r) => finish_o2a(r),
        None => "end_turn"@,
    };
    let m0: Seq<(Seq<char>, JsonView)> = if content.len() > 0 { Seq::empty().push(("content"@, JsonView::Array(content))) } else { Seq::empty() };
    let m1 = m0.push(("stop_reason"@, JsonView::Str(stop))).push(("role"@, JsonView::Str("assistant"@)));
    JsonView::Object(with_usage(m1, "usage"@, openai_usage_as(body, ProviderFormat::Anthropic)))
}

/// An OpenAI chat response as a Gemini response.
pub open spec fn openai_to_google_response_spec(body: JsonView) -> JsonView {
    let text = first_message_text(body);
    let parts = (if text.len() > 0 { Seq::empty().push(obj1("text"@, JsonView::Str(text))) } else { Seq::empty() })
        + first_message_calls(body, ListConversion::GoogleCalls);
    let stop = match first_finish(body) {
        Some(r) => finish_o2g(r),
        None => "STOP"@,
    };
    let candidate = JsonView::Object(Seq::empty().push((
        "content"@,
        obj2("role"@, JsonView::Str("model"@), "parts"@, JsonView::Array(parts)),
    )).push(("finishReason"@, JsonView::Str(stop))));
    let m = Seq::empty().push(("candidates"@, JsonView::Array(Seq::empty().push(candidate))));
    JsonView::Object(with_usage(m, "usageMetadata"@, openai_usage_as(body, ProviderFormat::Google)))
}

/// The texts and tool calls of Anthropic content blocks.
pub open spec fn anthropic_reply_blocks(bs: Seq<JsonView>) -> (Seq<Seq<char>>, Seq<JsonView>)
    decreases bs.len(),
{
    if bs.len() == 0 {
        (Seq::empty(), Seq::empty())
    } else {
        let prev = anthropic_reply_blocks(bs.drop_last());
        let b = bs.last();
        match get_str(b, "type"@) {
            Some(t) => if t == "text"@ {
                match get_str(b, "text"@) {
                    Some(x) => (prev.0.push(x), prev.1),
                    None => prev,
                }
            } else if t == "tool_use"@ {
                match anthropic_tool_use_to_openai_spec(b) {
                    Some(tc) => (prev.0, prev.1.push(tc)),
                    None => prev,
                }
            } else {
                prev
            },
            None => prev,
        }
    }
}

/// An Anthropic message as an OpenAI chat response.
pub open spec fn anthropic_to_openai_response_spec(body: JsonView) -> JsonView {
    let out = match get_arr(body, "content"@) {
        Some(bs) => anthropic_reply_blocks(bs),
        None => (Seq::empty(), Seq::empty()),
    };
    let stop = match get_str(body, "stop_reason"@) {
        Some(r) => finish_a2o(r),
        None => "stop"@,
    };
    let usage = match jget(body, "usage"@) {
        Some(u) => match usage_anthropic(u) {
            Some((p, c)) => Some(openai_usage_json(p, c, sat_add(p, c))),
            None => None,
        },
        None => None,
    };
    JsonView::Object(with_usage(chat_completion(concat_all(out.0), out.1, stop), "usage"@, usage))
}

/// The texts and tool calls of Gemini response parts; each function call
/// gets the next call id of its function.
pub open spec fn google_reply_parts(ps: Seq<JsonView>, c: IdCounts) -> (Seq<Seq<char>>, Seq<JsonView>, IdCounts)
    decreases ps.len(),
{
    if ps.len() == 0 {
        (Seq::empty(), Seq::empty(), c)
    } else {
        let prev = google_reply_parts(ps.drop_last(), c);
        let p = ps.last();
        match get_str(p, "text"@) {
            Some(t) => (prev.0.push(t), prev.1, prev.2),
            None => match jget(p, "functionCall"@) {
                Some(fc) => {
                    let name = fn_name(fc);
                    let calls = match google_function_call_spec(fc, crate::json::tool_call_id(name, (prev.2)(name))) {
                        Some(tc) => prev.1.push(tc),
                        None => prev.1,
                    };
                    (prev.0, calls, bump(prev.2, name))
                },
                None => prev,
            },
        }
    }
}

/// A Gemini response as an OpenAI chat response.
pub open spec fn google_to_openai_response_spec(body: JsonView) -> JsonView {
    let candidate = first_in(body, "candidates"@);
    let parts = match opt_member(candidate, "content"@) {
        Some(c) => match get_arr(c, "parts"@) {
            Some(a) => a,
            None => Seq::empty(),
        },
        None => Seq::empty(),
    };
    let out = google_reply_parts(parts, no_ids());
    let stop = match opt_str(opt_member(candidate, "finishReason"@)) {
        Some(r) => finish_g2o(r),
        None => "stop"@,
    };
    let usage = match jget(body, "usageMetadata"@) {
        Some(u) => match usage_google(u) {
            Some((p, c, t)) => Some(openai_usage_json(p, c, t)),
            None => None,
        },
        None => None,
    };
    JsonView::Object(with_usage(chat_completion(concat_all(out.0), out.1, stop), "usage"@, usage))
}

/// An upstream response body in dialect `from` as a body in dialect `to`.
pub open spec fn convert_response_spec(from: ProviderFormat, to: ProviderFormat, body: JsonView) -> JsonView {
    if from == to {
        body
    } else {
        match (from, to) {
            (ProviderFormat::OpenAI, ProviderFormat::Anthropic) => openai_to_anthropic_response_spec(body),
            (ProviderFormat::OpenAI, ProviderFormat::Google) => openai_to_google_response_spec(body),
            (ProviderFormat::OpenAI, ProviderFormat::Responses) => openai_to_responses_response_spec(body),
            (ProviderFormat::Anthropic, ProviderFormat::OpenAI) => anthropic_to_openai_response_spec(body),
            (ProviderFormat::Anthropic, ProviderFormat::Google) => openai_to_google_response_spec(anthropic_to_openai_response_spec(body)),
            (ProviderFormat::Anthropic, ProviderFormat::Responses) => openai_to_responses_response_spec(anthropic_to_openai_response_spec(body)),
            (ProviderFormat::Google, ProviderFormat::OpenAI) => google_to_openai_response_spec(body),
            (ProviderFormat::Google, ProviderFormat::Anthropic) => openai_to_anthropic_response_spec(google_to_openai_response_spec(body)),
            (ProviderFormat::Google, ProviderFormat::Responses) => openai_to_responses_response_spec(google_to_openai_response_spec(body)),
            (ProviderFormat::Responses, ProviderFormat::OpenAI) => responses_to_openai_response_spec(body),
            (ProviderFormat::Responses, ProviderFormat::Anthropic) => openai_to_anthropic_response_spec(responses_to_openai_response_spec(body)),
            (ProviderFormat::Responses, ProviderFormat::Google) => openai_to_google_response_spec(responses_to_openai_response_spec(body)),
            _ => body,
        }
    }
}

/// Concatenation distributes over appending lists of strings.
pub proof fn lemma_concat_all_add(a: Seq<Seq<char>>, b: Seq<Seq<char>>)
    ensures
        concat_all(a + b) == concat_all(a) + concat_all(b),
    decreases b.len(),
{
    if b.len() == 0 {
        assert(a + b =~= a);
        assert(concat_all(a) + concat_all(b) =~= concat_all(a));
    } else {
        lemma_concat_all_add(a, b.drop_last());
        assert((a + b).drop_last() =~= a + b.drop_last());
        assert((a + b).last() == b.last());
        assert(concat_all(a + b) =~= concat_all(a) + concat_all(b));
    }
}

pub(crate) fn first_in_exec<'a>(j: &'a Json, key: &str) -> (r: Option<&'a Json>)
    ensures
        opt_json(r) == first_in(j.view(), key@),
{
    match j.get_array(key) {
        Some(a) => {
            proof {
                lemma_views(a@);
            }
            if a.len() > 0 {
                Some(&a[0])
            } else {
                None
            }
        },
        None => None,
    }
}

pub(crate) fn opt_member_exec<'a>(x: Option<&'a Json>, key: &str) -> (r: Option<&'a Json>)
    ensures
        opt_json(r) == opt_member(opt_json(x), key@),
{
    match x {
        Some(v) => v.get(key),
        None => None,
    }
}

fn first_message_text_exec(body: &Json) -> (r: String)
    ensures
        r@ == first_message_text(body.view()),
{
    let message = opt_member_exec(first_in_exec(body, "choices"), "message");
    match opt_member_exec(message, "content") {
        Some(c) => text_content_to_string(c),
        None => String::new(),
    }
}

fn first_message_calls_exec(body: &Json, c: ListConversion) -> (r: Vec<Json>)
    ensures
        views(r@) == first_message_calls(body.view(), c),
{
    let message = opt_member_exec(first_in_exec(body, "choices"), "message");
    match opt_member_exec(message, "tool_calls") {
        Some(Json::Array(a)) => convert_list(c, a),
        _ => {
            let v: Vec<Json> = Vec::new();
            assert(views(v@) =~= Seq::empty());
            v
        },
    }
}

fn first_finish_exec(body: &Json) -> (r: Option<&str>)
    ensures
        crate::json::opt_text(r) == first_finish(body.view()),
{
    match opt_member_exec(first_in_exec(body, "choices"), "finish_reason") {
        Some(v) => v.as_str(),
        None => None,
    }
}

fn chat_completion_exec(text: String, calls: Vec<Json>, finish: &str) -> (r: Vec<(String, Json)>)
    ensures
        member_views(r@) == chat_completion(text@, views(calls@), finish@),
{
    let has_calls = calls.len() > 0;
    proof {
        lemma_views(calls@);
    }
    let mut message: Vec<(String, Json)> = Vec::new();
    assert(member_views(message@) =~= Seq::empty());
    push_member(&mut message, "role", Json::string("assistant"));
    push_member(&mut message, "content", Json::Str(text));
    if has_calls {
        push_member(&mut message, "tool_calls", Json::array(calls));
    }
    let mut choice: Vec<(String, Json)> = Vec::new();
    assert(member_views(choice@) =~= Seq::empty());
    push_member(&mut choice, "index", Json::unsigned(0));
    push_member(&mut choice, "message", Json::object(message));
    push_member(&mut choice, "finish_reason", Json::string(finish));
    let mut choices: Vec<Json> = Vec::new();
    assert(views(choices@) =~= Seq::empty());
    push_element(&mut choices, Json::object(choice));
    let mut out: Vec<(String, Json)> = Vec::new();
    assert(member_views(out@) =~= Seq::empty());
    push_member(&mut out, "choices", Json::array(choices));
    out
}

fn with_usage_exec(m: &mut Vec<(String, Json)>, key: &str, u: Option<Json>)
    ensures
        member_views(final(m)@) == with_usage(member_views(old(m)@), key@, opt_owned(u)),
{
    match u {
        Some(v) => push_member(m, key, v),
        None => {},
    }
}

fn openai_usage_as_exec(body: &Json, target: ProviderFormat) -> (r: Option<Json>)
    ensures
        opt_owned(r) == openai_usage_as(body.view(), target),
{
    match body.get("usage") {
        Some(u) => match extract_usage_openai(u) {
            Some((p, c, t)) => Some(match target {
                ProviderFormat::Anthropic => build_usage_anthropic(p, c),
                ProviderFormat::Google => build_usage_google(p, c, t),
                _ => build_usage_responses(p, c, t),
            }),
            None => None,
        },
        None => None,
    }
}

fn output_texts_exec(ps: &Vec<Json>, out: &mut String) -> (any: bool)
    ensures
        final(out)@ == old(out)@ + concat_all(output_texts(views(ps@))),
        any == (output_texts(views(ps@)).len() > 0),
{
    proof {
        lemma_views(ps@);
    }
    let ghost a = views(ps@);
    let mut any = false;
    let mut i: usize = 0;
    assert(a.subrange(0, 0) =~= Seq::<JsonView>::empty());
    assert(old(out)@ + concat_all(Seq::<Seq<char>>::empty()) =~= old(out)@);
    while i < ps.len()
        invariant
            i <= ps@.len(),
            a == views(ps@),
            a.len() == ps@.len(),
            forall|k: int| 0 <= k < ps@.len() ==> #[trigger] a[k] == ps@[k].view(),
            out@ == old(out)@ + concat_all(output_texts(a.subrange(0, i as int))),
            any == (output_texts(a.subrange(0, i as int)).len() > 0),
        decreases ps.len() - i,
    {
        assert(a.subrange(0, i + 1).drop_last() =~= a.subrange(0, i as int));
        assert(a.subrange(0, i + 1).last() == ps@[i as int].view());
        let ghost prev = output_texts(a.subrange(0, i as int));
        let p = &ps[i];
        let is_text = match p.get_str("type") {
            Some(t) => str_eq(t, "output_text"),
            None => false,
        };
        if is_text {
            match p.get_str("text") {
                Some(t) => {
                    proof {
                        assert(prev.push(t@).drop_last() =~= prev);
                    }
                    string_push_str(out, t);
                    any = true;
                    assert(out@ =~= old(out)@ + concat_all(prev.push(t@)));
                },
                None => {},
            }
        }
        i = i + 1;
    }
    assert(a.subrange(0, a.len() as int) =~= a);
    any
}

fn responses_output_exec(items: &Vec<Json>) -> (r: (String, bool, Vec<Json>))
    ensures
        r.0@ == concat_all(responses_output(views(items@)).0),
        r.1 == (responses_output(views(items@)).0.len() > 0),
        views(r.2@) == responses_output(views(items@)).1,
{
    proof {
        lemma_views(items@);
    }
    let ghost a = views(items@);
    let mut text = String::new();
    let mut any = false;
    let mut calls: Vec<Json> = Vec::new();
    let mut i: usize = 0;
    assert(a.subrange(0, 0) =~= Seq::<JsonView>::empty());
    assert(views(calls@) =~= Seq::empty());
    assert(text@ =~= concat_all(Seq::<Seq<char>>::empty()));
    while i < items.len()
        invariant
            i <= items@.len(),
            a == views(items@),
            a.len() == items@.len(),
            forall|k: int| 0 <= k < items@.len() ==> #[trigger] a[k] == items@[k].view(),
            text@ == concat_all(responses_output(a.subrange(0, i as int)).0),
            any == (responses_output(a.subrange(0, i as int)).0.len() > 0),
            views(calls@) == responses_output(a.subrange(0, i as int)).1,
        decreases items.len() - i,
    {
        assert(a.subrange(0, i + 1).drop_last() =~= a.subrange(0, i as int));
        assert(a.subrange(0, i + 1).last() == items@[i as int].view());
        let ghost prev = responses_output(a.subrange(0, i as int));
        let item = &items[i];
        match item.get_str("type") {
            Some(t) => {
                if str_eq(t, "message") {
                    match item.get_array("content") {
                        Some(c) => {
                            let more = output_texts_exec(c, &mut text);
                            proof {
                                lemma_concat_all_add(prev.0, output_texts(views(c@)));
                            }
                            any = any || more;
                        },
                        None => {},
                    }
                } else if str_eq(t, "function_call") {
                    match responses_function_call_to_openai(item) {
                        Some(tc) => push_element(&mut calls, tc),
                        None => {},
                    }
                }
            },
            None => {},
        }
        i = i + 1;
    }
    assert(a.subrange(0, a.len() as int) =~= a);
    (text, any, calls)
}

/// Convert a Responses body to an OpenAI chat response.
pub fn responses_to_openai_response(body: &Json) -> (r: Json)
    ensures
        r.view() == responses_to_openai_response_spec(body.view()),
{
    let (text, any_text, calls) = match body.get_array("output") {
        Some(items) => responses_output_exec(items),
        None => {
            let v: Vec<Json> = Vec::new();
            assert(views(v@) =~= Seq::empty());
            let t = String::new();
            assert(t@ =~= concat_all(Seq::<Seq<char>>::empty()));
            (t, false, v)
        },
    };
    let finish = if body.get("error").is_some() {
        "stop"
    } else if body.get("incomplete_details").is_some() {
        "length"
    } else if calls.len() > 0 && !any_text {
        "tool_calls"
    } else {
        "stop"
    };
    proof {
        lemma_views(calls@);
        reveal_strlit("stop");
        reveal_strlit("length");
        reveal_strlit("tool_calls");
    }
    let usage = match body.get("usage") {
        Some(u) => match extract_usage_responses(u) {
            Some((p, c, t)) => Some(build_usage_openai(p, c, t)),
            None => None,
        },
        None => None,
    };
    let mut out = chat_completion_exec(text, calls, finish);
    with_usage_exec(&mut out, "usage", usage);
    Json::object(out)
}

fn message_item_exec(text: String) -> (r: Json)
    ensures
        r.view() == message_item(text@),
{
    let mut part: Vec<(String, Json)> = Vec::new();
    assert(member_views(part@) =~= Seq::empty());
    push_member(&mut part, "type", Json::string("output_text"));
    push_member(&mut part, "text", Json::Str(text));
    let empty: Vec<Json> = Vec::new();
    assert(views(empty@) =~= Seq::empty());
    push_member(&mut part, "annotations", Json::array(empty));
    let mut content: Vec<Json> = Vec::new();
    assert(views(content@) =~= Seq::empty());
    push_element(&mut content, Json::object(part));
    let mut m: Vec<(String, Json)> = Vec::new();
    assert(member_views(m@) =~= Seq::empty());
    push_member(&mut m, "type", Json::string("message"));
    push_member(&mut m, "id", Json::string("msg_tokenguard"));
    push_member(&mut m, "role", Json::string("assistant"));
    push_member(&mut m, "status", Json::string("completed"));
    push_member(&mut m, "content", Json::array(content));
    Json::object(m)
}

fn prepend_one(first: Option<Json>, rest: Vec<Json>) -> (r: Vec<Json>)
    ensures
        views(r@) == (match opt_owned(first) {
            Some(x) => Seq::empty().push(x),
            None => Seq::empty(),
        }) + views(rest@),
{
    let mut out: Vec<Json> = Vec::new();
    assert(views(out@) =~= Seq::empty());
    match first {
        Some(x) => push_element(&mut out, x),
        None => {},
    }
    proof {
        lemma_views(rest@);
    }
    let ghost head = views(out@);
    let mut i: usize = 0;
    while i < rest.len()
        invariant
            i <= rest@.len(),
            views(rest@).len() == rest@.len(),
            forall|k: int| 0 <= k < rest@.len() ==> #[trigger] views(rest@)[k] == rest@[k].view(),
            views(out@) == head + views(rest@).subrange(0, i as int),
        decreases rest.len() - i,
    {
        push_element(&mut out, rest[i].deep_clone());
        i = i + 1;
        assert(views(out@) =~= head + views(rest@).subrange(0, i as int));
    }
    assert(views(rest@).subrange(0, rest@.len() as int) =~= views(rest@));
    out
}

/// Convert an OpenAI chat response to a Responses body.
pub fn openai_to_responses_response(body: &Json) -> (r: Json)
    ensures
        r.view() == openai_to_responses_response_spec(body.view()),
{
    let text = first_message_text_exec(body);
    let first = if !text.as_str().is_empty() {
        Some(message_item_exec(text))
    } else {
        None
    };
    let calls = first_message_calls_exec(body, ListConversion::ResponsesCalls);
    let items = prepend_one(first, calls);
    let length = match first_finish_exec(body) {
        Some(r) => str_eq(r, "length"),
        None => false,
    };
    let status = if length {
        "incomplete"
    } else {
        "completed"
    };
    proof {
        reveal_strlit("incomplete");
        reveal_strlit("completed");
        reveal_strlit("length");
    }
    let mut m: Vec<(String, Json)> = Vec::new();
    assert(member_views(m@) =~= Seq::empty());
    push_member(&mut m, "id", Json::string("resp_tokenguard"));
    push_member(&mut m, "object", Json::string("response"));
    push_member(&mut m, "status", Json::string(status));
    push_member(&mut m, "output", Json::array(items));
    with_usage_exec(&mut m, "usage", openai_usage_as_exec(body, ProviderFormat::Responses));
    Json::object(m)
}

/// Convert an OpenAI chat response to an Anthropic message.
pub fn openai_to_anthropic_response(body: &Json) -> (r: Json)
    ensures
        r.view() == openai_to_anthropic_response_spec(body.view()),
{
    let text = first_message_text_exec(body);
    let first = if !text.as_str().is_empty() {
        Some(obj2_exec("type", Json::string("text"), "text", Json::Str(text)))
    } else {
        None
    };
    let calls = first_message_calls_exec(body, ListConversion::AnthropicCalls);
    let content = prepend_one(first, calls);
    let stop = match first_finish_exec(body) {
        Some(r) => translate_finish_reason_o2a(r),
        None => "end_turn".to_owned(),
    };
    proof {
        reveal_strlit("end_turn");
        lemma_views(content@);
    }
    let mut m: Vec<(String, Json)> = Vec::new();
    assert(member_views(m@) =~= Seq::empty());
    if content.len() > 0 {
        push_member(&mut m, "content", Json::array(content));
    }
    push_member(&mut m, "stop_reason", Json::Str(stop));
    push_member(&mut m, "role", Json::string("assistant"));
    with_usage_exec(&mut m, "usage", openai_usage_as_exec(body, ProviderFormat::Anthropic));
    Json::object(m)
}

/// Convert an OpenAI chat response to a Gemini response.
pub fn openai_to_google_response(body: &Json) -> (r: Json)
    ensures
        r.view() == openai_to_google_response_spec(body.view()),
{
    let text = first_message_text_exec(body);
    let first = if !text.as_str().is_empty() {
        Some(obj1_exec("text", Json::Str(text)))
    } else {
        None
    };
    let calls = first_message_calls_exec(body, ListConversion::GoogleCalls);
    let parts = prepend_one(first, calls);
    let stop = match first_finish_exec(body) {
        Some(r) => translate_finish_reason_o2g(r),
        None => "STOP".to_owned(),
    };
    proof {
        reveal_strlit("STOP");
    }
    let mut candidate: Vec<(String, Json)> = Vec::new();
    assert(member_views(candidate@) =~= Seq::empty());
    push_member(&mut candidate, "content", obj2_exec("role", Json::string("model"), "parts", Json::array(parts)));
    push_member(&mut candidate, "finishReason", Json::Str(stop));
    let mut candidates: Vec<Json> = Vec::new();
    assert(views(candidates@) =~= Seq::empty());
    push_element(&mut candidates, Json::object(candidate));
    let mut m: Vec<(String, Json)> = Vec::new();
    assert(member_views(m@) =~= Seq::empty());
    push_member(&mut m, "candidates", Json::array(candidates));
    with_usage_exec(&mut m, "usageMetadata", openai_usage_as_exec(body, ProviderFormat::Google));
    Json::object(m)
}

fn anthropic_reply_blocks_exec(bs: &Vec<Json>) -> (r: (String, Vec<Json>))
    ensures
        r.0@ == concat_all(anthropic_reply_blocks(views(bs@)).0),
        views(r.1@) == anthropic_reply_blocks(views(bs@)).1,
{
    proof {
        lemma_views(bs@);
    }
    let ghost a = views(bs@);
    let mut text = String::new();
    let mut calls: Vec<Json> = Vec::new();
    let mut i: usize = 0;
    assert(a.subrange(0, 0) =~= Seq::<JsonView>::empty());
    assert(views(calls@) =~= Seq::empty());
    assert(text@ =~= concat_all(Seq::<Seq<char>>::empty()));
    while i < bs.len()
        invariant
            i <= bs@.len(),
            a == views(bs@),
            a.len() == bs@.len(),
            forall|k: int| 0 <= k < bs@.len() ==> #[trigger] a[k] == bs@[k].view(),
            text@ == concat_all(anthropic_reply_blocks(a.subrange(0, i as int)).0),
            views(calls@) == anthropic_reply_blocks(a.subrange(0, i as int)).1,
        decreases bs.len() - i,
    {
        assert(a.subrange(0, i + 1).drop_last() =~= a.subrange(0, i as int));
        assert(a.subrange(0, i + 1).last() == bs@[i as int].view());
        let ghost prev = anthropic_reply_blocks(a.subrange(0, i as int));
        let b = &bs[i];
        match b.get_str("type") {
            Some(t) => {
                if str_eq(t, "text") {
                    match b.get_str("text") {
                        Some(x) => {
                            proof {
                                assert(prev.0.push(x@).drop_last() =~= prev.0);
                            }
                            string_push_str(&mut text, x);
                        },
                        None => {},
                    }
                } else if str_eq(t, "tool_use") {
                    match anthropic_tool_use_to_openai(b) {
                        Some(tc) => push_element(&mut calls, tc),
                        None => {},
                    }
                }
            },
            None => {},
        }
        i = i + 1;
    }
    assert(a.subrange(0, a.len() as int) =~= a);
    (text, calls)
}

/// Convert an Anthropic message to an OpenAI chat response.
pub fn anthropic_to_openai_response(body: &Json) -> (r: Json)
    ensures
        r.view() == anthropic_to_openai_response_spec(body.view()),
{
    let (text, calls) = match body.get_array("content") {
        Some(bs) => anthropic_reply_blocks_exec(bs),
        None => {
            let v: Vec<Json> = Vec::new();
            assert(views(v@) =~= Seq::empty());
            let t = String::new();
            assert(t@ =~= concat_all(Seq::<Seq<char>>::empty()));
            (t, v)
        },
    };
    let stop = match body.get_str("stop_reason") {
        Some(r) => translate_finish_reason_a2o(r),
        None => "stop".to_owned(),
    };
    proof {
        reveal_strlit("stop");
    }
    let usage = match body.get("usage") {
        Some(u) => match extract_usage_anthropic(u) {
            Some((p, c)) => Some(build_usage_openai(p, c, p.saturating_add(c))),
            None => None,
        },
        None => None,
    };
    let mut out = chat_completion_exec(text, calls, stop.as_str());
    with_usage_exec(&mut out, "usage", usage);
    Json::object(out)
}

fn google_reply_parts_exec(ps: &Vec<Json>, counts: &mut ToolCallCounts) -> (r: (String, Vec<Json>))
    ensures
        ({
            let s = google_reply_parts(views(ps@), |n: Seq<char>| old(counts).count(n));
            &&& r.0@ == concat_all(s.0)
            &&& views(r.1@) == s.1
        }),
{
    proof {
        lemma_views(ps@);
    }
    let ghost a = views(ps@);
    let ghost c0: IdCounts = |n: Seq<char>| old(counts).count(n);
    let mut text = String::new();
    let mut calls: Vec<Json> = Vec::new();
    let mut i: usize = 0;
    assert(a.subrange(0, 0) =~= Seq::<JsonView>::empty());
    assert(views(calls@) =~= Seq::empty());
    assert(text@ =~= concat_all(Seq::<Seq<char>>::empty()));
    while i < ps.len()
        invariant
            i <= ps@.len(),
            a == views(ps@),
            a.len() == ps@.len(),
            forall|k: int| 0 <= k < ps@.len() ==> #[trigger] a[k] == ps@[k].view(),
            c0 == (|n: Seq<char>| old(counts).count(n)),
            ({
                let s = google_reply_parts(a.subrange(0, i as int), c0);
                &&& text@ == concat_all(s.0)
                &&& views(calls@) == s.1
                &&& forall|n: Seq<char>| #[trigger] counts.count(n) == (s.2)(n)
            }),
        decreases ps.len() - i,
    {
        assert(a.subrange(0, i + 1).drop_last() =~= a.subrange(0, i as int));
        assert(a.subrange(0, i + 1).last() == ps@[i as int].view());
        let ghost prev = google_reply_parts(a.subrange(0, i as int), c0);
        let p = &ps[i];
        match p.get_str("text") {
            Some(t) => {
                proof {
                    assert(prev.0.push(t@).drop_last() =~= prev.0);
                }
                string_push_str(&mut text, t);
                assert(text@ =~= concat_all(prev.0.push(t@)));
            },
            None => match p.get("functionCall") {
                Some(fc) => {
                    let name = match fc.get_str("name") {
                        Some(n) => n,
                        None => {
                            proof {
                                reveal_strlit("");
                            }
                            ""
                        },
                    };
                    let id = counts.next_tool_call_id(name);
                    match google_function_call_to_openai(fc, id.as_str()) {
                        Some(tc) => push_element(&mut calls, tc),
                        None => {},
                    }
                    proof {
                        let s1 = google_reply_parts(a.subrange(0, i + 1), c0);
                        assert(fn_name(fc.view()) == name@);
                        assert(s1.0 == prev.0);
                        assert(views(calls@) == s1.1);
                        assert forall|n: Seq<char>| #[trigger] counts.count(n) == (s1.2)(n) by {}
                    }
                },
                None => {},
            },
        }
        i = i + 1;
    }
    assert(a.subrange(0, a.len() as int) =~= a);
    (text, calls)
}

/// Convert a Gemini response to an OpenAI chat response; parallel calls of
/// one function get distinct ids.
pub fn google_to_openai_response(body: &Json) -> (r: Json)
    ensures
        r.view() == google_to_openai_response_spec(body.view()),
{
    let candidate = first_in_exec(body, "candidates");
    let content = opt_member_exec(candidate, "content");
    let mut counts = ToolCallCounts::new();
    proof {
        assert((|n: Seq<char>| counts.count(n)) =~= no_ids());
    }
    let (text, calls) = match content {
        Some(c) => match c.get_array("parts") {
            Some(ps) => google_reply_parts_exec(ps, &mut counts),
            None => {
                let v: Vec<Json> = Vec::new();
                assert(views(v@) =~= Seq::empty());
                let t = String::new();
                assert(t@ =~= concat_all(Seq::<Seq<char>>::empty()));
                (t, v)
            },
        },
        None => {
            let v: Vec<Json> = Vec::new();
            assert(views(v@) =~= Seq::empty());
            let t = String::new();
            assert(t@ =~= concat_all(Seq::<Seq<char>>::empty()));
            (t, v)
        },
    };
    let stop = match opt_member_exec(candidate, "finishReason") {
        Some(v) => match v.as_str() {
            Some(r) => translate_finish_reason_g2o(r),
            None => "stop".to_owned(),
        },
        None => "stop".to_owned(),
    };
    proof {
        reveal_strlit("stop");
    }
    let usage = match body.get("usageMetadata") {
        Some(u) => match extract_usage_google(u) {
            Some((p, c, t)) => Some(build_usage_openai(p, c, t)),
            None => None,
        },
        None => None,
    };
    let mut out = chat_completion_exec(text, calls, stop.as_str());
    with_usage_exec(&mut out, "usage", usage);
    Json::object(out)
}

/// Convert an Anthropic message to a Gemini response, by way of the OpenAI
/// chat shape.
pub fn anthropic_to_google_response(body: &Json) -> (r: Json)
    ensures
        r.view() == openai_to_google_response_spec(anthropic_to_openai_response_spec(body.view())),
{
    let openai = anthropic_to_openai_response(body);
    openai_to_google_response(&openai)
}

/// Convert a Gemini response to an Anthropic message, by way of the OpenAI
/// chat shape.
pub fn google_to_anthropic_response(body: &Json) -> (r: Json)
    ensures
        r.view() == openai_to_anthropic_response_spec(google_to_openai_response_spec(body.view())),
{
    let openai = google_to_openai_response(body);
    openai_to_anthropic_response(&openai)
}

/// Convert an upstream response body from the provider's dialect `from` to
/// the client's dialect `to`; a body passes unchanged between equal
/// dialects.
pub fn convert_response(from: ProviderFormat, to: ProviderFormat, body: &Json) -> (r: Json)
    ensures
        r.view() == convert_response_spec(from, to, body.view()),
{
    if from == to {
        return body.deep_clone();
    }
    match (from, to) {
        (ProviderFormat::OpenAI, ProviderFormat::Anthropic) => openai_to_anthropic_response(body),
        (ProviderFormat::OpenAI, ProviderFormat::Google) => openai_to_google_response(body),
        (ProviderFormat::OpenAI, ProviderFormat::Responses) => openai_to_responses_response(body),
        (ProviderFormat::Anthropic, ProviderFormat::OpenAI) => anthropic_to_openai_response(body),
        (ProviderFormat::Anthropic, ProviderFormat::Google) => anthropic_to_google_response(body),
        (ProviderFormat::Anthropic, ProviderFormat::Responses) => {
            openai_to_responses_response(&anthropic_to_openai_response(body))
        },
        (ProviderFormat::Google, ProviderFormat::OpenAI) => google_to_openai_response(body),
        (ProviderFormat::Google, ProviderFormat::Anthropic) => google_to_anthropic_response(body),
        (ProviderFormat::Google, ProviderFormat::Responses) => {
            openai_to_responses_response(&google_to_openai_response(body))
        },
        (ProviderFormat::Responses, ProviderFormat::OpenAI) => responses_to_openai_response(body),
        (ProviderFormat::Responses, ProviderFormat::Anthropic) => {
            openai_to_anthropic_response(&responses_to_openai_response(body))
        },
        (ProviderFormat::Responses, ProviderFormat::Google) => {
            openai_to_google_response(&responses_to_openai_response(body))
        },
        _ => body.deep_clone(),
    }
}

// ---------------------------------------------------------------------------
// Stream chunks
// ---------------------------------------------------------------------------

/// The choice of an OpenAI stream chunk: index zero, this delta, and the
/// finish reason where there is one.
pub open spec fn sse_choice(delta: JsonView, finish: Option<Seq<char>>) -> JsonView {
    let m = Seq::empty().push(("index"@, num(0))).push(("delta"@, delta));
    JsonView::Object(match finish {
        Some(f) => m.push(("finish_reason"@, JsonView::Str(f))),
        None => m,
    })
}

/// The members of an OpenAI stream chunk with that one choice.
pub open spec fn chunk(delta: JsonView, finish: Option<Seq<char>>) -> Seq<(Seq<char>, JsonView)> {
    Seq::empty().push(("choices"@, JsonView::Array(Seq::empty().push(sse_choice(delta, finish)))))
}

/// A Responses stream event as an OpenAI chat chunk; none for events with no
/// counterpart.
pub open spec fn responses_to_openai_sse_spec(data: JsonView) -> Option<JsonView> {
    match get_str(data, "type"@) {
        None => None,
        Some(t) => if t == "response.output_text.delta"@ {
            match get_str(data, "delta"@) {
                Some(d) => Some(JsonView::Object(chunk(obj1("content"@, JsonView::Str(d)), None))),
                None => None,
            }
        } else if t == "response.function_call_arguments.delta"@ {
            match get_str(data, "delta"@) {
                Some(d) => Some(JsonView::Object(chunk(
                    obj1("tool_calls"@, JsonView::Array(Seq::empty().push(obj2("index"@, num(0), "function"@, obj1("arguments"@, JsonView::Str(d)))))),
                    None,
                ))),
                None => None,
            }
        } else if t == "response.completed"@ {
            let usage = match opt_member(jget(data, "response"@), "usage"@) {
                Some(u) => match usage_responses(u) {
                    Some((p, c, tt)) => Some(openai_usage_json(p, c, tt)),
                    None => None,
                },
                None => None,
            };
            Some(JsonView::Object(with_usage(chunk(empty_object(), None), "usage"@, usage)))
        } else if t == "response.incomplete"@ {
            Some(JsonView::Object(chunk(empty_object(), Some("length"@))))
        } else if t == "response.failed"@ || t == "error"@ {
            Some(JsonView::Object(chunk(empty_object(), Some("stop"@))))
        } else {
            None
        },
    }
}

/// The first choice of an OpenAI stream chunk and its delta, where both are
/// there.
pub open spec fn chunk_delta(data: JsonView) -> Option<(JsonView, JsonView)> {
    match first_in(data, "choices"@) {
        Some(choice) => match jget(choice, "delta"@) {
            Some(delta) => Some((choice, delta)),
            None => None,
        },
        None => None,
    }
}

/// An OpenAI chat chunk as a Responses stream event: a text delta, or the
/// completion on a finish reason; none otherwise.
pub open spec fn openai_to_responses_sse_spec(data: JsonView) -> Option<JsonView> {
    match chunk_delta(data) {
        None => None,
        Some((choice, delta)) => match get_str(delta, "content"@) {
            Some(text) => Some(JsonView::Object(Seq::empty().push(("type"@, JsonView::Str("response.output_text.delta"@))).push((
                "output_index"@,
                num(0),
            )).push(("content_index"@, num(0))).push(("delta"@, JsonView::Str(text))))),
            None => match get_str(choice, "finish_reason"@) {
                Some(reason) => {
                    let status = if reason == "length"@ { "incomplete"@ } else { "completed"@ };
                    let resp = Seq::empty().push(("id"@, JsonView::Str("resp_tokenguard"@))).push((
                        "object"@,
                        JsonView::Str("response"@),
                    )).push(("status"@, JsonView::Str(status))).push(("output"@, JsonView::Array(Seq::empty())));
                    Some(obj2(
                        "type"@,
                        JsonView::Str("response.completed"@),
                        "response"@,
                        JsonView::Object(with_usage(resp, "usage"@, openai_usage_as(data, ProviderFormat::Responses))),
                    ))
                },
                None => None,
            },
        },
    }
}

/// An OpenAI chat chunk as an Anthropic stream event and its name: a text
/// delta, or the message delta with the stop reason; none otherwise.
pub open spec fn openai_to_anthropic_sse_spec(data: JsonView) -> Option<(Option<Seq<char>>, JsonView)> {
    match chunk_delta(data) {
        None => None,
        Some((choice, delta)) => match get_str(delta, "content"@) {
            Some(text) => Some((
                Some("content_block_delta"@),
                JsonView::Object(Seq::empty().push(("type"@, JsonView::Str("content_block_delta"@))).push(("index"@, num(0))).push((
                    "delta"@,
                    obj2("type"@, JsonView::Str("text_delta"@), "text"@, JsonView::Str(text)),
                ))),
            )),
            None => match get_str(choice, "finish_reason"@) {
                Some(reason) => Some((
                    Some("message_delta"@),
                    obj2("type"@, JsonView::Str("message_delta"@), "delta"@, obj1("stop_reason"@, JsonView::Str(finish_o2a(reason)))),
                )),
                None => None,
            },
        },
    }
}

/// An Anthropic stream event, by its name, as an OpenAI chat chunk; none for
/// events with no counterpart or without a name.
pub open spec fn anthropic_to_openai_sse_spec(event: Option<Seq<char>>, data: JsonView) -> Option<(Option<Seq<char>>, JsonView)> {
    match event {
        None => None,
        Some(e) => if e == "content_block_delta"@ {
            match opt_str(opt_member(jget(data, "delta"@), "text"@)) {
                Some(text) => Some((None, JsonView::Object(chunk(obj1("content"@, JsonView::Str(text)), None)))),
                None => None,
            }
        } else if e == "message_delta"@ {
            let stop = match opt_str(opt_member(jget(data, "delta"@), "stop_reason"@)) {
                Some(r) => finish_a2o(r),
                None => "stop"@,
            };
            Some((None, JsonView::Object(with_usage(chunk(empty_object(), Some(stop)), "usage"@, jget(data, "usage"@)))))
        } else if e == "message_stop"@ {
            Some((None, JsonView::Object(chunk(empty_object(), Some("stop"@)))))
        } else if e == "message_start"@ {
            Some((None, JsonView::Object(chunk(obj1("role"@, JsonView::Str("assistant"@)), None))))
        } else {
            None
        },
    }
}

/// The first string `text` among parts.
pub open spec fn first_text(ps: Seq<JsonView>) -> Option<Seq<char>>
    decreases ps.len(),
{
    if ps.len() == 0 {
        None
    } else {
        match get_str(ps[0], "text"@) {
            Some(t) => Some(t),
            None => first_text(ps.drop_first()),
        }
    }
}

/// A Gemini stream chunk as an OpenAI chat chunk: the first text of the
/// first candidate, its finish reason and the usage; none without a text.
pub open spec fn google_to_openai_sse_spec(data: JsonView) -> Option<JsonView> {
    let candidate = first_in(data, "candidates"@);
    match candidate {
        None => None,
        Some(c) => {
            let parts = match jget(c, "content"@) {
                Some(content) => get_arr(content, "parts"@),
                None => None,
            };
            let text = match parts {
                Some(ps) => first_text(ps),
                None => None,
            };
            match text {
                None => None,
                Some(t) => {
                    let finish = match get_str(c, "finishReason"@) {
                        Some(r) => Some(finish_g2o(r)),
                        None => None,
                    };
                    let usage = match jget(data, "usageMetadata"@) {
                        Some(u) => match usage_google(u) {
                            Some((p, cc, tt)) => Some(openai_usage_json(p, cc, tt)),
                            None => None,
                        },
                        None => None,
                    };
                    Some(JsonView::Object(with_usage(chunk(obj1("content"@, JsonView::Str(t)), finish), "usage"@, usage)))
                },
            }
        },
    }
}

/// An OpenAI chat chunk as a Gemini stream chunk: its text delta as one
/// model part, with the finish reason and usage; none without a text.
pub open spec fn openai_to_google_sse_spec(data: JsonView) -> Option<JsonView> {
    match first_in(data, "choices"@) {
        None => None,
        Some(choice) => match opt_str(opt_member(jget(choice, "delta"@), "content"@)) {
            None => None,
            Some(text) => {
                let c0 = Seq::empty().push((
                    "content"@,
                    obj2("role"@, JsonView::Str("model"@), "parts"@, JsonView::Array(Seq::empty().push(obj1("text"@, JsonView::Str(text))))),
                ));
                let candidate = JsonView::Object(match get_str(choice, "finish_reason"@) {
                    Some(r) => c0.push(("finishReason"@, JsonView::Str(finish_o2g(r)))),
                    None => c0,
                });
                let m = Seq::empty().push(("candidates"@, JsonView::Array(Seq::empty().push(candidate))));
                Some(JsonView::Object(with_usage(m, "usageMetadata"@, openai_usage_as(data, ProviderFormat::Google))))
            },
        },
    }
}

/// A chunk with no event name.
pub open spec fn unnamed(x: Option<JsonView>) -> Option<(Option<Seq<char>>, JsonView)> {
    match x {
        Some(v) => Some((None, v)),
        None => None,
    }
}

/// A Responses event named by its `type`.
pub open spec fn typed(x: Option<JsonView>) -> Option<(Option<Seq<char>>, JsonView)> {
    match x {
        Some(v) => Some((get_str(v, "type"@), v)),
        None => None,
    }
}

/// The chunk of a named event, dropping the name.
pub open spec fn chunk_of(x: Option<(Option<Seq<char>>, JsonView)>) -> Option<JsonView> {
    match x {
        Some((_, v)) => Some(v),
        None => None,
    }
}

/// Then convert an OpenAI chat chunk.
pub open spec fn then_openai(x: Option<JsonView>, to: ProviderFormat) -> Option<(Option<Seq<char>>, JsonView)> {
    match x {
        None => None,
        Some(o) => match to {
            ProviderFormat::Anthropic => openai_to_anthropic_sse_spec(o),
            ProviderFormat::Google => unnamed(openai_to_google_sse_spec(o)),
            _ => typed(openai_to_responses_sse_spec(o)),
        },
    }
}

/// A stream chunk (with its event name, if any) from dialect `from` as a
/// chunk of dialect `to`; none when it has no counterpart there.
pub open spec fn convert_sse_spec(
    from: ProviderFormat,
    to: ProviderFormat,
    event: Option<Seq<char>>,
    data: JsonView,
) -> Option<(Option<Seq<char>>, JsonView)> {
    if from == to {
        Some((event, data))
    } else {
        match (from, to) {
            (ProviderFormat::OpenAI, ProviderFormat::Anthropic) => openai_to_anthropic_sse_spec(data),
            (ProviderFormat::OpenAI, ProviderFormat::Google) => unnamed(openai_to_google_sse_spec(data)),
            (ProviderFormat::OpenAI, ProviderFormat::Responses) => typed(openai_to_responses_sse_spec(data)),
            (ProviderFormat::Anthropic, ProviderFormat::OpenAI) => anthropic_to_openai_sse_spec(event, data),
            (ProviderFormat::Anthropic, _) => then_openai(chunk_of(anthropic_to_openai_sse_spec(event, data)), to),
            (ProviderFormat::Google, ProviderFormat::OpenAI) => unnamed(google_to_openai_sse_spec(data)),
            (ProviderFormat::Google, _) => then_openai(google_to_openai_sse_spec(data), to),
            (ProviderFormat::Responses, ProviderFormat::OpenAI) => unnamed(responses_to_openai_sse_spec(data)),
            (ProviderFormat::Responses, _) => then_openai(responses_to_openai_sse_spec(data), to),
            _ => Some((event, data)),
        }
    }
}

/// A converted chunk and its event name, by value.
pub open spec fn sse_view(r: Option<(Option<String>, Json)>) -> Option<(Option<Seq<char>>, JsonView)> {
    match r {
        Some((e, v)) => Some((
            match e {
                Some(n) => Some(n@),
                None => None,
            },
            v.view(),
        )),
        None => None,
    }
}

fn chunk_exec(delta: Json, finish: Option<&str>) -> (r: Vec<(String, Json)>)
    ensures
        member_views(r@) == chunk(delta.view(), crate::json::opt_text(finish)),
{
    let mut c: Vec<(String, Json)> = Vec::new();
    assert(member_views(c@) =~= Seq::empty());
    push_member(&mut c, "index", Json::unsigned(0));
    push_member(&mut c, "delta", delta);
    match finish {
        Some(f) => push_member(&mut c, "finish_reason", Json::string(f)),
        None => {},
    }
    let mut choices: Vec<Json> = Vec::new();
    assert(views(choices@) =~= Seq::empty());
    push_element(&mut choices, Json::object(c));
    let mut out: Vec<(String, Json)> = Vec::new();
    assert(member_views(out@) =~= Seq::empty());
    push_member(&mut out, "choices", Json::array(choices));
    out
}

/// Convert a Responses stream event to an OpenAI chat chunk.
pub fn responses_to_openai_sse_data(data: &Json) -> (r: Option<Json>)
    ensures
        opt_owned(r) == responses_to_openai_sse_spec(data.view()),
{
    let t = match data.get_str("type") {
        Some(t) => t,
        None => return None,
    };
    proof {
        reveal_strlit("length");
        reveal_strlit("stop");
    }
    if str_eq(t, "response.output_text.delta") {
        match data.get_str("delta") {
            Some(d) => Some(Json::object(chunk_exec(obj1_exec("content", Json::string(d)), None))),
            None => None,
        }
    } else if str_eq(t, "response.function_call_arguments.delta") {
        match data.get_str("delta") {
            Some(d) => {
                let mut calls: Vec<Json> = Vec::new();
                assert(views(calls@) =~= Seq::empty());
                push_element(
                    &mut calls,
                    obj2_exec("index", Json::unsigned(0), "function", obj1_exec("arguments", Json::string(d))),
                );
                Some(Json::object(chunk_exec(obj1_exec("tool_calls", Json::array(calls)), None)))
            },
            None => None,
        }
    } else if str_eq(t, "response.completed") {
        let usage = match opt_member_exec(data.get("response"), "usage") {
            Some(u) => match extract_usage_responses(u) {
                Some((p, c, tt)) => Some(build_usage_openai(p, c, tt)),
                None => None,
            },
            None => None,
        };
        let mut out = chunk_exec(empty_object_exec(), None);
        with_usage_exec(&mut out, "usage", usage);
        Some(Json::object(out))
    } else if str_eq(t, "response.incomplete") {
        Some(Json::object(chunk_exec(empty_object_exec(), Some("length"))))
    } else if str_eq(t, "response.failed") || str_eq(t, "error") {
        Some(Json::object(chunk_exec(empty_object_exec(), Some("stop"))))
    } else {
        None
    }
}

fn chunk_delta_exec(data: &Json) -> (r: Option<(&Json, &Json)>)
    ensures
        match r {
            Some((c, d)) => chunk_delta(data.view()) == Some((c.view(), d.view())),
            None => chunk_delta(data.view()) is None,
        },
{
    match first_in_exec(data, "choices") {
        Some(choice) => match choice.get("delta") {
            Some(delta) => Some((choice, delta)),
            None => None,
        },
        None => None,
    }
}

/// Convert an OpenAI chat chunk to a Responses stream event.
pub fn openai_to_responses_sse_data(data: &Json) -> (r: Option<Json>)
    ensures
        opt_owned(r) == openai_to_responses_sse_spec(data.view()),
{
    let (choice, delta) = match chunk_delta_exec(data) {
        Some(x) => x,
        None => return None,
    };
    match delta.get_str("content") {
        Some(text) => {
            let mut m: Vec<(String, Json)> = Vec::new();
            assert(member_views(m@) =~= Seq::empty());
            push_member(&mut m, "type", Json::string("response.output_text.delta"));
            push_member(&mut m, "output_index", Json::unsigned(0));
            push_member(&mut m, "content_index", Json::unsigned(0));
            push_member(&mut m, "delta", Json::string(text));
            Some(Json::object(m))
        },
        None => match choice.get_str("finish_reason") {
            Some(reason) => {
                let status = if str_eq(reason, "length") {
                    "incomplete"
                } else {
                    "completed"
                };
                proof {
                    reveal_strlit("incomplete");
                    reveal_strlit("completed");
                    reveal_strlit("length");
                }
                let mut resp: Vec<(String, Json)> = Vec::new();
                assert(member_views(resp@) =~= Seq::empty());
                push_member(&mut resp, "id", Json::string("resp_tokenguard"));
                push_member(&mut resp, "object", Json::string("response"));
                push_member(&mut resp, "status", Json::string(status));
                let empty: Vec<Json> = Vec::new();
                assert(views(empty@) =~= Seq::empty());
                push_member(&mut resp, "output", Json::array(empty));
                with_usage_exec(&mut resp, "usage", openai_usage_as_exec(data, ProviderFormat::Responses));
                Some(obj2_exec("type", Json::string("response.completed"), "response", Json::object(resp)))
            },
            None => None,
        },
    }
}

/// Convert an OpenAI chat chunk to an Anthropic stream event and its name.
pub fn openai_to_anthropic_sse_data(data: &Json) -> (r: Option<(Option<String>, Json)>)
    ensures
        sse_view(r) == openai_to_anthropic_sse_spec(data.view()),
{
    let (choice, delta) = match chunk_delta_exec(data) {
        Some(x) => x,
        None => return None,
    };
    match delta.get_str("content") {
        Some(text) => {
            let mut m: Vec<(String, Json)> = Vec::new();
            assert(member_views(m@) =~= Seq::empty());
            push_member(&mut m, "type", Json::string("content_block_delta"));
            push_member(&mut m, "index", Json::unsigned(0));
            push_member(&mut m, "delta", obj2_exec("type", Json::string("text_delta"), "text", Json::string(text)));
            Some((Some("content_block_delta".to_owned()), Json::object(m)))
        },
        None => match choice.get_str("finish_reason") {
            Some(reason) => {
                let stop = translate_finish_reason_o2a(reason);
                Some((
                    Some("message_delta".to_owned()),
                    obj2_exec("type", Json::string("message_delta"), "delta", obj1_exec("stop_reason", Json::Str(stop))),
                ))
            },
            None => None,
        },
    }
}

/// Convert an Anthropic stream event, by its name, to an OpenAI chat chunk.
pub fn anthropic_to_openai_sse_data(event: Option<&str>, data: &Json) -> (r: Option<(Option<String>, Json)>)
    ensures
        sse_view(r) == anthropic_to_openai_sse_spec(crate::json::opt_text(event), data.view()),
{
    let e = match event {
        Some(e) => e,
        None => return None,
    };
    proof {
        reveal_strlit("stop");
        reveal_strlit("assistant");
    }
    if str_eq(e, "content_block_delta") {
        match opt_member_exec(data.get("delta"), "text") {
            Some(v) => match v.as_str() {
                Some(text) => Some((None, Json::object(chunk_exec(obj1_exec("content", Json::string(text)), None)))),
                None => None,
            },
            None => None,
        }
    } else if str_eq(e, "message_delta") {
        let stop = match opt_member_exec(data.get("delta"), "stop_reason") {
            Some(v) => match v.as_str() {
                Some(r) => translate_finish_reason_a2o(r),
                None => "stop".to_owned(),
            },
            None => "stop".to_owned(),
        };
        let usage = match data.get("usage") {
            Some(u) => Some(u.deep_clone()),
            None => None,
        };
        let mut out = chunk_exec(empty_object_exec(), Some(stop.as_str()));
        with_usage_exec(&mut out, "usage", usage);
        Some((None, Json::object(out)))
    } else if str_eq(e, "message_stop") {
        Some((None, Json::object(chunk_exec(empty_object_exec(), Some("stop")))))
    } else if str_eq(e, "message_start") {
        Some((None, Json::object(chunk_exec(obj1_exec("role", Json::string("assistant")), None))))
    } else {
        None
    }
}

/// Skipping leading parts without a string `text` leaves the first text.
pub proof fn lemma_first_text_skip(a: Seq<JsonView>, i: int)
    requires
        0 <= i <= a.len(),
        forall|k: int| 0 <= k < i ==> #[trigger] get_str(a[k], "text"@) is None,
    ensures
        first_text(a) == first_text(a.subrange(i, a.len() as int)),
    decreases i,
{
    if i == 0 {
        assert(a.subrange(0, a.len() as int) =~= a);
    } else {
        let b = a.drop_first();
        assert forall|k: int| 0 <= k < i - 1 implies #[trigger] get_str(b[k], "text"@) is None by {
            assert(b[k] == a[k + 1]);
        }
        lemma_first_text_skip(b, i - 1);
        assert(b.subrange(i - 1, b.len() as int) =~= a.subrange(i, a.len() as int));
    }
}

fn first_text_exec(ps: &Vec<Json>) -> (r: Option<&str>)
    ensures
        crate::json::opt_text(r) == first_text(views(ps@)),
{
    proof {
        lemma_views(ps@);
    }
    let ghost a = views(ps@);
    let mut i: usize = 0;
    while i < ps.len()
        invariant
            i <= ps@.len(),
            a == views(ps@),
            a.len() == ps@.len(),
            forall|k: int| 0 <= k < ps@.len() ==> #[trigger] a[k] == ps@[k].view(),
            forall|k: int| 0 <= k < i ==> #[trigger] get_str(a[k], "text"@) is None,
        decreases ps.len() - i,
    {
        match ps[i].get_str("text") {
            Some(t) => {
                proof {
                    lemma_first_text_skip(a, i as int);
                    assert(a.subrange(i as int, a.len() as int)[0] == a[i as int]);
                }
                return Some(t);
            },
            None => {},
        }
        i = i + 1;
    }
    proof {
        lemma_first_text_skip(a, a.len() as int);
        assert(a.subrange(a.len() as int, a.len() as int) =~= Seq::<JsonView>::empty());
    }
    None
}

/// Convert a Gemini stream chunk to an OpenAI chat chunk.
pub fn google_to_openai_sse_data(data: &Json) -> (r: Option<Json>)
    ensures
        opt_owned(r) == google_to_openai_sse_spec(data.view()),
{
    let c = match first_in_exec(data, "candidates") {
        Some(c) => c,
        None => return None,
    };
    let parts = match c.get("content") {
        Some(content) => content.get_array("parts"),
        None => None,
    };
    let text = match parts {
        Some(ps) => first_text_exec(ps),
        None => None,
    };
    let t = match text {
        Some(t) => t,
        None => return None,
    };
    let finish = match c.get_str("finishReason") {
        Some(r) => Some(translate_finish_reason_g2o(r)),
        None => None,
    };
    let usage = match data.get("usageMetadata") {
        Some(u) => match extract_usage_google(u) {
            Some((p, cc, tt)) => Some(build_usage_openai(p, cc, tt)),
            None => None,
        },
        None => None,
    };
    let fin: Option<&str> = match &finish {
        Some(f) => Some(f.as_str()),
        None => None,
    };
    let mut out = chunk_exec(obj1_exec("content", Json::string(t)), fin);
    with_usage_exec(&mut out, "usage", usage);
    Some(Json::object(out))
}

/// Convert an OpenAI chat chunk to a Gemini stream chunk.
pub fn openai_to_google_sse_data(data: &Json) -> (r: Option<Json>)
    ensures
        opt_owned(r) == openai_to_google_sse_spec(data.view()),
{
    let choice = match first_in_exec(data, "choices") {
        Some(c) => c,
        None => return None,
    };
    let text = match opt_member_exec(choice.get("delta"), "content") {
        Some(v) => match v.as_str() {
            Some(t) => t,
            None => return None,
        },
        None => return None,
    };
    let mut parts: Vec<Json> = Vec::new();
    assert(views(parts@) =~= Seq::empty());
    push_element(&mut parts, obj1_exec("text", Json::string(text)));
    let mut candidate: Vec<(String, Json)> = Vec::new();
    assert(member_views(candidate@) =~= Seq::empty());
    push_member(&mut candidate, "content", obj2_exec("role", Json::string("model"), "parts", Json::array(parts)));
    match choice.get_str("finish_reason") {
        Some(r) => push_member(&mut candidate, "finishReason", Json::Str(translate_finish_reason_o2g(r))),
        None => {},
    }
    let mut candidates: Vec<Json> = Vec::new();
    assert(views(candidates@) =~= Seq::empty());
    push_element(&mut candidates, Json::object(candidate));
    let mut m: Vec<(String, Json)> = Vec::new();
    assert(member_views(m@) =~= Seq::empty());
    push_member(&mut m, "candidates", Json::array(candidates));
    with_usage_exec(&mut m, "usageMetadata", openai_usage_as_exec(data, ProviderFormat::Google));
    Some(Json::object(m))
}

fn unnamed_exec(x: Option<Json>) -> (r: Option<(Option<String>, Json)>)
    ensures
        sse_view(r) == unnamed(opt_owned(x)),
{
    match x {
        Some(v) => Some((None, v)),
        None => None,
    }
}

fn typed_exec(x: Option<Json>) -> (r: Option<(Option<String>, Json)>)
    ensures
        sse_view(r) == typed(opt_owned(x)),
{
    match x {
        Some(v) => {
            let name = match v.get_str("type") {
                Some(t) => Some(t.to_owned()),
                None => None,
            };
            Some((name, v))
        },
        None => None,
    }
}

fn then_openai_exec(x: Option<Json>, to: ProviderFormat) -> (r: Option<(Option<String>, Json)>)
    ensures
        sse_view(r) == then_openai(opt_owned(x), to),
{
    match x {
        None => None,
        Some(o) => match to {
            ProviderFormat::Anthropic => openai_to_anthropic_sse_data(&o),
            ProviderFormat::Google => unnamed_exec(openai_to_google_sse_data(&o)),
            _ => typed_exec(openai_to_responses_sse_data(&o)),
        },
    }
}

/// Convert one stream chunk (with its event name, if the upstream sent one)
/// from the provider's dialect `from` to the client's dialect `to`; none
/// when the chunk has no counterpart and is dropped.
pub fn convert_sse_data(from: ProviderFormat, to: ProviderFormat, event: Option<&str>, data: &Json) -> (r: Option<(Option<String>, Json)>)
    ensures
        sse_view(r) == convert_sse_spec(from, to, crate::json::opt_text(event), data.view()),
{
    let same = || -> (r: Option<(Option<String>, Json)>)
        ensures
            sse_view(r) == Some((crate::json::opt_text(event), data.view())),
    {
        let name = match event {
            Some(e) => Some(e.to_owned()),
            None => None,
        };
        Some((name, data.deep_clone()))
    };
    if from == to {
        return same();
    }
    match (from, to) {
        (ProviderFormat::OpenAI, ProviderFormat::Anthropic) => openai_to_anthropic_sse_data(data),
        (ProviderFormat::OpenAI, ProviderFormat::Google) => unnamed_exec(openai_to_google_sse_data(data)),
        (ProviderFormat::OpenAI, ProviderFormat::Responses) => typed_exec(openai_to_responses_sse_data(data)),
        (ProviderFormat::Anthropic, ProviderFormat::OpenAI) => anthropic_to_openai_sse_data(event, data),
        (ProviderFormat::Anthropic, _) => {
            let o = match anthropic_to_openai_sse_data(event, data) {
                Some((_, v)) => Some(v),
                None => None,
            };
            then_openai_exec(o, to)
        },
        (ProviderFormat::Google, ProviderFormat::OpenAI) => unnamed_exec(google_to_openai_sse_data(data)),
        (ProviderFormat::Google, _) => then_openai_exec(google_to_openai_sse_data(data), to),
        (ProviderFormat::Responses, ProviderFormat::OpenAI) => unnamed_exec(responses_to_openai_sse_data(data)),
        (ProviderFormat::Responses, _) => then_openai_exec(responses_to_openai_sse_data(data), to),
        _ => same(),
    }
}

} // verus!
