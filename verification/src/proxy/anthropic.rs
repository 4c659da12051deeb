//! OpenAI chat requests and Anthropic messages requests, each as the other.

use vstd::prelude::*;
use crate::config::ProviderFormat;
use crate::json::{
    Json, JsonView, NumberView, get_arr, get_bool, get_float, get_str, get_u64, jget, json_parse,
    json_serialize, json_to_text, lemma_views, member_views, opt_json, opt_owned, parse_json, push_element,
    push_member, views, clone_elements,
};
use crate::proxy::content::{
    convert_content_spec, convert_message_content, obj2,
};
use crate::proxy::gemini::{
    role_of, split_openai_messages, split_openai_messages_spec,
};
use crate::proxy::tools::{
    anthropic_tool_choice_to_openai, anthropic_tool_choice_to_openai_spec, anthropic_tools_to_openai,
    openai_function_decls, openai_stop_spec, openai_stop_to_array, openai_tool_choice_to_anthropic,
    openai_tool_choice_to_anthropic_spec, openai_tools_to_anthropic, wrapped_decls,
};
use crate::text::{
    str_eq, string_push_str,
};

verus! {

/// The empty object.
pub open spec fn empty_object() -> JsonView {
    JsonView::Object(Seq::empty())
}

pub(crate) fn empty_object_exec() -> (r: Json)
    ensures
        r.view() == empty_object(),
{
    let m: Vec<(String, Json)> = Vec::new();
    assert(member_views(m@) =~= Seq::empty());
    Json::object(m)
}

/// Function-call arguments read from their JSON text; an empty object when
/// absent or not JSON.
pub open spec fn call_arguments(f: JsonView) -> JsonView {
    let text = match get_str(f, "arguments"@) {
        Some(t) => t,
        None => "{}"@,
    };
    match json_parse(text) {
        Some(v) => v,
        None => empty_object(),
    }
}

fn call_arguments_exec(f: &Json) -> (r: Json)
    ensures
        r.view() == call_arguments(f.view()),
{
    let text: &str = match f.get_str("arguments") {
        Some(t) => t,
        None => "{}",
    };
    match parse_json(text) {
        Some(v) => v,
        None => empty_object_exec(),
    }
}

/// An OpenAI tool call as an Anthropic `tool_use` block: it needs a string
/// id and a function with a string name.
pub open spec fn openai_tool_call_to_anthropic_spec(tc: JsonView) -> Option<JsonView> {
    match tc {
        JsonView::Object(_) => match get_str(tc, "id"@) {
            Some(id) => match jget(tc, "function"@) {
                Some(f) => match get_str(f, "name"@) {
                    Some(name) => Some(JsonView::Object(Seq::empty().push(("type"@, JsonView::Str("tool_use"@))).push((
                        "id"@,
                        JsonView::Str(id),
                    )).push(("name"@, JsonView::Str(name))).push(("input"@, call_arguments(f))))),
                    None => None,
                },
                None => None,
            },
            None => None,
        },
        _ => None,
    }
}

/// Convert one OpenAI tool call to an Anthropic `tool_use` block.
pub fn openai_tool_call_to_anthropic(tc: &Json) -> (r: Option<Json>)
    ensures
        opt_owned(r) == openai_tool_call_to_anthropic_spec(tc.view()),
{
    match tc {
        Json::Object(_) => {},
        _ => return None,
    }
    let id = match tc.get_str("id") {
        Some(i) => i,
        None => return None,
    };
    let f = match tc.get("function") {
        Some(f) => f,
        None => return None,
    };
    let name = match f.get_str("name") {
        Some(n) => n,
        None => return None,
    };
    let input = call_arguments_exec(f);
    let mut m: Vec<(String, Json)> = Vec::new();
    assert(member_views(m@) =~= Seq::empty());
    push_member(&mut m, "type", Json::string("tool_use"));
    push_member(&mut m, "id", Json::string(id));
    push_member(&mut m, "name", Json::string(name));
    push_member(&mut m, "input", input);
    Some(Json::object(m))
}

/// An Anthropic `tool_use` block as an OpenAI tool call, its input written
/// as JSON text: it needs a string id and a string name.
pub open spec fn anthropic_tool_use_to_openai_spec(b: JsonView) -> Option<JsonView> {
    match b {
        JsonView::Object(_) => match get_str(b, "id"@) {
            Some(id) => match get_str(b, "name"@) {
                Some(name) => {
                    let input = match jget(b, "input"@) {
                        Some(i) => i,
                        None => empty_object(),
                    };
                    Some(JsonView::Object(Seq::empty().push(("id"@, JsonView::Str(id))).push(("type"@, JsonView::Str("function"@))).push((
                        "function"@,
                        obj2("name"@, JsonView::Str(name), "arguments"@, JsonView::Str(json_serialize(input))),
                    ))))
                },
                None => None,
            },
            None => None,
        },
        _ => None,
    }
}

/// Convert one Anthropic `tool_use` block to an OpenAI tool call.
pub fn anthropic_tool_use_to_openai(b: &Json) -> (r: Option<Json>)
    ensures
        opt_owned(r) == anthropic_tool_use_to_openai_spec(b.view()),
{
    match b {
        Json::Object(_) => {},
        _ => return None,
    }
    let id = match b.get_str("id") {
        Some(i) => i,
        None => return None,
    };
    let name = match b.get_str("name") {
        Some(n) => n,
        None => return None,
    };
    let input = match b.get("input") {
        Some(i) => i.deep_clone(),
        None => empty_object_exec(),
    };
    let text = json_to_text(&input);
    let mut f: Vec<(String, Json)> = Vec::new();
    assert(member_views(f@) =~= Seq::empty());
    push_member(&mut f, "name", Json::string(name));
    push_member(&mut f, "arguments", Json::Str(text));
    let mut m: Vec<(String, Json)> = Vec::new();
    assert(member_views(m@) =~= Seq::empty());
    push_member(&mut m, "id", Json::string(id));
    push_member(&mut m, "type", Json::string("function"));
    push_member(&mut m, "function", Json::object(f));
    Some(Json::object(m))
}

/// The `text` members of a list, concatenated (entries without one add
/// nothing).
pub open spec fn texts_of(ps: Seq<JsonView>) -> Seq<char>
    decreases ps.len(),
{
    if ps.len() == 0 {
        Seq::empty()
    } else {
        texts_of(ps.drop_last()) + match get_str(ps.last(), "text"@) {
            Some(t) => t,
            None => Seq::empty(),
        }
    }
}

fn texts_of_exec(ps: &Vec<Json>) -> (r: String)
    ensures
        r@ == texts_of(views(ps@)),
{
    proof {
        lemma_views(ps@);
    }
    let ghost a = views(ps@);
    let mut out = String::new();
    let mut i: usize = 0;
    assert(a.subrange(0, 0) =~= Seq::<JsonView>::empty());
    while i < ps.len()
        invariant
            i <= ps@.len(),
            a == views(ps@),
            a.len() == ps@.len(),
            forall|k: int| 0 <= k < ps@.len() ==> #[trigger] a[k] == ps@[k].view(),
            out@ == texts_of(a.subrange(0, i as int)),
        decreases ps.len() - i,
    {
        assert(a.subrange(0, i + 1).drop_last() =~= a.subrange(0, i as int));
        assert(a.subrange(0, i + 1).last() == ps@[i as int].view());
        match ps[i].get_str("text") {
            Some(t) => string_push_str(&mut out, t),
            None => {
                assert(out@ =~= out@ + Seq::<char>::empty());
            },
        }
        i = i + 1;
    }
    assert(a.subrange(0, a.len() as int) =~= a);
    out
}

/// The text of a `tool_result` block: its string content, or the texts of
/// its content parts; nothing otherwise.
pub open spec fn tool_result_text(b: JsonView) -> Seq<char> {
    match jget(b, "content"@) {
        Some(JsonView::Str(s)) => s,
        Some(JsonView::Array(ps)) => texts_of(ps),
        _ => Seq::empty(),
    }
}

/// Strings concatenated.
pub open spec fn concat_all(ts: Seq<Seq<char>>) -> Seq<char>
    decreases ts.len(),
{
    if ts.len() == 0 {
        Seq::empty()
    } else {
        concat_all(ts.drop_last()) + ts.last()
    }
}

/// The texts and tool results of Anthropic user blocks; none as soon as a
/// block is neither text nor a tool result with a string id.
pub open spec fn user_blocks(bs: Seq<JsonView>) -> Option<(Seq<Seq<char>>, Seq<(Seq<char>, Seq<char>)>)>
    decreases bs.len(),
{
    if bs.len() == 0 {
        Some((Seq::empty(), Seq::empty()))
    } else {
        match user_blocks(bs.drop_last()) {
            None => None,
            Some(prev) => {
                let b = bs.last();
                let t = get_str(b, "type"@);
                if t == Some("text"@) {
                    Some((match get_str(b, "text"@) {
                        Some(s) => prev.0.push(s),
                        None => prev.0,
                    }, prev.1))
                } else if t == Some("tool_result"@) {
                    match get_str(b, "tool_use_id"@) {
                        Some(id) => Some((prev.0, prev.1.push((id, tool_result_text(b))))),
                        None => None,
                    }
                } else {
                    None
                }
            },
        }
    }
}

/// Anthropic user content split into its text and its tool results, when it
/// is a block array of only texts and tool results holding at least one.
pub open spec fn split_user_content_spec(content: Option<JsonView>) -> Option<(Seq<char>, Seq<(Seq<char>, Seq<char>)>)> {
    match content {
        Some(JsonView::Array(bs)) => match user_blocks(bs) {
            Some(r) => if r.0.len() == 0 && r.1.len() == 0 { None } else { Some((concat_all(r.0), r.1)) },
            None => None,
        },
        _ => None,
    }
}

/// The texts and tool calls of Anthropic assistant blocks; none as soon as
/// a block is neither text nor a tool use.
pub open spec fn assistant_blocks(bs: Seq<JsonView>) -> Option<(Seq<Seq<char>>, Seq<JsonView>)>
    decreases bs.len(),
{
    if bs.len() == 0 {
        Some((Seq::empty(), Seq::empty()))
    } else {
        match assistant_blocks(bs.drop_last()) {
            None => None,
            Some(prev) => {
                let b = bs.last();
                let t = get_str(b, "type"@);
                if t == Some("text"@) {
                    Some((match get_str(b, "text"@) {
                        Some(s) => prev.0.push(s),
                        None => prev.0,
                    }, prev.1))
                } else if t == Some("tool_use"@) {
                    Some((prev.0, match anthropic_tool_use_to_openai_spec(b) {
                        Some(tc) => prev.1.push(tc),
                        None => prev.1,
                    }))
                } else {
                    None
                }
            },
        }
    }
}

/// Anthropic assistant content split into its text and OpenAI tool calls,
/// when it is a block array of only texts and tool uses holding at least
/// one.
pub open spec fn split_assistant_content_spec(content: Option<JsonView>) -> Option<(Seq<char>, Seq<JsonView>)> {
    match content {
        Some(JsonView::Array(bs)) => match assistant_blocks(bs) {
            Some(r) => if r.0.len() == 0 && r.1.len() == 0 { None } else { Some((concat_all(r.0), r.1)) },
            None => None,
        },
        _ => None,
    }
}

fn tool_result_text_exec(b: &Json) -> (r: String)
    ensures
        r@ == tool_result_text(b.view()),
{
    match b.get("content") {
        Some(Json::Str(s)) => s.clone(),
        Some(Json::Array(ps)) => texts_of_exec(ps),
        _ => String::new(),
    }
}

/// Split Anthropic user content into text and tool results.
pub fn split_anthropic_user_content(content: Option<&Json>) -> (r: Option<(String, Vec<(String, String)>)>)
    ensures
        match r {
            Some((t, rs)) => split_user_content_spec(opt_json(content)) == Some((
                t@,
                rs@.map_values(|x: (String, String)| (x.0@, x.1@)),
            )),
            None => split_user_content_spec(opt_json(content)) is None,
        },
{
    let bs = match content {
        Some(Json::Array(bs)) => bs,
        _ => return None,
    };
    proof {
        lemma_views(bs@);
    }
    let ghost a = views(bs@);
    let mut text = String::new();
    let ghost mut texts: Seq<Seq<char>> = Seq::empty();
    let mut count: usize = 0;
    let mut results: Vec<(String, String)> = Vec::new();
    let mut i: usize = 0;
    assert(a.subrange(0, 0) =~= Seq::<JsonView>::empty());
    assert(results@.map_values(|x: (String, String)| (x.0@, x.1@)) =~= Seq::empty());
    while i < bs.len()
        invariant
            i <= bs@.len(),
            a == views(bs@),
            a.len() == bs@.len(),
            forall|k: int| 0 <= k < bs@.len() ==> #[trigger] a[k] == bs@[k].view(),
            user_blocks(a.subrange(0, i as int)) == Some((texts, results@.map_values(|x: (String, String)| (x.0@, x.1@)))),
            opt_json(content) == Some(JsonView::Array(a)),
            text@ == concat_all(texts),
            count == texts.len(),
            count <= i,
        decreases bs.len() - i,
    {
        assert(a.subrange(0, i + 1).drop_last() =~= a.subrange(0, i as int));
        assert(a.subrange(0, i + 1).last() == bs@[i as int].view());
        let b = &bs[i];
        let t: &str = match b.get_str("type") {
            Some(t) => t,
            None => {
                proof {
                    lemma_user_blocks_none(a, i as int + 1);
                }
                return None;
            },
        };
        if str_eq(t, "text") {
            if let Some(s) = b.get_str("text") {
                string_push_str(&mut text, s);
                proof {
                    assert(texts.push(s@).drop_last() =~= texts);
                    texts = texts.push(s@);
                }
                count = count + 1;
            }
        } else if str_eq(t, "tool_result") {
            let id = match b.get_str("tool_use_id") {
                Some(id) => id,
                None => {
                    proof {
                        lemma_user_blocks_none(a, i as int + 1);
                    }
                    return None;
                },
            };
            let c = tool_result_text_exec(b);
            let ghost before = results@;
            results.push((id.to_owned(), c));
            assert(results@.map_values(|x: (String, String)| (x.0@, x.1@)) =~= before.map_values(
                |x: (String, String)| (x.0@, x.1@),
            ).push((id@, tool_result_text(b.view()))));
        } else {
            proof {
                lemma_user_blocks_none(a, i as int + 1);
            }
            return None;
        }
        i = i + 1;
    }
    assert(a.subrange(0, a.len() as int) =~= a);
    if count == 0 && results.len() == 0 {
        None
    } else {
        Some((text, results))
    }
}

/// Split Anthropic assistant content into text and OpenAI tool calls.
pub fn split_anthropic_assistant_content(content: Option<&Json>) -> (r: Option<(String, Vec<Json>)>)
    ensures
        match r {
            Some((t, tcs)) => split_assistant_content_spec(opt_json(content)) == Some((t@, views(tcs@))),
            None => split_assistant_content_spec(opt_json(content)) is None,
        },
{
    let bs = match content {
        Some(Json::Array(bs)) => bs,
        _ => return None,
    };
    proof {
        lemma_views(bs@);
    }
    let ghost a = views(bs@);
    let mut text = String::new();
    let ghost mut texts: Seq<Seq<char>> = Seq::empty();
    let mut count: usize = 0;
    let mut calls: Vec<Json> = Vec::new();
    let mut i: usize = 0;
    assert(a.subrange(0, 0) =~= Seq::<JsonView>::empty());
    assert(views(calls@) =~= Seq::empty());
    while i < bs.len()
        invariant
            i <= bs@.len(),
            a == views(bs@),
            a.len() == bs@.len(),
            forall|k: int| 0 <= k < bs@.len() ==> #[trigger] a[k] == bs@[k].view(),
            assistant_blocks(a.subrange(0, i as int)) == Some((texts, views(calls@))),
            opt_json(content) == Some(JsonView::Array(a)),
            text@ == concat_all(texts),
            count == texts.len(),
            count <= i,
        decreases bs.len() - i,
    {
        assert(a.subrange(0, i + 1).drop_last() =~= a.subrange(0, i as int));
        assert(a.subrange(0, i + 1).last() == bs@[i as int].view());
        let b = &bs[i];
        let t: &str = match b.get_str("type") {
            Some(t) => t,
            None => {
                proof {
                    lemma_assistant_blocks_none(a, i as int + 1);
                }
                return None;
            },
        };
        if str_eq(t, "text") {
            if let Some(s) = b.get_str("text") {
                string_push_str(&mut text, s);
                proof {
                    assert(texts.push(s@).drop_last() =~= texts);
                    texts = texts.push(s@);
                }
                count = count + 1;
            }
        } else if str_eq(t, "tool_use") {
            if let Some(tc) = anthropic_tool_use_to_openai(b) {
                push_element(&mut calls, tc);
            }
        } else {
            proof {
                lemma_assistant_blocks_none(a, i as int + 1);
            }
            return None;
        }
        i = i + 1;
    }
    assert(a.subrange(0, a.len() as int) =~= a);
    if count == 0 && calls.len() == 0 {
        proof {
            crate::json::lemma_views(calls@);
        }
        None
    } else {
        proof {
            crate::json::lemma_views(calls@);
        }
        Some((text, calls))
    }
}

proof fn lemma_user_blocks_none(a: Seq<JsonView>, n: int)
    requires
        0 <= n <= a.len(),
        user_blocks(a.subrange(0, n)) is None,
    ensures
        user_blocks(a) is None,
    decreases a.len() - n,
{
    if n < a.len() {
        assert(a.subrange(0, n + 1).drop_last() =~= a.subrange(0, n));
        lemma_user_blocks_none(a, n + 1);
    } else {
        assert(a.subrange(0, n) =~= a);
    }
}

proof fn lemma_assistant_blocks_none(a: Seq<JsonView>, n: int)
    requires
        0 <= n <= a.len(),
        assistant_blocks(a.subrange(0, n)) is None,
    ensures
        assistant_blocks(a) is None,
    decreases a.len() - n,
{
    if n < a.len() {
        assert(a.subrange(0, n + 1).drop_last() =~= a.subrange(0, n));
        lemma_assistant_blocks_none(a, n + 1);
    } else {
        assert(a.subrange(0, n) =~= a);
    }
}

// ---------------------------------------------------------------------------
// Copying settings
// ---------------------------------------------------------------------------

/// Member `key` copied when it is a non-negative integer.
pub open spec fn with_u64(out: Seq<(Seq<char>, JsonView)>, src: JsonView, key: Seq<char>) -> Seq<(Seq<char>, JsonView)> {
    match get_u64(src, key) {
        Some(v) => out.push((key, JsonView::Number(NumberView::PosInt(v)))),
        None => out,
    }
}

/// Member `key` copied as a float when it is a number.
pub open spec fn with_float(out: Seq<(Seq<char>, JsonView)>, src: JsonView, key: Seq<char>) -> Seq<(Seq<char>, JsonView)> {
    match get_float(src, key) {
        Some(n) => out.push((key, JsonView::Number(n))),
        None => out,
    }
}

/// `stream: true` copied when the source streams.
pub open spec fn with_stream(out: Seq<(Seq<char>, JsonView)>, src: JsonView) -> Seq<(Seq<char>, JsonView)> {
    if get_bool(src, "stream"@) == Some(true) {
        out.push(("stream"@, JsonView::Bool(true)))
    } else {
        out
    }
}

pub(crate) fn copy_u64(out: &mut Vec<(String, Json)>, src: &Json, key: &str)
    ensures
        member_views(final(out)@) == with_u64(member_views(old(out)@), src.view(), key@),
{
    if let Some(v) = src.get_u64(key) {
        push_member(out, key, Json::unsigned(v));
    }
}

pub(crate) fn copy_float(out: &mut Vec<(String, Json)>, src: &Json, key: &str)
    ensures
        member_views(final(out)@) == with_float(member_views(old(out)@), src.view(), key@),
{
    if let Some(v) = src.get_float(key) {
        push_member(out, key, v);
    }
}

pub(crate) fn copy_stream(out: &mut Vec<(String, Json)>, src: &Json)
    ensures
        member_views(final(out)@) == with_stream(member_views(old(out)@), src.view()),
{
    if src.get_bool("stream") == Some(true) {
        push_member(out, "stream", Json::Bool(true));
    }
}

// ---------------------------------------------------------------------------
// Anthropic requests as OpenAI requests
// ---------------------------------------------------------------------------

/// An OpenAI tool message carrying a tool result's text.
pub open spec fn tool_text_msg(id: Seq<char>, content: Seq<char>) -> JsonView {
    JsonView::Object(Seq::empty().push(("role"@, JsonView::Str("tool"@))).push(("tool_call_id"@, JsonView::Str(id))).push((
        "content"@,
        JsonView::Str(content),
    )))
}

/// Tool results as OpenAI tool messages.
pub open spec fn tool_text_msgs(rs: Seq<(Seq<char>, Seq<char>)>) -> Seq<JsonView> {
    rs.map_values(|r: (Seq<char>, Seq<char>)| tool_text_msg(r.0, r.1))
}

/// Message content, or an empty string when there is none.
pub open spec fn content_or_empty(m: JsonView, from: ProviderFormat, to: ProviderFormat) -> JsonView {
    match jget(m, "content"@) {
        Some(c) => convert_content_spec(c, from, to),
        None => JsonView::Str(Seq::empty()),
    }
}

/// One Anthropic message as OpenAI messages: user content of texts and tool
/// results becomes a user message (when its text is not empty) and tool
/// messages; assistant content of texts and tool uses becomes an assistant
/// message with tool calls; anything else keeps its role with converted
/// content; a message without a string role is dropped.
pub open spec fn anthropic_message_step(prev: Seq<JsonView>, m: JsonView) -> Seq<JsonView> {
    match role_of(m) {
        None => prev,
        Some(role) => {
            let uc = if role == "user"@ { split_user_content_spec(jget(m, "content"@)) } else { None };
            let ac = if role == "assistant"@ { split_assistant_content_spec(jget(m, "content"@)) } else { None };
            match uc {
                Some(u) => (if u.0.len() > 0 {
                    prev.push(obj2("role"@, JsonView::Str("user"@), "content"@, JsonView::Str(u.0)))
                } else {
                    prev
                }) + tool_text_msgs(u.1),
                None => match ac {
                    Some(x) => {
                        let base = Seq::empty().push(("role"@, JsonView::Str("assistant"@))).push(("content"@, JsonView::Str(x.0)));
                        prev.push(JsonView::Object(if x.1.len() > 0 { base.push(("tool_calls"@, JsonView::Array(x.1))) } else { base }))
                    },
                    None => prev.push(obj2(
                        "role"@,
                        JsonView::Str(role),
                        "content"@,
                        content_or_empty(m, ProviderFormat::Anthropic, ProviderFormat::OpenAI),
                    )),
                },
            }
        },
    }
}

/// Anthropic messages as OpenAI messages, in order.
pub open spec fn anthropic_messages(prev: Seq<JsonView>, ms: Seq<JsonView>) -> Seq<JsonView>
    decreases ms.len(),
{
    if ms.len() == 0 {
        prev
    } else {
        anthropic_message_step(anthropic_messages(prev, ms.drop_last()), ms.last())
    }
}

/// An Anthropic messages request as an OpenAI chat request for `remote`.
pub open spec fn anthropic_to_openai_request_spec(body: JsonView, remote: Seq<char>) -> JsonView {
    let system = match jget(body, "system"@) {
        Some(sys) => seq![obj2(
            "role"@,
            JsonView::Str("system"@),
            "content"@,
            convert_content_spec(sys, ProviderFormat::Anthropic, ProviderFormat::OpenAI),
        )],
        None => Seq::empty(),
    };
    let ms = match jget(body, "messages"@) {
        Some(JsonView::Array(a)) => a,
        _ => Seq::empty(),
    };
    let m0 = Seq::empty().push(("model"@, JsonView::Str(remote))).push(("messages"@, JsonView::Array(anthropic_messages(system, ms))));
    let m1 = with_stream(with_float(with_float(with_u64(m0, body, "max_tokens"@), body, "temperature"@), body, "top_p"@), body);
    let m2 = match get_arr(body, "stop_sequences"@) {
        Some(a) => m1.push(("stop"@, JsonView::Array(a))),
        None => m1,
    };
    let m3 = match get_arr(body, "tools"@) {
        Some(ts) => if wrapped_decls(ts, "input_schema"@).len() > 0 {
            m2.push(("tools"@, JsonView::Array(wrapped_decls(ts, "input_schema"@))))
        } else {
            m2
        },
        None => m2,
    };
    JsonView::Object(match jget(body, "tool_choice"@) {
        Some(tc) => match anthropic_tool_choice_to_openai_spec(tc) {
            Some(c) => m3.push(("tool_choice"@, c)),
            None => m3,
        },
        None => m3,
    })
}

fn push_tool_text_msgs(out: &mut Vec<Json>, rs: &Vec<(String, String)>)
    ensures
        views(final(out)@) == views(old(out)@) + tool_text_msgs(rs@.map_values(|x: (String, String)| (x.0@, x.1@))),
{
    let ghost rv = rs@.map_values(|x: (String, String)| (x.0@, x.1@));
    let ghost start = views(out@);
    let mut i: usize = 0;
    assert(views(out@) =~= start + tool_text_msgs(rv.subrange(0, 0)));
    while i < rs.len()
        invariant
            i <= rs@.len(),
            rv == rs@.map_values(|x: (String, String)| (x.0@, x.1@)),
            views(out@) == start + tool_text_msgs(rv.subrange(0, i as int)),
        decreases rs.len() - i,
    {
        let mut m: Vec<(String, Json)> = Vec::new();
        assert(member_views(m@) =~= Seq::empty());
        push_member(&mut m, "role", Json::string("tool"));
        push_member(&mut m, "tool_call_id", Json::string(rs[i].0.as_str()));
        push_member(&mut m, "content", Json::string(rs[i].1.as_str()));
        push_element(out, Json::object(m));
        i = i + 1;
        assert(views(out@) =~= start + tool_text_msgs(rv.subrange(0, i as int)));
    }
    assert(rv.subrange(0, rv.len() as int) =~= rv);
}

fn content_or_empty_exec(m: &Json, from: ProviderFormat, to: ProviderFormat) -> (r: Json)
    ensures
        r.view() == content_or_empty(m.view(), from, to),
{
    match m.get("content") {
        Some(c) => convert_message_content(c, from, to),
        None => {
            proof {
                reveal_strlit("");
                assert(""@ =~= Seq::<char>::empty());
            }
            Json::string("")
        },
    }
}

fn anthropic_messages_exec(ms: &Vec<Json>, out: &mut Vec<Json>)
    ensures
        views(final(out)@) == anthropic_messages(views(old(out)@), views(ms@)),
{
    proof {
        lemma_views(ms@);
    }
    let ghost a = views(ms@);
    let ghost start = views(out@);
    let mut i: usize = 0;
    assert(a.subrange(0, 0) =~= Seq::<JsonView>::empty());
    while i < ms.len()
        invariant
            i <= ms@.len(),
            a == views(ms@),
            a.len() == ms@.len(),
            forall|k: int| 0 <= k < ms@.len() ==> #[trigger] a[k] == ms@[k].view(),
            start == views(old(out)@),
            views(out@) == anthropic_messages(start, a.subrange(0, i as int)),
        decreases ms.len() - i,
    {
        assert(a.subrange(0, i + 1).drop_last() =~= a.subrange(0, i as int));
        assert(a.subrange(0, i + 1).last() == ms@[i as int].view());
        let m = &ms[i];
        if let Some(role) = m.get_str("role") {
            let is_user = str_eq(role, "user");
            let is_assistant = str_eq(role, "assistant");
            let uc = if is_user { split_anthropic_user_content(m.get("content")) } else { None };
            match uc {
                Some((text, results)) => {
                    if crate::text::char_count(text.as_str()) > 0 {
                        let mut msg: Vec<(String, Json)> = Vec::new();
                        assert(member_views(msg@) =~= Seq::empty());
                        push_member(&mut msg, "role", Json::string("user"));
                        push_member(&mut msg, "content", Json::Str(text));
                        push_element(out, Json::object(msg));
                    } else {
                        assert(views(out@) =~= views(out@));
                    }
                    push_tool_text_msgs(out, &results);
                },
                None => {
                    let ac = if is_assistant { split_anthropic_assistant_content(m.get("content")) } else { None };
                    match ac {
                        Some((text, calls)) => {
                            let mut msg: Vec<(String, Json)> = Vec::new();
                            assert(member_views(msg@) =~= Seq::empty());
                            push_member(&mut msg, "role", Json::string("assistant"));
                            push_member(&mut msg, "content", Json::Str(text));
                            if calls.len() > 0 {
                                proof {
                                    lemma_views(calls@);
                                }
                                push_member(&mut msg, "tool_calls", Json::array(calls));
                            } else {
                                proof {
                                    lemma_views(calls@);
                                }
                            }
                            push_element(out, Json::object(msg));
                        },
                        None => {
                            let content = content_or_empty_exec(m, ProviderFormat::Anthropic, ProviderFormat::OpenAI);
                            let mut msg: Vec<(String, Json)> = Vec::new();
                            assert(member_views(msg@) =~= Seq::empty());
                            push_member(&mut msg, "role", Json::string(role));
                            push_member(&mut msg, "content", content);
                            push_element(out, Json::object(msg));
                        },
                    }
                },
            }
        }
        i = i + 1;
    }
    assert(a.subrange(0, a.len() as int) =~= a);
}

/// Convert an Anthropic messages request to an OpenAI chat request for
/// `remote_model`.
pub fn anthropic_to_openai_request(body: &Json, remote_model: &str) -> (r: Json)
    ensures
        r.view() == anthropic_to_openai_request_spec(body.view(), remote_model@),
{
    let mut msgs: Vec<Json> = Vec::new();
    assert(views(msgs@) =~= Seq::empty());
    if let Some(sys) = body.get("system") {
        let content = convert_message_content(sys, ProviderFormat::Anthropic, ProviderFormat::OpenAI);
        let mut m: Vec<(String, Json)> = Vec::new();
        assert(member_views(m@) =~= Seq::empty());
        push_member(&mut m, "role", Json::string("system"));
        push_member(&mut m, "content", content);
        push_element(&mut msgs, Json::object(m));
    }
    let empty: Vec<Json> = Vec::new();
    assert(views(empty@) =~= Seq::empty());
    let ms: &Vec<Json> = match body.get("messages") {
        Some(Json::Array(a)) => a,
        _ => &empty,
    };
    anthropic_messages_exec(ms, &mut msgs);
    let mut out: Vec<(String, Json)> = Vec::new();
    assert(member_views(out@) =~= Seq::empty());
    push_member(&mut out, "model", Json::string(remote_model));
    push_member(&mut out, "messages", Json::array(msgs));
    copy_u64(&mut out, body, "max_tokens");
    copy_float(&mut out, body, "temperature");
    copy_float(&mut out, body, "top_p");
    copy_stream(&mut out, body);
    if let Some(stop) = body.get_array("stop_sequences") {
        push_member(&mut out, "stop", Json::array(clone_elements(stop)));
    }
    if let Some(tools) = body.get_array("tools") {
        let converted = anthropic_tools_to_openai(tools);
        if converted.len() > 0 {
            push_member(&mut out, "tools", Json::array(converted));
        }
    }
    if let Some(tc) = body.get("tool_choice") {
        if let Some(c) = anthropic_tool_choice_to_openai(tc) {
            push_member(&mut out, "tool_choice", c);
        }
    }
    Json::object(out)
}

// ---------------------------------------------------------------------------
// OpenAI requests as Anthropic requests
// ---------------------------------------------------------------------------

/// The Anthropic blocks of assistant content that also carries tool calls:
/// a non-empty string as one text block, an array as is, nothing otherwise.
pub open spec fn content_blocks(content: JsonView) -> Seq<JsonView> {
    match content {
        JsonView::Str(s) => if s.len() > 0 { seq![obj2("type"@, JsonView::Str("text"@), "text"@, JsonView::Str(s))] } else { Seq::empty() },
        JsonView::Array(a) => a,
        _ => Seq::empty(),
    }
}

/// The tool calls of a list that convert to `tool_use` blocks.
pub open spec fn anthropic_calls(tcs: Seq<JsonView>) -> Seq<JsonView>
    decreases tcs.len(),
{
    if tcs.len() == 0 {
        Seq::empty()
    } else {
        anthropic_calls(tcs.drop_last()) + match openai_tool_call_to_anthropic_spec(tcs.last()) {
            Some(b) => seq![b],
            None => Seq::empty(),
        }
    }
}

/// One OpenAI message (system messages already removed) as Anthropic
/// messages: a tool message with a string `tool_call_id` becomes a user
/// message holding one tool result with the message's text; a message
/// without a string role, or a tool message without an id, is dropped; any
/// other message keeps its role (`user` unless `assistant`) with converted
/// content, an assistant's tool calls appended as `tool_use` blocks.
pub open spec fn openai_message_to_anthropic(prev: Seq<JsonView>, m: JsonView) -> Seq<JsonView> {
    match role_of(m) {
        None => prev,
        Some(role) => if role == "tool"@ {
            match get_str(m, "tool_call_id"@) {
                Some(id) => prev.push(obj2("role"@, JsonView::Str("user"@), "content"@, JsonView::Array(seq![
                    JsonView::Object(Seq::empty().push(("type"@, JsonView::Str("tool_result"@))).push(("tool_use_id"@, JsonView::Str(id))).push((
                        "content"@,
                        JsonView::Str(match get_str(m, "content"@) {
                            Some(t) => t,
                            None => Seq::empty(),
                        }),
                    ))),
                ]))),
                None => prev,
            }
        } else {
            let content = content_or_empty(m, ProviderFormat::OpenAI, ProviderFormat::Anthropic);
            let final_content = if role == "assistant"@ {
                match get_arr(m, "tool_calls"@) {
                    Some(tcs) => JsonView::Array(content_blocks(content) + anthropic_calls(tcs)),
                    None => content,
                }
            } else {
                content
            };
            prev.push(obj2(
                "role"@,
                JsonView::Str(if role == "assistant"@ { "assistant"@ } else { "user"@ }),
                "content"@,
                final_content,
            ))
        },
    }
}

/// OpenAI messages as Anthropic messages, in order.
pub open spec fn openai_messages_to_anthropic(ms: Seq<JsonView>) -> Seq<JsonView>
    decreases ms.len(),
{
    if ms.len() == 0 {
        Seq::empty()
    } else {
        openai_message_to_anthropic(openai_messages_to_anthropic(ms.drop_last()), ms.last())
    }
}

/// An OpenAI chat request as an Anthropic messages request for `remote`.
pub open spec fn openai_to_anthropic_request_spec(body: JsonView, remote: Seq<char>) -> JsonView {
    let split = split_openai_messages_spec(jget(body, "messages"@));
    let m0 = seq![("model"@, JsonView::Str(remote))];
    let m1 = match split.0 {
        Some(system) => m0.push(("system"@, JsonView::Str(system))),
        None => m0,
    };
    let m2 = m1.push(("messages"@, JsonView::Array(openai_messages_to_anthropic(split.1))));
    let m3 = with_stream(with_float(with_float(with_u64(m2, body, "max_tokens"@), body, "temperature"@), body, "top_p"@), body);
    let m4 = match openai_stop_spec(jget(body, "stop"@)) {
        Some(a) => m3.push(("stop_sequences"@, JsonView::Array(a))),
        None => m3,
    };
    let m5 = match get_arr(body, "tools"@) {
        Some(ts) => if openai_function_decls(ts, "input_schema"@).len() > 0 {
            m4.push(("tools"@, JsonView::Array(openai_function_decls(ts, "input_schema"@))))
        } else {
            m4
        },
        None => m4,
    };
    JsonView::Object(match jget(body, "tool_choice"@) {
        Some(tc) => match openai_tool_choice_to_anthropic_spec(tc) {
            Some(c) => m5.push(("tool_choice"@, c)),
            None => m5,
        },
        None => m5,
    })
}

fn content_blocks_exec(content: Json) -> (r: Vec<Json>)
    ensures
        views(r@) == content_blocks(content.view()),
{
    match content {
        Json::Str(s) => {
            let mut v: Vec<Json> = Vec::new();
            assert(views(v@) =~= Seq::empty());
            if crate::text::char_count(s.as_str()) > 0 {
                let mut m: Vec<(String, Json)> = Vec::new();
                assert(member_views(m@) =~= Seq::empty());
                push_member(&mut m, "type", Json::string("text"));
                push_member(&mut m, "text", Json::Str(s));
                push_element(&mut v, Json::object(m));
                assert(views(v@) =~= seq![views(v@)[0]]);
            }
            v
        },
        Json::Array(a) => a,
        _ => {
            let v: Vec<Json> = Vec::new();
            assert(views(v@) =~= Seq::empty());
            v
        },
    }
}

fn push_anthropic_calls(out: &mut Vec<Json>, tcs: &Vec<Json>)
    ensures
        views(final(out)@) == views(old(out)@) + anthropic_calls(views(tcs@)),
{
    proof {
        lemma_views(tcs@);
    }
    let ghost a = views(tcs@);
    let ghost start = views(out@);
    let mut i: usize = 0;
    assert(a.subrange(0, 0) =~= Seq::<JsonView>::empty());
    assert(views(out@) =~= start + anthropic_calls(a.subrange(0, 0)));
    while i < tcs.len()
        invariant
            i <= tcs@.len(),
            a == views(tcs@),
            a.len() == tcs@.len(),
            forall|k: int| 0 <= k < tcs@.len() ==> #[trigger] a[k] == tcs@[k].view(),
            views(out@) == start + anthropic_calls(a.subrange(0, i as int)),
        decreases tcs.len() - i,
    {
        assert(a.subrange(0, i + 1).drop_last() =~= a.subrange(0, i as int));
        assert(a.subrange(0, i + 1).last() == tcs@[i as int].view());
        match openai_tool_call_to_anthropic(&tcs[i]) {
            Some(b) => {
                push_element(out, b);
                assert(views(out@) =~= start + anthropic_calls(a.subrange(0, i + 1)));
            },
            None => {
                assert(views(out@) =~= start + anthropic_calls(a.subrange(0, i + 1)));
            },
        }
        i = i + 1;
    }
    assert(a.subrange(0, a.len() as int) =~= a);
}

fn openai_messages_to_anthropic_exec(ms: &Vec<Json>) -> (r: Vec<Json>)
    ensures
        views(r@) == openai_messages_to_anthropic(views(ms@)),
{
    proof {
        lemma_views(ms@);
    }
    let ghost a = views(ms@);
    let mut out: Vec<Json> = Vec::new();
    let mut i: usize = 0;
    assert(a.subrange(0, 0) =~= Seq::<JsonView>::empty());
    assert(views(out@) =~= Seq::empty());
    while i < ms.len()
        invariant
            i <= ms@.len(),
            a == views(ms@),
            a.len() == ms@.len(),
            forall|k: int| 0 <= k < ms@.len() ==> #[trigger] a[k] == ms@[k].view(),
            views(out@) == openai_messages_to_anthropic(a.subrange(0, i as int)),
        decreases ms.len() - i,
    {
        assert(a.subrange(0, i + 1).drop_last() =~= a.subrange(0, i as int));
        assert(a.subrange(0, i + 1).last() == ms@[i as int].view());
        let m = &ms[i];
        if let Some(role) = m.get_str("role") {
            if str_eq(role, "tool") {
                if let Some(id) = m.get_str("tool_call_id") {
                    let text: &str = match m.get_str("content") {
                        Some(t) => t,
                        None => {
                            proof {
                                reveal_strlit("");
                                assert(""@ =~= Seq::<char>::empty());
                            }
                            ""
                        },
                    };
                    let mut block: Vec<(String, Json)> = Vec::new();
                    assert(member_views(block@) =~= Seq::empty());
                    push_member(&mut block, "type", Json::string("tool_result"));
                    push_member(&mut block, "tool_use_id", Json::string(id));
                    push_member(&mut block, "content", Json::string(text));
                    let mut blocks: Vec<Json> = Vec::new();
                    assert(views(blocks@) =~= Seq::empty());
                    push_element(&mut blocks, Json::object(block));
                    assert(views(blocks@) =~= seq![views(blocks@)[0]]);
                    let mut msg: Vec<(String, Json)> = Vec::new();
                    assert(member_views(msg@) =~= Seq::empty());
                    push_member(&mut msg, "role", Json::string("user"));
                    push_member(&mut msg, "content", Json::array(blocks));
                    push_element(&mut out, Json::object(msg));
                }
            } else {
                let is_assistant = str_eq(role, "assistant");
                let content = content_or_empty_exec(m, ProviderFormat::OpenAI, ProviderFormat::Anthropic);
                let final_content = if is_assistant {
                    match m.get_array("tool_calls") {
                        Some(tcs) => {
                            let mut blocks = content_blocks_exec(content);
                            push_anthropic_calls(&mut blocks, tcs);
                            Json::array(blocks)
                        },
                        None => content,
                    }
                } else {
                    content
                };
                let mut msg: Vec<(String, Json)> = Vec::new();
                assert(member_views(msg@) =~= Seq::empty());
                push_member(&mut msg, "role", Json::string(if is_assistant { "assistant" } else { "user" }));
                push_member(&mut msg, "content", final_content);
                push_element(&mut out, Json::object(msg));
            }
        }
        i = i + 1;
    }
    assert(a.subrange(0, a.len() as int) =~= a);
    out
}

/// Convert an OpenAI chat request to an Anthropic messages request for
/// `remote_model`.
pub fn openai_to_anthropic_request(body: &Json, remote_model: &str) -> (r: Json)
    ensures
        r.view() == openai_to_anthropic_request_spec(body.view(), remote_model@),
{
    let (system, messages) = split_openai_messages(body.get("messages"));
    let mut out: Vec<(String, Json)> = Vec::new();
    assert(member_views(out@) =~= Seq::empty());
    push_member(&mut out, "model", Json::string(remote_model));
    if let Some(sys) = system {
        push_member(&mut out, "system", Json::Str(sys));
    }
    let converted = openai_messages_to_anthropic_exec(&messages);
    push_member(&mut out, "messages", Json::array(converted));
    copy_u64(&mut out, body, "max_tokens");
    copy_float(&mut out, body, "temperature");
    copy_float(&mut out, body, "top_p");
    copy_stream(&mut out, body);
    if let Some(stop) = openai_stop_to_array(body.get("stop")) {
        push_member(&mut out, "stop_sequences", Json::array(stop));
    }
    if let Some(tools) = body.get_array("tools") {
        let converted_tools = openai_tools_to_anthropic(tools);
        if converted_tools.len() > 0 {
            push_member(&mut out, "tools", Json::array(converted_tools));
        }
    }
    if let Some(tc) = body.get("tool_choice") {
        if let Some(c) = openai_tool_choice_to_anthropic(tc) {
            push_member(&mut out, "tool_choice", c);
        }
    }
    assert(member_views(out@) =~= match openai_to_anthropic_request_spec(body.view(), remote_model@) {
        JsonView::Object(m) => m,
        _ => Seq::empty(),
    });
    Json::object(out)
}

} // verus!
