//! Gemini requests as OpenAI chat requests.

use vstd::prelude::*;
use crate::config::ProviderFormat;
use crate::json::{
    Json, JsonView, NumberView, ToolCallCounts, get_arr, get_float, get_str, get_u64, jget, json_serialize,
    json_to_text, lemma_views, member_views, push_element, push_member, sat_inc, tool_call_id, views,
    clone_elements, json_parse, parse_json, opt_json, opt_owned,
};
use crate::proxy::content::{
    convert_content_spec, convert_message_content, obj1, obj2,
};
use crate::proxy::tools::{
    google_tools_to_openai, google_tools_to_openai_spec, openai_stop_spec, openai_stop_to_array,
    openai_tools_to_google, openai_tools_to_google_spec,
};
use crate::text::{
    chars_of, contains_exec, contains_seq, join_seq, str_eq, string_push_str,
};

verus! {

/// How many ids were minted per function name.
pub type IdCounts = spec_fn(Seq<char>) -> usize;

/// No ids minted yet.
pub open spec fn no_ids() -> IdCounts {
    |n: Seq<char>| 0usize
}

/// `c` after minting one more id for `name`.
pub open spec fn bump(c: IdCounts, name: Seq<char>) -> IdCounts {
    |n: Seq<char>| if n == name { sat_inc(c(name)) } else { c(n) }
}

/// The `name` of a function call or response; empty when it has none.
pub open spec fn fn_name(x: JsonView) -> Seq<char> {
    match get_str(x, "name"@) {
        Some(n) => n,
        None => Seq::empty(),
    }
}

/// Member `key`, or null.
pub open spec fn member_or_null(x: JsonView, key: Seq<char>) -> JsonView {
    match jget(x, key) {
        Some(v) => v,
        None => JsonView::Null,
    }
}

/// An OpenAI tool message carrying a function's result as JSON text.
pub open spec fn tool_result_msg(id: Seq<char>, response: JsonView) -> JsonView {
    JsonView::Object(Seq::empty().push(("role"@, JsonView::Str("tool"@))).push(("tool_call_id"@, JsonView::Str(id))).push((
        "content"@,
        JsonView::Str(json_serialize(response)),
    )))
}

/// An OpenAI tool call with its arguments as JSON text.
pub open spec fn tool_call_json(id: Seq<char>, name: Seq<char>, args: JsonView) -> JsonView {
    JsonView::Object(Seq::empty().push(("id"@, JsonView::Str(id))).push(("type"@, JsonView::Str("function"@))).push((
        "function"@,
        JsonView::Object(Seq::empty().push(("name"@, JsonView::Str(name))).push(("arguments"@, JsonView::Str(json_serialize(args))))),
    )))
}

/// The parts of a user turn split into ordinary parts and tool results;
/// each function response gets the next result id of its function.
pub open spec fn google_user_parts(ps: Seq<JsonView>, c: IdCounts) -> (Seq<JsonView>, Seq<JsonView>, IdCounts)
    decreases ps.len(),
{
    if ps.len() == 0 {
        (Seq::empty(), Seq::empty(), c)
    } else {
        let prev = google_user_parts(ps.drop_last(), c);
        let p = ps.last();
        match jget(p, "functionResponse"@) {
            Some(fr) => {
                let name = fn_name(fr);
                (prev.0, prev.1.push(tool_result_msg(tool_call_id(name, (prev.2)(name)), member_or_null(fr, "response"@))), bump(prev.2, name))
            },
            None => (prev.0.push(p), prev.1, prev.2),
        }
    }
}

/// The parts of a model turn split into ordinary parts and tool calls; each
/// function call gets the next call id of its function.
pub open spec fn google_model_parts(ps: Seq<JsonView>, c: IdCounts) -> (Seq<JsonView>, Seq<JsonView>, IdCounts)
    decreases ps.len(),
{
    if ps.len() == 0 {
        (Seq::empty(), Seq::empty(), c)
    } else {
        let prev = google_model_parts(ps.drop_last(), c);
        let p = ps.last();
        match jget(p, "functionCall"@) {
            Some(fc) => {
                let name = fn_name(fc);
                (prev.0, prev.1.push(tool_call_json(tool_call_id(name, (prev.2)(name)), name, member_or_null(fc, "args"@))), bump(prev.2, name))
            },
            None => (prev.0.push(p), prev.1, prev.2),
        }
    }
}

/// Messages so far and the ids minted so far for calls and for results.
pub struct GeminiFold {
    pub msgs: Seq<JsonView>,
    pub calls: IdCounts,
    pub results: IdCounts,
}

/// The parts of a turn, or none.
pub open spec fn turn_parts(c: JsonView) -> Seq<JsonView> {
    match get_arr(c, "parts"@) {
        Some(a) => a,
        None => Seq::empty(),
    }
}

/// Read one Gemini turn: a model turn becomes an assistant message with its
/// tool calls; any other turn becomes a user message (when it has ordinary
/// parts) followed by one tool message per function response.
pub open spec fn gemini_turn_step(st: GeminiFold, c: JsonView) -> GeminiFold {
    let ps = turn_parts(c);
    if get_str(c, "role"@) == Some("model"@) {
        let split = google_model_parts(ps, st.calls);
        let base = Seq::empty().push(("role"@, JsonView::Str("assistant"@))).push((
            "content"@,
            convert_content_spec(JsonView::Array(split.0), ProviderFormat::Google, ProviderFormat::OpenAI),
        ));
        let msg = JsonView::Object(if split.1.len() > 0 { base.push(("tool_calls"@, JsonView::Array(split.1))) } else { base });
        GeminiFold { msgs: st.msgs.push(msg), calls: split.2, results: st.results }
    } else {
        let split = google_user_parts(ps, st.results);
        let with_user = if split.0.len() > 0 {
            st.msgs.push(obj2(
                "role"@,
                JsonView::Str("user"@),
                "content"@,
                convert_content_spec(JsonView::Array(split.0), ProviderFormat::Google, ProviderFormat::OpenAI),
            ))
        } else {
            st.msgs
        };
        GeminiFold { msgs: with_user + split.1, calls: st.calls, results: split.2 }
    }
}

/// Read a list of Gemini turns in order.
pub open spec fn gemini_turns(st: GeminiFold, cs: Seq<JsonView>) -> GeminiFold
    decreases cs.len(),
{
    if cs.len() == 0 {
        st
    } else {
        gemini_turn_step(gemini_turns(st, cs.drop_last()), cs.last())
    }
}

/// The `text` members of a list of parts, concatenated.
pub open spec fn texts_joined(ps: Seq<JsonView>) -> Seq<char>
    decreases ps.len(),
{
    if ps.len() == 0 {
        Seq::empty()
    } else {
        texts_joined(ps.drop_last()) + match get_str(ps.last(), "text"@) {
            Some(t) => t,
            None => Seq::empty(),
        }
    }
}

/// The system message of a Gemini request: the text of its system
/// instruction, when that is not empty.
pub open spec fn gemini_system(body: JsonView) -> Seq<JsonView> {
    match jget(body, "systemInstruction"@) {
        Some(si) => match get_arr(si, "parts"@) {
            Some(ps) => if texts_joined(ps).len() > 0 {
                seq![obj2("role"@, JsonView::Str("system"@), "content"@, JsonView::Str(texts_joined(ps)))]
            } else {
                Seq::empty()
            },
            None => Seq::empty(),
        },
        None => Seq::empty(),
    }
}

/// A Gemini `generateContent` request as an OpenAI chat request for
/// `remote`: system instruction, turns, generation settings, tools and JSON
/// mode.
pub open spec fn google_to_openai_request_spec(body: JsonView, remote: Seq<char>) -> JsonView {
    let contents = match get_arr(body, "contents"@) {
        Some(a) => a,
        None => Seq::empty(),
    };
    let folded = gemini_turns(GeminiFold { msgs: gemini_system(body), calls: no_ids(), results: no_ids() }, contents);
    let gen = member_or_null(body, "generationConfig"@);
    let m0 = Seq::empty().push(("model"@, JsonView::Str(remote))).push(("messages"@, JsonView::Array(folded.msgs)));
    let m1 = match get_u64(gen, "maxOutputTokens"@) {
        Some(v) => m0.push(("max_tokens"@, JsonView::Number(NumberView::PosInt(v)))),
        None => m0,
    };
    let m2 = match get_float(gen, "temperature"@) {
        Some(n) => m1.push(("temperature"@, JsonView::Number(n))),
        None => m1,
    };
    let m3 = match get_float(gen, "topP"@) {
        Some(n) => m2.push(("top_p"@, JsonView::Number(n))),
        None => m2,
    };
    let m4 = match get_arr(gen, "stopSequences"@) {
        Some(a) => m3.push(("stop"@, JsonView::Array(a))),
        None => m3,
    };
    let m5 = match get_arr(body, "tools"@) {
        Some(ts) => if google_tools_to_openai_spec(ts).len() > 0 {
            m4.push(("tools"@, JsonView::Array(google_tools_to_openai_spec(ts))))
        } else {
            m4
        },
        None => m4,
    };
    let m6 = match get_str(gen, "responseMimeType"@) {
        Some(mt) => if contains_seq(mt, "json"@) {
            m5.push(("response_format"@, obj1("type"@, JsonView::Str("json_object"@))))
        } else {
            m5
        },
        None => m5,
    };
    JsonView::Object(m6)
}

fn name_or_empty(x: &Json) -> (r: &str)
    ensures
        r@ == fn_name(x.view()),
{
    match x.get_str("name") {
        Some(n) => n,
        None => {
            proof {
                reveal_strlit("");
            }
            ""
        },
    }
}

fn clone_or_null(x: &Json, key: &str) -> (r: Json)
    ensures
        r.view() == member_or_null(x.view(), key@),
{
    match x.get(key) {
        Some(v) => v.deep_clone(),
        None => Json::Null,
    }
}

fn split_user_parts(ps: &Vec<Json>, counts: &mut ToolCallCounts) -> (r: (Vec<Json>, Vec<Json>))
    ensures
        ({
            let s = google_user_parts(views(ps@), |n: Seq<char>| old(counts).count(n));
            &&& views(r.0@) == s.0
            &&& views(r.1@) == s.1
            &&& forall|n: Seq<char>| #[trigger] final(counts).count(n) == (s.2)(n)
        }),
{
    proof {
        lemma_views(ps@);
    }
    let ghost a = views(ps@);
    let ghost c0: IdCounts = |n: Seq<char>| old(counts).count(n);
    let mut user: Vec<Json> = Vec::new();
    let mut results: Vec<Json> = Vec::new();
    let mut i: usize = 0;
    assert(a.subrange(0, 0) =~= Seq::<JsonView>::empty());
    assert(views(user@) =~= Seq::empty());
    assert(views(results@) =~= Seq::empty());
    while i < ps.len()
        invariant
            i <= ps@.len(),
            a == views(ps@),
            a.len() == ps@.len(),
            forall|k: int| 0 <= k < ps@.len() ==> #[trigger] a[k] == ps@[k].view(),
            c0 == (|n: Seq<char>| old(counts).count(n)),
            ({
                let s = google_user_parts(a.subrange(0, i as int), c0);
                &&& views(user@) == s.0
                &&& views(results@) == s.1
                &&& forall|n: Seq<char>| #[trigger] counts.count(n) == (s.2)(n)
            }),
        decreases ps.len() - i,
    {
        assert(a.subrange(0, i + 1).drop_last() =~= a.subrange(0, i as int));
        assert(a.subrange(0, i + 1).last() == ps@[i as int].view());
        let p = &ps[i];
        match p.get("functionResponse") {
            Some(fr) => {
                let name = name_or_empty(fr);
                let id = counts.next_tool_call_id(name);
                let response = clone_or_null(fr, "response");
                let text = json_to_text(&response);
                let mut m: Vec<(String, Json)> = Vec::new();
                assert(member_views(m@) =~= Seq::empty());
                push_member(&mut m, "role", Json::string("tool"));
                push_member(&mut m, "tool_call_id", Json::Str(id));
                push_member(&mut m, "content", Json::Str(text));
                push_element(&mut results, Json::object(m));
            },
            None => {
                push_element(&mut user, p.deep_clone());
            },
        }
        i = i + 1;
    }
    assert(a.subrange(0, a.len() as int) =~= a);
    (user, results)
}

fn split_model_parts(ps: &Vec<Json>, counts: &mut ToolCallCounts) -> (r: (Vec<Json>, Vec<Json>))
    ensures
        ({
            let s = google_model_parts(views(ps@), |n: Seq<char>| old(counts).count(n));
            &&& views(r.0@) == s.0
            &&& views(r.1@) == s.1
            &&& forall|n: Seq<char>| #[trigger] final(counts).count(n) == (s.2)(n)
        }),
{
    proof {
        lemma_views(ps@);
    }
    let ghost a = views(ps@);
    let ghost c0: IdCounts = |n: Seq<char>| old(counts).count(n);
    let mut parts: Vec<Json> = Vec::new();
    let mut calls: Vec<Json> = Vec::new();
    let mut i: usize = 0;
    assert(a.subrange(0, 0) =~= Seq::<JsonView>::empty());
    assert(views(parts@) =~= Seq::empty());
    assert(views(calls@) =~= Seq::empty());
    while i < ps.len()
        invariant
            i <= ps@.len(),
            a == views(ps@),
            a.len() == ps@.len(),
            forall|k: int| 0 <= k < ps@.len() ==> #[trigger] a[k] == ps@[k].view(),
            c0 == (|n: Seq<char>| old(counts).count(n)),
            ({
                let s = google_model_parts(a.subrange(0, i as int), c0);
                &&& views(parts@) == s.0
                &&& views(calls@) == s.1
                &&& forall|n: Seq<char>| #[trigger] counts.count(n) == (s.2)(n)
            }),
        decreases ps.len() - i,
    {
        assert(a.subrange(0, i + 1).drop_last() =~= a.subrange(0, i as int));
        assert(a.subrange(0, i + 1).last() == ps@[i as int].view());
        let p = &ps[i];
        match p.get("functionCall") {
            Some(fc) => {
                let name = name_or_empty(fc);
                let args = clone_or_null(fc, "args");
                let id = counts.next_tool_call_id(name);
                let text = json_to_text(&args);
                let mut f: Vec<(String, Json)> = Vec::new();
                assert(member_views(f@) =~= Seq::empty());
                push_member(&mut f, "name", Json::string(name));
                push_member(&mut f, "arguments", Json::Str(text));
                let mut m: Vec<(String, Json)> = Vec::new();
                assert(member_views(m@) =~= Seq::empty());
                push_member(&mut m, "id", Json::Str(id));
                push_member(&mut m, "type", Json::string("function"));
                push_member(&mut m, "function", Json::object(f));
                push_element(&mut calls, Json::object(m));
            },
            None => {
                push_element(&mut parts, p.deep_clone());
            },
        }
        i = i + 1;
    }
    assert(a.subrange(0, a.len() as int) =~= a);
    (parts, calls)
}

fn gemini_system_exec(body: &Json) -> (r: Vec<Json>)
    ensures
        views(r@) == gemini_system(body.view()),
{
    let mut out: Vec<Json> = Vec::new();
    assert(views(out@) =~= Seq::empty());
    let ps = match body.get("systemInstruction") {
        Some(si) => match si.get_array("parts") {
            Some(ps) => ps,
            None => return out,
        },
        None => return out,
    };
    proof {
        lemma_views(ps@);
    }
    let ghost a = views(ps@);
    let mut text = String::new();
    let mut i: usize = 0;
    assert(a.subrange(0, 0) =~= Seq::<JsonView>::empty());
    while i < ps.len()
        invariant
            i <= ps@.len(),
            a == views(ps@),
            a.len() == ps@.len(),
            forall|k: int| 0 <= k < ps@.len() ==> #[trigger] a[k] == ps@[k].view(),
            text@ == texts_joined(a.subrange(0, i as int)),
        decreases ps.len() - i,
    {
        assert(a.subrange(0, i + 1).drop_last() =~= a.subrange(0, i as int));
        assert(a.subrange(0, i + 1).last() == ps@[i as int].view());
        match ps[i].get_str("text") {
            Some(t) => string_push_str(&mut text, t),
            None => {
                assert(text@ =~= text@ + Seq::<char>::empty());
            },
        }
        i = i + 1;
    }
    assert(a.subrange(0, a.len() as int) =~= a);
    if crate::text::char_count(text.as_str()) > 0 {
        let mut m: Vec<(String, Json)> = Vec::new();
        assert(member_views(m@) =~= Seq::empty());
        push_member(&mut m, "role", Json::string("system"));
        push_member(&mut m, "content", Json::Str(text));
        push_element(&mut out, Json::object(m));
        assert(views(out@) =~= gemini_system(body.view()));
    }
    out
}

fn turn_parts_exec(c: &Json) -> (r: Vec<Json>)
    ensures
        views(r@) == turn_parts(c.view()),
{
    match c.get_array("parts") {
        Some(a) => clone_elements(a),
        None => {
            let v: Vec<Json> = Vec::new();
            assert(views(v@) =~= Seq::empty());
            v
        },
    }
}

fn is_model_turn(c: &Json) -> (b: bool)
    ensures
        b == (get_str(c.view(), "role"@) == Some("model"@)),
{
    match c.get_str("role") {
        Some(r) => str_eq(r, "model"),
        None => false,
    }
}

fn append_all(out: &mut Vec<Json>, more: &Vec<Json>)
    ensures
        views(final(out)@) == views(old(out)@) + views(more@),
{
    proof {
        lemma_views(more@);
    }
    let ghost m0 = views(more@);
    let ghost start = views(out@);
    let mut i: usize = 0;
    assert(views(out@) =~= start + m0.subrange(0, 0));
    while i < more.len()
        invariant
            i <= more@.len(),
            m0 == views(more@),
            m0.len() == more@.len(),
            forall|k: int| 0 <= k < more@.len() ==> #[trigger] m0[k] == more@[k].view(),
            views(out@) == start + m0.subrange(0, i as int),
        decreases more.len() - i,
    {
        push_element(out, more[i].deep_clone());
        i = i + 1;
        assert(views(out@) =~= start + m0.subrange(0, i as int));
    }
    assert(m0.subrange(0, m0.len() as int) =~= m0);
}

fn gemini_turns_exec(contents: &Vec<Json>, msgs: &mut Vec<Json>, calls: &mut ToolCallCounts, results: &mut ToolCallCounts)
    ensures
        ({
            let f = gemini_turns(
                GeminiFold {
                    msgs: views(old(msgs)@),
                    calls: |n: Seq<char>| old(calls).count(n),
                    results: |n: Seq<char>| old(results).count(n),
                },
                views(contents@),
            );
            &&& views(final(msgs)@) == f.msgs
            &&& forall|n: Seq<char>| #[trigger] final(calls).count(n) == (f.calls)(n)
            &&& forall|n: Seq<char>| #[trigger] final(results).count(n) == (f.results)(n)
        }),
{
    proof {
        lemma_views(contents@);
    }
    let ghost a = views(contents@);
    let ghost st0 = GeminiFold {
        msgs: views(msgs@),
        calls: |n: Seq<char>| calls.count(n),
        results: |n: Seq<char>| results.count(n),
    };
    let mut i: usize = 0;
    assert(a.subrange(0, 0) =~= Seq::<JsonView>::empty());
    while i < contents.len()
        invariant
            i <= contents@.len(),
            a == views(contents@),
            a.len() == contents@.len(),
            forall|k: int| 0 <= k < contents@.len() ==> #[trigger] a[k] == contents@[k].view(),
            st0 == (GeminiFold {
                msgs: views(old(msgs)@),
                calls: |n: Seq<char>| old(calls).count(n),
                results: |n: Seq<char>| old(results).count(n),
            }),
            ({
                let st = gemini_turns(st0, a.subrange(0, i as int));
                &&& views(msgs@) == st.msgs
                &&& forall|n: Seq<char>| #[trigger] calls.count(n) == (st.calls)(n)
                &&& forall|n: Seq<char>| #[trigger] results.count(n) == (st.results)(n)
            }),
        decreases contents.len() - i,
    {
        assert(a.subrange(0, i + 1).drop_last() =~= a.subrange(0, i as int));
        assert(a.subrange(0, i + 1).last() == contents@[i as int].view());
        let ghost st = gemini_turns(st0, a.subrange(0, i as int));
        let c = &contents[i];
        let ps = turn_parts_exec(c);
        if is_model_turn(c) {
            assert((|n: Seq<char>| calls.count(n)) =~= st.calls);
            let (parts, tool_calls) = split_model_parts(&ps, calls);
            let content = convert_message_content(&Json::array(parts), ProviderFormat::Google, ProviderFormat::OpenAI);
            let mut m: Vec<(String, Json)> = Vec::new();
            assert(member_views(m@) =~= Seq::empty());
            push_member(&mut m, "role", Json::string("assistant"));
            push_member(&mut m, "content", content);
            if tool_calls.len() > 0 {
                push_member(&mut m, "tool_calls", Json::array(tool_calls));
            }
            push_element(msgs, Json::object(m));
        } else {
            assert((|n: Seq<char>| results.count(n)) =~= st.results);
            let (user, tool_results) = split_user_parts(&ps, results);
            if user.len() > 0 {
                let content = convert_message_content(&Json::array(user), ProviderFormat::Google, ProviderFormat::OpenAI);
                let mut m: Vec<(String, Json)> = Vec::new();
                assert(member_views(m@) =~= Seq::empty());
                push_member(&mut m, "role", Json::string("user"));
                push_member(&mut m, "content", content);
                push_element(msgs, Json::object(m));
            }
            append_all(msgs, &tool_results);
        }
        i = i + 1;
    }
    assert(a.subrange(0, a.len() as int) =~= a);
}

/// Convert a Gemini request to an OpenAI chat request for `remote_model`.
/// Function calls and responses, which carry no ids in Gemini, get ids
/// `call_{name}_{n}` numbered per function in order, so parallel calls and
/// their results pair up positionally.
pub fn google_to_openai_request(body: &Json, remote_model: &str) -> (r: Json)
    ensures
        r.view() == google_to_openai_request_spec(body.view(), remote_model@),
{
    let mut msgs = gemini_system_exec(body);
    let mut calls = ToolCallCounts::new();
    let mut results = ToolCallCounts::new();
    let ghost before = views(msgs@);
    let ghost c0 = calls;
    let ghost r0 = results;
    proof {
        assert((|n: Seq<char>| c0.count(n)) =~= no_ids());
        assert((|n: Seq<char>| r0.count(n)) =~= no_ids());
    }
    let ghost contents_v = match get_arr(body.view(), "contents"@) {
        Some(a) => a,
        None => Seq::empty(),
    };
    match body.get_array("contents") {
        Some(contents) => {
            gemini_turns_exec(contents, &mut msgs, &mut calls, &mut results);
        },
        None => {
            let empty: Vec<Json> = Vec::new();
            assert(views(empty@) =~= Seq::empty());
            gemini_turns_exec(&empty, &mut msgs, &mut calls, &mut results);
        },
    }
    assert(views(msgs@) == gemini_turns(GeminiFold { msgs: gemini_system(body.view()), calls: no_ids(), results: no_ids() }, contents_v).msgs);
    let gen = clone_or_null(body, "generationConfig");
    let mut m: Vec<(String, Json)> = Vec::new();
    assert(member_views(m@) =~= Seq::empty());
    push_member(&mut m, "model", Json::string(remote_model));
    push_member(&mut m, "messages", Json::array(msgs));
    if let Some(v) = gen.get_u64("maxOutputTokens") {
        push_member(&mut m, "max_tokens", Json::unsigned(v));
    }
    if let Some(t) = gen.get_float("temperature") {
        push_member(&mut m, "temperature", t);
    }
    if let Some(t) = gen.get_float("topP") {
        push_member(&mut m, "top_p", t);
    }
    if let Some(stop) = gen.get_array("stopSequences") {
        push_member(&mut m, "stop", Json::array(clone_elements(stop)));
    }
    if let Some(tools) = body.get_array("tools") {
        let converted = google_tools_to_openai(tools);
        if converted.len() > 0 {
            push_member(&mut m, "tools", Json::array(converted));
        }
    }
    if let Some(mt) = gen.get_str("responseMimeType") {
        if contains_exec(&chars_of(mt), &chars_of("json")) {
            let mut f: Vec<(String, Json)> = Vec::new();
            assert(member_views(f@) =~= Seq::empty());
            push_member(&mut f, "type", Json::string("json_object"));
            push_member(&mut m, "response_format", Json::object(f));
        }
    }
    Json::object(m)
}

// ---------------------------------------------------------------------------
// OpenAI chat requests as Gemini requests
// ---------------------------------------------------------------------------

/// The text parts of message content: a string itself, or the `text` of
/// each `text` part of an array, concatenated; nothing for anything else.
pub open spec fn text_content(content: JsonView) -> Seq<char> {
    match content {
        JsonView::Str(s) => s,
        JsonView::Array(a) => text_parts_joined(a),
        _ => Seq::empty(),
    }
}

/// The `text` of each `text` part, concatenated.
pub open spec fn text_parts_joined(a: Seq<JsonView>) -> Seq<char>
    decreases a.len(),
{
    if a.len() == 0 {
        Seq::empty()
    } else {
        text_parts_joined(a.drop_last()) + if get_str(a.last(), "type"@) == Some("text"@) {
            match get_str(a.last(), "text"@) {
                Some(t) => t,
                None => Seq::empty(),
            }
        } else {
            Seq::empty()
        }
    }
}

/// Read message content as plain text.
pub fn text_content_to_string(content: &Json) -> (r: String)
    ensures
        r@ == text_content(content.view()),
{
    match content {
        Json::Str(s) => s.clone(),
        Json::Array(a) => {
            proof {
                lemma_views(a@);
            }
            let ghost av = views(a@);
            let mut out = String::new();
            let mut i: usize = 0;
            assert(av.subrange(0, 0) =~= Seq::<JsonView>::empty());
            while i < a.len()
                invariant
                    i <= a@.len(),
                    av == views(a@),
                    av.len() == a@.len(),
                    forall|k: int| 0 <= k < a@.len() ==> #[trigger] av[k] == a@[k].view(),
                    out@ == text_parts_joined(av.subrange(0, i as int)),
                decreases a.len() - i,
            {
                assert(av.subrange(0, i + 1).drop_last() =~= av.subrange(0, i as int));
                assert(av.subrange(0, i + 1).last() == a@[i as int].view());
                let p = &a[i];
                let is_text = match p.get_str("type") {
                    Some(t) => str_eq(t, "text"),
                    None => false,
                };
                if is_text {
                    match p.get_str("text") {
                        Some(t) => string_push_str(&mut out, t),
                        None => {
                            assert(out@ =~= out@ + Seq::<char>::empty());
                        },
                    }
                } else {
                    assert(out@ =~= out@ + Seq::<char>::empty());
                }
                i = i + 1;
            }
            assert(av.subrange(0, av.len() as int) =~= av);
            out
        },
        _ => String::new(),
    }
}

/// The role of a message, where it is a string.
pub open spec fn role_of(m: JsonView) -> Option<Seq<char>> {
    get_str(m, "role"@)
}

/// The system texts and the other messages of an OpenAI message list.
pub open spec fn split_messages(ms: Seq<JsonView>) -> (Seq<Seq<char>>, Seq<JsonView>)
    decreases ms.len(),
{
    if ms.len() == 0 {
        (Seq::empty(), Seq::empty())
    } else {
        let prev = split_messages(ms.drop_last());
        let m = ms.last();
        if role_of(m) == Some("system"@) {
            (prev.0.push(match jget(m, "content"@) {
                Some(c) => text_content(c),
                None => Seq::empty(),
            }), prev.1)
        } else {
            (prev.0, prev.1.push(m))
        }
    }
}

/// The system prompt of an OpenAI message list (system texts joined by
/// newlines; none without system messages) and the remaining messages.
pub open spec fn split_openai_messages_spec(messages: Option<JsonView>) -> (Option<Seq<char>>, Seq<JsonView>) {
    let ms = match messages {
        Some(JsonView::Array(a)) => a,
        _ => Seq::empty(),
    };
    let s = split_messages(ms);
    (if s.0.len() == 0 { None } else { Some(join_seq(s.0, "\n"@)) }, s.1)
}

/// Separate the system prompt from the other messages of an OpenAI request.
pub fn split_openai_messages(messages: Option<&Json>) -> (r: (Option<String>, Vec<Json>))
    ensures
        ({
            let s = split_openai_messages_spec(opt_json(messages));
            &&& crate::secrets::opt_view(r.0) == s.0
            &&& views(r.1@) == s.1
        }),
{
    let empty: Vec<Json> = Vec::new();
    let ms: &Vec<Json> = match messages {
        Some(Json::Array(a)) => a,
        _ => &empty,
    };
    proof {
        lemma_views(ms@);
    }
    let ghost a = views(ms@);
    assert(a == match opt_json(messages) {
        Some(JsonView::Array(x)) => x,
        _ => Seq::<JsonView>::empty(),
    });
    let mut system = String::new();
    let mut count: usize = 0;
    let ghost mut texts: Seq<Seq<char>> = Seq::empty();
    let mut out: Vec<Json> = Vec::new();
    let mut i: usize = 0;
    assert(a.subrange(0, 0) =~= Seq::<JsonView>::empty());
    assert(views(out@) =~= Seq::empty());
    while i < ms.len()
        invariant
            i <= ms@.len(),
            a == views(ms@),
            a.len() == ms@.len(),
            forall|k: int| 0 <= k < ms@.len() ==> #[trigger] a[k] == ms@[k].view(),
            texts == split_messages(a.subrange(0, i as int)).0,
            views(out@) == split_messages(a.subrange(0, i as int)).1,
            count == texts.len(),
            count <= i,
            system@ == join_seq(texts, "\n"@),
        decreases ms.len() - i,
    {
        assert(a.subrange(0, i + 1).drop_last() =~= a.subrange(0, i as int));
        assert(a.subrange(0, i + 1).last() == ms@[i as int].view());
        let m = &ms[i];
        let is_system = match m.get_str("role") {
            Some(r) => str_eq(r, "system"),
            None => false,
        };
        if is_system {
            let t = match m.get("content") {
                Some(c) => text_content_to_string(c),
                None => String::new(),
            };
            if count > 0 {
                string_push_str(&mut system, "\n");
            }
            let ghost prev = system@;
            string_push_str(&mut system, t.as_str());
            proof {
                let nt = texts.push(t@);
                assert(nt.drop_last() =~= texts);
                if texts.len() == 0 {
                    assert(join_seq(nt, "\n"@) == t@);
                    assert(prev =~= Seq::<char>::empty());
                    assert(system@ =~= t@);
                } else {
                    assert(system@ =~= join_seq(texts, "\n"@) + "\n"@ + t@);
                }
                texts = nt;
            }
            count = count + 1;
        } else {
            push_element(&mut out, m.deep_clone());
        }
        i = i + 1;
    }
    assert(a.subrange(0, a.len() as int) =~= a);
    if count == 0 {
        (None, out)
    } else {
        (Some(system), out)
    }
}

/// Where a tool-call id turned up: not at all, or with the name it names
/// (which may be missing).
pub open spec fn name_in_calls(tcs: Seq<JsonView>, id: Seq<char>) -> Option<Option<Seq<char>>>
    decreases tcs.len(),
{
    if tcs.len() == 0 {
        None
    } else {
        match name_in_calls(tcs.drop_last(), id) {
            Some(r) => Some(r),
            None => if get_str(tcs.last(), "id"@) == Some(id) {
                Some(match jget(tcs.last(), "function"@) {
                    Some(f) => get_str(f, "name"@),
                    None => None,
                })
            } else {
                None
            },
        }
    }
}

/// Where a tool-use id turned up among Anthropic content blocks.
pub open spec fn name_in_blocks(bs: Seq<JsonView>, id: Seq<char>) -> Option<Option<Seq<char>>>
    decreases bs.len(),
{
    if bs.len() == 0 {
        None
    } else {
        match name_in_blocks(bs.drop_last(), id) {
            Some(r) => Some(r),
            None => if get_str(bs.last(), "type"@) == Some("tool_use"@) && get_str(bs.last(), "id"@) == Some(id) {
                Some(get_str(bs.last(), "name"@))
            } else {
                None
            },
        }
    }
}

/// The function name of tool call `id`, searching the messages from the
/// last: in an assistant message first its OpenAI tool calls, then its
/// Anthropic tool-use blocks. The first message that mentions the id
/// decides, also when the mention has no name.
pub open spec fn find_tool_name_spec(ms: Seq<JsonView>, id: Seq<char>) -> Option<Seq<char>>
    decreases ms.len(),
{
    if ms.len() == 0 {
        None
    } else {
        let m = ms.last();
        if role_of(m) == Some("assistant"@) {
            match name_in_calls(match get_arr(m, "tool_calls"@) {
                Some(a) => a,
                None => Seq::empty(),
            }, id) {
                Some(r) => r,
                None => match name_in_blocks(match get_arr(m, "content"@) {
                    Some(a) => a,
                    None => Seq::empty(),
                }, id) {
                    Some(r) => r,
                    None => find_tool_name_spec(ms.drop_last(), id),
                },
            }
        } else {
            find_tool_name_spec(ms.drop_last(), id)
        }
    }
}

fn opt_string(o: Option<&str>) -> (r: Option<String>)
    ensures
        crate::secrets::opt_view(r) == crate::json::opt_text(o),
{
    match o {
        Some(s) => Some(s.to_owned()),
        None => None,
    }
}

fn name_in_calls_exec(tcs: &Vec<Json>, id: &str) -> (r: Option<Option<String>>)
    ensures
        match r {
            Some(x) => name_in_calls(views(tcs@), id@) == Some(crate::secrets::opt_view(x)),
            None => name_in_calls(views(tcs@), id@) is None,
        },
{
    proof {
        lemma_views(tcs@);
    }
    let ghost a = views(tcs@);
    let mut i: usize = 0;
    assert(a.subrange(0, 0) =~= Seq::<JsonView>::empty());
    while i < tcs.len()
        invariant
            i <= tcs@.len(),
            a == views(tcs@),
            a.len() == tcs@.len(),
            forall|k: int| 0 <= k < tcs@.len() ==> #[trigger] a[k] == tcs@[k].view(),
            name_in_calls(a.subrange(0, i as int), id@) is None,
        decreases tcs.len() - i,
    {
        assert(a.subrange(0, i + 1).drop_last() =~= a.subrange(0, i as int));
        assert(a.subrange(0, i + 1).last() == tcs@[i as int].view());
        let tc = &tcs[i];
        let hit = match tc.get_str("id") {
            Some(x) => str_eq(x, id),
            None => false,
        };
        if hit {
            let name = match tc.get("function") {
                Some(f) => opt_string(f.get_str("name")),
                None => None,
            };
            proof {
                lemma_name_in_calls_prefix(a, id@, i as int + 1);
            }
            return Some(name);
        }
        i = i + 1;
    }
    assert(a.subrange(0, a.len() as int) =~= a);
    None
}

proof fn lemma_name_in_calls_prefix(a: Seq<JsonView>, id: Seq<char>, n: int)
    requires
        0 <= n <= a.len(),
        name_in_calls(a.subrange(0, n), id) is Some,
    ensures
        name_in_calls(a, id) == name_in_calls(a.subrange(0, n), id),
    decreases a.len() - n,
{
    if n < a.len() {
        assert(a.subrange(0, n + 1).drop_last() =~= a.subrange(0, n));
        lemma_name_in_calls_prefix(a, id, n + 1);
    } else {
        assert(a.subrange(0, n) =~= a);
    }
}

proof fn lemma_name_in_blocks_prefix(a: Seq<JsonView>, id: Seq<char>, n: int)
    requires
        0 <= n <= a.len(),
        name_in_blocks(a.subrange(0, n), id) is Some,
    ensures
        name_in_blocks(a, id) == name_in_blocks(a.subrange(0, n), id),
    decreases a.len() - n,
{
    if n < a.len() {
        assert(a.subrange(0, n + 1).drop_last() =~= a.subrange(0, n));
        lemma_name_in_blocks_prefix(a, id, n + 1);
    } else {
        assert(a.subrange(0, n) =~= a);
    }
}

fn name_in_blocks_exec(bs: &Vec<Json>, id: &str) -> (r: Option<Option<String>>)
    ensures
        match r {
            Some(x) => name_in_blocks(views(bs@), id@) == Some(crate::secrets::opt_view(x)),
            None => name_in_blocks(views(bs@), id@) is None,
        },
{
    proof {
        lemma_views(bs@);
    }
    let ghost a = views(bs@);
    let mut i: usize = 0;
    assert(a.subrange(0, 0) =~= Seq::<JsonView>::empty());
    while i < bs.len()
        invariant
            i <= bs@.len(),
            a == views(bs@),
            a.len() == bs@.len(),
            forall|k: int| 0 <= k < bs@.len() ==> #[trigger] a[k] == bs@[k].view(),
            name_in_blocks(a.subrange(0, i as int), id@) is None,
        decreases bs.len() - i,
    {
        assert(a.subrange(0, i + 1).drop_last() =~= a.subrange(0, i as int));
        assert(a.subrange(0, i + 1).last() == bs@[i as int].view());
        let b = &bs[i];
        let is_use = match b.get_str("type") {
            Some(t) => str_eq(t, "tool_use"),
            None => false,
        };
        let same = match b.get_str("id") {
            Some(x) => str_eq(x, id),
            None => false,
        };
        if is_use && same {
            let name = opt_string(b.get_str("name"));
            proof {
                lemma_name_in_blocks_prefix(a, id@, i as int + 1);
            }
            return Some(name);
        }
        i = i + 1;
    }
    assert(a.subrange(0, a.len() as int) =~= a);
    None
}

/// Find the function name of a tool call from the message history.
pub fn find_tool_name_by_id(messages: &Vec<Json>, tool_use_id: &str) -> (r: Option<String>)
    ensures
        crate::secrets::opt_view(r) == find_tool_name_spec(views(messages@), tool_use_id@),
{
    proof {
        lemma_views(messages@);
    }
    let ghost a = views(messages@);
    let mut i: usize = messages.len();
    assert(a.subrange(0, a.len() as int) =~= a);
    while i > 0
        invariant
            i <= messages@.len(),
            a == views(messages@),
            a.len() == messages@.len(),
            forall|k: int| 0 <= k < messages@.len() ==> #[trigger] a[k] == messages@[k].view(),
            find_tool_name_spec(a, tool_use_id@) == find_tool_name_spec(a.subrange(0, i as int), tool_use_id@),
        decreases i,
    {
        let ghost pre = a.subrange(0, i as int);
        assert(pre.drop_last() =~= a.subrange(0, i - 1));
        assert(pre.last() == messages@[i - 1].view());
        let m = &messages[i - 1];
        let is_assistant = match m.get_str("role") {
            Some(r) => str_eq(r, "assistant"),
            None => false,
        };
        if is_assistant {
            let empty: Vec<Json> = Vec::new();
            assert(views(empty@) =~= Seq::empty());
            let tcs: &Vec<Json> = match m.get_array("tool_calls") {
                Some(t) => t,
                None => &empty,
            };
            if let Some(r) = name_in_calls_exec(tcs, tool_use_id) {
                return r;
            }
            let bs: &Vec<Json> = match m.get_array("content") {
                Some(b) => b,
                None => &empty,
            };
            if let Some(r) = name_in_blocks_exec(bs, tool_use_id) {
                return r;
            }
        }
        i = i - 1;
    }
    None
}

/// An OpenAI tool call as a Gemini `functionCall` part: it needs a function
/// with a string name; its arguments text is read as JSON, an empty object
/// when it is absent or not JSON.
pub open spec fn openai_tool_call_to_google_spec(tc: JsonView) -> Option<JsonView> {
    match tc {
        JsonView::Object(_) => match jget(tc, "function"@) {
            Some(f) => match get_str(f, "name"@) {
                Some(name) => {
                    let text = match get_str(f, "arguments"@) {
                        Some(t) => t,
                        None => "{}"@,
                    };
                    let args = match json_parse(text) {
                        Some(v) => v,
                        None => JsonView::Object(Seq::empty()),
                    };
                    Some(obj1("functionCall"@, obj2("name"@, JsonView::Str(name), "args"@, args)))
                },
                None => None,
            },
            None => None,
        },
        _ => None,
    }
}

/// Convert one OpenAI tool call to a Gemini `functionCall` part.
pub fn openai_tool_call_to_google(tc: &Json) -> (r: Option<Json>)
    ensures
        opt_owned(r) == openai_tool_call_to_google_spec(tc.view()),
{
    match tc {
        Json::Object(_) => {},
        _ => return None,
    }
    let f = match tc.get("function") {
        Some(f) => f,
        None => return None,
    };
    let name = match f.get_str("name") {
        Some(n) => n,
        None => return None,
    };
    let text: &str = match f.get_str("arguments") {
        Some(t) => t,
        None => "{}",
    };
    let args = match parse_json(text) {
        Some(v) => v,
        None => {
            let e: Vec<(String, Json)> = Vec::new();
            assert(member_views(e@) =~= Seq::empty());
            Json::object(e)
        },
    };
    let mut inner: Vec<(String, Json)> = Vec::new();
    assert(member_views(inner@) =~= Seq::empty());
    push_member(&mut inner, "name", Json::string(name));
    push_member(&mut inner, "args", args);
    let mut outer: Vec<(String, Json)> = Vec::new();
    assert(member_views(outer@) =~= Seq::empty());
    push_member(&mut outer, "functionCall", Json::object(inner));
    Some(Json::object(outer))
}

/// The function result carried by an OpenAI tool message: its content read
/// as JSON when it is a string holding JSON, else the content itself (an
/// empty string when absent).
pub open spec fn tool_message_response(m: JsonView) -> JsonView {
    let fallback = match jget(m, "content"@) {
        Some(c) => c,
        None => JsonView::Str(Seq::empty()),
    };
    match get_str(m, "content"@) {
        Some(s) => match json_parse(s) {
            Some(v) => v,
            None => fallback,
        },
        None => fallback,
    }
}

/// The Gemini parts of a non-tool OpenAI message: its content converted
/// (one empty text part when it has none), then for an assistant its tool
/// calls as function calls.
pub open spec fn openai_message_parts(m: JsonView) -> Seq<JsonView> {
    let base = match jget(m, "content"@) {
        Some(c) => match convert_content_spec(c, ProviderFormat::OpenAI, ProviderFormat::Google) {
            JsonView::Array(a) => a,
            _ => seq![obj1("text"@, JsonView::Str(Seq::empty()))],
        },
        None => seq![obj1("text"@, JsonView::Str(Seq::empty()))],
    };
    if role_of(m) == Some("assistant"@) {
        match get_arr(m, "tool_calls"@) {
            Some(tcs) => base + google_calls(tcs),
            None => base,
        }
    } else {
        base
    }
}

/// The tool calls of a list that convert to function calls.
pub open spec fn google_calls(tcs: Seq<JsonView>) -> Seq<JsonView>
    decreases tcs.len(),
{
    if tcs.len() == 0 {
        Seq::empty()
    } else {
        google_calls(tcs.drop_last()) + match openai_tool_call_to_google_spec(tcs.last()) {
            Some(c) => seq![c],
            None => Seq::empty(),
        }
    }
}

/// The Gemini turns of OpenAI messages (without system messages), with the
/// whole list at hand for finding tool names: a tool message with a string
/// `tool_call_id` becomes a user turn with a function response named after
/// its call (the id itself when no name is found); a message without a
/// string role is dropped; any other message becomes a turn of its role
/// (`model` for the assistant, `user` otherwise).
pub open spec fn openai_turns(all: Seq<JsonView>, ms: Seq<JsonView>) -> Seq<JsonView>
    decreases ms.len(),
{
    if ms.len() == 0 {
        Seq::empty()
    } else {
        let prev = openai_turns(all, ms.drop_last());
        let m = ms.last();
        match role_of(m) {
            None => prev,
            Some(role) => if role == "tool"@ {
                match get_str(m, "tool_call_id"@) {
                    Some(id) => {
                        let name = match find_tool_name_spec(all, id) {
                            Some(n) => n,
                            None => id,
                        };
                        prev.push(obj2("role"@, JsonView::Str("user"@), "parts"@, JsonView::Array(seq![
                            obj1("functionResponse"@, obj2("name"@, JsonView::Str(name), "response"@, tool_message_response(m))),
                        ])))
                    },
                    None => prev,
                }
            } else {
                prev.push(obj2(
                    "role"@,
                    JsonView::Str(if role == "assistant"@ { "model"@ } else { "user"@ }),
                    "parts"@,
                    JsonView::Array(openai_message_parts(m)),
                ))
            },
        }
    }
}

/// The Gemini generation settings of an OpenAI request.
pub open spec fn openai_generation_config(body: JsonView) -> Seq<(Seq<char>, JsonView)> {
    let g0 = Seq::empty();
    let g1 = match get_u64(body, "max_tokens"@) {
        Some(v) => g0.push(("maxOutputTokens"@, JsonView::Number(NumberView::PosInt(v)))),
        None => g0,
    };
    let g2 = match get_float(body, "temperature"@) {
        Some(n) => g1.push(("temperature"@, JsonView::Number(n))),
        None => g1,
    };
    let g3 = match get_float(body, "top_p"@) {
        Some(n) => g2.push(("topP"@, JsonView::Number(n))),
        None => g2,
    };
    let g4 = match openai_stop_spec(jget(body, "stop"@)) {
        Some(a) => g3.push(("stopSequences"@, JsonView::Array(a))),
        None => g3,
    };
    match jget(body, "response_format"@) {
        Some(fmt) => if get_str(fmt, "type"@) == Some("json_object"@) {
            g4.push(("responseMimeType"@, JsonView::Str("application/json"@)))
        } else {
            g4
        },
        None => g4,
    }
}

/// An OpenAI chat request as a Gemini `generateContent` request.
pub open spec fn openai_to_google_request_spec(body: JsonView) -> JsonView {
    let split = split_openai_messages_spec(jget(body, "messages"@));
    let m0 = seq![("contents"@, JsonView::Array(openai_turns(split.1, split.1)))];
    let m1 = match split.0 {
        Some(system) => m0.push(("systemInstruction"@, obj1("parts"@, JsonView::Array(seq![obj1("text"@, JsonView::Str(system))])))),
        None => m0,
    };
    let m2 = match get_arr(body, "tools"@) {
        Some(ts) => if openai_tools_to_google_spec(ts).len() > 0 {
            m1.push(("tools"@, JsonView::Array(openai_tools_to_google_spec(ts))))
        } else {
            m1
        },
        None => m1,
    };
    let gen = openai_generation_config(body);
    JsonView::Object(if gen.len() > 0 { m2.push(("generationConfig"@, JsonView::Object(gen))) } else { m2 })
}

fn push_google_calls(out: &mut Vec<Json>, tcs: &Vec<Json>)
    ensures
        views(final(out)@) == views(old(out)@) + google_calls(views(tcs@)),
{
    proof {
        lemma_views(tcs@);
    }
    let ghost a = views(tcs@);
    let ghost start = views(out@);
    let mut i: usize = 0;
    assert(a.subrange(0, 0) =~= Seq::<JsonView>::empty());
    assert(views(out@) =~= start + google_calls(a.subrange(0, 0)));
    while i < tcs.len()
        invariant
            i <= tcs@.len(),
            a == views(tcs@),
            a.len() == tcs@.len(),
            forall|k: int| 0 <= k < tcs@.len() ==> #[trigger] a[k] == tcs@[k].view(),
            views(out@) == start + google_calls(a.subrange(0, i as int)),
        decreases tcs.len() - i,
    {
        assert(a.subrange(0, i + 1).drop_last() =~= a.subrange(0, i as int));
        assert(a.subrange(0, i + 1).last() == tcs@[i as int].view());
        match openai_tool_call_to_google(&tcs[i]) {
            Some(c) => {
                let ghost cv = c.view();
                push_element(out, c);
                assert(views(out@) =~= start + google_calls(a.subrange(0, i + 1)));
            },
            None => {
                assert(views(out@) =~= start + google_calls(a.subrange(0, i + 1)));
            },
        }
        i = i + 1;
    }
    assert(a.subrange(0, a.len() as int) =~= a);
}

fn empty_text_parts() -> (r: Vec<Json>)
    ensures
        views(r@) == seq![obj1("text"@, JsonView::Str(Seq::empty()))],
{
    let mut m: Vec<(String, Json)> = Vec::new();
    assert(member_views(m@) =~= Seq::empty());
    proof {
        reveal_strlit("");
        assert(""@ =~= Seq::<char>::empty());
    }
    push_member(&mut m, "text", Json::string(""));
    let mut v: Vec<Json> = Vec::new();
    assert(views(v@) =~= Seq::empty());
    push_element(&mut v, Json::object(m));
    assert(views(v@) =~= seq![obj1("text"@, JsonView::Str(Seq::empty()))]);
    v
}

fn openai_message_parts_exec(m: &Json) -> (r: Vec<Json>)
    ensures
        views(r@) == openai_message_parts(m.view()),
{
    let mut parts = match m.get("content") {
        Some(c) => match convert_message_content(c, ProviderFormat::OpenAI, ProviderFormat::Google) {
            Json::Array(a) => a,
            _ => empty_text_parts(),
        },
        None => empty_text_parts(),
    };
    let is_assistant = match m.get_str("role") {
        Some(r) => str_eq(r, "assistant"),
        None => false,
    };
    if is_assistant {
        if let Some(tcs) = m.get_array("tool_calls") {
            push_google_calls(&mut parts, tcs);
        }
    }
    parts
}

fn tool_message_response_exec(m: &Json) -> (r: Json)
    ensures
        r.view() == tool_message_response(m.view()),
{
    if let Some(s) = m.get_str("content") {
        if let Some(v) = parse_json(s) {
            return v;
        }
    }
    match m.get("content") {
        Some(c) => c.deep_clone(),
        None => {
            proof {
                reveal_strlit("");
                assert(""@ =~= Seq::<char>::empty());
            }
            Json::string("")
        },
    }
}

fn openai_turns_exec(all: &Vec<Json>) -> (r: Vec<Json>)
    ensures
        views(r@) == openai_turns(views(all@), views(all@)),
{
    proof {
        lemma_views(all@);
    }
    let ghost a = views(all@);
    let mut out: Vec<Json> = Vec::new();
    let mut i: usize = 0;
    assert(a.subrange(0, 0) =~= Seq::<JsonView>::empty());
    assert(views(out@) =~= Seq::empty());
    while i < all.len()
        invariant
            i <= all@.len(),
            a == views(all@),
            a.len() == all@.len(),
            forall|k: int| 0 <= k < all@.len() ==> #[trigger] a[k] == all@[k].view(),
            views(out@) == openai_turns(a, a.subrange(0, i as int)),
        decreases all.len() - i,
    {
        assert(a.subrange(0, i + 1).drop_last() =~= a.subrange(0, i as int));
        assert(a.subrange(0, i + 1).last() == all@[i as int].view());
        let m = &all[i];
        if let Some(role) = m.get_str("role") {
            if str_eq(role, "tool") {
                if let Some(id) = m.get_str("tool_call_id") {
                    let name = match find_tool_name_by_id(all, id) {
                        Some(n) => n,
                        None => id.to_owned(),
                    };
                    let response = tool_message_response_exec(m);
                    let mut fr: Vec<(String, Json)> = Vec::new();
                    assert(member_views(fr@) =~= Seq::empty());
                    push_member(&mut fr, "name", Json::Str(name));
                    push_member(&mut fr, "response", response);
                    let mut part: Vec<(String, Json)> = Vec::new();
                    assert(member_views(part@) =~= Seq::empty());
                    push_member(&mut part, "functionResponse", Json::object(fr));
                    let mut parts: Vec<Json> = Vec::new();
                    assert(views(parts@) =~= Seq::empty());
                    push_element(&mut parts, Json::object(part));
                    let mut turn: Vec<(String, Json)> = Vec::new();
                    assert(member_views(turn@) =~= Seq::empty());
                    push_member(&mut turn, "role", Json::string("user"));
                    proof {
                        assert(views(parts@) =~= seq![views(parts@)[0]]);
                    }
                    push_member(&mut turn, "parts", Json::array(parts));
                    push_element(&mut out, Json::object(turn));
                }
            } else {
                let google_role = if str_eq(role, "assistant") {
                    "model"
                } else {
                    "user"
                };
                let parts = openai_message_parts_exec(m);
                let mut turn: Vec<(String, Json)> = Vec::new();
                assert(member_views(turn@) =~= Seq::empty());
                push_member(&mut turn, "role", Json::string(google_role));
                push_member(&mut turn, "parts", Json::array(parts));
                push_element(&mut out, Json::object(turn));
            }
        }
        i = i + 1;
    }
    assert(a.subrange(0, a.len() as int) =~= a);
    out
}

/// Convert an OpenAI chat request to a Gemini `generateContent` request.
pub fn openai_to_google_request(body: &Json) -> (r: Json)
    ensures
        r.view() == openai_to_google_request_spec(body.view()),
{
    let (system, messages) = split_openai_messages(body.get("messages"));
    let contents = openai_turns_exec(&messages);
    let mut out: Vec<(String, Json)> = Vec::new();
    assert(member_views(out@) =~= Seq::empty());
    push_member(&mut out, "contents", Json::array(contents));
    if let Some(sys) = system {
        let mut text: Vec<(String, Json)> = Vec::new();
        assert(member_views(text@) =~= Seq::empty());
        push_member(&mut text, "text", Json::Str(sys));
        let mut parts: Vec<Json> = Vec::new();
        assert(views(parts@) =~= Seq::empty());
        push_element(&mut parts, Json::object(text));
        let mut si: Vec<(String, Json)> = Vec::new();
        assert(member_views(si@) =~= Seq::empty());
        proof {
            assert(views(parts@) =~= seq![views(parts@)[0]]);
        }
        push_member(&mut si, "parts", Json::array(parts));
        push_member(&mut out, "systemInstruction", Json::object(si));
    }
    if let Some(tools) = body.get_array("tools") {
        let decls = openai_tools_to_google(tools);
        if decls.len() > 0 {
            push_member(&mut out, "tools", Json::array(decls));
        }
    }
    let mut gen: Vec<(String, Json)> = Vec::new();
    assert(member_views(gen@) =~= Seq::empty());
    if let Some(v) = body.get_u64("max_tokens") {
        push_member(&mut gen, "maxOutputTokens", Json::unsigned(v));
    }
    if let Some(t) = body.get_float("temperature") {
        push_member(&mut gen, "temperature", t);
    }
    if let Some(t) = body.get_float("top_p") {
        push_member(&mut gen, "topP", t);
    }
    if let Some(stop) = openai_stop_to_array(body.get("stop")) {
        push_member(&mut gen, "stopSequences", Json::array(stop));
    }
    if let Some(fmt) = body.get("response_format") {
        let is_json = match fmt.get_str("type") {
            Some(t) => str_eq(t, "json_object"),
            None => false,
        };
        if is_json {
            push_member(&mut gen, "responseMimeType", Json::string("application/json"));
        }
    }
    if gen.len() > 0 {
        proof {
            lemma_member_views_len(gen@);
        }
        push_member(&mut out, "generationConfig", Json::object(gen));
    } else {
        proof {
            lemma_member_views_len(gen@);
        }
    }
    assert(member_views(out@) =~= match openai_to_google_request_spec(body.view()) {
        JsonView::Object(m) => m,
        _ => Seq::empty(),
    });
    Json::object(out)
}

proof fn lemma_member_views_len(m: Seq<(String, Json)>)
    ensures
        member_views(m).len() == m.len(),
{
    crate::json::lemma_member_views(m);
}

} // verus!
