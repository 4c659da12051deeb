//! OpenAI chat requests and OpenAI Responses requests, each as the other.

use vstd::prelude::*;
use crate::json::{
    Json, JsonView, NumberView, get_arr, get_str, get_u64, jget, json_serialize, json_to_text, jstr,
    lemma_views, member_views, opt_owned, push_element, push_member, views,
};
use crate::proxy::anthropic::{empty_object, with_float, with_stream, copy_float, copy_stream};
use crate::proxy::content::{obj1, obj2};
use crate::proxy::gemini::role_of;
use crate::proxy::tools::openai_function_tool;
use crate::text::str_eq;

verus! {

/// The URL of an `image_url` member (a string, or an object's `url`);
/// empty when there is none.
pub open spec fn image_url_of(part: JsonView) -> Seq<char> {
    match jget(part, "image_url"@) {
        Some(u) => match jstr(u) {
            Some(s) => s,
            None => match get_str(u, "url"@) {
                Some(s) => s,
                None => Seq::empty(),
            },
        },
        None => Seq::empty(),
    }
}

/// The `image_url` object of a converted image part: its URL, and its
/// `detail` where the source gives one.
pub open spec fn image_url_object(part: JsonView) -> JsonView {
    let base = Seq::empty().push(("url"@, JsonView::Str(image_url_of(part))));
    JsonView::Object(match jget(part, "image_url"@) {
        Some(u) => match jget(u, "detail"@) {
            Some(d) => base.push(("detail"@, d)),
            None => base,
        },
        None => base,
    })
}

fn empty_str() -> (r: &'static str)
    ensures
        r@ == Seq::<char>::empty(),
{
    proof {
        reveal_strlit("");
        assert(""@ =~= Seq::<char>::empty());
    }
    ""
}

fn image_url_object_exec(part: &Json) -> (r: Json)
    ensures
        r.view() == image_url_object(part.view()),
{
    let url: &str = match part.get("image_url") {
        Some(u) => match u.as_str() {
            Some(s) => s,
            None => match u.get_str("url") {
                Some(s) => s,
                None => empty_str(),
            },
        },
        None => empty_str(),
    };
    let mut m: Vec<(String, Json)> = Vec::new();
    assert(member_views(m@) =~= Seq::empty());
    push_member(&mut m, "url", Json::string(url));
    if let Some(u) = part.get("image_url") {
        if let Some(d) = u.get("detail") {
            push_member(&mut m, "detail", d.deep_clone());
        }
    }
    Json::object(m)
}

/// A Responses content part as an OpenAI one: text parts become strings
/// (when they have a `text` member, empty unless it is a string), images
/// become `image_url` parts, anything else passes through.
pub open spec fn responses_part_to_openai_spec(part: JsonView) -> Option<JsonView> {
    let t = get_str(part, "type"@);
    if t == Some("input_text"@) || t == Some("output_text"@) {
        match jget(part, "text"@) {
            Some(x) => Some(JsonView::Str(match jstr(x) {
                Some(s) => s,
                None => Seq::empty(),
            })),
            None => None,
        }
    } else if t == Some("input_image"@) {
        Some(obj2("type"@, JsonView::Str("image_url"@), "image_url"@, image_url_object(part)))
    } else {
        Some(part)
    }
}

/// Convert one Responses content part to an OpenAI content part.
pub fn responses_content_part_to_openai(part: &Json) -> (r: Option<Json>)
    ensures
        opt_owned(r) == responses_part_to_openai_spec(part.view()),
{
    let t: Option<&str> = part.get_str("type");
    let is_text = match t {
        Some(t) => str_eq(t, "input_text") || str_eq(t, "output_text"),
        None => false,
    };
    let is_image = match t {
        Some(t) => str_eq(t, "input_image"),
        None => false,
    };
    if is_text {
        match part.get("text") {
            Some(x) => Some(Json::string(match x.as_str() {
                Some(s) => s,
                None => empty_str(),
            })),
            None => None,
        }
    } else if is_image {
        let mut m: Vec<(String, Json)> = Vec::new();
        assert(member_views(m@) =~= Seq::empty());
        push_member(&mut m, "type", Json::string("image_url"));
        push_member(&mut m, "image_url", image_url_object_exec(part));
        Some(Json::object(m))
    } else {
        Some(part.deep_clone())
    }
}

/// An OpenAI content part as a Responses one: text becomes `input_text`
/// (empty unless a string), images become `input_image`, anything else
/// passes through.
pub open spec fn openai_part_to_responses_spec(part: JsonView) -> JsonView {
    let t = get_str(part, "type"@);
    if t == Some("text"@) {
        obj2("type"@, JsonView::Str("input_text"@), "text"@, JsonView::Str(match get_str(part, "text"@) {
            Some(s) => s,
            None => Seq::empty(),
        }))
    } else if t == Some("image_url"@) {
        obj2("type"@, JsonView::Str("input_image"@), "image_url"@, image_url_object(part))
    } else {
        part
    }
}

/// Convert one OpenAI content part to a Responses content part.
pub fn openai_content_part_to_responses(part: &Json) -> (r: Json)
    ensures
        r.view() == openai_part_to_responses_spec(part.view()),
{
    let t: Option<&str> = part.get_str("type");
    let is_text = match t {
        Some(t) => str_eq(t, "text"),
        None => false,
    };
    let is_image = match t {
        Some(t) => str_eq(t, "image_url"),
        None => false,
    };
    if is_text {
        let mut m: Vec<(String, Json)> = Vec::new();
        assert(member_views(m@) =~= Seq::empty());
        push_member(&mut m, "type", Json::string("input_text"));
        push_member(&mut m, "text", Json::string(match part.get_str("text") {
            Some(s) => s,
            None => empty_str(),
        }));
        Json::object(m)
    } else if is_image {
        let mut m: Vec<(String, Json)> = Vec::new();
        assert(member_views(m@) =~= Seq::empty());
        push_member(&mut m, "type", Json::string("input_image"));
        push_member(&mut m, "image_url", image_url_object_exec(part));
        Json::object(m)
    } else {
        part.deep_clone()
    }
}

/// The parts of a list that convert from Responses to OpenAI.
pub open spec fn responses_parts_to_openai(ps: Seq<JsonView>) -> Seq<JsonView>
    decreases ps.len(),
{
    if ps.len() == 0 {
        Seq::empty()
    } else {
        responses_parts_to_openai(ps.drop_last()) + match responses_part_to_openai_spec(ps.last()) {
            Some(p) => seq![p],
            None => Seq::empty(),
        }
    }
}

/// Content converted part by part with `f` when it is an array; a string or
/// anything else is kept.
pub open spec fn content_or_empty_str(item: JsonView) -> JsonView {
    match jget(item, "content"@) {
        Some(c) => c,
        None => JsonView::Str(Seq::empty()),
    }
}

/// A Responses input item as an OpenAI message: a `message` keeps its role
/// (`developer` read as `system`, `user` by default) with its parts
/// converted; a `function_call_output` becomes a tool message with its
/// output as text; anything else is dropped.
pub open spec fn responses_item_to_openai_spec(item: JsonView) -> Option<JsonView> {
    let t = get_str(item, "type"@);
    if t == Some("message"@) {
        let role = match get_str(item, "role"@) {
            Some(r) => if r == "developer"@ { "system"@ } else { r },
            None => "user"@,
        };
        let content = content_or_empty_str(item);
        let converted = match content {
            JsonView::Array(ps) => JsonView::Array(responses_parts_to_openai(ps)),
            _ => content,
        };
        Some(obj2("role"@, JsonView::Str(role), "content"@, converted))
    } else if t == Some("function_call_output"@) {
        let call_id = match get_str(item, "call_id"@) {
            Some(c) => c,
            None => Seq::empty(),
        };
        let output = match jget(item, "output"@) {
            Some(o) => o,
            None => JsonView::Str(Seq::empty()),
        };
        let text = match output {
            JsonView::Str(s) => s,
            _ => json_serialize(output),
        };
        Some(JsonView::Object(Seq::empty().push(("role"@, JsonView::Str("tool"@))).push(("tool_call_id"@, JsonView::Str(call_id))).push((
            "content"@,
            JsonView::Str(text),
        ))))
    } else {
        None
    }
}

fn content_or_empty_str_exec(item: &Json) -> (r: Json)
    ensures
        r.view() == content_or_empty_str(item.view()),
{
    match item.get("content") {
        Some(c) => c.deep_clone(),
        None => Json::string(empty_str()),
    }
}

fn responses_parts_to_openai_exec(ps: &Vec<Json>) -> (r: Vec<Json>)
    ensures
        views(r@) == responses_parts_to_openai(views(ps@)),
{
    proof {
        lemma_views(ps@);
    }
    let ghost a = views(ps@);
    let mut out: Vec<Json> = Vec::new();
    let mut i: usize = 0;
    assert(a.subrange(0, 0) =~= Seq::<JsonView>::empty());
    assert(views(out@) =~= Seq::empty());
    while i < ps.len()
        invariant
            i <= ps@.len(),
            a == views(ps@),
            a.len() == ps@.len(),
            forall|k: int| 0 <= k < ps@.len() ==> #[trigger] a[k] == ps@[k].view(),
            views(out@) == responses_parts_to_openai(a.subrange(0, i as int)),
        decreases ps.len() - i,
    {
        assert(a.subrange(0, i + 1).drop_last() =~= a.subrange(0, i as int));
        assert(a.subrange(0, i + 1).last() == ps@[i as int].view());
        match responses_content_part_to_openai(&ps[i]) {
            Some(p) => {
                push_element(&mut out, p);
            },
            None => {},
        }
        i = i + 1;
        assert(views(out@) =~= responses_parts_to_openai(a.subrange(0, i as int)));
    }
    assert(a.subrange(0, a.len() as int) =~= a);
    out
}

/// Convert one Responses input item to an OpenAI message.
pub fn responses_input_item_to_openai_message(item: &Json) -> (r: Option<Json>)
    ensures
        opt_owned(r) == responses_item_to_openai_spec(item.view()),
{
    let t: Option<&str> = item.get_str("type");
    let is_message = match t {
        Some(t) => str_eq(t, "message"),
        None => false,
    };
    let is_output = match t {
        Some(t) => str_eq(t, "function_call_output"),
        None => false,
    };
    if is_message {
        let role: &str = match item.get_str("role") {
            Some(r) => if str_eq(r, "developer") { "system" } else { r },
            None => "user",
        };
        let content = content_or_empty_str_exec(item);
        let converted = match content {
            Json::Array(ps) => Json::array(responses_parts_to_openai_exec(&ps)),
            other => other,
        };
        let mut m: Vec<(String, Json)> = Vec::new();
        assert(member_views(m@) =~= Seq::empty());
        push_member(&mut m, "role", Json::string(role));
        push_member(&mut m, "content", converted);
        Some(Json::object(m))
    } else if is_output {
        let call_id: &str = match item.get_str("call_id") {
            Some(c) => c,
            None => empty_str(),
        };
        let output = match item.get("output") {
            Some(o) => o.deep_clone(),
            None => Json::string(empty_str()),
        };
        let text = match output {
            Json::Str(s) => s,
            other => json_to_text(&other),
        };
        let mut m: Vec<(String, Json)> = Vec::new();
        assert(member_views(m@) =~= Seq::empty());
        push_member(&mut m, "role", Json::string("tool"));
        push_member(&mut m, "tool_call_id", Json::string(call_id));
        push_member(&mut m, "content", Json::Str(text));
        Some(Json::object(m))
    } else {
        None
    }
}

/// The parts of a list converted from OpenAI to Responses.
pub open spec fn openai_parts_to_responses(ps: Seq<JsonView>) -> Seq<JsonView> {
    ps.map_values(|p: JsonView| openai_part_to_responses_spec(p))
}

/// An OpenAI message as a Responses input item: system, developer, user and
/// assistant messages become `message` items (developer as system), a tool
/// message a `function_call_output`; content arrays are converted part by
/// part; a message without a known string role is dropped.
pub open spec fn openai_message_to_item_spec(m: JsonView) -> Option<JsonView> {
    match role_of(m) {
        None => None,
        Some(role) => {
            let content = content_or_empty_str(m);
            let converted = match content {
                JsonView::Array(ps) => JsonView::Array(openai_parts_to_responses(ps)),
                _ => content,
            };
            let message = |r: Seq<char>| JsonView::Object(Seq::empty().push(("type"@, JsonView::Str("message"@))).push((
                "role"@,
                JsonView::Str(r),
            )).push(("content"@, converted)));
            if role == "system"@ || role == "developer"@ {
                Some(message("system"@))
            } else if role == "user"@ {
                Some(message("user"@))
            } else if role == "assistant"@ {
                Some(message("assistant"@))
            } else if role == "tool"@ {
                Some(JsonView::Object(Seq::empty().push(("type"@, JsonView::Str("function_call_output"@))).push((
                    "call_id"@,
                    JsonView::Str(match get_str(m, "tool_call_id"@) {
                        Some(c) => c,
                        None => Seq::empty(),
                    }),
                )).push(("output"@, converted))))
            } else {
                None
            }
        },
    }
}

fn openai_parts_to_responses_exec(ps: &Vec<Json>) -> (r: Vec<Json>)
    ensures
        views(r@) == openai_parts_to_responses(views(ps@)),
{
    proof {
        lemma_views(ps@);
    }
    let ghost a = views(ps@);
    let mut out: Vec<Json> = Vec::new();
    let mut i: usize = 0;
    assert(views(out@) =~= openai_parts_to_responses(a.subrange(0, 0)));
    while i < ps.len()
        invariant
            i <= ps@.len(),
            a == views(ps@),
            a.len() == ps@.len(),
            forall|k: int| 0 <= k < ps@.len() ==> #[trigger] a[k] == ps@[k].view(),
            views(out@) == openai_parts_to_responses(a.subrange(0, i as int)),
        decreases ps.len() - i,
    {
        push_element(&mut out, openai_content_part_to_responses(&ps[i]));
        i = i + 1;
        assert(views(out@) =~= openai_parts_to_responses(a.subrange(0, i as int)));
    }
    assert(a.subrange(0, a.len() as int) =~= a);
    out
}

fn message_item(role: &str, converted: Json) -> (r: Json)
    ensures
        r.view() == JsonView::Object(Seq::empty().push(("type"@, JsonView::Str("message"@))).push(("role"@, JsonView::Str(role@))).push((
            "content"@,
            converted.view(),
        ))),
{
    let mut m: Vec<(String, Json)> = Vec::new();
    assert(member_views(m@) =~= Seq::empty());
    push_member(&mut m, "type", Json::string("message"));
    push_member(&mut m, "role", Json::string(role));
    push_member(&mut m, "content", converted);
    Json::object(m)
}

/// Convert one OpenAI message to a Responses input item.
pub fn openai_message_to_responses_input_item(msg: &Json) -> (r: Option<Json>)
    ensures
        opt_owned(r) == openai_message_to_item_spec(msg.view()),
{
    let role = match msg.get_str("role") {
        Some(r) => r,
        None => return None,
    };
    let content = content_or_empty_str_exec(msg);
    let converted = match content {
        Json::Array(ps) => Json::array(openai_parts_to_responses_exec(&ps)),
        other => other,
    };
    if str_eq(role, "system") || str_eq(role, "developer") {
        Some(message_item("system", converted))
    } else if str_eq(role, "user") {
        Some(message_item("user", converted))
    } else if str_eq(role, "assistant") {
        Some(message_item("assistant", converted))
    } else if str_eq(role, "tool") {
        let call_id: &str = match msg.get_str("tool_call_id") {
            Some(c) => c,
            None => empty_str(),
        };
        let mut m: Vec<(String, Json)> = Vec::new();
        assert(member_views(m@) =~= Seq::empty());
        push_member(&mut m, "type", Json::string("function_call_output"));
        push_member(&mut m, "call_id", Json::string(call_id));
        push_member(&mut m, "output", converted);
        Some(Json::object(m))
    } else {
        None
    }
}

/// A Responses function tool as an OpenAI tool: it needs type `function`
/// and a string name; description kept, parameters an empty object when
/// absent.
pub open spec fn responses_tool_to_openai_spec(t: JsonView) -> Option<JsonView> {
    if get_str(t, "type"@) != Some("function"@) {
        None
    } else {
        match crate::proxy::tools::decl(t, "parameters"@, "parameters"@) {
            Some(d) => Some(openai_function_tool(d)),
            None => None,
        }
    }
}

/// An OpenAI function tool as a Responses tool: flat, with `strict` false.
pub open spec fn openai_tool_to_responses_spec(t: JsonView) -> Option<JsonView> {
    if get_str(t, "type"@) != Some("function"@) {
        None
    } else {
        match jget(t, "function"@) {
            Some(f) => match get_str(f, "name"@) {
                Some(name) => {
                    let head = Seq::empty().push(("type"@, JsonView::Str("function"@))).push(("name"@, JsonView::Str(name)));
                    let with_desc = match jget(f, "description"@) {
                        Some(d) => head.push(("description"@, d)),
                        None => head,
                    };
                    Some(JsonView::Object(with_desc.push(("parameters"@, match jget(f, "parameters"@) {
                        Some(p) => p,
                        None => empty_object(),
                    })).push(("strict"@, JsonView::Bool(false)))))
                },
                None => None,
            },
            None => None,
        }
    }
}

/// A tool choice between the OpenAI chat and Responses shapes (the same
/// rule both ways): `auto` and `none` carry over, a named function stays a
/// named function, anything else is dropped.
pub open spec fn function_choice_spec(tc: JsonView) -> Option<JsonView> {
    match tc {
        JsonView::Str(s) => if s == "auto"@ || s == "none"@ { Some(JsonView::Str(s)) } else { None },
        JsonView::Object(_) => if get_str(tc, "type"@) == Some("function"@) {
            match jget(tc, "function"@) {
                Some(f) => match get_str(f, "name"@) {
                    Some(n) => Some(openai_function_tool(obj1("name"@, JsonView::Str(n)))),
                    None => None,
                },
                None => None,
            }
        } else {
            None
        },
        _ => None,
    }
}

fn is_function_type(t: &Json) -> (b: bool)
    ensures
        b == (get_str(t.view(), "type"@) == Some("function"@)),
{
    match t.get_str("type") {
        Some(x) => str_eq(x, "function"),
        None => false,
    }
}

/// Convert a Responses tool to an OpenAI tool.
pub fn responses_tool_to_openai(t: &Json) -> (r: Option<Json>)
    ensures
        opt_owned(r) == responses_tool_to_openai_spec(t.view()),
{
    if !is_function_type(t) {
        return None;
    }
    let name = match t.get_str("name") {
        Some(n) => n,
        None => return None,
    };
    let mut f: Vec<(String, Json)> = Vec::new();
    assert(member_views(f@) =~= Seq::empty());
    push_member(&mut f, "name", Json::string(name));
    if let Some(d) = t.get("description") {
        push_member(&mut f, "description", d.deep_clone());
    }
    let params = match t.get("parameters") {
        Some(p) => p.deep_clone(),
        None => Json::object(Vec::new()),
    };
    proof {
        assert(member_views(Seq::<(String, Json)>::empty()) =~= Seq::empty());
    }
    push_member(&mut f, "parameters", params);
    let mut m: Vec<(String, Json)> = Vec::new();
    assert(member_views(m@) =~= Seq::empty());
    push_member(&mut m, "type", Json::string("function"));
    push_member(&mut m, "function", Json::object(f));
    Some(Json::object(m))
}

/// Convert an OpenAI tool to a Responses tool.
pub fn openai_tool_to_responses(t: &Json) -> (r: Option<Json>)
    ensures
        opt_owned(r) == openai_tool_to_responses_spec(t.view()),
{
    if !is_function_type(t) {
        return None;
    }
    let f = match t.get("function") {
        Some(f) => f,
        None => return None,
    };
    let name = match f.get_str("name") {
        Some(n) => n,
        None => return None,
    };
    let mut m: Vec<(String, Json)> = Vec::new();
    assert(member_views(m@) =~= Seq::empty());
    push_member(&mut m, "type", Json::string("function"));
    push_member(&mut m, "name", Json::string(name));
    if let Some(d) = f.get("description") {
        push_member(&mut m, "description", d.deep_clone());
    }
    let params = match f.get("parameters") {
        Some(p) => p.deep_clone(),
        None => Json::object(Vec::new()),
    };
    proof {
        assert(member_views(Seq::<(String, Json)>::empty()) =~= Seq::empty());
    }
    push_member(&mut m, "parameters", params);
    push_member(&mut m, "strict", Json::Bool(false));
    Some(Json::object(m))
}

/// Carry a tool choice between the OpenAI chat and Responses shapes.
pub fn function_tool_choice(tc: &Json) -> (r: Option<Json>)
    ensures
        opt_owned(r) == function_choice_spec(tc.view()),
{
    match tc {
        Json::Str(s) => {
            if str_eq(s.as_str(), "auto") || str_eq(s.as_str(), "none") {
                Some(Json::Str(s.clone()))
            } else {
                None
            }
        },
        Json::Object(_) => {
            if !is_function_type(tc) {
                return None;
            }
            let name = match tc.get("function") {
                Some(f) => match f.get_str("name") {
                    Some(n) => n,
                    None => return None,
                },
                None => return None,
            };
            let mut f: Vec<(String, Json)> = Vec::new();
            assert(member_views(f@) =~= Seq::empty());
            push_member(&mut f, "name", Json::string(name));
            let mut m: Vec<(String, Json)> = Vec::new();
            assert(member_views(m@) =~= Seq::empty());
            push_member(&mut m, "type", Json::string("function"));
            push_member(&mut m, "function", Json::object(f));
            Some(Json::object(m))
        },
        _ => None,
    }
}

/// The values `f` keeps of a list, in order.
pub open spec fn keep_some(a: Seq<JsonView>, f: spec_fn(JsonView) -> Option<JsonView>) -> Seq<JsonView>
    decreases a.len(),
{
    if a.len() == 0 {
        Seq::empty()
    } else {
        keep_some(a.drop_last(), f) + match f(a.last()) {
            Some(x) => seq![x],
            None => Seq::empty(),
        }
    }
}

/// Which conversion a list goes through.
pub enum ListConversion {
    ResponsesItems,
    OpenAIMessages,
    ResponsesTools,
    OpenAITools,
    AnthropicCalls,
    GoogleCalls,
    ResponsesCalls,
}

/// The conversion of one element.
pub open spec fn conversion(c: ListConversion) -> spec_fn(JsonView) -> Option<JsonView> {
    match c {
        ListConversion::ResponsesItems => |x: JsonView| responses_item_to_openai_spec(x),
        ListConversion::OpenAIMessages => |x: JsonView| openai_message_to_item_spec(x),
        ListConversion::ResponsesTools => |x: JsonView| responses_tool_to_openai_spec(x),
        ListConversion::OpenAITools => |x: JsonView| openai_tool_to_responses_spec(x),
        ListConversion::AnthropicCalls => |x: JsonView| crate::proxy::anthropic::openai_tool_call_to_anthropic_spec(x),
        ListConversion::GoogleCalls => |x: JsonView| crate::proxy::gemini::openai_tool_call_to_google_spec(x),
        ListConversion::ResponsesCalls => |x: JsonView| crate::proxy::reply::function_call_item_spec(x),
    }
}

fn convert_one(c: &ListConversion, x: &Json) -> (r: Option<Json>)
    ensures
        opt_owned(r) == (conversion(*c))(x.view()),
{
    match c {
        ListConversion::ResponsesItems => responses_input_item_to_openai_message(x),
        ListConversion::OpenAIMessages => openai_message_to_responses_input_item(x),
        ListConversion::ResponsesTools => responses_tool_to_openai(x),
        ListConversion::OpenAITools => openai_tool_to_responses(x),
        ListConversion::AnthropicCalls => crate::proxy::anthropic::openai_tool_call_to_anthropic(x),
        ListConversion::GoogleCalls => crate::proxy::gemini::openai_tool_call_to_google(x),
        ListConversion::ResponsesCalls => crate::proxy::reply::openai_tool_call_to_responses_function_call(x),
    }
}

/// Convert every element of a list, keeping those that convert.
pub fn convert_list(c: ListConversion, a: &Vec<Json>) -> (r: Vec<Json>)
    ensures
        views(r@) == keep_some(views(a@), conversion(c)),
{
    proof {
        lemma_views(a@);
    }
    let ghost av = views(a@);
    let mut out: Vec<Json> = Vec::new();
    let mut i: usize = 0;
    assert(av.subrange(0, 0) =~= Seq::<JsonView>::empty());
    assert(views(out@) =~= Seq::empty());
    while i < a.len()
        invariant
            i <= a@.len(),
            av == views(a@),
            av.len() == a@.len(),
            forall|k: int| 0 <= k < a@.len() ==> #[trigger] av[k] == a@[k].view(),
            views(out@) == keep_some(av.subrange(0, i as int), conversion(c)),
        decreases a.len() - i,
    {
        assert(av.subrange(0, i + 1).drop_last() =~= av.subrange(0, i as int));
        assert(av.subrange(0, i + 1).last() == a@[i as int].view());
        match convert_one(&c, &a[i]) {
            Some(x) => push_element(&mut out, x),
            None => {},
        }
        i = i + 1;
        assert(views(out@) =~= keep_some(av.subrange(0, i as int), conversion(c)));
    }
    assert(av.subrange(0, av.len() as int) =~= av);
    out
}

/// A Responses request as an OpenAI chat request for `remote`.
pub open spec fn responses_to_openai_request_spec(body: JsonView, remote: Seq<char>) -> JsonView {
    let system = match get_str(body, "instructions"@) {
        Some(i) => if i.len() > 0 { seq![obj2("role"@, JsonView::Str("system"@), "content"@, JsonView::Str(i))] } else { Seq::empty() },
        None => Seq::empty(),
    };
    let input = match jget(body, "input"@) {
        Some(x) => x,
        None => JsonView::Str(Seq::empty()),
    };
    let turns = match input {
        JsonView::Str(s) => if s.len() > 0 { seq![obj2("role"@, JsonView::Str("user"@), "content"@, JsonView::Str(s))] } else { Seq::empty() },
        JsonView::Array(items) => keep_some(items, conversion(ListConversion::ResponsesItems)),
        _ => Seq::empty(),
    };
    let m0 = Seq::empty().push(("model"@, JsonView::Str(remote))).push(("messages"@, JsonView::Array(system + turns)));
    let m1 = match get_u64(body, "max_output_tokens"@) {
        Some(v) => m0.push(("max_tokens"@, JsonView::Number(NumberView::PosInt(v)))),
        None => m0,
    };
    let m2 = with_stream(with_float(with_float(m1, body, "temperature"@), body, "top_p"@), body);
    let m3 = match get_arr(body, "tools"@) {
        Some(ts) => if keep_some(ts, conversion(ListConversion::ResponsesTools)).len() > 0 {
            m2.push(("tools"@, JsonView::Array(keep_some(ts, conversion(ListConversion::ResponsesTools)))))
        } else {
            m2
        },
        None => m2,
    };
    JsonView::Object(match jget(body, "tool_choice"@) {
        Some(tc) => match function_choice_spec(tc) {
            Some(c) => m3.push(("tool_choice"@, c)),
            None => m3,
        },
        None => m3,
    })
}

/// An OpenAI chat request as a Responses request for `remote`.
pub open spec fn openai_to_responses_request_spec(body: JsonView, remote: Seq<char>) -> JsonView {
    let items = match get_arr(body, "messages"@) {
        Some(ms) => keep_some(ms, conversion(ListConversion::OpenAIMessages)),
        None => Seq::empty(),
    };
    let m0 = Seq::empty().push(("model"@, JsonView::Str(remote))).push(("input"@, JsonView::Array(items)));
    let m1 = match get_u64(body, "max_tokens"@) {
        Some(v) => m0.push(("max_output_tokens"@, JsonView::Number(NumberView::PosInt(v)))),
        None => m0,
    };
    let m2 = with_stream(with_float(with_float(m1, body, "temperature"@), body, "top_p"@), body);
    let m3 = match get_arr(body, "tools"@) {
        Some(ts) => if keep_some(ts, conversion(ListConversion::OpenAITools)).len() > 0 {
            m2.push(("tools"@, JsonView::Array(keep_some(ts, conversion(ListConversion::OpenAITools)))))
        } else {
            m2
        },
        None => m2,
    };
    JsonView::Object(match jget(body, "tool_choice"@) {
        Some(tc) => match function_choice_spec(tc) {
            Some(c) => m3.push(("tool_choice"@, c)),
            None => m3,
        },
        None => m3,
    })
}

/// Convert a Responses request to an OpenAI chat request for `remote_model`.
pub fn responses_to_openai_request(body: &Json, remote_model: &str) -> (r: Json)
    ensures
        r.view() == responses_to_openai_request_spec(body.view(), remote_model@),
{
    let mut msgs: Vec<Json> = Vec::new();
    assert(views(msgs@) =~= Seq::empty());
    if let Some(i) = body.get_str("instructions") {
        if crate::text::char_count(i) > 0 {
            let mut m: Vec<(String, Json)> = Vec::new();
            assert(member_views(m@) =~= Seq::empty());
            push_member(&mut m, "role", Json::string("system"));
            push_member(&mut m, "content", Json::string(i));
            push_element(&mut msgs, Json::object(m));
            assert(views(msgs@) =~= seq![views(msgs@)[0]]);
        }
    }
    let ghost system = views(msgs@);
    assert(system == match get_str(body.view(), "instructions"@) {
        Some(i) => if i.len() > 0 { seq![obj2("role"@, JsonView::Str("system"@), "content"@, JsonView::Str(i))] } else { Seq::empty() },
        None => Seq::<JsonView>::empty(),
    });
    let input = match body.get("input") {
        Some(x) => x.deep_clone(),
        None => Json::string(empty_str()),
    };
    match input {
        Json::Str(s) => {
            if crate::text::char_count(s.as_str()) > 0 {
                let mut m: Vec<(String, Json)> = Vec::new();
                assert(member_views(m@) =~= Seq::empty());
                push_member(&mut m, "role", Json::string("user"));
                push_member(&mut m, "content", Json::Str(s));
                push_element(&mut msgs, Json::object(m));
                assert(views(msgs@) =~= system + seq![obj2("role"@, JsonView::Str("user"@), "content"@, JsonView::Str(s@))]);
            } else {
                assert(views(msgs@) =~= system + Seq::<JsonView>::empty());
            }
        },
        Json::Array(items) => {
            let converted = convert_list(ListConversion::ResponsesItems, &items);
            let ghost before = views(msgs@);
            let mut k: usize = 0;
            proof {
                lemma_views(converted@);
            }
            assert(views(msgs@) =~= before + views(converted@).subrange(0, 0));
            while k < converted.len()
                invariant
                    k <= converted@.len(),
                    views(msgs@) == before + views(converted@).subrange(0, k as int),
                    views(converted@).len() == converted@.len(),
                    forall|j: int| 0 <= j < converted@.len() ==> #[trigger] views(converted@)[j] == converted@[j].view(),
                decreases converted.len() - k,
            {
                push_element(&mut msgs, converted[k].deep_clone());
                k = k + 1;
                assert(views(msgs@) =~= before + views(converted@).subrange(0, k as int));
            }
            assert(views(converted@).subrange(0, converted@.len() as int) =~= views(converted@));
            assert(views(msgs@) == system + keep_some(views(items@), conversion(ListConversion::ResponsesItems)));
        },
        _ => {
            assert(views(msgs@) =~= system + Seq::<JsonView>::empty());
        },
    }
    let mut out: Vec<(String, Json)> = Vec::new();
    assert(member_views(out@) =~= Seq::empty());
    push_member(&mut out, "model", Json::string(remote_model));
    push_member(&mut out, "messages", Json::array(msgs));
    if let Some(v) = body.get_u64("max_output_tokens") {
        push_member(&mut out, "max_tokens", Json::unsigned(v));
    }
    copy_float(&mut out, body, "temperature");
    copy_float(&mut out, body, "top_p");
    copy_stream(&mut out, body);
    if let Some(ts) = body.get_array("tools") {
        let converted = convert_list(ListConversion::ResponsesTools, ts);
        if converted.len() > 0 {
            proof {
                lemma_views(converted@);
            }
            push_member(&mut out, "tools", Json::array(converted));
        } else {
            proof {
                lemma_views(converted@);
            }
        }
    }
    if let Some(tc) = body.get("tool_choice") {
        if let Some(c) = function_tool_choice(tc) {
            push_member(&mut out, "tool_choice", c);
        }
    }
    Json::object(out)
}

/// Convert an OpenAI chat request to a Responses request for `remote_model`.
pub fn openai_to_responses_request(body: &Json, remote_model: &str) -> (r: Json)
    ensures
        r.view() == openai_to_responses_request_spec(body.view(), remote_model@),
{
    let items = match body.get_array("messages") {
        Some(ms) => convert_list(ListConversion::OpenAIMessages, ms),
        None => {
            let v: Vec<Json> = Vec::new();
            assert(views(v@) =~= Seq::empty());
            v
        },
    };
    let mut out: Vec<(String, Json)> = Vec::new();
    assert(member_views(out@) =~= Seq::empty());
    push_member(&mut out, "model", Json::string(remote_model));
    push_member(&mut out, "input", Json::array(items));
    if let Some(v) = body.get_u64("max_tokens") {
        push_member(&mut out, "max_output_tokens", Json::unsigned(v));
    }
    copy_float(&mut out, body, "temperature");
    copy_float(&mut out, body, "top_p");
    copy_stream(&mut out, body);
    if let Some(ts) = body.get_array("tools") {
        let converted = convert_list(ListConversion::OpenAITools, ts);
        if converted.len() > 0 {
            proof {
                lemma_views(converted@);
            }
            push_member(&mut out, "tools", Json::array(converted));
        } else {
            proof {
                lemma_views(converted@);
            }
        }
    }
    if let Some(tc) = body.get("tool_choice") {
        if let Some(c) = function_tool_choice(tc) {
            push_member(&mut out, "tool_choice", c);
        }
    }
    Json::object(out)
}

} // verus!
