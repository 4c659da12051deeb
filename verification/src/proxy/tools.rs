//! Tool declarations, tool choices and stop sequences across dialects.

use vstd::prelude::*;
use crate::json::{
    Json, JsonView, get_arr, get_str, jget, lemma_views, member_views, push_element, push_member, views,
};
use crate::text::str_eq;

verus! {

/// A function declaration rebuilt from `f`: its `name` (required to be a
/// string), its `description` when present, and its schema read from
/// `in_key` and written under `out_key` (an empty object when absent).
pub open spec fn decl(f: JsonView, in_key: Seq<char>, out_key: Seq<char>) -> Option<JsonView> {
    match get_str(f, "name"@) {
        None => None,
        Some(name) => {
            let head = Seq::empty().push(("name"@, JsonView::Str(name)));
            let with_desc = match jget(f, "description"@) {
                Some(d) => head.push(("description"@, d)),
                None => head,
            };
            Some(JsonView::Object(with_desc.push((out_key, match jget(f, in_key) {
                Some(p) => p,
                None => JsonView::Object(Seq::empty()),
            }))))
        },
    }
}

/// A declaration wrapped as an OpenAI function tool.
pub open spec fn openai_function_tool(d: JsonView) -> JsonView {
    JsonView::Object(Seq::empty().push(("type"@, JsonView::Str("function"@))).push(("function"@, d)))
}

fn decl_exec(f: &Json, in_key: &str, out_key: &str) -> (r: Option<Json>)
    ensures
        crate::json::opt_owned(r) == decl(f.view(), in_key@, out_key@),
{
    let name = match f.get_str("name") {
        Some(n) => n,
        None => return None,
    };
    let mut m: Vec<(String, Json)> = Vec::new();
    assert(member_views(m@) =~= Seq::empty());
    push_member(&mut m, "name", Json::string(name));
    if let Some(d) = f.get("description") {
        push_member(&mut m, "description", d.deep_clone());
    }
    let schema = match f.get(in_key) {
        Some(p) => p.deep_clone(),
        None => Json::object(Vec::new()),
    };
    proof {
        if jget(f.view(), in_key@) is None {
            assert(member_views(Seq::<(String, Json)>::empty()) =~= Seq::empty());
        }
    }
    push_member(&mut m, out_key, schema);
    Some(Json::object(m))
}

fn function_tool_exec(d: Json) -> (r: Json)
    ensures
        r.view() == openai_function_tool(d.view()),
{
    let mut m: Vec<(String, Json)> = Vec::new();
    assert(member_views(m@) =~= Seq::empty());
    push_member(&mut m, "type", Json::string("function"));
    push_member(&mut m, "function", d);
    Json::object(m)
}

/// The declarations of a list, wrapped as OpenAI tools; entries without a
/// string name are skipped.
pub open spec fn wrapped_decls(ds: Seq<JsonView>, in_key: Seq<char>) -> Seq<JsonView>
    decreases ds.len(),
{
    if ds.len() == 0 {
        Seq::empty()
    } else {
        let rest = wrapped_decls(ds.drop_last(), in_key);
        match decl(ds.last(), in_key, "parameters"@) {
            Some(d) => rest.push(openai_function_tool(d)),
            None => rest,
        }
    }
}

/// Gemini tools as OpenAI tools: every function declaration of every tool.
pub open spec fn google_tools_to_openai_spec(tools: Seq<JsonView>) -> Seq<JsonView>
    decreases tools.len(),
{
    if tools.len() == 0 {
        Seq::empty()
    } else {
        google_tools_to_openai_spec(tools.drop_last()) + match get_arr(tools.last(), "functionDeclarations"@) {
            Some(ds) => wrapped_decls(ds, "parameters"@),
            None => Seq::empty(),
        }
    }
}

fn push_wrapped_decls(out: &mut Vec<Json>, ds: &Vec<Json>, in_key: &str)
    ensures
        views(final(out)@) == views(old(out)@) + wrapped_decls(views(ds@), in_key@),
{
    proof {
        lemma_views(ds@);
    }
    let ghost a = views(ds@);
    let ghost start = views(out@);
    let mut i: usize = 0;
    assert(a.subrange(0, 0) =~= Seq::<JsonView>::empty());
    assert(views(out@) =~= start + wrapped_decls(a.subrange(0, 0), in_key@));
    while i < ds.len()
        invariant
            i <= ds@.len(),
            a == views(ds@),
            a.len() == ds@.len(),
            forall|k: int| 0 <= k < ds@.len() ==> #[trigger] a[k] == ds@[k].view(),
            views(out@) == start + wrapped_decls(a.subrange(0, i as int), in_key@),
        decreases ds.len() - i,
    {
        assert(a.subrange(0, i + 1).drop_last() =~= a.subrange(0, i as int));
        assert(a.subrange(0, i + 1).last() == ds@[i as int].view());
        match decl_exec(&ds[i], in_key, "parameters") {
            Some(d) => {
                let t = function_tool_exec(d);
                push_element(out, t);
            },
            None => {},
        }
        i = i + 1;
        assert(views(out@) =~= start + wrapped_decls(a.subrange(0, i as int), in_key@));
    }
    assert(a.subrange(0, a.len() as int) =~= a);
}

/// Convert Gemini tool declarations to OpenAI tools.
pub fn google_tools_to_openai(tools: &Vec<Json>) -> (r: Vec<Json>)
    ensures
        views(r@) == google_tools_to_openai_spec(views(tools@)),
{
    proof {
        lemma_views(tools@);
    }
    let ghost a = views(tools@);
    let mut out: Vec<Json> = Vec::new();
    let mut i: usize = 0;
    assert(views(out@) =~= Seq::empty());
    assert(a.subrange(0, 0) =~= Seq::<JsonView>::empty());
    while i < tools.len()
        invariant
            i <= tools@.len(),
            a == views(tools@),
            a.len() == tools@.len(),
            forall|k: int| 0 <= k < tools@.len() ==> #[trigger] a[k] == tools@[k].view(),
            views(out@) == google_tools_to_openai_spec(a.subrange(0, i as int)),
        decreases tools.len() - i,
    {
        assert(a.subrange(0, i + 1).drop_last() =~= a.subrange(0, i as int));
        assert(a.subrange(0, i + 1).last() == tools@[i as int].view());
        match tools[i].get_array("functionDeclarations") {
            Some(ds) => push_wrapped_decls(&mut out, ds, "parameters"),
            None => {
                assert(views(out@) =~= views(out@) + Seq::<JsonView>::empty());
            },
        }
        i = i + 1;
    }
    assert(a.subrange(0, a.len() as int) =~= a);
    out
}

/// Convert Anthropic tools to OpenAI tools: each named tool becomes a
/// function whose parameters are its `input_schema`.
pub fn anthropic_tools_to_openai(tools: &Vec<Json>) -> (r: Vec<Json>)
    ensures
        views(r@) == wrapped_decls(views(tools@), "input_schema"@),
{
    let mut out: Vec<Json> = Vec::new();
    assert(views(out@) =~= Seq::empty());
    push_wrapped_decls(&mut out, tools, "input_schema");
    assert(views(out@) =~= wrapped_decls(views(tools@), "input_schema"@));
    out
}

/// The declarations of the OpenAI function tools of a list, with their
/// schema written under `out_key`; other tools are skipped.
pub open spec fn openai_function_decls(tools: Seq<JsonView>, out_key: Seq<char>) -> Seq<JsonView>
    decreases tools.len(),
{
    if tools.len() == 0 {
        Seq::empty()
    } else {
        let rest = openai_function_decls(tools.drop_last(), out_key);
        let t = tools.last();
        if get_str(t, "type"@) == Some("function"@) {
            match jget(t, "function"@) {
                Some(f) => match decl(f, "parameters"@, out_key) {
                    Some(d) => rest.push(d),
                    None => rest,
                },
                None => rest,
            }
        } else {
            rest
        }
    }
}

fn openai_function_decls_exec(tools: &Vec<Json>, out_key: &str) -> (r: Vec<Json>)
    ensures
        views(r@) == openai_function_decls(views(tools@), out_key@),
{
    proof {
        lemma_views(tools@);
    }
    let ghost a = views(tools@);
    let mut out: Vec<Json> = Vec::new();
    let mut i: usize = 0;
    assert(views(out@) =~= Seq::empty());
    assert(a.subrange(0, 0) =~= Seq::<JsonView>::empty());
    while i < tools.len()
        invariant
            i <= tools@.len(),
            a == views(tools@),
            a.len() == tools@.len(),
            forall|k: int| 0 <= k < tools@.len() ==> #[trigger] a[k] == tools@[k].view(),
            views(out@) == openai_function_decls(a.subrange(0, i as int), out_key@),
        decreases tools.len() - i,
    {
        assert(a.subrange(0, i + 1).drop_last() =~= a.subrange(0, i as int));
        assert(a.subrange(0, i + 1).last() == tools@[i as int].view());
        let t = &tools[i];
        let is_function = match t.get_str("type") {
            Some(ty) => str_eq(ty, "function"),
            None => false,
        };
        if is_function {
            if let Some(f) = t.get("function") {
                if let Some(d) = decl_exec(f, "parameters", out_key) {
                    push_element(&mut out, d);
                }
            }
        }
        i = i + 1;
    }
    assert(a.subrange(0, a.len() as int) =~= a);
    out
}

/// OpenAI function tools as Anthropic tools, their parameters as
/// `input_schema`.
pub fn openai_tools_to_anthropic(tools: &Vec<Json>) -> (r: Vec<Json>)
    ensures
        views(r@) == openai_function_decls(views(tools@), "input_schema"@),
{
    openai_function_decls_exec(tools, "input_schema")
}

/// OpenAI function tools as Gemini tools: one tool holding every function
/// declaration, or no tool at all when there is none.
pub open spec fn openai_tools_to_google_spec(tools: Seq<JsonView>) -> Seq<JsonView> {
    let decls = openai_function_decls(tools, "parameters"@);
    if decls.len() == 0 {
        Seq::empty()
    } else {
        seq![JsonView::Object(Seq::empty().push(("functionDeclarations"@, JsonView::Array(decls))))]
    }
}

/// Convert OpenAI tools to Gemini tools.
pub fn openai_tools_to_google(tools: &Vec<Json>) -> (r: Vec<Json>)
    ensures
        views(r@) == openai_tools_to_google_spec(views(tools@)),
{
    let decls = openai_function_decls_exec(tools, "parameters");
    let mut out: Vec<Json> = Vec::new();
    if decls.len() == 0 {
        assert(views(out@) =~= Seq::empty());
        return out;
    }
    let mut m: Vec<(String, Json)> = Vec::new();
    assert(member_views(m@) =~= Seq::empty());
    push_member(&mut m, "functionDeclarations", Json::array(decls));
    assert(views(out@) =~= Seq::empty());
    push_element(&mut out, Json::object(m));
    assert(views(out@) =~= openai_tools_to_google_spec(views(tools@)));
    out
}

/// An OpenAI tool choice as Anthropic's: `auto` and `none` carry over, a
/// named function becomes a named tool, anything else is dropped.
pub open spec fn openai_tool_choice_to_anthropic_spec(tc: JsonView) -> Option<JsonView> {
    match tc {
        JsonView::Str(s) => if s == "auto"@ || s == "none"@ { Some(JsonView::Str(s)) } else { None },
        JsonView::Object(_) => if get_str(tc, "type"@) == Some("function"@) {
            match jget(tc, "function"@) {
                Some(f) => match get_str(f, "name"@) {
                    Some(n) => Some(JsonView::Object(Seq::empty().push(("type"@, JsonView::Str("tool"@))).push(("name"@, JsonView::Str(n))))),
                    None => None,
                },
                None => None,
            }
        } else {
            None
        },
        _ => None,
    }
}

/// Convert an OpenAI tool choice to Anthropic's.
pub fn openai_tool_choice_to_anthropic(tc: &Json) -> (r: Option<Json>)
    ensures
        crate::json::opt_owned(r) == openai_tool_choice_to_anthropic_spec(tc.view()),
{
    match tc {
        Json::Str(s) => {
            if str_eq(s.as_str(), "auto") || str_eq(s.as_str(), "none") {
                Some(Json::Str(s.clone()))
            } else {
                None
            }
        },
        Json::Object(_) => {
            let is_function = match tc.get_str("type") {
                Some(t) => str_eq(t, "function"),
                None => false,
            };
            if !is_function {
                return None;
            }
            let name = match tc.get("function") {
                Some(f) => match f.get_str("name") {
                    Some(n) => n,
                    None => return None,
                },
                None => return None,
            };
            let mut m: Vec<(String, Json)> = Vec::new();
            assert(member_views(m@) =~= Seq::empty());
            push_member(&mut m, "type", Json::string("tool"));
            push_member(&mut m, "name", Json::string(name));
            Some(Json::object(m))
        },
        _ => None,
    }
}

/// An Anthropic tool choice as OpenAI's: `auto` and `none` carry over, a
/// named tool becomes a named function, `any` becomes `auto`, anything else
/// is dropped.
pub open spec fn anthropic_tool_choice_to_openai_spec(tc: JsonView) -> Option<JsonView> {
    match tc {
        JsonView::Str(s) => if s == "auto"@ || s == "none"@ { Some(JsonView::Str(s)) } else { None },
        JsonView::Object(_) => match get_str(tc, "type"@) {
            Some(t) => if t == "tool"@ {
                match get_str(tc, "name"@) {
                    Some(n) => Some(openai_function_tool(JsonView::Object(Seq::empty().push(("name"@, JsonView::Str(n)))))),
                    None => None,
                }
            } else if t == "any"@ {
                Some(JsonView::Str("auto"@))
            } else {
                None
            },
            None => None,
        },
        _ => None,
    }
}

/// Convert an Anthropic tool choice to OpenAI's.
pub fn anthropic_tool_choice_to_openai(tc: &Json) -> (r: Option<Json>)
    ensures
        crate::json::opt_owned(r) == anthropic_tool_choice_to_openai_spec(tc.view()),
{
    match tc {
        Json::Str(s) => {
            if str_eq(s.as_str(), "auto") || str_eq(s.as_str(), "none") {
                Some(Json::Str(s.clone()))
            } else {
                None
            }
        },
        Json::Object(_) => {
            let t = match tc.get_str("type") {
                Some(t) => t,
                None => return None,
            };
            if str_eq(t, "tool") {
                match tc.get_str("name") {
                    Some(n) => {
                        let mut f: Vec<(String, Json)> = Vec::new();
                        assert(member_views(f@) =~= Seq::empty());
                        push_member(&mut f, "name", Json::string(n));
                        Some(function_tool_exec(Json::object(f)))
                    },
                    None => None,
                }
            } else if str_eq(t, "any") {
                Some(Json::string("auto"))
            } else {
                None
            }
        },
        _ => None,
    }
}

/// OpenAI `stop` as a list of stop sequences: a string is one sequence, an
/// array is kept, anything else is none; an empty list is no list.
pub open spec fn openai_stop_spec(stop: Option<JsonView>) -> Option<Seq<JsonView>> {
    match stop {
        Some(JsonView::Str(s)) => Some(seq![JsonView::Str(s)]),
        Some(JsonView::Array(a)) => if a.len() == 0 { None } else { Some(a) },
        _ => None,
    }
}

/// Convert OpenAI `stop` to a list of stop sequences.
pub fn openai_stop_to_array(stop: Option<&Json>) -> (r: Option<Vec<Json>>)
    ensures
        match r {
            Some(v) => openai_stop_spec(crate::json::opt_json(stop)) == Some(views(v@)),
            None => openai_stop_spec(crate::json::opt_json(stop)) is None,
        },
{
    match stop {
        Some(Json::Str(s)) => {
            let mut v: Vec<Json> = Vec::new();
            assert(views(v@) =~= Seq::empty());
            push_element(&mut v, Json::Str(s.clone()));
            assert(views(v@) =~= seq![JsonView::Str(s@)]);
            Some(v)
        },
        Some(j) => {
            let c = j.deep_clone();
            match c {
                Json::Array(a) => {
                    if a.len() == 0 {
                        None
                    } else {
                        Some(a)
                    }
                },
                _ => None,
            }
        },
        None => None,
    }
}

} // verus!
