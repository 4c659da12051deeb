//! Streamed replies: upstream server-sent-event bytes re-emitted, line by
//! line, in the client's dialect, with the token usage they report.

use vstd::prelude::*;
use vstd::utf8::{
    decode_utf8, encode_utf8, valid_utf8,
};
use crate::config::ProviderFormat;
use crate::json::{
    Json, JsonView, get_str, get_u64, jget, json_parse, json_serialize, json_to_text, member_views,
    parse_json, push_element, push_member, views,
};
use crate::proxy::anthropic::{
    empty_object, empty_object_exec,
};
use crate::proxy::content::{
    obj1, obj1_exec, obj2, obj2_exec,
};
use crate::proxy::reply::{
    chunk, convert_sse_data, convert_sse_spec, first_in, first_in_exec, num, opt_member, opt_member_exec,
    opt_str, sse_view,
};
use crate::proxy::sse::{
    Usage, extract_from_usage_object, usage_after,
};
use crate::text::{
    chars_eq, chars_of, decimal_string, first_index, has_prefix, lemma_first_index_prefix,
    lemma_first_index_push, occurs_at_exec, opt_index, skip_ws_backward, skip_ws_forward, string_from_range,
    string_push_str, sub_chars, trim_end_seq, trim_seq, u128_to_decimal, utf8_text,
};

verus! {

/// A tool call whose arguments are streaming, by value.
#[verifier::ext_equal]
pub struct ToolState {
    pub id: Option<Seq<char>>,
    pub name: Option<Seq<char>>,
    pub arguments: Seq<char>,
}

/// What a stream converter knows, apart from the bytes of an unfinished
/// line.
#[verifier::ext_equal]
pub struct StreamState {
    pub from: ProviderFormat,
    pub to: ProviderFormat,
    pub model: Seq<char>,
    pub usage: Usage,
    pub pending: Option<Seq<char>>,
    pub tools: Seq<(u64, ToolState)>,
    pub last_tool: Option<u64>,
    pub started: bool,
    pub text_open: bool,
    pub stopped: bool,
    pub done_sent: bool,
}

/// A fresh converter's state.
pub open spec fn initial_state(from: ProviderFormat, to: ProviderFormat, model: Seq<char>) -> StreamState {
    StreamState {
        from,
        to,
        model,
        usage: Usage { prompt: 0, completion: 0, cached: 0 },
        pending: None,
        tools: Seq::empty(),
        last_tool: None,
        started: false,
        text_open: false,
        stopped: false,
        done_sent: false,
    }
}

// ---------------------------------------------------------------------------
// Output lines
// ---------------------------------------------------------------------------

/// A `data:` line carrying a JSON value.
pub open spec fn data_line(v: JsonView) -> Seq<u8> {
    encode_utf8("data: "@ + json_serialize(v) + "\n"@)
}

/// An `event:` line.
pub open spec fn event_line(name: Seq<char>) -> Seq<u8> {
    encode_utf8("event: "@ + name + "\n"@)
}

/// A named event and its data.
pub open spec fn event_out(name: Seq<char>, v: JsonView) -> Seq<u8> {
    event_line(name) + data_line(v)
}

/// The line that ends an OpenAI stream.
pub open spec fn done_line() -> Seq<u8> {
    encode_utf8("data: [DONE]\n"@)
}

/// A string value.
pub open spec fn txt(t: Seq<char>) -> JsonView {
    JsonView::Str(t)
}

// ---------------------------------------------------------------------------
// Anthropic message lifecycle
// ---------------------------------------------------------------------------

/// The `message_start` event's data for `model`.
pub open spec fn message_start_json(model: Seq<char>) -> JsonView {
    let message = JsonView::Object(Seq::empty().push(("id"@, txt("msg_tokenguard"@))).push(("type"@, txt("message"@))).push((
        "role"@,
        txt("assistant"@),
    )).push(("model"@, txt(model))).push(("content"@, JsonView::Array(Seq::empty()))).push(("stop_reason"@, JsonView::Null)).push((
        "usage"@,
        obj2("input_tokens"@, num(0), "output_tokens"@, num(0)),
    )));
    obj2("type"@, txt("message_start"@), "message"@, message)
}

/// The `content_block_start` event's data opening the text block.
pub open spec fn text_block_start_json() -> JsonView {
    JsonView::Object(Seq::empty().push(("type"@, txt("content_block_start"@))).push(("index"@, num(0))).push((
        "content_block"@,
        obj2("type"@, txt("text"@), "text"@, txt(Seq::empty())),
    )))
}

/// The `content_block_stop` event's data for block `idx`.
pub open spec fn block_stop_json(idx: u64) -> JsonView {
    obj2("type"@, txt("content_block_stop"@), "index"@, num(idx))
}

/// The `message_stop` event's data.
pub open spec fn message_stop_json() -> JsonView {
    obj1("type"@, txt("message_stop"@))
}

/// Emit `message_start` once, before anything else.
pub open spec fn ensure_message(st: StreamState) -> (StreamState, Seq<u8>) {
    if st.started {
        (st, Seq::empty())
    } else {
        (StreamState { started: true, ..st }, event_out("message_start"@, message_start_json(st.model)))
    }
}

/// Open the text block (index zero) once, before the first text delta.
pub open spec fn ensure_text_block(st: StreamState) -> (StreamState, Seq<u8>) {
    if st.text_open {
        (st, Seq::empty())
    } else {
        (StreamState { text_open: true, ..st }, event_out("content_block_start"@, text_block_start_json()))
    }
}

/// Index of the entry with the least block index (the first such).
pub open spec fn min_key_index(t: Seq<(u64, ToolState)>) -> int
    decreases t.len(),
{
    if t.len() <= 1 {
        0
    } else {
        let j = min_key_index(t.drop_last());
        if t.last().0 < t[j].0 { t.len() - 1 } else { j }
    }
}

/// `content_block_stop` for each streamed tool block, in ascending index
/// order.
pub open spec fn tool_stops(t: Seq<(u64, ToolState)>) -> Seq<u8>
    decreases t.len(),
{
    if t.len() == 0 {
        Seq::empty()
    } else {
        let i = min_key_index(t);
        if 0 <= i < t.len() {
            event_out("content_block_stop"@, block_stop_json(t[i].0)) + tool_stops(t.remove(i))
        } else {
            Seq::empty()
        }
    }
}

/// Close the open text block and every streamed tool block.
pub open spec fn close_blocks(st: StreamState) -> (StreamState, Seq<u8>) {
    let text = if st.text_open { event_out("content_block_stop"@, block_stop_json(0)) } else { Seq::empty() };
    (StreamState { text_open: false, tools: Seq::empty(), ..st }, text + tool_stops(st.tools))
}

/// Start the message if needed, close its blocks, and stop it.
pub open spec fn stop_message(st: StreamState) -> (StreamState, Seq<u8>) {
    let (s1, o1) = ensure_message(st);
    let (s2, o2) = close_blocks(s1);
    (StreamState { stopped: true, ..s2 }, o1 + o2 + event_out("message_stop"@, message_stop_json()))
}

// ---------------------------------------------------------------------------
// Streamed tool calls
// ---------------------------------------------------------------------------

/// A tool call with nothing known yet.
pub open spec fn no_tool() -> ToolState {
    ToolState { id: None, name: None, arguments: Seq::empty() }
}

/// The entry of block `idx`.
pub open spec fn tool_at(idx: u64) -> spec_fn((u64, ToolState)) -> bool {
    |e: (u64, ToolState)| e.0 == idx
}

/// What is known of block `idx`.
pub open spec fn tool_entry(t: Seq<(u64, ToolState)>, idx: u64) -> ToolState {
    match first_index(t, tool_at(idx)) {
        Some(i) => t[i].1,
        None => no_tool(),
    }
}

/// `t` with block `idx` set to `e`.
pub open spec fn tool_put(t: Seq<(u64, ToolState)>, idx: u64, e: ToolState) -> Seq<(u64, ToolState)> {
    match first_index(t, tool_at(idx)) {
        Some(i) => t.update(i, (idx, e)),
        None => t.push((idx, e)),
    }
}

/// The `content_block_start` of a tool block.
pub open spec fn tool_block_start_json(idx: u64, id: Seq<char>, name: Seq<char>) -> JsonView {
    let block = JsonView::Object(Seq::empty().push(("type"@, txt("tool_use"@))).push(("id"@, txt(id))).push(("name"@, txt(name))).push((
        "input"@,
        empty_object(),
    )));
    JsonView::Object(Seq::empty().push(("type"@, txt("content_block_start"@))).push(("index"@, num(idx))).push((
        "content_block"@,
        block,
    )))
}

/// The `content_block_delta` carrying part of a tool's arguments.
pub open spec fn tool_delta_json(idx: u64, args: Seq<char>) -> JsonView {
    JsonView::Object(Seq::empty().push(("type"@, txt("content_block_delta"@))).push(("index"@, num(idx))).push((
        "delta"@,
        obj2("type"@, txt("input_json_delta"@), "partial_json"@, txt(args)),
    )))
}

/// One OpenAI streamed tool call as Anthropic events: the block start when
/// it names its function (with its id, or `call_{index}`), and its argument
/// delta; skipped without an index.
pub open spec fn openai_tool_call(st: StreamState, tc: JsonView) -> (StreamState, Seq<u8>) {
    match get_u64(tc, "index"@) {
        None => (st, Seq::empty()),
        Some(idx) => {
            let f = jget(tc, "function"@);
            let name = opt_str(opt_member(f, "name"@));
            let args = opt_str(opt_member(f, "arguments"@));
            let e0 = tool_entry(st.tools, idx);
            let e1 = ToolState {
                id: match get_str(tc, "id"@) {
                    Some(i) => Some(i),
                    None => e0.id,
                },
                name: match name {
                    Some(n) => Some(n),
                    None => e0.name,
                },
                arguments: e0.arguments,
            };
            let start = match name {
                Some(n) => event_out(
                    "content_block_start"@,
                    tool_block_start_json(idx, match e1.id {
                        Some(i) => i,
                        None => "call_"@ + decimal_string(idx as nat),
                    }, n),
                ),
                None => Seq::empty(),
            };
            let e2 = match args {
                Some(a) => ToolState { arguments: e1.arguments + a, ..e1 },
                None => e1,
            };
            let delta = match args {
                Some(a) => event_out("content_block_delta"@, tool_delta_json(idx, a)),
                None => Seq::empty(),
            };
            (StreamState { tools: tool_put(st.tools, idx, e2), ..st }, start + delta)
        },
    }
}

/// The tool calls of a chunk, in order.
pub open spec fn openai_tool_calls(st: StreamState, tcs: Seq<JsonView>) -> (StreamState, Seq<u8>)
    decreases tcs.len(),
{
    if tcs.len() == 0 {
        (st, Seq::empty())
    } else {
        let (s1, o1) = openai_tool_calls(st, tcs.drop_last());
        let (s2, o2) = openai_tool_call(s1, tcs.last());
        (s2, o1 + o2)
    }
}

/// An OpenAI chunk whose delta carries tool calls, as Anthropic events
/// (after `message_start`); none for other chunks.
pub open spec fn openai_tool_chunk(st: StreamState, v: JsonView) -> Option<(StreamState, Seq<u8>)> {
    match opt_member(opt_member(first_in(v, "choices"@), "delta"@), "tool_calls"@) {
        Some(JsonView::Array(tcs)) => {
            let (s1, o1) = ensure_message(st);
            let (s2, o2) = openai_tool_calls(s1, tcs);
            Some((s2, o1 + o2))
        },
        _ => None,
    }
}

/// An Anthropic tool block start or argument delta as an OpenAI tool-call
/// chunk; none for anything else.  A delta goes to its own block index,
/// else the last started tool block, else zero.
pub open spec fn anthropic_tool_chunk(st: StreamState, v: JsonView) -> Option<(StreamState, Seq<u8>)> {
    match st.pending {
        None => None,
        Some(e) => if e == "content_block_start"@ {
            let block = jget(v, "content_block"@);
            if opt_str(opt_member(block, "type"@)) != Some("tool_use"@) {
                None
            } else {
                let idx = match get_u64(v, "index"@) {
                    Some(i) => i,
                    None => 0,
                };
                let id = match opt_str(opt_member(block, "id"@)) {
                    Some(i) => i,
                    None => Seq::empty(),
                };
                let name = match opt_str(opt_member(block, "name"@)) {
                    Some(n) => n,
                    None => Seq::empty(),
                };
                let call = JsonView::Object(Seq::empty().push(("index"@, num(idx))).push(("id"@, txt(id))).push(("type"@, txt("function"@))).push((
                    "function"@,
                    obj1("name"@, txt(name)),
                )));
                let delta = obj2("role"@, txt("assistant"@), "tool_calls"@, JsonView::Array(Seq::empty().push(call)));
                Some((StreamState { last_tool: Some(idx), ..st }, data_line(JsonView::Object(chunk(delta, None)))))
            }
        } else if e == "content_block_delta"@ {
            match opt_str(opt_member(jget(v, "delta"@), "partial_json"@)) {
                None => None,
                Some(p) => {
                    let idx = match get_u64(v, "index"@) {
                        Some(i) => i,
                        None => match st.last_tool {
                            Some(l) => l,
                            None => 0,
                        },
                    };
                    let call = obj2("index"@, num(idx), "function"@, obj1("arguments"@, txt(p)));
                    let delta = obj1("tool_calls"@, JsonView::Array(Seq::empty().push(call)));
                    Some((st, data_line(JsonView::Object(chunk(delta, None)))))
                },
            }
        } else {
            None
        },
    }
}

// ---------------------------------------------------------------------------
// Lines
// ---------------------------------------------------------------------------

/// Emit a converted chunk, with the Anthropic lifecycle events it needs
/// before it: the message and text block before a text delta, the closed
/// blocks before the message delta.
pub open spec fn emit_converted(st: StreamState, c: Option<(Option<Seq<char>>, JsonView)>) -> (StreamState, Seq<u8>) {
    match c {
        None => (st, Seq::empty()),
        Some((name, v)) => {
            let (s1, o1) = if st.to == ProviderFormat::Anthropic {
                match name {
                    Some(n) => if n == "content_block_delta"@ {
                        let (a, oa) = ensure_message(st);
                        let (b, ob) = ensure_text_block(a);
                        (b, oa + ob)
                    } else if n == "message_delta"@ {
                        close_blocks(st)
                    } else {
                        (st, Seq::empty())
                    },
                    None => (st, Seq::empty()),
                }
            } else {
                (st, Seq::empty())
            };
            let o2 = match name {
                Some(n) => event_line(n),
                None => Seq::empty(),
            };
            (s1, o1 + o2 + data_line(v))
        },
    }
}

/// Where a chunk reports usage: its `usage`, its response's or message's
/// `usage`, or its `usageMetadata`.
pub open spec fn usage_source(v: JsonView) -> Option<JsonView> {
    match jget(v, "usage"@) {
        Some(u) => Some(u),
        None => match opt_member(jget(v, "response"@), "usage"@) {
            Some(u) => Some(u),
            None => match opt_member(jget(v, "message"@), "usage"@) {
                Some(u) => Some(u),
                None => jget(v, "usageMetadata"@),
            },
        },
    }
}

/// A JSON chunk of a `data:` line in the client's dialect: passed through
/// between equal dialects; else a streamed tool call, or the converted
/// chunk, or nothing where it has no counterpart.
pub open spec fn data_chunk(st: StreamState, line: Seq<u8>, v: JsonView) -> (StreamState, Seq<u8>) {
    let s1 = match usage_source(v) {
        Some(u) => StreamState { usage: usage_after(st.usage, u), ..st },
        None => st,
    };
    if st.from == st.to {
        (StreamState { pending: None, ..s1 }, line)
    } else {
        let tool = if st.from == ProviderFormat::OpenAI && st.to == ProviderFormat::Anthropic {
            openai_tool_chunk(s1, v)
        } else if st.from == ProviderFormat::Anthropic && st.to == ProviderFormat::OpenAI {
            anthropic_tool_chunk(s1, v)
        } else {
            None
        };
        match tool {
            Some((s2, o)) => (StreamState { pending: None, ..s2 }, o),
            None => {
                let (s2, o) = emit_converted(s1, convert_sse_spec(st.from, st.to, s1.pending, v));
                (StreamState { pending: None, ..s2 }, o)
            },
        }
    }
}

/// One line (with its newline) of the upstream stream: what the converter
/// becomes and what it emits.  Bytes that are not UTF-8, lines that are not
/// events or data, and data that is not JSON pass through unchanged.
pub open spec fn line_step(st: StreamState, line: Seq<u8>) -> (StreamState, Seq<u8>) {
    if !valid_utf8(line) {
        (st, line)
    } else {
        let t = trim_end_seq(decode_utf8(line));
        if t.len() == 0 {
            (StreamState { pending: None, ..st }, seq![10u8])
        } else if has_prefix(t, "event:"@) {
            (StreamState { pending: Some(trim_seq(t.subrange(6, t.len() as int))), ..st }, if st.from == st.to {
                line
            } else {
                Seq::empty()
            })
        } else if !has_prefix(t, "data:"@) {
            (st, line)
        } else {
            let payload = trim_seq(t.subrange(5, t.len() as int));
            if payload.len() == 0 {
                (StreamState { pending: None, ..st }, line)
            } else if payload == "[DONE]"@ {
                let s1 = StreamState { pending: None, done_sent: true, ..st };
                if st.from == ProviderFormat::OpenAI && st.to == ProviderFormat::Anthropic {
                    stop_message(s1)
                } else {
                    (s1, line)
                }
            } else {
                match json_parse(payload) {
                    None => (st, line),
                    Some(v) => data_chunk(st, line, v),
                }
            }
        }
    }
}

/// A newline byte.
pub open spec fn is_newline(b: u8) -> bool {
    b == 10u8
}

/// The newline test, as a function.
pub open spec fn newline_at() -> spec_fn(u8) -> bool {
    |b: u8| is_newline(b)
}

/// Every complete line of `buf`, in order: the state after them, the bytes
/// left over, and what they emit.
pub open spec fn drain_lines(st: StreamState, buf: Seq<u8>) -> (StreamState, Seq<u8>, Seq<u8>)
    decreases buf.len(),
{
    match first_index(buf, newline_at()) {
        None => (st, buf, Seq::empty()),
        Some(i) => if 0 <= i < buf.len() {
            let (s1, o1) = line_step(st, buf.subrange(0, i + 1));
            let (s2, rest, o2) = drain_lines(s1, buf.subrange(i + 1, buf.len() as int));
            (s2, rest, o1 + o2)
        } else {
            (st, buf, Seq::empty())
        },
    }
}

/// The end of the stream: the unfinished line as a last line, then the
/// terminal events the upstream dialect never sends (`[DONE]` for OpenAI
/// clients; the message's close and stop for Anthropic clients).
pub open spec fn finish_stream(st: StreamState, buf: Seq<u8>) -> (StreamState, Seq<u8>) {
    let (s1, o1) = if buf.len() > 0 { line_step(st, buf.push(10u8)) } else { (st, Seq::empty()) };
    let (s2, o2) = if s1.to == ProviderFormat::OpenAI && !s1.done_sent {
        (StreamState { done_sent: true, ..s1 }, done_line())
    } else {
        (s1, Seq::empty())
    };
    let (s3, o3) = if s2.to == ProviderFormat::Anthropic && s2.from != ProviderFormat::Anthropic && !s2.stopped {
        stop_message(s2)
    } else {
        (s2, Seq::empty())
    };
    (s3, o1 + o2 + o3)
}

// ---------------------------------------------------------------------------
// The converter
// ---------------------------------------------------------------------------

/// A tool call whose arguments are streaming.
pub struct StreamingToolCall {
    id: Option<String>,
    name: Option<String>,
    arguments: String,
}

/// An optional string, by value.
pub open spec fn opt_chars(o: Option<String>) -> Option<Seq<char>> {
    match o {
        Some(x) => Some(x@),
        None => None,
    }
}

impl StreamingToolCall {
    pub closed spec fn view(&self) -> ToolState {
        ToolState { id: opt_chars(self.id), name: opt_chars(self.name), arguments: self.arguments@ }
    }
}

/// Streamed tool calls by block index, by value.
pub open spec fn tools_view(v: Seq<(u64, StreamingToolCall)>) -> Seq<(u64, ToolState)> {
    v.map_values(|e: (u64, StreamingToolCall)| (e.0, e.1.view()))
}

/// Re-emits an upstream event stream in the client's dialect, line by line,
/// and keeps the token usage the stream reports.
pub struct SseConverter {
    from: ProviderFormat,
    to: ProviderFormat,
    model: String,
    buf: Vec<u8>,
    pub usage: Usage,
    pending_event: Option<String>,
    streaming_tools: Vec<(u64, StreamingToolCall)>,
    last_tool_index: Option<u64>,
    anthropic_started: bool,
    anthropic_text_open: bool,
    anthropic_stopped: bool,
    done_sent: bool,
}

fn push_bytes(out: &mut Vec<u8>, b: &[u8])
    ensures
        final(out)@ == old(out)@ + b@,
{
    let mut i: usize = 0;
    while i < b.len()
        invariant
            i <= b@.len(),
            out@ == old(out)@ + b@.subrange(0, i as int),
        decreases b.len() - i,
    {
        out.push(b[i]);
        i = i + 1;
        assert(out@ =~= old(out)@ + b@.subrange(0, i as int));
    }
    assert(b@.subrange(0, b@.len() as int) =~= b@);
}

fn push_text(out: &mut Vec<u8>, t: &str)
    ensures
        final(out)@ == old(out)@ + encode_utf8(t@),
{
    push_bytes(out, t.as_bytes());
}

fn push_data_line(out: &mut Vec<u8>, v: &Json)
    ensures
        final(out)@ == old(out)@ + data_line(v.view()),
{
    let mut line = "data: ".to_owned();
    let text = json_to_text(v);
    crate::text::string_push_str(&mut line, text.as_str());
    crate::text::string_push_str(&mut line, "\n");
    push_text(out, line.as_str());
}

fn emit_event(out: &mut Vec<u8>, name: &str, v: &Json)
    ensures
        final(out)@ == old(out)@ + event_out(name@, v.view()),
{
    let mut line = "event: ".to_owned();
    crate::text::string_push_str(&mut line, name);
    crate::text::string_push_str(&mut line, "\n");
    push_text(out, line.as_str());
    push_data_line(out, v);
    assert(out@ =~= old(out)@ + event_out(name@, v.view()));
}

fn message_start_exec(model: &str) -> (r: Json)
    ensures
        r.view() == message_start_json(model@),
{
    let mut m: Vec<(String, Json)> = Vec::new();
    assert(member_views(m@) =~= Seq::empty());
    push_member(&mut m, "id", Json::string("msg_tokenguard"));
    push_member(&mut m, "type", Json::string("message"));
    push_member(&mut m, "role", Json::string("assistant"));
    push_member(&mut m, "model", Json::string(model));
    let empty: Vec<Json> = Vec::new();
    assert(views(empty@) =~= Seq::empty());
    push_member(&mut m, "content", Json::array(empty));
    push_member(&mut m, "stop_reason", Json::Null);
    push_member(&mut m, "usage", obj2_exec("input_tokens", Json::unsigned(0), "output_tokens", Json::unsigned(0)));
    obj2_exec("type", Json::string("message_start"), "message", Json::object(m))
}

fn text_block_start_exec() -> (r: Json)
    ensures
        r.view() == text_block_start_json(),
{
    let mut m: Vec<(String, Json)> = Vec::new();
    assert(member_views(m@) =~= Seq::empty());
    push_member(&mut m, "type", Json::string("content_block_start"));
    push_member(&mut m, "index", Json::unsigned(0));
    let empty = String::new();
    assert(empty@ =~= Seq::<char>::empty());
    push_member(&mut m, "content_block", obj2_exec("type", Json::string("text"), "text", Json::Str(empty)));
    Json::object(m)
}

fn block_stop_exec(idx: u64) -> (r: Json)
    ensures
        r.view() == block_stop_json(idx),
{
    obj2_exec("type", Json::string("content_block_stop"), "index", Json::unsigned(idx))
}

fn min_key_index_exec(t: &Vec<(u64, StreamingToolCall)>) -> (i: usize)
    requires
        t@.len() > 0,
    ensures
        i == min_key_index(tools_view(t@)),
        i < t@.len(),
{
    let ghost tv = tools_view(t@);
    let mut best: usize = 0;
    let mut k: usize = 1;
    assert(tv.subrange(0, 1).len() == 1);
    while k < t.len()
        invariant
            1 <= k <= t@.len(),
            tv == tools_view(t@),
            tv.len() == t@.len(),
            best < k,
            best == min_key_index(tv.subrange(0, k as int)),
        decreases t.len() - k,
    {
        assert(tv.subrange(0, k + 1).drop_last() =~= tv.subrange(0, k as int));
        assert(tv.subrange(0, k + 1).last() == tv[k as int]);
        assert(tv.subrange(0, k + 1)[best as int] == tv[best as int]);
        assert(tv[k as int].0 == t@[k as int].0);
        assert(tv[best as int].0 == t@[best as int].0);
        if t[k].0 < t[best].0 {
            best = k;
        }
        k = k + 1;
    }
    assert(tv.subrange(0, tv.len() as int) =~= tv);
    best
}

/// The least block index lies within the list.
pub proof fn lemma_min_key_index_bounds(t: Seq<(u64, ToolState)>)
    requires
        t.len() > 0,
    ensures
        0 <= min_key_index(t) < t.len(),
    decreases t.len(),
{
    if t.len() > 1 {
        lemma_min_key_index_bounds(t.drop_last());
    }
}

impl SseConverter {
    /// The converter's state, by value.
    pub closed spec fn state(&self) -> StreamState {
        StreamState {
            from: self.from,
            to: self.to,
            model: self.model@,
            usage: self.usage,
            pending: opt_chars(self.pending_event),
            tools: tools_view(self.streaming_tools@),
            last_tool: self.last_tool_index,
            started: self.anthropic_started,
            text_open: self.anthropic_text_open,
            stopped: self.anthropic_stopped,
            done_sent: self.done_sent,
        }
    }

    /// The bytes of an unfinished line.
    pub closed spec fn buffered(&self) -> Seq<u8> {
        self.buf@
    }

    /// A converter from the provider's dialect `from` to the client's
    /// dialect `to`, for a reply of model `model`.
    pub fn new(from: ProviderFormat, to: ProviderFormat, model: String) -> (c: Self)
        ensures
            c.state() == initial_state(from, to, model@),
            c.buffered() == Seq::<u8>::empty(),
    {
        let c = SseConverter {
            from,
            to,
            model,
            buf: Vec::new(),
            usage: Usage { prompt: 0, completion: 0, cached: 0 },
            pending_event: None,
            streaming_tools: Vec::new(),
            last_tool_index: None,
            anthropic_started: false,
            anthropic_text_open: false,
            anthropic_stopped: false,
            done_sent: false,
        };
        assert(tools_view(c.streaming_tools@) =~= Seq::empty());
        c
    }

    fn ensure_anthropic_message(&mut self, out: &mut Vec<u8>)
        ensures
            final(self).state() == ensure_message(old(self).state()).0,
            final(out)@ == old(out)@ + ensure_message(old(self).state()).1,
            final(self).buffered() == old(self).buffered(),
    {
        if self.anthropic_started {
            assert(out@ =~= old(out)@ + Seq::<u8>::empty());
            return;
        }
        self.anthropic_started = true;
        let data = message_start_exec(self.model.as_str());
        emit_event(out, "message_start", &data);
    }

    fn ensure_anthropic_text_block(&mut self, out: &mut Vec<u8>)
        ensures
            final(self).state() == ensure_text_block(old(self).state()).0,
            final(out)@ == old(out)@ + ensure_text_block(old(self).state()).1,
            final(self).buffered() == old(self).buffered(),
    {
        if self.anthropic_text_open {
            assert(out@ =~= old(out)@ + Seq::<u8>::empty());
            return;
        }
        self.anthropic_text_open = true;
        emit_event(out, "content_block_start", &text_block_start_exec());
    }

    fn close_anthropic_blocks(&mut self, out: &mut Vec<u8>)
        ensures
            final(self).state() == close_blocks(old(self).state()).0,
            final(out)@ == old(out)@ + close_blocks(old(self).state()).1,
            final(self).buffered() == old(self).buffered(),
    {
        if self.anthropic_text_open {
            self.anthropic_text_open = false;
            emit_event(out, "content_block_stop", &block_stop_exec(0));
        }
        let ghost mid = out@;
        let mut rest: Vec<(u64, StreamingToolCall)> = Vec::new();
        std::mem::swap(&mut rest, &mut self.streaming_tools);
        let ghost all = tools_view(rest@);
        assert(all == old(self).state().tools);
        while rest.len() > 0
            invariant
                mid + tool_stops(all) == out@ + tool_stops(tools_view(rest@)),
            decreases rest.len(),
        {
            let i = min_key_index_exec(&rest);
            let ghost rv = tools_view(rest@);
            proof {
                lemma_min_key_index_bounds(rv);
                assert(rv.remove(i as int) =~= tools_view(rest@.remove(i as int)));
            }
            let idx = rest[i].0;
            emit_event(out, "content_block_stop", &block_stop_exec(idx));
            rest.remove(i);
            assert(out@ + tool_stops(tools_view(rest@)) =~= mid + tool_stops(all));
        }
        assert(tools_view(rest@) =~= Seq::empty());
        assert(tools_view(self.streaming_tools@) =~= Seq::empty());
        assert(out@ =~= mid + tool_stops(all));
    }

    fn stop_anthropic_message(&mut self, out: &mut Vec<u8>)
        ensures
            final(self).state() == stop_message(old(self).state()).0,
            final(out)@ == old(out)@ + stop_message(old(self).state()).1,
            final(self).buffered() == old(self).buffered(),
    {
        self.ensure_anthropic_message(out);
        self.close_anthropic_blocks(out);
        emit_event(out, "message_stop", &obj1_exec("type", Json::string("message_stop")));
        self.anthropic_stopped = true;
        assert(out@ =~= old(out)@ + stop_message(old(self).state()).1);
    }
}

fn find_tool(t: &Vec<(u64, StreamingToolCall)>, idx: u64) -> (r: Option<usize>)
    ensures
        opt_index(r) == first_index(tools_view(t@), tool_at(idx)),
        r matches Some(i) ==> i < t@.len(),
{
    let ghost tv = tools_view(t@);
    let mut i: usize = 0;
    assert(tv.subrange(0, 0) =~= Seq::<(u64, ToolState)>::empty());
    while i < t.len()
        invariant
            i <= t@.len(),
            tv == tools_view(t@),
            tv.len() == t@.len(),
            first_index(tv.subrange(0, i as int), tool_at(idx)) == None::<int>,
        decreases t.len() - i,
    {
        proof {
            lemma_first_index_push(tv, tool_at(idx), i as int);
        }
        assert(tv[i as int].0 == t@[i as int].0);
        if t[i].0 == idx {
            proof {
                lemma_first_index_prefix(tv, tool_at(idx), i as int + 1);
            }
            return Some(i);
        }
        i = i + 1;
    }
    assert(tv.subrange(0, tv.len() as int) =~= tv);
    None
}

fn clone_tool(e: &StreamingToolCall) -> (r: StreamingToolCall)
    ensures
        r.view() == e.view(),
{
    let id = match &e.id {
        Some(x) => Some(x.clone()),
        None => None,
    };
    let name = match &e.name {
        Some(x) => Some(x.clone()),
        None => None,
    };
    StreamingToolCall { id, name, arguments: e.arguments.clone() }
}

fn tool_block_start_exec(idx: u64, id: &str, name: &str) -> (r: Json)
    ensures
        r.view() == tool_block_start_json(idx, id@, name@),
{
    let mut b: Vec<(String, Json)> = Vec::new();
    assert(member_views(b@) =~= Seq::empty());
    push_member(&mut b, "type", Json::string("tool_use"));
    push_member(&mut b, "id", Json::string(id));
    push_member(&mut b, "name", Json::string(name));
    push_member(&mut b, "input", empty_object_exec());
    let mut m: Vec<(String, Json)> = Vec::new();
    assert(member_views(m@) =~= Seq::empty());
    push_member(&mut m, "type", Json::string("content_block_start"));
    push_member(&mut m, "index", Json::unsigned(idx));
    push_member(&mut m, "content_block", Json::object(b));
    Json::object(m)
}

fn tool_delta_exec(idx: u64, args: &str) -> (r: Json)
    ensures
        r.view() == tool_delta_json(idx, args@),
{
    let mut m: Vec<(String, Json)> = Vec::new();
    assert(member_views(m@) =~= Seq::empty());
    push_member(&mut m, "type", Json::string("content_block_delta"));
    push_member(&mut m, "index", Json::unsigned(idx));
    push_member(&mut m, "delta", obj2_exec("type", Json::string("input_json_delta"), "partial_json", Json::string(args)));
    Json::object(m)
}

fn chunk_json(delta: Json) -> (r: Json)
    ensures
        r.view() == JsonView::Object(chunk(delta.view(), None)),
{
    let mut c: Vec<(String, Json)> = Vec::new();
    assert(member_views(c@) =~= Seq::empty());
    push_member(&mut c, "index", Json::unsigned(0));
    push_member(&mut c, "delta", delta);
    let mut choices: Vec<Json> = Vec::new();
    assert(views(choices@) =~= Seq::empty());
    push_element(&mut choices, Json::object(c));
    obj1_exec("choices", Json::array(choices))
}

fn member_text_or_empty(x: Option<&Json>, key: &str) -> (r: String)
    ensures
        r@ == match opt_str(opt_member(crate::json::opt_json(x), key@)) {
            Some(t) => t,
            None => Seq::empty(),
        },
{
    match opt_member_exec(x, key) {
        Some(v) => match v.as_str() {
            Some(t) => return t.to_owned(),
            None => {},
        },
        None => {},
    }
    let e = String::new();
    assert(e@ =~= Seq::<char>::empty());
    e
}

fn has_prefix_exec(t: &Vec<char>, p: &str) -> (b: bool)
    ensures
        b == has_prefix(t@, p@),
{
    let pv = chars_of(p);
    occurs_at_exec(t, &pv, 0)
}

fn usage_source_exec(v: &Json) -> (r: Option<&Json>)
    ensures
        crate::json::opt_json(r) == usage_source(v.view()),
{
    match v.get("usage") {
        Some(u) => Some(u),
        None => match opt_member_exec(v.get("response"), "usage") {
            Some(u) => Some(u),
            None => match opt_member_exec(v.get("message"), "usage") {
                Some(u) => Some(u),
                None => v.get("usageMetadata"),
            },
        },
    }
}

fn find_newline(b: &Vec<u8>) -> (r: Option<usize>)
    ensures
        opt_index(r) == first_index(b@, newline_at()),
        r matches Some(i) ==> i < b@.len(),
{
    let mut i: usize = 0;
    assert(b@.subrange(0, 0) =~= Seq::<u8>::empty());
    while i < b.len()
        invariant
            i <= b@.len(),
            first_index(b@.subrange(0, i as int), newline_at()) == None::<int>,
        decreases b.len() - i,
    {
        proof {
            lemma_first_index_push(b@, newline_at(), i as int);
        }
        if b[i] == 10u8 {
            proof {
                lemma_first_index_prefix(b@, newline_at(), i as int + 1);
            }
            return Some(i);
        }
        i = i + 1;
    }
    assert(b@.subrange(0, b@.len() as int) =~= b@);
    None
}

impl SseConverter {
    fn openai_tool_call_exec(&mut self, tc: &Json, out: &mut Vec<u8>)
        ensures
            final(self).state() == openai_tool_call(old(self).state(), tc.view()).0,
            final(out)@ == old(out)@ + openai_tool_call(old(self).state(), tc.view()).1,
            final(self).buffered() == old(self).buffered(),
    {
        let idx = match tc.get_u64("index") {
            Some(i) => i,
            None => {
                assert(out@ =~= old(out)@ + Seq::<u8>::empty());
                return;
            },
        };
        let f = tc.get("function");
        let name = match opt_member_exec(f, "name") {
            Some(v) => v.as_str(),
            None => None,
        };
        let args = match opt_member_exec(f, "arguments") {
            Some(v) => v.as_str(),
            None => None,
        };
        let pos = find_tool(&self.streaming_tools, idx);
        let ghost tv = tools_view(self.streaming_tools@);
        let mut e = match pos {
            Some(i) => clone_tool(&self.streaming_tools[i].1),
            None => {
                let empty = String::new();
                assert(empty@ =~= Seq::<char>::empty());
                StreamingToolCall { id: None, name: None, arguments: empty }
            },
        };
        proof {
            if let Some(i) = pos {
                assert(tv[i as int] == (self.streaming_tools@[i as int].0, self.streaming_tools@[i as int].1.view()));
            }
        }
        assert(e.view() == tool_entry(tv, idx));
        match tc.get_str("id") {
            Some(i) => e.id = Some(i.to_owned()),
            None => {},
        }
        match name {
            Some(n) => e.name = Some(n.to_owned()),
            None => {},
        }
        let ghost o0 = out@;
        match name {
            Some(n) => {
                let id = match &e.id {
                    Some(i) => i.clone(),
                    None => {
                        let mut c = "call_".to_owned();
                        let d = u128_to_decimal(idx as u128);
                        string_push_str(&mut c, d.as_str());
                        c
                    },
                };
                emit_event(out, "content_block_start", &tool_block_start_exec(idx, id.as_str(), n));
            },
            None => {},
        }
        let ghost o1 = out@;
        match args {
            Some(a) => {
                string_push_str(&mut e.arguments, a);
                emit_event(out, "content_block_delta", &tool_delta_exec(idx, a));
            },
            None => {},
        }
        let ghost ev = e.view();
        match pos {
            Some(i) => {
                self.streaming_tools.set(i, (idx, e));
                assert(tools_view(self.streaming_tools@) =~= tv.update(i as int, (idx, ev)));
            },
            None => {
                self.streaming_tools.push((idx, e));
                assert(tools_view(self.streaming_tools@) =~= tv.push((idx, ev)));
            },
        }
        assert(out@ =~= old(out)@ + openai_tool_call(old(self).state(), tc.view()).1);
    }

    fn handle_openai_tool_chunk(&mut self, value: &Json, out: &mut Vec<u8>) -> (b: bool)
        ensures
            match openai_tool_chunk(old(self).state(), value.view()) {
                Some((st, o)) => b && final(self).state() == st && final(out)@ == old(out)@ + o,
                None => !b && final(self).state() == old(self).state() && final(out)@ == old(out)@,
            },
            final(self).buffered() == old(self).buffered(),
    {
        let delta = opt_member_exec(first_in_exec(value, "choices"), "delta");
        let tcs = match opt_member_exec(delta, "tool_calls") {
            Some(Json::Array(a)) => a,
            _ => return false,
        };
        proof {
            crate::json::lemma_views(tcs@);
        }
        let ghost a = views(tcs@);
        self.ensure_anthropic_message(out);
        let ghost s1 = self.state();
        let ghost o1 = out@;
        let mut i: usize = 0;
        assert(a.subrange(0, 0) =~= Seq::<JsonView>::empty());
        assert(out@ =~= o1 + Seq::<u8>::empty());
        while i < tcs.len()
            invariant
                i <= tcs@.len(),
                a == views(tcs@),
                a.len() == tcs@.len(),
                forall|k: int| 0 <= k < tcs@.len() ==> #[trigger] a[k] == tcs@[k].view(),
                self.state() == openai_tool_calls(s1, a.subrange(0, i as int)).0,
                out@ == o1 + openai_tool_calls(s1, a.subrange(0, i as int)).1,
                self.buffered() == old(self).buffered(),
            decreases tcs.len() - i,
        {
            assert(a.subrange(0, i + 1).drop_last() =~= a.subrange(0, i as int));
            assert(a.subrange(0, i + 1).last() == tcs@[i as int].view());
            self.openai_tool_call_exec(&tcs[i], out);
            i = i + 1;
            assert(out@ =~= o1 + openai_tool_calls(s1, a.subrange(0, i as int)).1);
        }
        assert(a.subrange(0, a.len() as int) =~= a);
        assert(out@ =~= old(out)@ + openai_tool_chunk(old(self).state(), value.view()).unwrap().1);
        true
    }

    fn handle_anthropic_tool_chunk(&mut self, value: &Json, out: &mut Vec<u8>) -> (b: bool)
        ensures
            match anthropic_tool_chunk(old(self).state(), value.view()) {
                Some((st, o)) => b && final(self).state() == st && final(out)@ == old(out)@ + o,
                None => !b && final(self).state() == old(self).state() && final(out)@ == old(out)@,
            },
            final(self).buffered() == old(self).buffered(),
    {
        let is_start = match &self.pending_event {
            Some(e) => crate::text::str_eq(e.as_str(), "content_block_start"),
            None => return false,
        };
        let is_delta = match &self.pending_event {
            Some(e) => crate::text::str_eq(e.as_str(), "content_block_delta"),
            None => false,
        };
        if is_start {
            let block = value.get("content_block");
            let is_tool = match opt_member_exec(block, "type") {
                Some(t) => match t.as_str() {
                    Some(t) => crate::text::str_eq(t, "tool_use"),
                    None => false,
                },
                None => false,
            };
            proof {
                reveal_strlit("tool_use");
            }
            if !is_tool {
                return false;
            }
            let idx = match value.get_u64("index") {
                Some(i) => i,
                None => 0,
            };
            let id = member_text_or_empty(block, "id");
            let name = member_text_or_empty(block, "name");
            let mut call: Vec<(String, Json)> = Vec::new();
            assert(member_views(call@) =~= Seq::empty());
            push_member(&mut call, "index", Json::unsigned(idx));
            push_member(&mut call, "id", Json::Str(id));
            push_member(&mut call, "type", Json::string("function"));
            push_member(&mut call, "function", obj1_exec("name", Json::Str(name)));
            let mut calls: Vec<Json> = Vec::new();
            assert(views(calls@) =~= Seq::empty());
            push_element(&mut calls, Json::object(call));
            let delta = obj2_exec("role", Json::string("assistant"), "tool_calls", Json::array(calls));
            self.last_tool_index = Some(idx);
            push_data_line(out, &chunk_json(delta));
            true
        } else if is_delta {
            let partial = match opt_member_exec(value.get("delta"), "partial_json") {
                Some(v) => match v.as_str() {
                    Some(p) => p,
                    None => return false,
                },
                None => return false,
            };
            let idx = match value.get_u64("index") {
                Some(i) => i,
                None => match self.last_tool_index {
                    Some(l) => l,
                    None => 0,
                },
            };
            let call = obj2_exec("index", Json::unsigned(idx), "function", obj1_exec("arguments", Json::string(partial)));
            let mut calls: Vec<Json> = Vec::new();
            assert(views(calls@) =~= Seq::empty());
            push_element(&mut calls, call);
            push_data_line(out, &chunk_json(obj1_exec("tool_calls", Json::array(calls))));
            true
        } else {
            false
        }
    }
}

impl SseConverter {
    fn emit_converted_exec(&mut self, c: Option<(Option<String>, Json)>, out: &mut Vec<u8>)
        ensures
            final(self).state() == emit_converted(old(self).state(), sse_view(c)).0,
            final(out)@ == old(out)@ + emit_converted(old(self).state(), sse_view(c)).1,
            final(self).buffered() == old(self).buffered(),
    {
        let (name, v) = match c {
            Some(x) => x,
            None => {
                assert(out@ =~= old(out)@ + Seq::<u8>::empty());
                return;
            },
        };
        let ghost o0 = out@;
        if self.to == ProviderFormat::Anthropic {
            match &name {
                Some(n) => {
                    if crate::text::str_eq(n.as_str(), "content_block_delta") {
                        self.ensure_anthropic_message(out);
                        self.ensure_anthropic_text_block(out);
                    } else if crate::text::str_eq(n.as_str(), "message_delta") {
                        self.close_anthropic_blocks(out);
                    }
                },
                None => {},
            }
        }
        let ghost o1 = out@;
        match &name {
            Some(n) => {
                let mut line = "event: ".to_owned();
                string_push_str(&mut line, n.as_str());
                string_push_str(&mut line, "\n");
                push_text(out, line.as_str());
            },
            None => {},
        }
        push_data_line(out, &v);
        assert(out@ =~= old(out)@ + emit_converted(old(self).state(), sse_view(Some((name, v)))).1);
    }

    fn handle_data(&mut self, line: &[u8], v: &Json, out: &mut Vec<u8>)
        ensures
            final(self).state() == data_chunk(old(self).state(), line@, v.view()).0,
            final(out)@ == old(out)@ + data_chunk(old(self).state(), line@, v.view()).1,
            final(self).buffered() == old(self).buffered(),
    {
        match usage_source_exec(v) {
            Some(u) => extract_from_usage_object(u, &mut self.usage),
            None => {},
        }
        if self.from == self.to {
            push_bytes(out, line);
            self.pending_event = None;
            return;
        }
        if self.from == ProviderFormat::OpenAI && self.to == ProviderFormat::Anthropic {
            if self.handle_openai_tool_chunk(v, out) {
                self.pending_event = None;
                return;
            }
        } else if self.from == ProviderFormat::Anthropic && self.to == ProviderFormat::OpenAI {
            if self.handle_anthropic_tool_chunk(v, out) {
                self.pending_event = None;
                return;
            }
        }
        let converted = {
            let event: Option<&str> = match &self.pending_event {
                Some(e) => Some(e.as_str()),
                None => None,
            };
            convert_sse_data(self.from, self.to, event, v)
        };
        self.emit_converted_exec(converted, out);
        self.pending_event = None;
    }

    fn handle_line(&mut self, line: &[u8], out: &mut Vec<u8>)
        ensures
            final(self).state() == line_step(old(self).state(), line@).0,
            final(out)@ == old(out)@ + line_step(old(self).state(), line@).1,
            final(self).buffered() == old(self).buffered(),
    {
        let text = match utf8_text(line) {
            Some(t) => t,
            None => {
                push_bytes(out, line);
                return;
            },
        };
        let v = chars_of(text);
        let end = skip_ws_backward(&v, 0, v.len());
        assert(v@.subrange(0, v@.len() as int) =~= v@);
        let t = sub_chars(&v, 0, end);
        if t.len() == 0 {
            self.pending_event = None;
            out.push(10u8);
            assert(out@ =~= old(out)@ + seq![10u8]);
            return;
        }
        if has_prefix_exec(&t, "event:") {
            proof {
                reveal_strlit("event:");
            }
            let i = skip_ws_forward(&t, 6);
            let j = skip_ws_backward(&t, i, t.len());
            let name = string_from_range(&t, i, j);
            self.pending_event = Some(name);
            if self.from == self.to {
                push_bytes(out, line);
            } else {
                assert(out@ =~= old(out)@ + Seq::<u8>::empty());
            }
            return;
        }
        if !has_prefix_exec(&t, "data:") {
            push_bytes(out, line);
            return;
        }
        proof {
            reveal_strlit("data:");
        }
        let i = skip_ws_forward(&t, 5);
        let j = skip_ws_backward(&t, i, t.len());
        assert(trim_seq(t@.subrange(5, t@.len() as int)) == t@.subrange(i as int, j as int));
        if i == j {
            self.pending_event = None;
            push_bytes(out, line);
            return;
        }
        let payload = sub_chars(&t, i, j);
        let done = chars_of("[DONE]");
        if chars_eq(&payload, &done) {
            self.pending_event = None;
            self.done_sent = true;
            if self.from == ProviderFormat::OpenAI && self.to == ProviderFormat::Anthropic {
                self.stop_anthropic_message(out);
            } else {
                push_bytes(out, line);
            }
            return;
        }
        let text = string_from_range(&t, i, j);
        match parse_json(text.as_str()) {
            Some(value) => self.handle_data(line, &value, out),
            None => push_bytes(out, line),
        }
    }

    /// Take in more upstream bytes and return what they convert to: each
    /// complete line is handled, an unfinished one waits for more bytes.
    pub fn feed(&mut self, data: &[u8]) -> (r: Vec<u8>)
        ensures
            ({
                let d = drain_lines(old(self).state(), old(self).buffered() + data@);
                &&& final(self).state() == d.0
                &&& final(self).buffered() == d.1
                &&& r@ == d.2
            }),
    {
        push_bytes(&mut self.buf, data);
        let ghost total = drain_lines(old(self).state(), old(self).buffered() + data@);
        let mut out: Vec<u8> = Vec::new();
        loop
            invariant
                ({
                    let d = drain_lines(self.state(), self.buffered());
                    &&& d.0 == total.0
                    &&& d.1 == total.1
                    &&& out@ + d.2 == total.2
                }),
            ensures
                self.state() == total.0,
                self.buffered() == total.1,
                out@ == total.2,
            decreases self.buf.len(),
        {
            let nl = match find_newline(&self.buf) {
                Some(nl) => nl,
                None => {
                    assert(out@ =~= out@ + Seq::<u8>::empty());
                    break;
                },
            };
            let ghost st = self.state();
            let ghost b = self.buf@;
            let mut rest = self.buf.split_off(nl + 1);
            std::mem::swap(&mut self.buf, &mut rest);
            let line = rest;
            assert(self.state() == st);
            self.handle_line(line.as_slice(), &mut out);
            proof {
                let (s1, o1) = line_step(st, b.subrange(0, nl + 1));
                let (s2, rr, o2) = drain_lines(s1, b.subrange(nl + 1, b.len() as int));
                assert(drain_lines(st, b) == (s2, rr, o1 + o2));
                assert(out@ + o2 =~= total.2);
            }
        }
        out
    }

    /// The end of the upstream stream: handle an unfinished last line and
    /// emit the terminal events the client's dialect needs.
    pub fn finish(&mut self) -> (r: Vec<u8>)
        ensures
            final(self).state() == finish_stream(old(self).state(), old(self).buffered()).0,
            r@ == finish_stream(old(self).state(), old(self).buffered()).1,
            final(self).buffered() == Seq::<u8>::empty(),
    {
        let mut out: Vec<u8> = Vec::new();
        if self.buf.len() > 0 {
            let mut line: Vec<u8> = Vec::new();
            std::mem::swap(&mut line, &mut self.buf);
            line.push(10u8);
            self.handle_line(line.as_slice(), &mut out);
        } else {
            assert(self.buf@ =~= Seq::<u8>::empty());
        }
        let ghost o1 = out@;
        if self.to == ProviderFormat::OpenAI && !self.done_sent {
            push_text(&mut out, "data: [DONE]\n");
            self.done_sent = true;
        }
        let ghost o2 = out@;
        if self.to == ProviderFormat::Anthropic && self.from != ProviderFormat::Anthropic && !self.anthropic_stopped {
            self.stop_anthropic_message(&mut out);
        }
        assert(out@ =~= finish_stream(old(self).state(), old(self).buffered()).1);
        out
    }
}

} // verus!
