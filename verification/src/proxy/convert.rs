//! Conversion between the OpenAI, Anthropic, Gemini and Responses API shapes:
//! upstream paths, finish reasons, data URLs and synthesized tool-call ids.

use vstd::prelude::*;
use crate::config::ProviderFormat;
use crate::json::{
    Json, JsonView, NumberView, get_bool, get_str, jget, json_parse_bytes, member_views, parse_json_bytes,
    push_member, minsert, obj_insert,
};
use crate::proxy::anthropic::{
    anthropic_to_openai_request, anthropic_to_openai_request_spec, openai_to_anthropic_request,
    openai_to_anthropic_request_spec,
};
use crate::proxy::gemini::{
    google_to_openai_request, google_to_openai_request_spec, openai_to_google_request,
    openai_to_google_request_spec,
};
use crate::proxy::responses::{
    openai_to_responses_request, openai_to_responses_request_spec, responses_to_openai_request,
    responses_to_openai_request_spec,
};
use crate::text::{
    after_first, before_first, chars_of, find_last, has_prefix, index_of, last_occurrence,
    lemma_index_of_bounds, occurs_at, str_eq, string_from_range, string_push_str, sub_chars, find_from,
    contains_seq, contains_exec, split_seq, split_chars, chars_eq, utf8_lossy, from_utf8_lossy, take_chars,
};

verus! {

/// Replace the model segment of a Gemini-style path
/// (`{prefix}/models/{model}:{method}?{query}`) with `remote`, keeping the
/// method suffix and the query string. The segment is the text after the
/// last `/models/` of the path part; a path without `/models/` is kept.
pub open spec fn rewrite_google_model_segment_spec(client_path: Seq<char>, remote: Seq<char>) -> Seq<char> {
    let (path, query) = match after_first(client_path, '?') {
        Some(q) => (before_first(client_path, '?'), Some(q)),
        None => (client_path, None),
    };
    let rewritten = match last_occurrence(path, "/models/"@) {
        Some(i) => {
            let prefix = path.subrange(0, i);
            let rest = path.subrange(i + 8, path.len() as int);
            match after_first(rest, ':') {
                Some(method) => prefix + "/models/"@ + remote + ":"@ + method,
                None => prefix + "/models/"@ + remote,
            }
        },
        None => path,
    };
    match query {
        Some(q) => rewritten + "?"@ + q,
        None => rewritten,
    }
}

/// The upstream path for a request from a `from` client to a `to` provider.
pub open spec fn target_path_spec(
    from: ProviderFormat,
    to: ProviderFormat,
    remote: Seq<char>,
    client_path: Seq<char>,
    stream: bool,
) -> Seq<char> {
    if from == to {
        if to == ProviderFormat::Google {
            rewrite_google_model_segment_spec(client_path, remote)
        } else {
            client_path
        }
    } else {
        match to {
            ProviderFormat::OpenAI => "/v1/chat/completions"@,
            ProviderFormat::Anthropic => "/v1/messages"@,
            ProviderFormat::Responses => "/v1/responses"@,
            ProviderFormat::Google => "/v1beta/models/"@ + remote + ":"@
                + if stream { "streamGenerateContent"@ } else { "generateContent"@ },
        }
    }
}

fn push_range(out: &mut String, v: &Vec<char>, from: usize, to: usize)
    requires
        from <= to <= v.len(),
    ensures
        final(out)@ == old(out)@ + v@.subrange(from as int, to as int),
{
    let piece = string_from_range(v, from, to);
    string_push_str(out, piece.as_str());
}

/// Replace the model segment of a Gemini-style path with `remote_model`.
pub fn rewrite_google_model_segment(client_path: &str, remote_model: &str) -> (r: String)
    ensures
        r@ == rewrite_google_model_segment_spec(client_path@, remote_model@),
{
    proof {
        reveal_strlit("/models/");
        reveal_strlit(":");
        reveal_strlit("?");
    }
    let v = chars_of(client_path);
    let q = index_of(&v, '?', 0);
    let path = sub_chars(&v, 0, q);
    assert(v@.subrange(0, v@.len() as int) =~= v@);
    let needle = chars_of("/models/");
    let mut out = String::new();
    match find_last(&path, &needle) {
        Some(i) => {
            assert(needle@.len() == 8);
            push_range(&mut out, &path, 0, i);
            string_push_str(&mut out, "/models/");
            string_push_str(&mut out, remote_model);
            let rest = sub_chars(&path, i + 8, path.len());
            let c = index_of(&rest, ':', 0);
            if c < rest.len() {
                string_push_str(&mut out, ":");
                push_range(&mut out, &rest, c + 1, rest.len());
            }
        },
        None => {
            push_range(&mut out, &path, 0, path.len());
            assert(path@.subrange(0, path@.len() as int) =~= path@);
        },
    }
    if q < v.len() {
        string_push_str(&mut out, "?");
        push_range(&mut out, &v, q + 1, v.len());
    }
    out
}

/// The upstream path for a request given the client format, provider format,
/// provider model name and client path. The client path is kept when the
/// formats match, with the model segment rewritten for Gemini.
pub fn target_path(
    from: ProviderFormat,
    to: ProviderFormat,
    remote_model: &str,
    client_path: &str,
    stream: bool,
) -> (r: String)
    ensures
        r@ == target_path_spec(from, to, remote_model@, client_path@, stream),
{
    if from == to {
        if to == ProviderFormat::Google {
            return rewrite_google_model_segment(client_path, remote_model);
        }
        return client_path.to_owned();
    }
    match to {
        ProviderFormat::OpenAI => "/v1/chat/completions".to_owned(),
        ProviderFormat::Anthropic => "/v1/messages".to_owned(),
        ProviderFormat::Responses => "/v1/responses".to_owned(),
        ProviderFormat::Google => {
            let mut out = "/v1beta/models/".to_owned();
            string_push_str(&mut out, remote_model);
            string_push_str(&mut out, ":");
            if stream {
                string_push_str(&mut out, "streamGenerateContent");
            } else {
                string_push_str(&mut out, "generateContent");
            }
            out
        },
    }
}

// ---------------------------------------------------------------------------
// Finish reasons
// ---------------------------------------------------------------------------

/// OpenAI finish reason to Anthropic stop reason.
pub open spec fn finish_o2a(r: Seq<char>) -> Seq<char> {
    if r == "length"@ {
        "max_tokens"@
    } else if r == "tool_calls"@ {
        "tool_use"@
    } else {
        "end_turn"@
    }
}

/// Anthropic stop reason to OpenAI finish reason.
pub open spec fn finish_a2o(r: Seq<char>) -> Seq<char> {
    if r == "max_tokens"@ {
        "length"@
    } else if r == "tool_use"@ {
        "tool_calls"@
    } else {
        "stop"@
    }
}

/// OpenAI finish reason to Gemini finish reason.
pub open spec fn finish_o2g(r: Seq<char>) -> Seq<char> {
    if r == "stop"@ {
        "STOP"@
    } else if r == "length"@ {
        "MAX_TOKENS"@
    } else {
        "OTHER"@
    }
}

/// Gemini finish reason to OpenAI finish reason.
pub open spec fn finish_g2o(r: Seq<char>) -> Seq<char> {
    if r == "MAX_TOKENS"@ {
        "length"@
    } else {
        "stop"@
    }
}

pub fn translate_finish_reason_o2a(reason: &str) -> (r: String)
    ensures
        r@ == finish_o2a(reason@),
{
    if str_eq(reason, "length") {
        "max_tokens".to_owned()
    } else if str_eq(reason, "tool_calls") {
        "tool_use".to_owned()
    } else {
        "end_turn".to_owned()
    }
}

pub fn translate_finish_reason_a2o(reason: &str) -> (r: String)
    ensures
        r@ == finish_a2o(reason@),
{
    if str_eq(reason, "max_tokens") {
        "length".to_owned()
    } else if str_eq(reason, "tool_use") {
        "tool_calls".to_owned()
    } else {
        "stop".to_owned()
    }
}

pub fn translate_finish_reason_o2g(reason: &str) -> (r: String)
    ensures
        r@ == finish_o2g(reason@),
{
    if str_eq(reason, "stop") {
        "STOP".to_owned()
    } else if str_eq(reason, "length") {
        "MAX_TOKENS".to_owned()
    } else {
        "OTHER".to_owned()
    }
}

pub fn translate_finish_reason_g2o(reason: &str) -> (r: String)
    ensures
        r@ == finish_g2o(reason@),
{
    if str_eq(reason, "MAX_TOKENS") {
        "length".to_owned()
    } else {
        "stop".to_owned()
    }
}

// ---------------------------------------------------------------------------
// Data URLs
// ---------------------------------------------------------------------------

/// `data:{mime};base64,{data}` split into its MIME type and payload: the
/// MIME type runs to the first `;base64,` after the `data:` prefix.
pub open spec fn parse_data_url_spec(url: Seq<char>) -> Option<(Seq<char>, Seq<char>)> {
    if has_prefix(url, "data:"@) {
        let rest = url.subrange(5, url.len() as int);
        match first_occurrence(rest, ";base64,"@) {
            Some(i) => Some((rest.subrange(0, i), rest.subrange(i + 8, rest.len() as int))),
            None => None,
        }
    } else {
        None
    }
}

/// The first index where `n` occurs in `s`.
pub open spec fn first_occurrence(s: Seq<char>, n: Seq<char>) -> Option<int> {
    if exists|i: int| occurs_at(s, n, i) {
        Some(choose|i: int| occurs_at(s, n, i) && forall|j: int| 0 <= j < i ==> !occurs_at(s, n, j))
    } else {
        None
    }
}

pub fn parse_data_url(url: &str) -> (r: Option<(String, String)>)
    ensures
        match r {
            Some((m, d)) => parse_data_url_spec(url@) == Some((m@, d@)),
            None => parse_data_url_spec(url@) is None,
        },
{
    proof {
        reveal_strlit("data:");
        reveal_strlit(";base64,");
    }
    let v = chars_of(url);
    let prefix = chars_of("data:");
    if !(v.len() >= 5 && v[0] == prefix[0] && v[1] == prefix[1] && v[2] == prefix[2] && v[3] == prefix[3] && v[4] == prefix[4]) {
        proof {
            if has_prefix(url@, "data:"@) {
                assert(url@.subrange(0, 5)[0] == url@[0]);
                assert(url@.subrange(0, 5)[1] == url@[1]);
                assert(url@.subrange(0, 5)[2] == url@[2]);
                assert(url@.subrange(0, 5)[3] == url@[3]);
                assert(url@.subrange(0, 5)[4] == url@[4]);
            }
        }
        return None;
    }
    assert(v@.subrange(0, 5) =~= "data:"@);
    let rest = sub_chars(&v, 5, v.len());
    let sep = chars_of(";base64,");
    match find_from(&rest, &sep, 0) {
        Some(i) => {
            proof {
                let fo = first_occurrence(rest@, sep@);
                assert(occurs_at(rest@, sep@, i as int));
                let c = choose|k: int| occurs_at(rest@, sep@, k) && forall|j: int| 0 <= j < k ==> !occurs_at(rest@, sep@, j);
                assert(occurs_at(rest@, sep@, c) && forall|j: int| 0 <= j < c ==> !occurs_at(rest@, sep@, j));
                if c < i {
                } else if c > i {
                }
                assert(c == i);
            }
            let mime = string_from_range(&rest, 0, i);
            let data = string_from_range(&rest, i + 8, rest.len());
            Some((mime, data))
        },
        None => {
            assert(!(exists|k: int| occurs_at(rest@, sep@, k)));
            None
        },
    }
}

/// `data:{mime};base64,{data}`.
pub fn to_data_url(mime: &str, data: &str) -> (r: String)
    ensures
        r@ == "data:"@ + mime@ + ";base64,"@ + data@,
{
    let mut out = "data:".to_owned();
    string_push_str(&mut out, mime);
    string_push_str(&mut out, ";base64,");
    string_push_str(&mut out, data);
    out
}

// ---------------------------------------------------------------------------
// Streaming
// ---------------------------------------------------------------------------

/// Whether a client asked for a streamed answer: `"stream": true` in the
/// body, or for Gemini a `:streamGenerateContent` path or an `alt=sse`
/// query parameter.
pub open spec fn is_stream_spec(format: ProviderFormat, client_path: Seq<char>, body: JsonView) -> bool {
    get_bool(body, "stream"@) == Some(true) || (format == ProviderFormat::Google && ({
        let path = before_first(client_path, '?');
        let query = match after_first(client_path, '?') {
            Some(q) => q,
            None => Seq::empty(),
        };
        contains_seq(path, ":streamGenerateContent"@) || split_seq(query, '&').contains("alt=sse"@)
    }))
}

/// Determine whether the client asked for a streaming response.
pub fn is_stream_request(format: ProviderFormat, client_path: &str, body: &Json) -> (b: bool)
    ensures
        b == is_stream_spec(format, client_path@, body.view()),
{
    match body.get_bool("stream") {
        Some(true) => return true,
        _ => {},
    }
    if format != ProviderFormat::Google {
        return false;
    }
    let v = chars_of(client_path);
    let q = index_of(&v, '?', 0);
    proof {
        lemma_index_of_bounds(v@, '?', 0);
    }
    let path = sub_chars(&v, 0, q);
    let query = if q < v.len() {
        sub_chars(&v, q + 1, v.len())
    } else {
        Vec::new()
    };
    assert(path@ == before_first(client_path@, '?'));
    assert(query@ == match after_first(client_path@, '?') {
        Some(x) => x,
        None => Seq::<char>::empty(),
    });
    if contains_exec(&path, &chars_of(":streamGenerateContent")) {
        return true;
    }
    let parts = split_chars(&query, '&');
    let ghost ps = parts@.map_values(|p: Vec<char>| p@);
    let target = chars_of("alt=sse");
    let mut i: usize = 0;
    while i < parts.len()
        invariant
            i <= parts@.len(),
            ps == parts@.map_values(|p: Vec<char>| p@),
            ps == split_seq(query@, '&'),
            target@ == "alt=sse"@,
            format == ProviderFormat::Google,
            query@ == match after_first(client_path@, '?') {
                Some(x) => x,
                None => Seq::<char>::empty(),
            },
            forall|j: int| 0 <= j < i ==> ps[j] != "alt=sse"@,
        decreases parts.len() - i,
    {
        if chars_eq(&parts[i], &target) {
            assert(ps[i as int] == "alt=sse"@);
            assert(ps.contains("alt=sse"@));
            return true;
        }
        i = i + 1;
    }
    false
}

// ---------------------------------------------------------------------------
// Error envelopes
// ---------------------------------------------------------------------------

/// The message of an upstream error body: `error.message` where the body is
/// JSON carrying one, else the body itself decoded leniently and cut to 500
/// characters.
pub open spec fn error_message_spec(body: Seq<u8>) -> Seq<char> {
    let raw = take_chars(utf8_lossy(body), 500);
    match json_parse_bytes(body) {
        Some(v) => match jget(v, "error"@) {
            Some(e) => match get_str(e, "message"@) {
                Some(m) => m,
                None => raw,
            },
            None => raw,
        },
        None => raw,
    }
}

/// Pull the message out of an upstream error body.
pub fn extract_error_message(body: &[u8]) -> (r: String)
    ensures
        r@ == error_message_spec(body@),
{
    match parse_json_bytes(body) {
        Some(v) => {
            if let Some(e) = v.get("error") {
                if let Some(m) = e.get_str("message") {
                    return m.to_owned();
                }
            }
        },
        None => {},
    }
    let lossy = from_utf8_lossy(body);
    let chars = chars_of(lossy.as_str());
    if chars.len() <= 500 {
        lossy
    } else {
        string_from_range(&chars, 0, 500)
    }
}

/// An error body in the client's dialect carrying the upstream status and
/// message.
pub open spec fn error_envelope_spec(format: ProviderFormat, status: u16, message: Seq<char>) -> JsonView {
    match format {
        ProviderFormat::Anthropic => JsonView::Object(Seq::empty().push(("type"@, JsonView::Str("error"@))).push((
            "error"@,
            JsonView::Object(Seq::empty().push(("type"@, JsonView::Str("api_error"@))).push(("message"@, JsonView::Str(message)))),
        ))),
        ProviderFormat::Google => JsonView::Object(Seq::empty().push((
            "error"@,
            JsonView::Object(Seq::empty().push(("code"@, JsonView::Number(NumberView::PosInt(status as u64)))).push((
                "message"@,
                JsonView::Str(message),
            )).push(("status"@, JsonView::Str("UNKNOWN"@)))),
        ))),
        _ => JsonView::Object(Seq::empty().push((
            "error"@,
            JsonView::Object(Seq::empty().push(("message"@, JsonView::Str(message))).push((
                "type"@,
                JsonView::Str("upstream_error"@),
            )).push(("code"@, JsonView::Number(NumberView::PosInt(status as u64))))),
        ))),
    }
}

/// Build an error body in the client's format carrying the upstream status
/// code and message; upstream errors do not go through response conversion.
pub fn error_envelope(format: ProviderFormat, status: u16, body: &[u8]) -> (r: Json)
    ensures
        r.view() == error_envelope_spec(format, status, error_message_spec(body@)),
{
    let message = extract_error_message(body);
    let mut inner: Vec<(String, Json)> = Vec::new();
    let mut outer: Vec<(String, Json)> = Vec::new();
    assert(member_views(inner@) =~= Seq::empty());
    assert(member_views(outer@) =~= Seq::empty());
    match format {
        ProviderFormat::Anthropic => {
            push_member(&mut inner, "type", Json::string("api_error"));
            push_member(&mut inner, "message", Json::Str(message));
            push_member(&mut outer, "type", Json::string("error"));
            push_member(&mut outer, "error", Json::object(inner));
        },
        ProviderFormat::Google => {
            push_member(&mut inner, "code", Json::unsigned(status as u64));
            push_member(&mut inner, "message", Json::Str(message));
            push_member(&mut inner, "status", Json::string("UNKNOWN"));
            push_member(&mut outer, "error", Json::object(inner));
        },
        _ => {
            push_member(&mut inner, "message", Json::Str(message));
            push_member(&mut inner, "type", Json::string("upstream_error"));
            push_member(&mut inner, "code", Json::unsigned(status as u64));
            push_member(&mut outer, "error", Json::object(inner));
        },
    }
    Json::object(outer)
}

// ---------------------------------------------------------------------------
// Request conversion
// ---------------------------------------------------------------------------

/// A body with its `model` set to `remote`, where the dialect carries the
/// model in the body (every one but Gemini) and the body is an object.
pub open spec fn ensure_model_spec(body: JsonView, format: ProviderFormat, remote: Seq<char>) -> JsonView {
    if format != ProviderFormat::Google {
        match body {
            JsonView::Object(m) => JsonView::Object(minsert(m, "model"@, JsonView::Str(remote))),
            _ => body,
        }
    } else {
        body
    }
}

/// Set the model of a request body for the provider's dialect.
pub fn ensure_model(body: &mut Json, format: ProviderFormat, remote_model: &str)
    ensures
        final(body).view() == ensure_model_spec(old(body).view(), format, remote_model@),
{
    if format != ProviderFormat::Google {
        match body {
            Json::Object(m) => {
                obj_insert(m, "model", Json::string(remote_model));
            },
            _ => {},
        }
    }
}

/// A client request in dialect `from` as a request in dialect `to` for the
/// provider model `remote`: unchanged within a dialect except for the
/// model; pairs without a direct conversion go through the OpenAI shape.
pub open spec fn convert_request_spec(from: ProviderFormat, to: ProviderFormat, body: JsonView, remote: Seq<char>) -> JsonView {
    if from == to {
        ensure_model_spec(body, to, remote)
    } else {
        match (from, to) {
            (ProviderFormat::OpenAI, ProviderFormat::Anthropic) => openai_to_anthropic_request_spec(body, remote),
            (ProviderFormat::OpenAI, ProviderFormat::Google) => openai_to_google_request_spec(body),
            (ProviderFormat::OpenAI, ProviderFormat::Responses) => openai_to_responses_request_spec(body, remote),
            (ProviderFormat::Anthropic, ProviderFormat::OpenAI) => anthropic_to_openai_request_spec(body, remote),
            (ProviderFormat::Anthropic, ProviderFormat::Google) => openai_to_google_request_spec(
                anthropic_to_openai_request_spec(body, Seq::empty()),
            ),
            (ProviderFormat::Anthropic, ProviderFormat::Responses) => openai_to_responses_request_spec(
                anthropic_to_openai_request_spec(body, remote),
                remote,
            ),
            (ProviderFormat::Google, ProviderFormat::OpenAI) => google_to_openai_request_spec(body, remote),
            (ProviderFormat::Google, ProviderFormat::Anthropic) => openai_to_anthropic_request_spec(
                google_to_openai_request_spec(body, remote),
                remote,
            ),
            (ProviderFormat::Google, ProviderFormat::Responses) => openai_to_responses_request_spec(
                google_to_openai_request_spec(body, remote),
                remote,
            ),
            (ProviderFormat::Responses, ProviderFormat::OpenAI) => responses_to_openai_request_spec(body, remote),
            (ProviderFormat::Responses, ProviderFormat::Anthropic) => openai_to_anthropic_request_spec(
                responses_to_openai_request_spec(body, remote),
                remote,
            ),
            (ProviderFormat::Responses, ProviderFormat::Google) => openai_to_google_request_spec(
                responses_to_openai_request_spec(body, remote),
            ),
            _ => ensure_model_spec(body, to, remote),
        }
    }
}

/// Convert a client request body from dialect `from` to dialect `to`;
/// `remote_model` is the provider-side model name.
pub fn convert_request(from: ProviderFormat, to: ProviderFormat, body: &Json, remote_model: &str) -> (r: Json)
    ensures
        r.view() == convert_request_spec(from, to, body.view(), remote_model@),
{
    if from == to {
        let mut out = body.deep_clone();
        ensure_model(&mut out, to, remote_model);
        return out;
    }
    match (from, to) {
        (ProviderFormat::OpenAI, ProviderFormat::Anthropic) => openai_to_anthropic_request(body, remote_model),
        (ProviderFormat::OpenAI, ProviderFormat::Google) => openai_to_google_request(body),
        (ProviderFormat::OpenAI, ProviderFormat::Responses) => openai_to_responses_request(body, remote_model),
        (ProviderFormat::Anthropic, ProviderFormat::OpenAI) => anthropic_to_openai_request(body, remote_model),
        (ProviderFormat::Anthropic, ProviderFormat::Google) => {
            proof {
                reveal_strlit("");
                assert(""@ =~= Seq::<char>::empty());
            }
            openai_to_google_request(&anthropic_to_openai_request(body, ""))
        },
        (ProviderFormat::Anthropic, ProviderFormat::Responses) => openai_to_responses_request(
            &anthropic_to_openai_request(body, remote_model),
            remote_model,
        ),
        (ProviderFormat::Google, ProviderFormat::OpenAI) => google_to_openai_request(body, remote_model),
        (ProviderFormat::Google, ProviderFormat::Anthropic) => openai_to_anthropic_request(
            &google_to_openai_request(body, remote_model),
            remote_model,
        ),
        (ProviderFormat::Google, ProviderFormat::Responses) => openai_to_responses_request(
            &google_to_openai_request(body, remote_model),
            remote_model,
        ),
        (ProviderFormat::Responses, ProviderFormat::OpenAI) => responses_to_openai_request(body, remote_model),
        (ProviderFormat::Responses, ProviderFormat::Anthropic) => openai_to_anthropic_request(
            &responses_to_openai_request(body, remote_model),
            remote_model,
        ),
        (ProviderFormat::Responses, ProviderFormat::Google) => openai_to_google_request(
            &responses_to_openai_request(body, remote_model),
        ),
        _ => {
            let mut out = body.deep_clone();
            ensure_model(&mut out, to, remote_model);
            out
        },
    }
}

} // verus!
