//! Token counting when a provider does not report usage: `o200k_base` for
//! the GPT-4o / o-series families, `cl100k_base` for everything else.

use vstd::prelude::*;
use crate::config::ProviderFormat;
use crate::json::{
    Json, JsonView, get_arr, get_str, jget, jstr, lemma_views, views,
};
use crate::proxy::sse::clamp;
use crate::text::{
    chars_of, contains_exec, contains_seq, lowercase, to_lowercase, string_push_str,
};

verus! {

/// What `o200k_base` makes of a text, special tokens allowed: the number
/// of tokens, or none when the tokenizer reports an error.
pub uninterp spec fn o200k_token_count(text: Seq<char>) -> Option<nat>;

/// What `cl100k_base` makes of a text, special tokens allowed: the number
/// of tokens, or none when the tokenizer reports an error.
pub uninterp spec fn cl100k_token_count(text: Seq<char>) -> Option<nat>;

/// `CoreBPE::encode` of `tiktoken_rs::o200k_base_singleton()`, with every
/// special token allowed, counted. `encode` reports an error when its
/// regular-expression engine gives up on a text (its backtracking and stack
/// limits, which a long run of whitespace can reach); the limits are fixed
/// counts, so whether it does is a function of the text. Which texts fail
/// is not stated.
#[verifier::external_body]
fn o200k_len(text: &str) -> (r: Option<usize>)
    ensures
        match r {
            Some(n) => o200k_token_count(text@) == Some(n as nat),
            None => o200k_token_count(text@) is None,
        },
{
    let bpe = tiktoken_rs::o200k_base_singleton();
    bpe.encode(text, &bpe.special_tokens()).ok().map(|(tokens, _)| tokens.len())
}

/// `CoreBPE::encode` of `tiktoken_rs::cl100k_base_singleton()`, counted; as
/// for [`o200k_len`].
#[verifier::external_body]
fn cl100k_len(text: &str) -> (r: Option<usize>)
    ensures
        match r {
            Some(n) => cl100k_token_count(text@) == Some(n as nat),
            None => cl100k_token_count(text@) is None,
        },
{
    let bpe = tiktoken_rs::cl100k_base_singleton();
    bpe.encode(text, &bpe.special_tokens()).ok().map(|(tokens, _)| tokens.len())
}

/// A count that may be missing, saturated to `u64`.
pub open spec fn opt_clamp(o: Option<nat>) -> Option<u64> {
    match o {
        Some(n) => Some(clamp(n)),
        None => None,
    }
}

/// Model families whose tokenizer is `o200k_base`, by a fragment of the
/// lower-cased model name.
pub open spec fn uses_o200k(model: Seq<char>) -> bool {
    let m = lowercase(model);
    contains_seq(m, "gpt-4o"@) || contains_seq(m, "o1-"@) || contains_seq(m, "o3-"@)
        || contains_seq(m, "gpt-4.5"@)
}

/// Whether `model` is counted with `o200k_base`.
pub fn uses_o200k_exec(model: &str) -> (b: bool)
    ensures
        b == uses_o200k(model@),
{
    let lower = to_lowercase(model);
    let m = chars_of(lower.as_str());
    contains_exec(&m, &chars_of("gpt-4o")) || contains_exec(&m, &chars_of("o1-"))
        || contains_exec(&m, &chars_of("o3-")) || contains_exec(&m, &chars_of("gpt-4.5"))
}

/// Tokens in `text` for `model`: zero for an empty text, else the count of
/// the model's tokenizer (none when it reports an error).
pub open spec fn text_tokens(model: Seq<char>, text: Seq<char>) -> Option<nat> {
    if text.len() == 0 {
        Some(0)
    } else if uses_o200k(model) {
        o200k_token_count(text)
    } else {
        cl100k_token_count(text)
    }
}

/// Count the tokens of `text` the way `model`'s tokenizer would; none when
/// the tokenizer reports an error on the text (an empty text always counts
/// zero).
pub fn count_text(model: &str, text: &str) -> (r: Option<u64>)
    ensures
        r == opt_clamp(text_tokens(model@, text@)),
{
    if crate::text::char_count(text) == 0 {
        return Some(0);
    }
    let n = if uses_o200k_exec(model) {
        o200k_len(text)
    } else {
        cl100k_len(text)
    };
    match n {
        Some(k) => Some(k as u64),
        None => None,
    }
}

// ---------------------------------------------------------------------------
// Text of requests and responses
// ---------------------------------------------------------------------------

/// One content part as text: its `text` member, or the part itself when it
/// is a string, each followed by a newline; nothing otherwise.
pub open spec fn part_text(p: JsonView) -> Seq<char> {
    match get_str(p, "text"@) {
        Some(t) => t + "\n"@,
        None => match jstr(p) {
            Some(t) => t + "\n"@,
            None => Seq::empty(),
        },
    }
}

/// The text of a list of content parts.
pub open spec fn parts_text(a: Seq<JsonView>) -> Seq<char>
    decreases a.len(),
{
    if a.len() == 0 {
        Seq::empty()
    } else {
        parts_text(a.drop_last()) + part_text(a.last())
    }
}

/// The text of a chat message: its content parts when `content` is an
/// array, the content itself when it is a string, else nothing.
pub open spec fn message_text(msg: JsonView) -> Seq<char> {
    match get_arr(msg, "content"@) {
        Some(a) => parts_text(a),
        None => match get_str(msg, "content"@) {
            Some(t) => t,
            None => Seq::empty(),
        },
    }
}

fn push_parts_text(out: &mut String, arr: &Vec<Json>)
    ensures
        final(out)@ == old(out)@ + parts_text(views(arr@)),
{
    proof {
        lemma_views(arr@);
    }
    let ghost a = views(arr@);
    let ghost start = out@;
    let mut i: usize = 0;
    assert(a.subrange(0, 0) =~= Seq::<JsonView>::empty());
    while i < arr.len()
        invariant
            i <= arr@.len(),
            a == views(arr@),
            a.len() == arr@.len(),
            forall|k: int| 0 <= k < arr@.len() ==> #[trigger] a[k] == arr@[k].view(),
            out@ == start + parts_text(a.subrange(0, i as int)),
        decreases arr.len() - i,
    {
        assert(a.subrange(0, i + 1).drop_last() =~= a.subrange(0, i as int));
        assert(a.subrange(0, i + 1).last() == arr@[i as int].view());
        let part = &arr[i];
        match part.get_str("text") {
            Some(t) => {
                string_push_str(out, t);
                string_push_str(out, "\n");
            },
            None => match part.as_str() {
                Some(t) => {
                    string_push_str(out, t);
                    string_push_str(out, "\n");
                },
                None => {},
            },
        }
        i = i + 1;
        assert(out@ =~= start + parts_text(a.subrange(0, i as int)));
    }
    assert(a.subrange(0, a.len() as int) =~= a);
}

/// The text of a chat message.
pub fn content_from_message(msg: &Json) -> (r: String)
    ensures
        r@ == message_text(msg.view()),
{
    let mut out = String::new();
    match msg.get_array("content") {
        Some(arr) => push_parts_text(&mut out, arr),
        None => {
            if let Some(t) = msg.get_str("content") {
                string_push_str(&mut out, t);
            }
        },
    }
    out
}

/// Tokens of a list of messages: each message's text plus three tokens of
/// role and separators; none when any message's text cannot be counted.
pub open spec fn messages_tokens(model: Seq<char>, msgs: Seq<JsonView>) -> Option<nat>
    decreases msgs.len(),
{
    if msgs.len() == 0 {
        Some(0)
    } else {
        match (messages_tokens(model, msgs.drop_last()), text_tokens(model, message_text(msgs.last()))) {
            (Some(a), Some(b)) => Some(a + b + 3),
            _ => None,
        }
    }
}

proof fn lemma_messages_tokens_missing(model: Seq<char>, a: Seq<JsonView>, k: int, j: int)
    requires
        0 <= k <= j <= a.len(),
        messages_tokens(model, a.subrange(0, k)) is None,
    ensures
        messages_tokens(model, a.subrange(0, j)) is None,
    decreases j - k,
{
    if j > k {
        lemma_messages_tokens_missing(model, a, k, j - 1);
        assert(a.subrange(0, j).drop_last() =~= a.subrange(0, j - 1));
    }
}

/// Count the tokens of a list of chat messages, the total saturating at
/// `u64::MAX`; none when a message's text cannot be counted.
pub fn count_messages(model: &str, messages: &Vec<Json>) -> (r: Option<u64>)
    ensures
        r == opt_clamp(messages_tokens(model@, views(messages@))),
{
    proof {
        lemma_views(messages@);
    }
    let ghost a = views(messages@);
    let mut total: u64 = 0;
    let mut i: usize = 0;
    while i < messages.len()
        invariant
            i <= messages@.len(),
            a == views(messages@),
            a.len() == messages@.len(),
            forall|k: int| 0 <= k < messages@.len() ==> #[trigger] a[k] == messages@[k].view(),
            messages_tokens(model@, a.subrange(0, i as int)) matches Some(s) && total == clamp(s),
        decreases messages.len() - i,
    {
        assert(a.subrange(0, i + 1).drop_last() =~= a.subrange(0, i as int));
        let text = content_from_message(&messages[i]);
        let n = match count_text(model, text.as_str()) {
            Some(n) => n,
            None => {
                proof {
                    lemma_messages_tokens_missing(model@, a, i as int + 1, a.len() as int);
                    assert(a.subrange(0, a.len() as int) =~= a);
                }
                return None;
            },
        };
        total = total.saturating_add(n).saturating_add(3);
        i = i + 1;
    }
    assert(a.subrange(0, a.len() as int) =~= a);
    Some(total)
}

/// Prompt tokens of a request body. Anthropic requests are counted by their
/// `messages`; every other dialect by its `messages`, else its `prompt`
/// text, else its `input` items; none when a text cannot be counted.
pub open spec fn prompt_tokens(model: Seq<char>, format: ProviderFormat, body: JsonView) -> Option<u64> {
    match format {
        ProviderFormat::Anthropic => match get_arr(body, "messages"@) {
            Some(m) => opt_clamp(messages_tokens(model, m)),
            None => Some(0),
        },
        _ => match get_arr(body, "messages"@) {
            Some(m) => opt_clamp(messages_tokens(model, m)),
            None => match get_str(body, "prompt"@) {
                Some(p) => opt_clamp(text_tokens(model, p)),
                None => match get_arr(body, "input"@) {
                    Some(m) => opt_clamp(messages_tokens(model, m)),
                    None => Some(0),
                },
            },
        },
    }
}

/// Count prompt tokens from a request body.
pub fn count_prompt(model: &str, format: ProviderFormat, body: &Json) -> (r: Option<u64>)
    ensures
        r == prompt_tokens(model@, format, body.view()),
{
    match format {
        ProviderFormat::Anthropic => match body.get_array("messages") {
            Some(m) => count_messages(model, m),
            None => Some(0),
        },
        _ => match body.get_array("messages") {
            Some(m) => count_messages(model, m),
            None => match body.get_str("prompt") {
                Some(p) => count_text(model, p),
                None => match body.get_array("input") {
                    Some(m) => count_messages(model, m),
                    None => Some(0),
                },
            },
        },
    }
}

/// The text of one chat-completion choice: its message content, else its
/// `text`.
pub open spec fn choice_text(c: JsonView) -> Seq<char> {
    match jget(c, "message"@) {
        Some(m) => match get_str(m, "content"@) {
            Some(t) => t,
            None => match get_str(c, "text"@) {
                Some(t) => t,
                None => Seq::empty(),
            },
        },
        None => match get_str(c, "text"@) {
            Some(t) => t,
            None => Seq::empty(),
        },
    }
}

/// The text of a list of choices.
pub open spec fn choices_text(a: Seq<JsonView>) -> Seq<char>
    decreases a.len(),
{
    if a.len() == 0 {
        Seq::empty()
    } else {
        choices_text(a.drop_last()) + choice_text(a.last())
    }
}

/// The text of one Responses output item: the `text` of each content part,
/// each followed by a newline.
pub open spec fn output_item_text(item: JsonView) -> Seq<char> {
    match get_arr(item, "content"@) {
        Some(parts) => texts_with_newlines(parts),
        None => Seq::empty(),
    }
}

/// The `text` members of a list, each followed by a newline.
pub open spec fn texts_with_newlines(a: Seq<JsonView>) -> Seq<char>
    decreases a.len(),
{
    if a.len() == 0 {
        Seq::empty()
    } else {
        texts_with_newlines(a.drop_last()) + match get_str(a.last(), "text"@) {
            Some(t) => t + "\n"@,
            None => Seq::empty(),
        }
    }
}

/// The text of a list of Responses output items.
pub open spec fn output_text(a: Seq<JsonView>) -> Seq<char>
    decreases a.len(),
{
    if a.len() == 0 {
        Seq::empty()
    } else {
        output_text(a.drop_last()) + output_item_text(a.last())
    }
}

/// The completion text of an OpenAI-style response: the choices, then the
/// Responses-style output items.
pub open spec fn openai_completion_text_spec(body: JsonView) -> Seq<char> {
    (match get_arr(body, "choices"@) {
        Some(a) => choices_text(a),
        None => Seq::empty(),
    }) + match get_arr(body, "output"@) {
        Some(a) => output_text(a),
        None => Seq::empty(),
    }
}

fn push_texts_with_newlines(out: &mut String, arr: &Vec<Json>)
    ensures
        final(out)@ == old(out)@ + texts_with_newlines(views(arr@)),
{
    proof {
        lemma_views(arr@);
    }
    let ghost a = views(arr@);
    let ghost start = out@;
    let mut i: usize = 0;
    assert(a.subrange(0, 0) =~= Seq::<JsonView>::empty());
    while i < arr.len()
        invariant
            i <= arr@.len(),
            a == views(arr@),
            a.len() == arr@.len(),
            forall|k: int| 0 <= k < arr@.len() ==> #[trigger] a[k] == arr@[k].view(),
            out@ == start + texts_with_newlines(a.subrange(0, i as int)),
        decreases arr.len() - i,
    {
        assert(a.subrange(0, i + 1).drop_last() =~= a.subrange(0, i as int));
        assert(a.subrange(0, i + 1).last() == arr@[i as int].view());
        if let Some(t) = arr[i].get_str("text") {
            string_push_str(out, t);
            string_push_str(out, "\n");
        }
        i = i + 1;
        assert(out@ =~= start + texts_with_newlines(a.subrange(0, i as int)));
    }
    assert(a.subrange(0, a.len() as int) =~= a);
}

/// The completion text of an OpenAI-style response body.
pub fn openai_completion_text(body: &Json) -> (r: String)
    ensures
        r@ == openai_completion_text_spec(body.view()),
{
    let mut out = String::new();
    if let Some(choices) = body.get_array("choices") {
        proof {
            lemma_views(choices@);
        }
        let ghost a = views(choices@);
        let mut i: usize = 0;
        assert(a.subrange(0, 0) =~= Seq::<JsonView>::empty());
        while i < choices.len()
            invariant
                i <= choices@.len(),
                a == views(choices@),
                a.len() == choices@.len(),
                forall|k: int| 0 <= k < choices@.len() ==> #[trigger] a[k] == choices@[k].view(),
                out@ == choices_text(a.subrange(0, i as int)),
            decreases choices.len() - i,
        {
            assert(a.subrange(0, i + 1).drop_last() =~= a.subrange(0, i as int));
            let choice = &choices[i];
            let from_message = match choice.get("message") {
                Some(m) => m.get_str("content"),
                None => None,
            };
            match from_message {
                Some(t) => string_push_str(&mut out, t),
                None => {
                    if let Some(t) = choice.get_str("text") {
                        string_push_str(&mut out, t);
                    }
                },
            }
            i = i + 1;
            assert(out@ =~= choices_text(a.subrange(0, i as int)));
        }
        assert(a.subrange(0, a.len() as int) =~= a);
    }
    let ghost first = out@;
    if let Some(items) = body.get_array("output") {
        proof {
            lemma_views(items@);
        }
        let ghost a = views(items@);
        let mut i: usize = 0;
        assert(a.subrange(0, 0) =~= Seq::<JsonView>::empty());
        while i < items.len()
            invariant
                i <= items@.len(),
                a == views(items@),
                a.len() == items@.len(),
                forall|k: int| 0 <= k < items@.len() ==> #[trigger] a[k] == items@[k].view(),
                out@ == first + output_text(a.subrange(0, i as int)),
            decreases items.len() - i,
        {
            assert(a.subrange(0, i + 1).drop_last() =~= a.subrange(0, i as int));
            if let Some(parts) = items[i].get_array("content") {
                push_texts_with_newlines(&mut out, parts);
            }
            i = i + 1;
            assert(out@ =~= first + output_text(a.subrange(0, i as int)));
        }
        assert(a.subrange(0, a.len() as int) =~= a);
    } else {
        assert(out@ =~= first + Seq::<char>::empty());
    }
    out
}

/// The completion text of an Anthropic response: the `text` of each content
/// block, each followed by a newline.
pub open spec fn anthropic_completion_text_spec(body: JsonView) -> Seq<char> {
    match get_arr(body, "content"@) {
        Some(a) => texts_with_newlines(a),
        None => Seq::empty(),
    }
}

/// The completion text of an Anthropic response body.
pub fn anthropic_completion_text(body: &Json) -> (r: String)
    ensures
        r@ == anthropic_completion_text_spec(body.view()),
{
    let mut out = String::new();
    if let Some(content) = body.get_array("content") {
        push_texts_with_newlines(&mut out, content);
    }
    out
}

/// Completion tokens of a non-streaming response body; Anthropic bodies by
/// their content blocks, every other dialect as an OpenAI-style body.
pub fn count_completion_json(model: &str, format: ProviderFormat, body: &Json) -> (r: Option<u64>)
    ensures
        r == opt_clamp(text_tokens(model@, match format {
            ProviderFormat::Anthropic => anthropic_completion_text_spec(body.view()),
            _ => openai_completion_text_spec(body.view()),
        })),
{
    let text = match format {
        ProviderFormat::Anthropic => anthropic_completion_text(body),
        _ => openai_completion_text(body),
    };
    count_text(model, text.as_str())
}

/// The assistant text carried by one streamed event: an OpenAI delta's
/// `content` and `reasoning_content` (first choice), then an Anthropic
/// `delta.text`.
pub open spec fn stream_delta_text(line: JsonView) -> Seq<char> {
    let openai = match get_arr(line, "choices"@) {
        Some(cs) => if cs.len() > 0 {
            match jget(cs[0], "delta"@) {
                Some(d) => (match get_str(d, "content"@) {
                    Some(t) => t,
                    None => Seq::empty(),
                }) + match get_str(d, "reasoning_content"@) {
                    Some(t) => t,
                    None => Seq::empty(),
                },
                None => Seq::empty(),
            }
        } else {
            Seq::empty()
        },
        None => Seq::empty(),
    };
    openai + match jget(line, "delta"@) {
        Some(d) => match get_str(d, "text"@) {
            Some(t) => t,
            None => Seq::empty(),
        },
        None => Seq::empty(),
    }
}

/// Extract the assistant text of one streamed event.
pub fn extract_stream_delta(line: &Json) -> (r: String)
    ensures
        r@ == stream_delta_text(line.view()),
{
    let mut out = String::new();
    if let Some(choices) = line.get_array("choices") {
        proof {
            lemma_views(choices@);
        }
        if choices.len() > 0 {
            if let Some(delta) = choices[0].get("delta") {
                if let Some(t) = delta.get_str("content") {
                    string_push_str(&mut out, t);
                }
                if let Some(t) = delta.get_str("reasoning_content") {
                    string_push_str(&mut out, t);
                }
            }
        }
    }
    let ghost first = out@;
    match line.get("delta") {
        Some(delta) => {
            if let Some(t) = delta.get_str("text") {
                string_push_str(&mut out, t);
            } else {
                assert(out@ =~= first + Seq::<char>::empty());
            }
        },
        None => {
            assert(out@ =~= first + Seq::<char>::empty());
        },
    }
    out
}

} // verus!
