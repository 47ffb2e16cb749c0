//! What the events of a converted stream say, event by event: each event of the
//! upstream becomes the events that say the same, and over a whole stream the
//! client reads exactly the text that the upstream sent.

use crate::json::JsonView;
use crate::lists;
use crate::literals;
use crate::transform::anthropic_to_chat_stream;
use crate::transform::anthropic_to_chat_stream::AnthropicToChatView;
use crate::transform::chat_to_anthropic_stream;
use crate::transform::chat_to_anthropic_stream::ChatToAnthropicView;
use crate::transform::common::SseEventView;
use crate::transform::request_laws as entries;
use crate::transform::response_laws as told;
use crate::transform::responses_to_anthropic_stream;
use crate::transform::responses_to_anthropic_stream::ResponsesToAnthropicView;
use crate::transform::responses_to_chat_stream;
use crate::transform::responses_to_chat_stream::ResponsesToChatView;
use vstd::prelude::*;

verus! {

// ── What events say ────────────────────────────────────────────────────────

/// The value of an event.
pub open spec fn value_of(e: SseEventView) -> JsonView {
    match e {
        SseEventView::Data(v) => v,
        SseEventView::Done => JsonView::Null,
    }
}

/// The first item of a list under a key.
pub open spec fn first(v: JsonView, key: Seq<char>) -> JsonView {
    if told::list(v, key).len() > 0 {
        told::list(v, key)[0]
    } else {
        JsonView::Null
    }
}

/// The text that a chat chunk adds to the message.
pub open spec fn chat_words(v: JsonView) -> Seq<char> {
    told::said(told::at(first(v, "choices"@), "delta"@), "content"@, ""@)
}

/// The reasoning that a chat chunk adds.
pub open spec fn chat_thoughts(v: JsonView) -> Seq<char> {
    told::said(told::at(first(v, "choices"@), "delta"@), "reasoning_content"@, ""@)
}

/// The text that an Anthropic event adds to the message.
pub open spec fn anthropic_words(v: JsonView) -> Seq<char> {
    if told::is_type(v, "content_block_delta"@) && told::is_type(
        told::at(v, "delta"@),
        "text_delta"@,
    ) {
        told::said(told::at(v, "delta"@), "text"@, ""@)
    } else {
        Seq::empty()
    }
}

/// The thinking that an Anthropic event adds.
pub open spec fn anthropic_thoughts(v: JsonView) -> Seq<char> {
    if told::is_type(v, "content_block_delta"@) && told::is_type(
        told::at(v, "delta"@),
        "thinking_delta"@,
    ) {
        told::said(told::at(v, "delta"@), "thinking"@, ""@)
    } else {
        Seq::empty()
    }
}

/// The text that a Responses event adds to the message.
pub open spec fn responses_words(v: JsonView) -> Seq<char> {
    if told::is_type(v, "response.output_text.delta"@) {
        told::said(v, "delta"@, ""@)
    } else {
        Seq::empty()
    }
}

/// The reasoning that a Responses event adds.
pub open spec fn responses_thoughts(v: JsonView) -> Seq<char> {
    if told::is_type(v, "response.reasoning_text.delta"@) {
        told::said(v, "delta"@, ""@)
    } else {
        Seq::empty()
    }
}

/// The words of events, one after the other.
pub open spec fn all_said(
    events: Seq<SseEventView>,
    words: spec_fn(JsonView) -> Seq<char>,
) -> Seq<char> {
    events.flat_map(|e: SseEventView| words(value_of(e)))
}

pub proof fn lemma_all_said_add(
    a: Seq<SseEventView>,
    b: Seq<SseEventView>,
    words: spec_fn(JsonView) -> Seq<char>,
)
    ensures
        all_said(a + b, words) == all_said(a, words) + all_said(b, words),
{
    entries::lemma_flat_map_add(a, b, |e: SseEventView| words(value_of(e)));
}

pub proof fn lemma_all_said(events: Seq<SseEventView>, words: spec_fn(JsonView) -> Seq<char>)
    ensures
        events.len() == 0 ==> all_said(events, words) == Seq::<char>::empty(),
        events.len() > 0 ==> all_said(events, words) == all_said(events.drop_last(), words)
            + words(value_of(events.last())),
{
    let f = |e: SseEventView| words(value_of(e));
    if events.len() > 0 {
        events.drop_last().lemma_flat_map_push(f, events.last());
        assert(events.drop_last().push(events.last()) =~= events);
    } else {
        assert(events.flat_map(f) =~= Seq::empty());
    }
}

/// The words of a few events.
pub proof fn lemma_few_said(events: Seq<SseEventView>, words: spec_fn(JsonView) -> Seq<char>)
    ensures
        events.len() == 0 ==> all_said(events, words) == Seq::<char>::empty(),
        events.len() == 1 ==> all_said(events, words) == words(value_of(events[0])),
        events.len() == 2 ==> all_said(events, words) == words(value_of(events[0])) + words(value_of(events[1])),
        events.len() == 3 ==> all_said(events, words) == words(value_of(events[0])) + words(value_of(events[1])) + words(value_of(events[2])),
        events.len() == 4 ==> all_said(events, words) == words(value_of(events[0])) + words(value_of(events[1])) + words(value_of(events[2])) + words(value_of(events[3])),
        events.len() == 5 ==> all_said(events, words) == words(value_of(events[0])) + words(value_of(events[1])) + words(value_of(events[2])) + words(value_of(events[3])) + words(value_of(events[4])),
        events.len() == 6 ==> all_said(events, words) == words(value_of(events[0])) + words(value_of(events[1])) + words(value_of(events[2])) + words(value_of(events[3])) + words(value_of(events[4])) + words(value_of(events[5])),
        events.len() == 7 ==> all_said(events, words) == words(value_of(events[0])) + words(value_of(events[1])) + words(value_of(events[2])) + words(value_of(events[3])) + words(value_of(events[4])) + words(value_of(events[5])) + words(value_of(events[6])),
        events.len() == 8 ==> all_said(events, words) == words(value_of(events[0])) + words(value_of(events[1])) + words(value_of(events[2])) + words(value_of(events[3])) + words(value_of(events[4])) + words(value_of(events[5])) + words(value_of(events[6])) + words(value_of(events[7])),
    decreases events.len(),
{
    lemma_all_said(events, words);
    if 0 < events.len() <= 8 {
        lemma_few_said(events.drop_last(), words);
        if events.len() == 1 {
            assert(all_said(events, words) =~= words(value_of(events[0])));
        }
    }
}

/// Whether a value has entries under one key only.
pub open spec fn only(v: JsonView, key: Seq<char>) -> bool {
    forall|k: Seq<char>| k != key ==> !#[trigger] has_key(v, k)
}

pub open spec fn has_key(v: JsonView, key: Seq<char>) -> bool {
    v.field(key) is Some
}

/// Whether an event is a chunk of a chat stream.
pub open spec fn is_chat_event(
    e: SseEventView,
    id: Seq<char>,
    created: u64,
    model: Seq<char>,
) -> bool {
    let v = value_of(e);
    &&& e is Data
    &&& told::says(v, "id"@, id)
    &&& told::says(v, "object"@, "chat.completion.chunk"@)
    &&& v.field("created"@) == Some(JsonView::integer(created as int))
    &&& told::says(v, "model"@, model)
    &&& told::list(v, "choices"@).len() == 1
    &&& first(v, "choices"@).field("index"@) == Some(JsonView::integer(0))
}

/// Whether an event is a chunk of a chat stream that adds one entry.
pub open spec fn is_chat_delta(
    e: SseEventView,
    id: Seq<char>,
    created: u64,
    model: Seq<char>,
    key: Seq<char>,
    value: JsonView,
) -> bool {
    let choice = first(value_of(e), "choices"@);
    &&& is_chat_event(e, id, created, model)
    &&& told::at(choice, "delta"@).field(key) == Some(value)
    &&& only(told::at(choice, "delta"@), key)
    &&& choice.field("finish_reason"@) == Some(JsonView::Null)
}

/// Whether an event is the chunk of a chat stream that ends it, with the counts.
pub open spec fn is_chat_end(
    e: SseEventView,
    id: Seq<char>,
    created: u64,
    model: Seq<char>,
    reason: Seq<char>,
    input: int,
    output: int,
) -> bool {
    let choice = first(value_of(e), "choices"@);
    let usage = told::at(value_of(e), "usage"@);
    &&& is_chat_event(e, id, created, model)
    &&& choice.field("delta"@) == Some(told::empty_object())
    &&& told::says(choice, "finish_reason"@, reason)
    &&& usage.field("prompt_tokens"@) == Some(JsonView::integer(input))
    &&& usage.field("completion_tokens"@) == Some(JsonView::integer(output))
    &&& input + output <= u64::MAX ==> usage.field("total_tokens"@) == Some(
        JsonView::integer(input + output),
    )
}

/// Whether an event begins an Anthropic message.
pub open spec fn is_message_start(e: SseEventView, id: Seq<char>, model: Seq<char>) -> bool {
    let message = told::at(value_of(e), "message"@);
    &&& e is Data
    &&& told::is_type(value_of(e), "message_start"@)
    &&& told::says(message, "id"@, id)
    &&& told::is_type(message, "message"@)
    &&& told::says(message, "role"@, "assistant"@)
    &&& told::says(message, "model"@, model)
    &&& message.field("content"@) is Some && told::list(message, "content"@).len() == 0
    &&& message.field("stop_reason"@) == Some(JsonView::Null)
    &&& told::at(message, "usage"@).field("input_tokens"@) == Some(JsonView::integer(0))
    &&& told::at(message, "usage"@).field("output_tokens"@) == Some(JsonView::integer(0))
}

/// Whether an event begins the text block of an Anthropic message.
pub open spec fn is_block_start(e: SseEventView) -> bool {
    let v = value_of(e);
    &&& e is Data
    &&& told::is_type(v, "content_block_start"@)
    &&& v.field("index"@) == Some(JsonView::integer(0))
    &&& told::is_type(told::at(v, "content_block"@), "text"@)
    &&& told::says(told::at(v, "content_block"@), "text"@, ""@)
}

/// Whether an event adds to the block of an Anthropic message.
pub open spec fn is_block_delta(
    e: SseEventView,
    kind: Seq<char>,
    key: Seq<char>,
    s: Seq<char>,
) -> bool {
    let v = value_of(e);
    &&& e is Data
    &&& told::is_type(v, "content_block_delta"@)
    &&& v.field("index"@) == Some(JsonView::integer(0))
    &&& told::is_type(told::at(v, "delta"@), kind)
    &&& told::says(told::at(v, "delta"@), key, s)
}

/// Whether an event ends the block of an Anthropic message.
pub open spec fn is_block_stop(e: SseEventView) -> bool {
    &&& e is Data
    &&& told::is_type(value_of(e), "content_block_stop"@)
    &&& value_of(e).field("index"@) == Some(JsonView::integer(0))
}

/// Whether two events end an Anthropic message, with the reason and the counts.
pub open spec fn is_message_end(
    a: SseEventView,
    b: SseEventView,
    reason: Seq<char>,
    input: int,
    output: int,
) -> bool {
    &&& a is Data && b is Data
    &&& told::is_type(value_of(a), "message_delta"@)
    &&& told::says(told::at(value_of(a), "delta"@), "stop_reason"@, reason)
    &&& told::at(value_of(a), "usage"@).field("output_tokens"@) == Some(JsonView::integer(output))
    &&& told::is_type(value_of(b), "message_stop"@)
    &&& told::at(value_of(b), "usage"@).field("input_tokens"@) == Some(JsonView::integer(input))
    &&& told::at(value_of(b), "usage"@).field("output_tokens"@) == Some(JsonView::integer(output))
}

// ── Anthropic to Chat ──────────────────────────────────────────────────────

/// The count that an event reports under a key, or the one known before.
pub open spec fn reported(source: JsonView, key: Seq<char>, before: int) -> int {
    if source.field("usage"@) is Some {
        told::count(told::at(source, "usage"@), key)
    } else {
        before
    }
}

/// The first event of an Anthropic stream begins a chat stream of the assistant.
/// Every text and every thought that is not empty becomes one chunk that adds it;
/// the end of the message becomes a chunk with the reason and the counts and the
/// line that ends chat streams; and other events become nothing.
pub proof fn lemma_anthropic_to_chat_events(state: AnthropicToChatView, v: JsonView)
    ensures
        ({
            let p = anthropic_to_chat_stream::ChatProgress::from(state).after(v);
            let delta = told::at(v, "delta"@);
            let reason = told::at(delta, "stop_reason"@);
            let n = if state.headers_emitted {
                0int
            } else {
                1int
            };
            let words = anthropic_words(v);
            let thoughts = anthropic_thoughts(v);
            let output = reported(v, "output_tokens"@, state.total_output as int);
            let stops = told::is_type(v, "message_delta"@) && reason is String;
            let closes = told::is_type(v, "message_stop"@) && !state.completed;
            &&& n == 1 ==> p.events.len() > 0 && is_chat_delta(
                p.events[0],
                state.chat_id,
                state.created,
                state.model,
                "role"@,
                JsonView::text("assistant"@),
            )
            &&& words.len() > 0 ==> p.events.len() == n + 1 && is_chat_delta(
                p.events[n],
                state.chat_id,
                state.created,
                state.model,
                "content"@,
                JsonView::text(words),
            )
            &&& thoughts.len() > 0 ==> p.events.len() == n + 1 && is_chat_delta(
                p.events[n],
                state.chat_id,
                state.created,
                state.model,
                "reasoning_content"@,
                JsonView::text(thoughts),
            )
            &&& stops ==> p.events.len() == n + 2 && p.events[n + 1] is Done && is_chat_end(
                p.events[n],
                state.chat_id,
                state.created,
                state.model,
                if reason == JsonView::text("tool_use"@) {
                    "tool_calls"@
                } else {
                    "stop"@
                },
                state.total_input as int,
                output,
            )
            &&& closes ==> p.events.len() == n + 2 && p.events[n + 1] is Done && is_chat_end(
                p.events[n],
                state.chat_id,
                state.created,
                state.model,
                "stop"@,
                state.total_input as int,
                state.total_output as int,
            )
            &&& words.len() == 0 && thoughts.len() == 0 && !stops && !closes ==> p.events.len()
                == n
            &&& p.state.completed <==> state.completed || stops || closes
            &&& p.state.total_input == if told::is_type(v, "message_start"@) {
                reported(told::at(v, "message"@), "input_tokens"@, state.total_input as int)
            } else {
                state.total_input as int
            }
            &&& p.state.total_output == if told::is_type(v, "message_delta"@) {
                output
            } else {
                state.total_output as int
            }
        }),
{
    literals::lemma_literals();
}

/// A chat stream that is ended before its message is gets the chunk with the
/// counts and the line that ends chat streams; one that has ended gets nothing.
pub proof fn lemma_anthropic_to_chat_finish(state: AnthropicToChatView)
    ensures
        ({
            let p = anthropic_to_chat_stream::ChatProgress::from(state).finish();
            let n = if state.headers_emitted {
                0int
            } else {
                1int
            };
            &&& state.completed ==> p.events.len() == 0
            &&& !state.completed ==> {
                &&& p.events.len() == n + 2
                &&& n == 1 ==> is_chat_delta(
                    p.events[0],
                    state.chat_id,
                    state.created,
                    state.model,
                    "role"@,
                    JsonView::text("assistant"@),
                )
                &&& is_chat_end(
                    p.events[n],
                    state.chat_id,
                    state.created,
                    state.model,
                    "stop"@,
                    state.total_input as int,
                    state.total_output as int,
                )
                &&& p.events[n + 1] is Done
            }
            &&& p.state.completed
        }),
{
    literals::lemma_literals();
}

/// For every event of an Anthropic stream, the client reads exactly the text and
/// the thinking that the event adds.
pub proof fn lemma_anthropic_to_chat_says(state: AnthropicToChatView, v: JsonView)
    ensures
        ({
            let events = anthropic_to_chat_stream::ChatProgress::from(state).after(v).events;
            &&& all_said(events, |v: JsonView| chat_words(v)) == anthropic_words(v)
            &&& all_said(events, |v: JsonView| chat_thoughts(v)) == anthropic_thoughts(v)
        }),
{
    literals::lemma_literals();
    let events = anthropic_to_chat_stream::ChatProgress::from(state).after(v).events;
    lemma_anthropic_to_chat_events(state, v);
    lemma_few_said(events, |v: JsonView| chat_words(v));
    lemma_few_said(events, |v: JsonView| chat_thoughts(v));
    assert(all_said(events, |v: JsonView| chat_words(v)) =~= anthropic_words(v));
    assert(all_said(events, |v: JsonView| chat_thoughts(v)) =~= anthropic_thoughts(v));
}

// ── Chat to Anthropic ──────────────────────────────────────────────────────

/// One where something holds, and nothing where it does not.
pub open spec fn one_if(b: bool) -> int {
    if b {
        1
    } else {
        0
    }
}

/// The reason that ends a message, in the words of Anthropic.
pub open spec fn stop_reason(reason: Seq<char>) -> Seq<char> {
    if reason == "tool_calls"@ {
        "tool_use"@
    } else {
        "end_turn"@
    }
}

/// The events that a chunk of a chat stream becomes, in their order: the beginning
/// of the message, where it was not sent before; for a text that is not empty, the
/// beginning of the block, where it was not sent before, and the text; the
/// reasoning; and the end, where the chunk gives a reason.
pub proof fn lemma_chat_to_anthropic_events(state: ChatToAnthropicView, v: JsonView)
    ensures
        ({
            let p = chat_to_anthropic_stream::AnthropicProgress::from(state).after(v);
            let words = chat_words(v);
            let thoughts = chat_thoughts(v);
            let reason = told::at(first(v, "choices"@), "finish_reason"@);
            let n = one_if(!state.headers_emitted);
            let b = n + one_if(words.len() > 0 && !state.content_block_started);
            let w = b + one_if(words.len() > 0);
            let t = w + one_if(thoughts.len() > 0);
            let open = state.content_block_started || words.len() > 0;
            let s = t + one_if(reason is String && open);
            &&& p.events.len() == if reason is String {
                s + 2
            } else {
                s
            }
            &&& n == 1 ==> is_message_start(p.events[0], state.msg_id, state.model)
            &&& b == n + 1 ==> is_block_start(p.events[n])
            &&& words.len() > 0 ==> is_block_delta(p.events[b], "text_delta"@, "text"@, words)
            &&& thoughts.len() > 0 ==> is_block_delta(
                p.events[w],
                "thinking_delta"@,
                "thinking"@,
                thoughts,
            )
            &&& s == t + 1 ==> is_block_stop(p.events[t])
            &&& reason matches JsonView::String(r) ==> is_message_end(
                p.events[s],
                p.events[s + 1],
                stop_reason(r),
                0,
                0,
            )
            &&& p.state.completed <==> state.completed || reason is String
            &&& p.state.content_block_started <==> open
        }),
{
    literals::lemma_literals();
}

/// A chat stream that ends without a reason ends the Anthropic message, once.
pub proof fn lemma_chat_to_anthropic_finish(state: ChatToAnthropicView)
    ensures
        ({
            let ended = chat_to_anthropic_stream::AnthropicProgress::from(state).end();
            let p = chat_to_anthropic_stream::AnthropicProgress::from(state).finish();
            let n = one_if(!state.headers_emitted);
            let s = one_if(state.content_block_started);
            &&& state.completed ==> p.events.len() == 0 && ended.events.len() == 0
            &&& !state.completed ==> {
                &&& ended.events.len() == s + 2
                &&& s == 1 ==> is_block_stop(ended.events[0])
                &&& is_message_end(ended.events[s], ended.events[s + 1], "end_turn"@, 0, 0)
                &&& p.events.len() == n + s + 2
                &&& n == 1 ==> is_message_start(p.events[0], state.msg_id, state.model)
                &&& s == 1 ==> is_block_stop(p.events[n])
                &&& is_message_end(p.events[n + s], p.events[n + s + 1], "end_turn"@, 0, 0)
            }
            &&& p.state.completed && ended.state.completed
        }),
{
    literals::lemma_literals();
}

// ── Responses to Anthropic ─────────────────────────────────────────────────

/// The events that an event of a Responses stream becomes: the beginning of the
/// message and its block, where it was not sent before; a text or a reasoning that
/// is not empty; and for the completed response, the end with its counts.
pub proof fn lemma_responses_to_anthropic_events(state: ResponsesToAnthropicView, v: JsonView)
    ensures
        ({
            let p = responses_to_anthropic_stream::AnthropicProgress::from(state).after(v);
            let words = responses_words(v);
            let thoughts = responses_thoughts(v);
            let completes = told::is_type(v, "response.completed"@);
            let usage = told::at(told::at(v, "response"@), "usage"@);
            let n = 2 * one_if(!state.headers_emitted);
            &&& n == 2 ==> is_message_start(p.events[0], state.msg_id, state.model)
                && is_block_start(p.events[1])
            &&& words.len() > 0 ==> p.events.len() == n + 1 && is_block_delta(
                p.events[n],
                "text_delta"@,
                "text"@,
                words,
            )
            &&& thoughts.len() > 0 ==> p.events.len() == n + 1 && is_block_delta(
                p.events[n],
                "thinking_delta"@,
                "thinking"@,
                thoughts,
            )
            &&& completes ==> p.events.len() == n + 3 && is_block_stop(p.events[n])
                && is_message_end(
                p.events[n + 1],
                p.events[n + 2],
                "end_turn"@,
                told::count(usage, "input_tokens"@),
                told::count(usage, "output_tokens"@),
            )
            &&& words.len() == 0 && thoughts.len() == 0 && !completes ==> p.events.len() == n
            &&& p.state.completed <==> state.completed || completes
        }),
{
    literals::lemma_literals();
}

/// An Anthropic stream that is ended before its message is ends it; one that has
/// ended gets nothing.
pub proof fn lemma_responses_to_anthropic_finish(state: ResponsesToAnthropicView)
    ensures
        ({
            let p = responses_to_anthropic_stream::AnthropicProgress::from(state).finish();
            let n = 2 * one_if(!state.headers_emitted);
            &&& state.completed ==> p.events.len() == 0
            &&& !state.completed ==> {
                &&& p.events.len() == n + 3
                &&& n == 2 ==> is_message_start(p.events[0], state.msg_id, state.model)
                    && is_block_start(p.events[1])
                &&& is_block_stop(p.events[n])
                &&& is_message_end(p.events[n + 1], p.events[n + 2], "end_turn"@, 0, 0)
            }
            &&& p.state.completed
        }),
{
    literals::lemma_literals();
}

// ── Responses to Chat ──────────────────────────────────────────────────────

/// Whether a tool call in a chat chunk begins the call of a function.
pub open spec fn begins_call(
    piece: JsonView,
    index: int,
    id: Seq<char>,
    name: Seq<char>,
) -> bool {
    &&& piece.field("index"@) == Some(JsonView::integer(index))
    &&& told::is_chat_call(piece, id, name, ""@)
}

/// Whether a tool call in a chat chunk adds to the arguments of a call.
pub open spec fn adds_arguments(piece: JsonView, index: int, delta: Seq<char>) -> bool {
    &&& piece.field("index"@) == Some(JsonView::integer(index))
    &&& told::says(told::at(piece, "function"@), "arguments"@, delta)
    &&& !has_key(piece, "id"@)
}

/// The only tool call that an event of a chat stream speaks of.
pub open spec fn call_piece(e: SseEventView) -> JsonView {
    first(told::at(first(value_of(e), "choices"@), "delta"@), "tool_calls"@)
}

/// The events that an event of a Responses stream becomes: the beginning of the
/// chat stream, where it was not sent before; a text or a reasoning that is not
/// empty; the beginning of a call, and what is added to its arguments, under the
/// number of the call; and for the completed response, the end with its counts.
pub proof fn lemma_responses_to_chat_events(state: ResponsesToChatView, v: JsonView)
    ensures
        ({
            let p = responses_to_chat_stream::ChatProgress::from(state).after(v);
            let words = responses_words(v);
            let thoughts = responses_thoughts(v);
            let item = told::at(v, "item"@);
            let calls = told::is_type(v, "response.output_item.added"@) && told::is_type(
                item,
                "function_call"@,
            );
            let completes = told::is_type(v, "response.completed"@);
            let response = told::at(v, "response"@);
            let n = one_if(!state.headers_emitted);
            &&& n == 1 ==> p.events.len() > 0 && is_chat_delta(
                p.events[0],
                state.chat_id,
                state.created,
                state.model,
                "role"@,
                JsonView::text("assistant"@),
            )
            &&& words.len() > 0 ==> p.events.len() == n + 1 && is_chat_delta(
                p.events[n],
                state.chat_id,
                state.created,
                state.model,
                "content"@,
                JsonView::text(words),
            )
            &&& thoughts.len() > 0 ==> p.events.len() == n + 1 && is_chat_delta(
                p.events[n],
                state.chat_id,
                state.created,
                state.model,
                "reasoning_content"@,
                JsonView::text(thoughts),
            )
            &&& calls ==> p.events.len() == n + 1 && is_chat_event(
                p.events[n],
                state.chat_id,
                state.created,
                state.model,
            ) && begins_call(
                call_piece(p.events[n]),
                state.active.len() as int,
                told::said(item, "call_id"@, ""@),
                told::said(item, "name"@, ""@),
            ) && p.state.active.len() == state.active.len() + 1 && p.state.active.last().id
                == told::said(item, "id"@, ""@)
            &&& completes ==> p.events.len() == n + 2 && p.events[n + 1] is Done && is_chat_end(
                p.events[n],
                state.chat_id,
                state.created,
                state.model,
                if state.active.len() > 0 {
                    "tool_calls"@
                } else {
                    "stop"@
                },
                reported(response, "input_tokens"@, state.total_input as int),
                reported(response, "output_tokens"@, state.total_output as int),
            )
            &&& words.len() == 0 && thoughts.len() == 0 && !calls && !completes && !told::is_type(
                v,
                "response.function_call_arguments.delta"@,
            ) ==> p.events.len() == n
            &&& p.state.completed <==> state.completed || completes
            &&& !calls && !told::is_type(v, "response.function_call_arguments.delta"@)
                ==> p.state.active == state.active
        }),
{
    literals::lemma_literals();
}

/// What is added to the arguments of a call reaches the client under the number of
/// the call, and what belongs to no call is left out.
pub proof fn lemma_responses_to_chat_arguments(state: ResponsesToChatView, v: JsonView, at: int)
    requires
        told::is_type(v, "response.function_call_arguments.delta"@),
        0 <= at <= state.active.len(),
        at < state.active.len() ==> state.active[at].id == told::said(v, "item_id"@, ""@),
        forall|i: int|
            0 <= i < at ==> (#[trigger] state.active[i]).id != told::said(v, "item_id"@, ""@),
    ensures
        ({
            let p = responses_to_chat_stream::ChatProgress::from(state).after(v);
            let n = one_if(!state.headers_emitted);
            let delta = told::said(v, "delta"@, ""@);
            &&& at == state.active.len() ==> p.events.len() == n && p.state.active == state.active
            &&& at < state.active.len() ==> {
                &&& p.events.len() == n + 1
                &&& is_chat_event(p.events[n], state.chat_id, state.created, state.model)
                &&& adds_arguments(call_piece(p.events[n]), at, delta)
                &&& p.state.active.len() == state.active.len()
                &&& p.state.active[at].arguments == state.active[at].arguments + delta
                &&& p.state.active[at].id == state.active[at].id
                &&& forall|i: int|
                    0 <= i < state.active.len() && i != at ==> p.state.active[i]
                        == #[trigger] state.active[i]
            }
        }),
{
    literals::lemma_literals();
    let id = told::said(v, "item_id"@, ""@);
    let wanted = |call: responses_to_chat_stream::ResponsesToolCallView| call.id == id;
    if at < state.active.len() {
        lists::lemma_first_where(state.active, wanted, at);
    } else {
        lists::lemma_first_where_found(state.active, wanted);
        let found = lists::first_where(state.active, wanted);
        if found < state.active.len() {
            assert(wanted(state.active[found]));
        }
    }
}

/// A chat stream that is ended before its response is gets the chunk with the
/// counts and the line that ends chat streams; one that has ended gets nothing.
pub proof fn lemma_responses_to_chat_finish(state: ResponsesToChatView)
    ensures
        ({
            let p = responses_to_chat_stream::ChatProgress::from(state).finish();
            let n = one_if(!state.headers_emitted);
            &&& state.completed ==> p.events.len() == 0
            &&& !state.completed ==> {
                &&& p.events.len() == n + 2
                &&& n == 1 ==> is_chat_delta(
                    p.events[0],
                    state.chat_id,
                    state.created,
                    state.model,
                    "role"@,
                    JsonView::text("assistant"@),
                )
                &&& is_chat_end(
                    p.events[n],
                    state.chat_id,
                    state.created,
                    state.model,
                    if state.active.len() > 0 {
                        "tool_calls"@
                    } else {
                        "stop"@
                    },
                    state.total_input as int,
                    state.total_output as int,
                )
                &&& p.events[n + 1] is Done
            }
            &&& p.state.completed
        }),
{
    literals::lemma_literals();
}

// ── What a stream keeps in mind ────────────────────────────────────────────

proof fn lemma_grown(s: Seq<char>, words: Seq<char>)
    ensures
        words.len() == 0 ==> s + words == s,
{
    if words.len() == 0 {
        assert(s + words =~= s);
    }
}

/// What an event of an Anthropic stream changes in a converted chat stream: the
/// text grows by what it adds, the counts become what it reports, and all else
/// stays.
pub proof fn lemma_anthropic_to_chat_state(state: AnthropicToChatView, v: JsonView)
    ensures
        ({
            let p = anthropic_to_chat_stream::ChatProgress::from(state).after(v);
            p.state == (AnthropicToChatView {
                full_text: state.full_text + anthropic_words(v),
                total_input: p.state.total_input,
                total_output: p.state.total_output,
                headers_emitted: true,
                completed: p.state.completed,
                ..state
            })
        }),
{
    literals::lemma_literals();
    lemma_grown(state.full_text, anthropic_words(v));
    lemma_grown(state.full_text, told::said(told::at(v, "delta"@), "text"@, ""@));
}

/// What a chunk of a chat stream changes in a converted Anthropic stream.
pub proof fn lemma_chat_to_anthropic_state(state: ChatToAnthropicView, v: JsonView)
    ensures
        ({
            let p = chat_to_anthropic_stream::AnthropicProgress::from(state).after(v);
            p.state == (ChatToAnthropicView {
                full_text: state.full_text + chat_words(v),
                headers_emitted: true,
                content_block_started: state.content_block_started || chat_words(v).len() > 0,
                completed: state.completed || told::at(first(v, "choices"@), "finish_reason"@)
                    is String,
                ..state
            })
        }),
{
    literals::lemma_literals();
    lemma_grown(state.full_text, chat_words(v));
}

/// What an event of a Responses stream changes in a converted Anthropic stream.
pub proof fn lemma_responses_to_anthropic_state(state: ResponsesToAnthropicView, v: JsonView)
    ensures
        ({
            let p = responses_to_anthropic_stream::AnthropicProgress::from(state).after(v);
            p.state == (ResponsesToAnthropicView {
                full_text: state.full_text + responses_words(v),
                headers_emitted: true,
                completed: state.completed || told::is_type(v, "response.completed"@),
                ..state
            })
        }),
{
    literals::lemma_literals();
    lemma_grown(state.full_text, responses_words(v));
    lemma_grown(state.full_text, told::said(v, "delta"@, ""@));
}

/// What an event of a Responses stream changes in a converted chat stream, its tool
/// calls apart.
pub proof fn lemma_responses_to_chat_state(state: ResponsesToChatView, v: JsonView)
    ensures
        ({
            let p = responses_to_chat_stream::ChatProgress::from(state).after(v);
            let completes = told::is_type(v, "response.completed"@);
            let response = told::at(v, "response"@);
            &&& p.state == (ResponsesToChatView {
                full_text: state.full_text + responses_words(v),
                total_input: p.state.total_input,
                total_output: p.state.total_output,
                headers_emitted: true,
                completed: state.completed || completes,
                active: p.state.active,
                ..state
            })
            &&& p.state.total_input == if completes {
                reported(response, "input_tokens"@, state.total_input as int)
            } else {
                state.total_input as int
            }
            &&& p.state.total_output == if completes {
                reported(response, "output_tokens"@, state.total_output as int)
            } else {
                state.total_output as int
            }
        }),
{
    literals::lemma_literals();
    lemma_grown(state.full_text, responses_words(v));
    lemma_grown(state.full_text, told::said(v, "delta"@, ""@));
}

} // verus!
