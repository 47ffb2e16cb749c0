//! What the events of a converted Responses stream say, event by event.

use crate::json::JsonView;
use crate::lists;
use crate::literals;
use crate::transform::anthropic_to_responses_stream;
use crate::transform::anthropic_to_responses_stream::AnthropicToResponsesView;
use crate::transform::chat_to_responses_stream;
use crate::transform::chat_to_responses_stream::{
    ChatToResponsesView, ResponsesProgress, ToolCallView,
};
use crate::transform::common::SseEventView;
use crate::transform::event_laws as seen;
use crate::transform::response_laws as told;
use crate::transform::responses_chat;
use crate::transform::stream_laws;
use vstd::prelude::*;

verus! {

// ── What events say ────────────────────────────────────────────────────────

/// Whether a value is a response that has begun.
pub open spec fn is_begun(
    response: JsonView,
    resp_id: Seq<char>,
    created: u64,
    model: Seq<char>,
) -> bool {
    &&& told::says(response, "id"@, resp_id)
    &&& told::says(response, "object"@, "response"@)
    &&& response.field("created_at"@) == Some(JsonView::integer(created as int))
    &&& told::says(response, "status"@, "in_progress"@)
    &&& told::says(response, "model"@, model)
    &&& response.field("output"@) is Some && response.field("output"@)->0 is Array
    &&& told::list(response, "output"@).len() == 0
    &&& response.field("usage"@) == Some(JsonView::Null)
}

/// Whether a value is a message of the assistant.
pub open spec fn is_message(item: JsonView, msg_id: Seq<char>, status: Seq<char>) -> bool {
    &&& told::is_type(item, "message"@)
    &&& told::says(item, "id"@, msg_id)
    &&& told::says(item, "role"@, "assistant"@)
    &&& told::says(item, "status"@, status)
    &&& item.field("content"@) is Some && item.field("content"@)->0 is Array
}

/// Whether a value is the assistant's message with a text.
pub open spec fn is_said_message(item: JsonView, msg_id: Seq<char>, s: Seq<char>) -> bool {
    let parts = told::list(item, "content"@);
    &&& is_message(item, msg_id, "completed"@)
    &&& parts.len() == 1
    &&& is_text_part(parts[0], s)
}

pub open spec fn is_text_part(part: JsonView, s: Seq<char>) -> bool {
    told::is_type(part, "output_text"@) && told::says(part, "text"@, s)
}

/// Whether an event is about an item of the output.
pub open spec fn is_item_event(e: SseEventView, kind: Seq<char>, output_index: int) -> bool {
    &&& e is Data
    &&& told::is_type(seen::value_of(e), kind)
    &&& seen::value_of(e).field("output_index"@) == Some(JsonView::integer(output_index))
}

/// Whether events begin a response and its message.
pub open spec fn are_opening(
    events: Seq<SseEventView>,
    resp_id: Seq<char>,
    msg_id: Seq<char>,
    created: u64,
    model: Seq<char>,
) -> bool {
    let item = told::at(seen::value_of(events[2]), "item"@);
    &&& events.len() >= 4
    &&& events[0] is Data && events[1] is Data
    &&& told::is_type(seen::value_of(events[0]), "response.created"@)
    &&& is_begun(told::at(seen::value_of(events[0]), "response"@), resp_id, created, model)
    &&& told::is_type(seen::value_of(events[1]), "response.in_progress"@)
    &&& is_begun(told::at(seen::value_of(events[1]), "response"@), resp_id, created, model)
    &&& is_item_event(events[2], "response.output_item.added"@, 0)
    &&& is_message(item, msg_id, "in_progress"@)
    &&& told::list(item, "content"@).len() == 0
    &&& is_item_event(events[3], "response.content_part.added"@, 0)
    &&& seen::value_of(events[3]).field("content_index"@) == Some(JsonView::integer(0))
    &&& is_text_part(told::at(seen::value_of(events[3]), "part"@), ""@)
}

/// Whether an event adds to the message of a response.
pub open spec fn is_delta(
    e: SseEventView,
    kind: Seq<char>,
    msg_id: Seq<char>,
    s: Seq<char>,
) -> bool {
    &&& is_item_event(e, kind, 0)
    &&& told::says(seen::value_of(e), "item_id"@, msg_id)
    &&& seen::value_of(e).field("content_index"@) == Some(JsonView::integer(0))
    &&& told::says(seen::value_of(e), "delta"@, s)
}

/// Whether two events end the message of a response, with its text.
pub open spec fn are_closing(
    a: SseEventView,
    b: SseEventView,
    msg_id: Seq<char>,
    s: Seq<char>,
) -> bool {
    &&& is_item_event(a, "response.content_part.done"@, 0)
    &&& seen::value_of(a).field("content_index"@) == Some(JsonView::integer(0))
    &&& is_text_part(told::at(seen::value_of(a), "part"@), s)
    &&& is_item_event(b, "response.output_item.done"@, 0)
    &&& is_said_message(told::at(seen::value_of(b), "item"@), msg_id, s)
}

/// Whether a value is an item for a call.
pub open spec fn is_call(
    item: JsonView,
    id: Seq<char>,
    name: Seq<char>,
    arguments: Seq<char>,
    status: Seq<char>,
) -> bool {
    &&& told::is_type(item, "function_call"@)
    &&& told::says(item, "id"@, id)
    &&& told::says(item, "call_id"@, id)
    &&& told::says(item, "name"@, name)
    &&& told::says(item, "arguments"@, arguments)
    &&& told::says(item, "status"@, status)
}

/// Whether two events end a call, with its arguments.
pub open spec fn are_call_done(a: SseEventView, b: SseEventView, call: ToolCallView) -> bool {
    &&& is_item_event(a, "response.function_call_arguments.done"@, call.output_index as int)
    &&& told::says(seen::value_of(a), "item_id"@, call.id)
    &&& told::says(seen::value_of(a), "arguments"@, call.arguments)
    &&& is_item_event(b, "response.output_item.done"@, call.output_index as int)
    &&& is_call(
        told::at(seen::value_of(b), "item"@),
        call.id,
        call.name,
        call.arguments,
        "completed"@,
    )
}

/// Whether an event completes a response, with its output and its counts.
pub open spec fn is_completed(
    e: SseEventView,
    resp_id: Seq<char>,
    created: u64,
    model: Seq<char>,
    input: int,
    output: int,
) -> bool {
    let response = told::at(seen::value_of(e), "response"@);
    let usage = told::at(response, "usage"@);
    &&& e is Data
    &&& told::is_type(seen::value_of(e), "response.completed"@)
    &&& told::says(response, "id"@, resp_id)
    &&& told::says(response, "object"@, "response"@)
    &&& response.field("created_at"@) == Some(JsonView::integer(created as int))
    &&& told::says(response, "status"@, "completed"@)
    &&& told::says(response, "model"@, model)
    &&& response.field("output"@) is Some && response.field("output"@)->0 is Array
    &&& usage.field("input_tokens"@) == Some(JsonView::integer(input))
    &&& usage.field("output_tokens"@) == Some(JsonView::integer(output))
    &&& input + output <= u64::MAX ==> usage.field("total_tokens"@) == Some(
        JsonView::integer(input + output),
    )
}

/// The output of the response that an event completes.
pub open spec fn output_in(e: SseEventView) -> Seq<JsonView> {
    told::list(told::at(seen::value_of(e), "response"@), "output"@)
}

// ── Anthropic to Responses ─────────────────────────────────────────────────

/// The events that an event of an Anthropic stream becomes: the beginning of the
/// response, where it was not sent before; a text or a thinking that is not empty;
/// and at the end of the message, the text as a whole, where it was not sent before,
/// and the completed response.
pub proof fn lemma_anthropic_to_responses_events(state: AnthropicToResponsesView, v: JsonView)
    ensures
        ({
            let p = anthropic_to_responses_stream::ResponsesProgress::from(state).after(v);
            let words = seen::anthropic_words(v);
            let thoughts = seen::anthropic_thoughts(v);
            let stops = told::is_type(v, "message_stop"@);
            let n = 4 * seen::one_if(!state.headers_emitted);
            let c = n + 2 * seen::one_if(!state.msg_closed);
            &&& n == 4 ==> are_opening(
                p.events,
                state.resp_id,
                state.msg_id,
                state.created,
                state.model,
            )
            &&& words.len() > 0 ==> p.events.len() == n + 1 && is_delta(
                p.events[n],
                "response.output_text.delta"@,
                state.msg_id,
                words,
            )
            &&& thoughts.len() > 0 ==> p.events.len() == n + 1 && is_delta(
                p.events[n],
                "response.reasoning_text.delta"@,
                state.msg_id,
                thoughts,
            )
            &&& stops ==> {
                &&& p.events.len() == c + 2
                &&& c == n + 2 ==> are_closing(
                    p.events[n],
                    p.events[n + 1],
                    state.msg_id,
                    state.full_text,
                )
                &&& is_completed(
                    p.events[c],
                    state.resp_id,
                    state.created,
                    state.model,
                    state.total_input as int,
                    state.total_output as int,
                )
                &&& output_in(p.events[c]).len() == 1
                &&& is_said_message(output_in(p.events[c])[0], state.msg_id, state.full_text)
                &&& p.events[c + 1] is Done
            }
            &&& words.len() == 0 && thoughts.len() == 0 && !stops ==> p.events.len() == n
            &&& p.state.completed <==> state.completed || stops
            &&& p.state.total_input == if told::is_type(v, "message_start"@) {
                seen::reported(told::at(v, "message"@), "input_tokens"@, state.total_input as int)
            } else {
                state.total_input as int
            }
            &&& p.state.total_output == if told::is_type(v, "message_delta"@) {
                seen::reported(v, "output_tokens"@, state.total_output as int)
            } else {
                state.total_output as int
            }
        }),
{
    literals::lemma_literals();
}

/// A response that is ended before its message is gets the text as a whole and is
/// completed; one that has ended gets nothing.
pub proof fn lemma_anthropic_to_responses_finish(state: AnthropicToResponsesView)
    ensures
        ({
            let p = anthropic_to_responses_stream::ResponsesProgress::from(state).finish();
            let n = 4 * seen::one_if(!state.headers_emitted);
            let c = n + 2 * seen::one_if(!state.msg_closed);
            &&& state.completed ==> p.events.len() == 0
            &&& !state.completed ==> {
                &&& p.events.len() == c + 2
                &&& n == 4 ==> are_opening(
                    p.events,
                    state.resp_id,
                    state.msg_id,
                    state.created,
                    state.model,
                )
                &&& c == n + 2 ==> are_closing(
                    p.events[n],
                    p.events[n + 1],
                    state.msg_id,
                    state.full_text,
                )
                &&& is_completed(
                    p.events[c],
                    state.resp_id,
                    state.created,
                    state.model,
                    state.total_input as int,
                    state.total_output as int,
                )
                &&& output_in(p.events[c]).len() == 1
                &&& is_said_message(output_in(p.events[c])[0], state.msg_id, state.full_text)
                &&& p.events[c + 1] is Done
            }
            &&& p.state.completed
        }),
{
    literals::lemma_literals();
}

// ── Chat to Responses ──────────────────────────────────────────────────────

/// The tool calls that a chat chunk speaks of.
pub open spec fn pieces_in(v: JsonView) -> Seq<JsonView> {
    told::list(told::at(seen::first(v, "choices"@), "delta"@), "tool_calls"@)
}

/// Whether a chat chunk ends the tool calls.
pub open spec fn ends_calls(v: JsonView) -> bool {
    told::says(seen::first(v, "choices"@), "finish_reason"@, "tool_calls"@)
}

pub proof fn lemma_chunk_parts(state: ChatToResponsesView, v: JsonView)
    ensures
        ({
            let opened = ResponsesProgress::from(state).open();
            let spoken = opened.reason(seen::chat_thoughts(v)).say(seen::chat_words(v));
            let called = spoken.calls(pieces_in(v));
            let ended = if ends_calls(v) {
                called.finish_calls()
            } else {
                called
            };
            ResponsesProgress::from(state).after(v) == ended.meter(v)
        }),
{
    literals::lemma_literals();
    let choice = seen::first(v, "choices"@);
    let delta = told::at(choice, "delta"@);
    assert(seen::chat_words(v) == delta.text_or("content"@, ""@));
    if pieces_in(v).len() == 0 {
        assert(pieces_in(v) =~= Seq::empty());
    }
}

/// The events that a chat chunk without tool calls becomes: the beginning of the
/// response, where it was not sent before; the reasoning and the text, where they
/// are not empty.
pub proof fn lemma_chat_to_responses_events(state: ChatToResponsesView, v: JsonView)
    requires
        pieces_in(v).len() == 0,
        !ends_calls(v),
    ensures
        ({
            let p = ResponsesProgress::from(state).after(v);
            let words = seen::chat_words(v);
            let thoughts = seen::chat_thoughts(v);
            let n = 4 * seen::one_if(!state.headers_emitted);
            let t = n + seen::one_if(thoughts.len() > 0);
            &&& p.events.len() == t + seen::one_if(words.len() > 0)
            &&& n == 4 ==> are_opening(
                p.events,
                state.resp_id,
                state.msg_id,
                state.created,
                state.model,
            )
            &&& thoughts.len() > 0 ==> is_delta(
                p.events[n],
                "response.reasoning_text.delta"@,
                state.msg_id,
                thoughts,
            )
            &&& words.len() > 0 ==> is_delta(
                p.events[t],
                "response.output_text.delta"@,
                state.msg_id,
                words,
            )
            &&& p.state.total_input == seen::reported(
                v,
                "prompt_tokens"@,
                state.total_input as int,
            )
            &&& p.state.total_output == seen::reported(
                v,
                "completion_tokens"@,
                state.total_output as int,
            )
            &&& p.state.active == state.active && p.state.finished == state.finished
            &&& p.state.msg_closed == state.msg_closed && p.state.completed == state.completed
        }),
{
    literals::lemma_literals();
    lemma_chunk_parts(state, v);
    assert(pieces_in(v) =~= Seq::empty());
}

/// A chat chunk that begins a tool call ends the message, where that was not done
/// before, and adds the call to the output, with its identifier and name.
pub proof fn lemma_chat_to_responses_call_begins(state: ChatToResponsesView, v: JsonView)
    requires
        seen::chat_words(v).len() == 0,
        seen::chat_thoughts(v).len() == 0,
        !ends_calls(v),
        pieces_in(v).len() == 1,
        told::count(pieces_in(v)[0], "index"@) <= usize::MAX,
        forall|i: int|
            0 <= i < state.active.len() ==> (#[trigger] state.active[i]).index != told::count(
                pieces_in(v)[0],
                "index"@,
            ),
    ensures
        ({
            let p = ResponsesProgress::from(state).after(v);
            let piece = pieces_in(v)[0];
            let function = told::at(piece, "function"@);
            let id = told::said(piece, "id"@, ""@);
            let name = told::said(function, "name"@, ""@);
            let call = p.state.active.last();
            let n = 4 * seen::one_if(!state.headers_emitted);
            let c = n + 2 * seen::one_if(!state.msg_closed);
            let before = if state.msg_closed {
                state.output_index as int
            } else {
                1int
            };
            &&& p.events.len() == c + 1
            &&& n == 4 ==> are_opening(
                p.events,
                state.resp_id,
                state.msg_id,
                state.created,
                state.model,
            )
            &&& c == n + 2 ==> are_closing(
                p.events[n],
                p.events[n + 1],
                state.msg_id,
                state.full_text,
            )
            &&& is_item_event(
                p.events[c],
                "response.output_item.added"@,
                call.output_index as int,
            )
            &&& is_call(
                told::at(seen::value_of(p.events[c]), "item"@),
                id,
                name,
                ""@,
                "in_progress"@,
            )
            &&& p.state.msg_closed
            &&& p.state.active.len() == state.active.len() + 1
            &&& p.state.active.drop_last() == state.active
            &&& call.id == id && call.name == name
            &&& call.index == told::count(piece, "index"@)
            &&& call.arguments == told::said(function, "arguments"@, ""@)
            &&& before + call.index <= usize::MAX ==> call.output_index == before + call.index
        }),
{
    literals::lemma_literals();
    lemma_chunk_parts(state, v);
    let piece = pieces_in(v)[0];
    let spoken = ResponsesProgress::from(state).open();
    assert(seen::chat_words(v) =~= Seq::empty());
    assert(seen::chat_thoughts(v) =~= Seq::empty());
    lemma_one_piece(spoken, piece);
    assert(pieces_in(v) =~= seq![piece]);
    let index = piece.count_at("index"@) as usize;
    let wanted = |call: ToolCallView| call.index == index;
    lists::lemma_first_where_found(state.active, wanted);
    let found = lists::first_where(state.active, wanted);
    if found < state.active.len() {
        assert(wanted(state.active[found]));
    }
    let p = ResponsesProgress::from(state).after(v);
    assert(p.state.active.drop_last() =~= state.active);
}

proof fn lemma_one_piece(p: ResponsesProgress, piece: JsonView)
    ensures
        p.calls(seq![piece]) == p.call(piece),
        p.calls(Seq::empty()) == p,
{
    let step = |progress: ResponsesProgress, piece: JsonView| progress.call(piece);
    assert(seq![piece].drop_last() =~= Seq::empty());
    assert(seq![piece].drop_last().fold_left(p, step) == p);
}

/// A chat chunk that goes on with a tool call adds what it brings to the arguments
/// of that call and of no other.
pub proof fn lemma_chat_to_responses_call_goes_on(
    state: ChatToResponsesView,
    v: JsonView,
    at: int,
)
    requires
        seen::chat_words(v).len() == 0,
        seen::chat_thoughts(v).len() == 0,
        !ends_calls(v),
        pieces_in(v).len() == 1,
        told::count(pieces_in(v)[0], "index"@) <= usize::MAX,
        0 <= at < state.active.len(),
        state.active[at].index == told::count(pieces_in(v)[0], "index"@),
        forall|i: int|
            0 <= i < at ==> (#[trigger] state.active[i]).index != told::count(
                pieces_in(v)[0],
                "index"@,
            ),
    ensures
        ({
            let p = ResponsesProgress::from(state).after(v);
            let delta = told::said(told::at(pieces_in(v)[0], "function"@), "arguments"@, ""@);
            let known = state.active[at];
            let n = 4 * seen::one_if(!state.headers_emitted);
            &&& p.events.len() == n + 1
            &&& is_item_event(
                p.events[n],
                "response.function_call_arguments.delta"@,
                known.output_index as int,
            )
            &&& told::says(seen::value_of(p.events[n]), "item_id"@, known.id)
            &&& told::says(seen::value_of(p.events[n]), "delta"@, delta)
            &&& p.state.active.len() == state.active.len()
            &&& p.state.active[at] == (ToolCallView {
                arguments: known.arguments + delta,
                ..known
            })
            &&& forall|i: int|
                0 <= i < state.active.len() && i != at ==> p.state.active[i]
                    == #[trigger] state.active[i]
        }),
{
    literals::lemma_literals();
    lemma_chunk_parts(state, v);
    let piece = pieces_in(v)[0];
    let spoken = ResponsesProgress::from(state).open();
    assert(seen::chat_words(v) =~= Seq::empty());
    assert(seen::chat_thoughts(v) =~= Seq::empty());
    lemma_one_piece(spoken, piece);
    assert(pieces_in(v) =~= seq![piece]);
    let index = piece.count_at("index"@) as usize;
    lists::lemma_first_where(state.active, |call: ToolCallView| call.index == index, at);
}

/// A chat chunk that ends the tool calls ends the message, where that was not done
/// before, and every call, with its arguments.
pub proof fn lemma_chat_to_responses_calls_end(state: ChatToResponsesView, v: JsonView)
    requires
        seen::chat_words(v).len() == 0,
        seen::chat_thoughts(v).len() == 0,
        pieces_in(v).len() == 0,
        ends_calls(v),
    ensures
        ({
            let p = ResponsesProgress::from(state).after(v);
            let n = 4 * seen::one_if(!state.headers_emitted);
            let c = n + 2 * seen::one_if(!state.msg_closed);
            &&& p.events.len() == c + 2 * state.active.len()
            &&& c == n + 2 ==> are_closing(
                p.events[n],
                p.events[n + 1],
                state.msg_id,
                state.full_text,
            )
            &&& forall|i: int|
                0 <= i < state.active.len() ==> are_call_done(
                    p.events[c + 2 * i],
                    p.events[c + 2 * i + 1],
                    #[trigger] state.active[i],
                )
            &&& p.state.finished == state.active
            &&& p.state.active.len() == 0
            &&& p.state.msg_closed
        }),
{
    literals::lemma_literals();
    lemma_chunk_parts(state, v);
    assert(seen::chat_words(v) =~= Seq::empty());
    assert(seen::chat_thoughts(v) =~= Seq::empty());
    assert(pieces_in(v) =~= Seq::empty());
    lemma_calls_done(state.active);
    let opened = ResponsesProgress::from(state).open().close_message();
    let done = state.active.flat_map(
        |call: ToolCallView| chat_to_responses_stream::call_done_events(call),
    );
    let p = ResponsesProgress::from(state).after(v);
    assert(p.events == opened.events + done);
    let c = opened.events.len() as int;
    assert forall|i: int| 0 <= i < state.active.len() implies are_call_done(
        p.events[c + 2 * i],
        p.events[c + 2 * i + 1],
        #[trigger] state.active[i],
    ) by {
        assert(p.events[c + 2 * i] == done[2 * i]);
        assert(p.events[c + 2 * i + 1] == done[2 * i + 1]);
    }
}

pub proof fn lemma_calls_done(calls: Seq<ToolCallView>)
    ensures
        ({
            let done = calls.flat_map(
                |call: ToolCallView| chat_to_responses_stream::call_done_events(call),
            );
            &&& done.len() == 2 * calls.len()
            &&& forall|i: int|
                0 <= i < calls.len() ==> are_call_done(
                    done[2 * i],
                    done[2 * i + 1],
                    #[trigger] calls[i],
                )
        }),
    decreases calls.len(),
{
    let f = |call: ToolCallView| chat_to_responses_stream::call_done_events(call);
    let done = calls.flat_map(f);
    if calls.len() == 0 {
        assert(done =~= Seq::empty());
    } else {
        let before = calls.drop_last();
        let last = calls.last();
        lemma_calls_done(before);
        before.lemma_flat_map_push(f, last);
        assert(before.push(last) =~= calls);
        assert(done == before.flat_map(f) + f(last));
        lemma_call_done(last);
        assert forall|i: int| 0 <= i < calls.len() implies are_call_done(
            done[2 * i],
            done[2 * i + 1],
            #[trigger] calls[i],
        ) by {
            if i < before.len() {
                assert(before[i] == calls[i]);
                assert(done[2 * i] == before.flat_map(f)[2 * i]);
                assert(done[2 * i + 1] == before.flat_map(f)[2 * i + 1]);
            } else {
                assert(done[2 * i] == f(last)[0]);
                assert(done[2 * i + 1] == f(last)[1]);
            }
        }
    }
}

proof fn lemma_call_done(call: ToolCallView)
    ensures
        ({
            let done = chat_to_responses_stream::call_done_events(call);
            done.len() == 2 && are_call_done(done[0], done[1], call)
        }),
{
    literals::lemma_literals();
}

/// The tool calls that were begun and not ended.
pub open spec fn left_open(state: ChatToResponsesView) -> Seq<ToolCallView> {
    state.active.filter(
        |call: ToolCallView|
            !(exists|i: int|
                0 <= i < state.finished.len() && (#[trigger] state.finished[i]).id == call.id),
    )
}

/// The end of a chat stream ends the message, where that was not done before, and
/// the calls that are left open, and completes the response: its output is the
/// text, where there is one, and every call, with its arguments.
pub proof fn lemma_chat_to_responses_finish(state: ChatToResponsesView)
    ensures
        ({
            let p = ResponsesProgress::from(state).finish();
            let open = left_open(state);
            let all = state.finished + open;
            let c = 2 * seen::one_if(!state.msg_closed);
            let d = c + 2 * open.len();
            let m = seen::one_if(state.full_text.len() > 0);
            &&& state.completed ==> p.events.len() == 0
            &&& !state.completed ==> {
                &&& p.events.len() == d + 2
                &&& c == 2 ==> are_closing(
                    p.events[0],
                    p.events[1],
                    state.msg_id,
                    state.full_text,
                )
                &&& forall|i: int|
                    0 <= i < open.len() ==> are_call_done(
                        p.events[c + 2 * i],
                        p.events[c + 2 * i + 1],
                        #[trigger] open[i],
                    )
                &&& is_completed(
                    p.events[d as int],
                    state.resp_id,
                    state.created,
                    state.model,
                    state.total_input as int,
                    state.total_output as int,
                )
                &&& output_in(p.events[d as int]).len() == m + all.len()
                &&& m == 1 ==> is_said_message(
                    output_in(p.events[d as int])[0],
                    state.msg_id,
                    state.full_text,
                )
                &&& forall|i: int|
                    0 <= i < all.len() ==> is_call(
                        output_in(p.events[d as int])[m + i],
                        (#[trigger] all[i]).id,
                        all[i].name,
                        all[i].arguments,
                        "completed"@,
                    )
                &&& p.events[d + 1] is Done
            }
            &&& p.state.completed
        }),
{
    literals::lemma_literals();
    let p = ResponsesProgress::from(state).finish();
    let begun = ResponsesProgress::from(ChatToResponsesView { completed: true, ..state });
    let closed = begun.close_message();
    let open = left_open(state);
    lemma_same_filter(
        state.active,
        |call: ToolCallView|
            !(exists|i: int|
                0 <= i < state.finished.len() && (#[trigger] state.finished[i]).id == call.id),
        |call: ToolCallView| !chat_to_responses_stream::has_call(closed.state.finished, call.id),
    );
    assert(chat_to_responses_stream::open_calls(closed.state) == open);
    lemma_calls_done(open);
    let done = open.flat_map(
        |call: ToolCallView| chat_to_responses_stream::call_done_events(call),
    );
    if !state.completed {
        let c = closed.events.len() as int;
        let d = c + done.len();
        assert(p.events.len() == d + 2);
        assert(p.events.take(d) =~= closed.events + done);
        assert forall|i: int| 0 <= i < open.len() implies are_call_done(
            p.events[c + 2 * i],
            p.events[c + 2 * i + 1],
            #[trigger] open[i],
        ) by {
            assert(p.events[c + 2 * i] == done[2 * i]);
            assert(p.events[c + 2 * i + 1] == done[2 * i + 1]);
        }
        let all = state.finished + open;
        let m = seen::one_if(state.full_text.len() > 0);
        let output = chat_to_responses_stream::final_output(closed.state);
        lemma_completed(closed.state, output);
        assert(p.events[d] == SseEventView::Data(
            chat_to_responses_stream::response_event(
                "response.completed"@,
                responses_chat::completed_response(
                    state.resp_id,
                    state.created,
                    state.model,
                    output,
                    chat_to_responses_stream::usage_totals(state.total_input, state.total_output),
                ),
            ),
        ));
        assert forall|i: int| 0 <= i < all.len() implies is_call(
            output[m + i],
            (#[trigger] all[i]).id,
            all[i].name,
            all[i].arguments,
            "completed"@,
        ) by {
            assert(output[m + i] == chat_to_responses_stream::call_item(
                all[i],
                all[i].arguments,
                "completed"@,
            ));
        }
    }
}

proof fn lemma_completed(state: ChatToResponsesView, output: Seq<JsonView>)
    ensures
        ({
            let e = SseEventView::Data(
                chat_to_responses_stream::response_event(
                    "response.completed"@,
                    responses_chat::completed_response(
                        state.resp_id,
                        state.created,
                        state.model,
                        output,
                        chat_to_responses_stream::usage_totals(
                            state.total_input,
                            state.total_output,
                        ),
                    ),
                ),
            );
            &&& is_completed(
                e,
                state.resp_id,
                state.created,
                state.model,
                state.total_input as int,
                state.total_output as int,
            )
            &&& output_in(e) == output
        }),
{
    literals::lemma_literals();
}

proof fn lemma_same_filter<A>(items: Seq<A>, f: spec_fn(A) -> bool, g: spec_fn(A) -> bool)
    requires
        forall|a: A| #[trigger] f(a) == g(a),
    ensures
        items.filter(f) == items.filter(g),
    decreases items.len(),
{
    reveal(Seq::filter);
    if items.len() > 0 {
        lemma_same_filter(items.drop_last(), f, g);
        assert(f(items.last()) == g(items.last()));
    }
}

/// A chat chunk that says something, speaks of tool calls and ends them does so in
/// this order: it is what three chunks would be that each do one of it.
pub proof fn lemma_chat_to_responses_in_order(
    state: ChatToResponsesView,
    whole: JsonView,
    spoken: JsonView,
    called: JsonView,
    ended: JsonView,
)
    requires
        seen::chat_words(spoken) == seen::chat_words(whole),
        seen::chat_thoughts(spoken) == seen::chat_thoughts(whole),
        pieces_in(spoken).len() == 0,
        !ends_calls(spoken),
        spoken.field("usage"@) is None,
        seen::chat_words(called).len() == 0,
        seen::chat_thoughts(called).len() == 0,
        pieces_in(called) == pieces_in(whole),
        !ends_calls(called),
        called.field("usage"@) is None,
        seen::chat_words(ended).len() == 0,
        seen::chat_thoughts(ended).len() == 0,
        pieces_in(ended).len() == 0,
        ends_calls(ended) == ends_calls(whole),
        ended.field("usage"@) == whole.field("usage"@),
    ensures
        ({
            let a = ResponsesProgress::from(state).after(spoken);
            let b = ResponsesProgress::from(a.state).after(called);
            let c = ResponsesProgress::from(b.state).after(ended);
            let p = ResponsesProgress::from(state).after(whole);
            p.state == c.state && p.events == a.events + b.events + c.events
        }),
{
    literals::lemma_literals();
    lemma_chunk_parts(state, whole);
    lemma_chunk_parts(state, spoken);
    let a = ResponsesProgress::from(state).after(spoken);
    lemma_chunk_parts(a.state, called);
    let b = ResponsesProgress::from(a.state).after(called);
    lemma_chunk_parts(b.state, ended);
    let c = ResponsesProgress::from(b.state).after(ended);
    assert(pieces_in(spoken) =~= Seq::empty());
    assert(pieces_in(ended) =~= Seq::empty());
    assert(seen::chat_words(called) =~= Seq::empty());
    assert(seen::chat_thoughts(called) =~= Seq::empty());
    assert(seen::chat_words(ended) =~= Seq::empty());
    assert(seen::chat_thoughts(ended) =~= Seq::empty());
    let pieces = pieces_in(whole);
    let fresh = ResponsesProgress::from(a.state);
    lemma_one_piece(ResponsesProgress::from(a.state), JsonView::Null);
    lemma_one_piece(ResponsesProgress::from(b.state), JsonView::Null);
    lemma_one_piece(a, JsonView::Null);
    assert(stream_laws::shifted(a.events, fresh) == a) by {
        assert(a.events + fresh.events =~= a.events);
    }
    stream_laws::lemma_shift_calls(a.events, fresh, pieces);
    lemma_calls_keep_opened(fresh, pieces);
    let called_after = a.calls(pieces);
    assert(b == fresh.calls(pieces));
    assert(called_after == stream_laws::shifted(a.events, b));
    let last = ResponsesProgress::from(b.state);
    stream_laws::lemma_shift_finish_calls(called_after.events, last);
    assert(stream_laws::shifted(called_after.events, last) == called_after) by {
        assert(called_after.events + last.events =~= called_after.events);
    }
    assert(ResponsesProgress::from(state).after(whole).events =~= a.events + b.events + c.events);
}

proof fn lemma_calls_keep_opened(p: ResponsesProgress, pieces: Seq<JsonView>)
    requires
        p.state.headers_emitted,
    ensures
        p.calls(pieces).state.headers_emitted,
    decreases pieces.len(),
{
    if pieces.len() > 0 {
        lemma_calls_keep_opened(p, pieces.drop_last());
    }
}

/// A chat chunk that speaks of several tool calls is what two chunks would be that
/// speak of the first ones and of the others.
pub proof fn lemma_chat_to_responses_calls_join(
    state: ChatToResponsesView,
    whole: JsonView,
    left: JsonView,
    right: JsonView,
)
    requires
        seen::chat_words(whole).len() == 0 && seen::chat_thoughts(whole).len() == 0,
        seen::chat_words(left).len() == 0 && seen::chat_thoughts(left).len() == 0,
        seen::chat_words(right).len() == 0 && seen::chat_thoughts(right).len() == 0,
        !ends_calls(whole) && !ends_calls(left) && !ends_calls(right),
        whole.field("usage"@) is None && left.field("usage"@) is None && right.field(
            "usage"@,
        ) is None,
        pieces_in(whole) == pieces_in(left) + pieces_in(right),
    ensures
        ({
            let a = ResponsesProgress::from(state).after(left);
            let b = ResponsesProgress::from(a.state).after(right);
            let p = ResponsesProgress::from(state).after(whole);
            p.state == b.state && p.events == a.events + b.events
        }),
{
    literals::lemma_literals();
    lemma_chunk_parts(state, whole);
    lemma_chunk_parts(state, left);
    let a = ResponsesProgress::from(state).after(left);
    lemma_chunk_parts(a.state, right);
    let b = ResponsesProgress::from(a.state).after(right);
    let opened = ResponsesProgress::from(state).open();
    lemma_calls_keep_opened(opened, pieces_in(left));
    lemma_calls_split(opened, pieces_in(left), pieces_in(right));
    let fresh = ResponsesProgress::from(a.state);
    assert(stream_laws::shifted(a.events, fresh) == a) by {
        assert(a.events + fresh.events =~= a.events);
    }
    stream_laws::lemma_shift_calls(a.events, fresh, pieces_in(right));
    assert(ResponsesProgress::from(state).after(whole).events =~= a.events + b.events);
}

proof fn lemma_calls_split(p: ResponsesProgress, a: Seq<JsonView>, b: Seq<JsonView>)
    ensures
        p.calls(a + b) == p.calls(a).calls(b),
    decreases b.len(),
{
    if b.len() == 0 {
        assert(a + b =~= a);
    } else {
        lemma_calls_split(p, a, b.drop_last());
        assert((a + b).drop_last() =~= a + b.drop_last());
    }
}

// ── What a stream keeps in mind ────────────────────────────────────────────

proof fn lemma_grown(s: Seq<char>, words: Seq<char>)
    ensures
        words.len() == 0 ==> s + words == s,
{
    if words.len() == 0 {
        assert(s + words =~= s);
    }
}

/// What an event of an Anthropic stream changes in a converted Responses stream: the
/// text grows by what it adds, the counts become what it reports, and all else
/// stays.
pub proof fn lemma_anthropic_to_responses_state(state: AnthropicToResponsesView, v: JsonView)
    ensures
        ({
            let p = anthropic_to_responses_stream::ResponsesProgress::from(state).after(v);
            let stops = told::is_type(v, "message_stop"@);
            p.state == (AnthropicToResponsesView {
                full_text: state.full_text + seen::anthropic_words(v),
                total_input: p.state.total_input,
                total_output: p.state.total_output,
                headers_emitted: true,
                msg_closed: state.msg_closed || stops,
                completed: state.completed || stops,
                ..state
            })
        }),
{
    literals::lemma_literals();
    lemma_grown(state.full_text, seen::anthropic_words(v));
    lemma_grown(state.full_text, told::said(told::at(v, "delta"@), "text"@, ""@));
}

proof fn lemma_calls_change(p: ResponsesProgress, pieces: Seq<JsonView>)
    ensures
        ({
            let q = p.calls(pieces);
            &&& q.state == (ChatToResponsesView {
                msg_closed: q.state.msg_closed,
                output_index: q.state.output_index,
                active: q.state.active,
                ..p.state
            })
            &&& p.state.msg_closed ==> q.state.msg_closed
            &&& q.state.output_index == if q.state.msg_closed && !p.state.msg_closed {
                1
            } else {
                p.state.output_index
            }
        }),
    decreases pieces.len(),
{
    if pieces.len() > 0 {
        lemma_calls_change(p, pieces.drop_last());
        assert(p.calls(pieces) == p.calls(pieces.drop_last()).call(pieces.last()));
    }
}

/// What a chunk of a chat stream changes in a converted Responses stream, its tool
/// calls apart: the text grows by what it adds, the counts become what it reports,
/// and the message, once it has ended, stays so.
pub proof fn lemma_chat_to_responses_state(state: ChatToResponsesView, v: JsonView)
    ensures
        ({
            let p = ResponsesProgress::from(state).after(v);
            &&& p.state == (ChatToResponsesView {
                full_text: state.full_text + seen::chat_words(v),
                total_input: p.state.total_input,
                total_output: p.state.total_output,
                headers_emitted: true,
                msg_closed: p.state.msg_closed,
                output_index: p.state.output_index,
                active: p.state.active,
                finished: p.state.finished,
                ..state
            })
            &&& p.state.total_input == seen::reported(
                v,
                "prompt_tokens"@,
                state.total_input as int,
            )
            &&& p.state.total_output == seen::reported(
                v,
                "completion_tokens"@,
                state.total_output as int,
            )
            &&& state.msg_closed || ends_calls(v) ==> p.state.msg_closed
            &&& !ends_calls(v) ==> p.state.finished == state.finished
            &&& p.state.output_index == if p.state.msg_closed && !state.msg_closed {
                1
            } else {
                state.output_index
            }
        }),
{
    literals::lemma_literals();
    lemma_chunk_parts(state, v);
    lemma_grown(state.full_text, seen::chat_words(v));
    let opened = ResponsesProgress::from(state).open();
    let spoken = opened.reason(seen::chat_thoughts(v)).say(seen::chat_words(v));
    lemma_calls_change(spoken, pieces_in(v));
}

/// The end of a stream changes nothing but that it has ended, and its message with
/// it.
pub proof fn lemma_finish_states(state: ChatToResponsesView, other: AnthropicToResponsesView)
    requires
        !state.completed,
        !other.completed,
    ensures
        ({
            let p = ResponsesProgress::from(state).finish();
            p.state == (ChatToResponsesView {
                completed: true,
                msg_closed: true,
                output_index: p.state.output_index,
                ..state
            })
        }),
        anthropic_to_responses_stream::ResponsesProgress::from(other).finish().state == (
        AnthropicToResponsesView {
            completed: true,
            msg_closed: true,
            headers_emitted: true,
            ..other
        }),
{
}

} // verus!
