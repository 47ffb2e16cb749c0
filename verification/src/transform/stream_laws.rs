//! What holds of whole streams in the Responses API, from the first chunk of the
//! upstream to the last.

use crate::json::JsonView;
use crate::transform::anthropic_to_responses_stream;
use crate::transform::anthropic_to_responses_stream::AnthropicToResponsesView;
use crate::transform::chat_to_responses_stream;
use crate::transform::chat_to_responses_stream::{
    ChatToResponsesView, ResponsesProgress, ToolCallView,
};
use crate::transform::common;
use crate::transform::common::SseEventView;
use crate::transform::laws;
use crate::transform::responses_chat;
use vstd::prelude::*;

verus! {

// ── Events ─────────────────────────────────────────────────────────────────

/// The kind of an event.
pub open spec fn event_kind(e: SseEventView) -> Option<Seq<char>> {
    match e {
        SseEventView::Data(v) => v.text_at("type"@),
        SseEventView::Done => None,
    }
}

/// The kind of the item that an event is about.
pub open spec fn item_kind(e: SseEventView) -> Option<Seq<char>> {
    match e {
        SseEventView::Data(v) => v.field_or("item"@, JsonView::Null).text_at("type"@),
        SseEventView::Done => None,
    }
}

pub open spec fn is_created(e: SseEventView) -> bool {
    event_kind(e) == Some("response.created"@)
}

pub open spec fn is_completed(e: SseEventView) -> bool {
    event_kind(e) == Some("response.completed"@)
}

/// The event that closes the message.
pub open spec fn is_message_done(e: SseEventView) -> bool {
    event_kind(e) == Some("response.output_item.done"@) && item_kind(e) == Some("message"@)
}

/// The event that adds a tool call.
pub open spec fn is_call_added(e: SseEventView) -> bool {
    event_kind(e) == Some("response.output_item.added"@) && item_kind(e) == Some(
        "function_call"@,
    )
}

/// The text that an event adds to the message.
pub open spec fn delta_of(e: SseEventView) -> Option<Seq<char>> {
    match e {
        SseEventView::Data(v) => if v.text_at("type"@) == Some("response.output_text.delta"@) {
            v.text_at("delta"@)
        } else {
            None
        },
        SseEventView::Done => None,
    }
}

/// The texts that events add to the message, in their order.
pub open spec fn deltas(events: Seq<SseEventView>) -> Seq<Seq<char>> {
    events.filter_map(|e: SseEventView| delta_of(e))
}

/// An event that says nothing of the beginning, the text, the close of the message
/// or a new tool call.
spec fn is_plain(e: SseEventView) -> bool {
    !is_created(e) && delta_of(e) is None && !is_message_done(e) && !is_call_added(e)
}

proof fn lemma_kinds()
    ensures
        "response.created"@ != "response.in_progress"@,
        "response.created"@ != "response.output_item.added"@,
        "response.created"@ != "response.content_part.added"@,
        "response.created"@ != "response.reasoning_text.delta"@,
        "response.created"@ != "response.output_text.delta"@,
        "response.created"@ != "response.content_part.done"@,
        "response.created"@ != "response.output_item.done"@,
        "response.created"@ != "response.function_call_arguments.delta"@,
        "response.created"@ != "response.function_call_arguments.done"@,
        "response.created"@ != "response.completed"@,
        "response.output_text.delta"@ != "response.in_progress"@,
        "response.output_text.delta"@ != "response.output_item.added"@,
        "response.output_text.delta"@ != "response.content_part.added"@,
        "response.output_text.delta"@ != "response.reasoning_text.delta"@,
        "response.output_text.delta"@ != "response.content_part.done"@,
        "response.output_text.delta"@ != "response.output_item.done"@,
        "response.output_text.delta"@ != "response.function_call_arguments.delta"@,
        "response.output_text.delta"@ != "response.function_call_arguments.done"@,
        "response.output_text.delta"@ != "response.completed"@,
        "response.output_item.added"@ != "response.output_item.done"@,
        "response.output_item.added"@ != "response.in_progress"@,
        "response.output_item.added"@ != "response.content_part.added"@,
        "response.output_item.added"@ != "response.reasoning_text.delta"@,
        "response.output_item.added"@ != "response.content_part.done"@,
        "response.output_item.added"@ != "response.function_call_arguments.delta"@,
        "response.output_item.added"@ != "response.function_call_arguments.done"@,
        "response.output_item.added"@ != "response.completed"@,
        "response.output_item.done"@ != "response.in_progress"@,
        "response.output_item.done"@ != "response.content_part.added"@,
        "response.output_item.done"@ != "response.reasoning_text.delta"@,
        "response.output_item.done"@ != "response.content_part.done"@,
        "response.output_item.done"@ != "response.function_call_arguments.delta"@,
        "response.output_item.done"@ != "response.function_call_arguments.done"@,
        "response.output_item.done"@ != "response.completed"@,
        "response.completed"@ != "response.in_progress"@,
        "response.completed"@ != "response.content_part.added"@,
        "response.completed"@ != "response.reasoning_text.delta"@,
        "response.completed"@ != "response.content_part.done"@,
        "message"@ != "function_call"@,
{
    reveal_strlit("response.created");
    reveal_strlit("response.in_progress");
    reveal_strlit("response.output_item.added");
    reveal_strlit("response.content_part.added");
    reveal_strlit("response.reasoning_text.delta");
    reveal_strlit("response.output_text.delta");
    reveal_strlit("response.content_part.done");
    reveal_strlit("response.output_item.done");
    reveal_strlit("response.function_call_arguments.delta");
    reveal_strlit("response.function_call_arguments.done");
    reveal_strlit("response.completed");
    reveal_strlit("message");
    reveal_strlit("function_call");
    assert("response.created"@.len() == 16);
    assert("response.in_progress"@.len() == 20);
    assert("response.output_item.added"@.len() == 26);
    assert("response.content_part.added"@.len() == 27);
    assert("response.reasoning_text.delta"@.len() == 29);
    assert("response.output_text.delta"@.len() == 26);
    assert("response.content_part.done"@.len() == 26);
    assert("response.output_item.done"@.len() == 25);
    assert("response.function_call_arguments.delta"@.len() == 38);
    assert("response.function_call_arguments.done"@.len() == 37);
    assert("response.completed"@.len() == 18);
    assert("response.output_item.added"@[16] == 'i');
    assert("response.output_text.delta"@[16] == 't');
    assert("response.output_text.delta"@[9] == 'o');
    assert("response.output_item.added"@[9] == 'o');
    assert("response.content_part.done"@[9] == 'c');
    assert("message"@.len() == 7 && "function_call"@.len() == 13);
}

proof fn lemma_keys()
    ensures
        "type"@ != "response"@,
        "type"@ != "output_index"@,
        "type"@ != "content_index"@,
        "type"@ != "item"@,
        "type"@ != "part"@,
        "type"@ != "item_id"@,
        "type"@ != "delta"@,
        "type"@ != "arguments"@,
        "type"@ != "role"@,
        "type"@ != "status"@,
        "type"@ != "content"@,
        "type"@ != "call_id"@,
        "type"@ != "name"@,
{
    reveal_strlit("type");
    reveal_strlit("response");
    reveal_strlit("output_index");
    reveal_strlit("content_index");
    reveal_strlit("item");
    reveal_strlit("part");
    reveal_strlit("item_id");
    reveal_strlit("delta");
    reveal_strlit("arguments");
    reveal_strlit("role");
    reveal_strlit("status");
    reveal_strlit("content");
    reveal_strlit("call_id");
    reveal_strlit("name");
    assert("type"@.len() == 4 && "type"@[0] == 't');
    assert("item"@[0] == 'i' && "part"@[0] == 'p' && "role"@[0] == 'r' && "name"@[0] == 'n');
    assert("response"@.len() == 8 && "output_index"@.len() == 12 && "delta"@.len() == 5);
    assert("content_index"@.len() == 13 && "item_id"@.len() == 7 && "arguments"@.len() == 9);
    assert("status"@.len() == 6 && "content"@.len() == 7 && "call_id"@.len() == 7);
}

proof fn lemma_response_event(kind: Seq<char>, response: JsonView)
    ensures
        event_kind(
            SseEventView::Data(chat_to_responses_stream::response_event(kind, response)),
        ) == Some(kind),
{
    lemma_keys();
}

proof fn lemma_item_event(kind: Seq<char>, output_index: usize, item: JsonView)
    ensures
        ({
            let e = SseEventView::Data(
                chat_to_responses_stream::item_event(kind, output_index, item),
            );
            event_kind(e) == Some(kind) && item_kind(e) == item.text_at("type"@)
        }),
{
    lemma_keys();
}

proof fn lemma_part_event(kind: Seq<char>, s: Seq<char>)
    ensures
        event_kind(SseEventView::Data(chat_to_responses_stream::part_event(kind, s))) == Some(kind),
{
    lemma_keys();
}

proof fn lemma_delta_event(kind: Seq<char>, msg_id: Seq<char>, delta: Seq<char>)
    ensures
        ({
            let v = chat_to_responses_stream::delta_event(kind, msg_id, delta);
            v.text_at("type"@) == Some(kind) && v.text_at("delta"@) == Some(delta)
        }),
{
    lemma_keys();
}

proof fn lemma_items(call: ToolCallView, arguments: Seq<char>, status: Seq<char>)
    ensures
        chat_to_responses_stream::call_item(call, arguments, status).text_at("type"@) == Some(
            "function_call"@,
        ),
        forall|id: Seq<char>, content: Seq<JsonView>|
            (#[trigger] responses_chat::output_message(id, status, content)).text_at("type"@)
                == Some("message"@),
{
    lemma_keys();
    assert forall|id: Seq<char>, content: Seq<JsonView>| (
    #[trigger] responses_chat::output_message(id, status, content)).text_at("type"@) == Some(
        "message"@,
    ) by {}
}

proof fn lemma_arguments_events(call: ToolCallView, delta: Seq<char>)
    ensures
        is_plain(
            SseEventView::Data(chat_to_responses_stream::arguments_delta_event(call, delta)),
        ),
        is_plain(chat_to_responses_stream::call_done_events(call)[0]),
        is_plain(chat_to_responses_stream::call_done_events(call)[1]),
{
    lemma_keys();
    lemma_kinds();
    lemma_items(call, call.arguments, "completed"@);
    lemma_item_event(
        "response.output_item.done"@,
        call.output_index,
        chat_to_responses_stream::call_item(call, call.arguments, "completed"@),
    );
}

proof fn lemma_filter_map_push<A, B>(items: Seq<A>, item: A, pick: spec_fn(A) -> Option<B>)
    ensures
        items.push(item).filter_map(pick) == match pick(item) {
            Some(b) => items.filter_map(pick).push(b),
            None => items.filter_map(pick),
        },
{
    let more = items.push(item);
    more.lemma_filter_map_take_succ(pick, items.len() as int);
    assert(more.take(items.len() as int) =~= items);
    assert(more.take(items.len() as int + 1) =~= more);
    match pick(item) {
        Some(b) => {
            assert(items.filter_map(pick) + seq![b] =~= items.filter_map(pick).push(b));
        },
        None => {
            assert(items.filter_map(pick) + Seq::<B>::empty() =~= items.filter_map(pick));
        },
    }
}

/// Events of a response, in an order that makes sense: the response is created
/// first and once, the message is closed once at most, and tool calls are added
/// after that.
pub open spec fn well_ordered(events: Seq<SseEventView>) -> bool {
    &&& events.len() > 0 ==> is_created(events[0])
    &&& forall|i: int| 0 < i < events.len() ==> !is_created(#[trigger] events[i])
    &&& forall|i: int, j: int|
        0 <= i < j < events.len() ==> !(is_message_done(#[trigger] events[i]) && is_message_done(
            #[trigger] events[j],
        ))
    &&& forall|j: int|
        0 <= j < events.len() && is_call_added(#[trigger] events[j]) ==> closed_before(events, j)
}

/// Whether the message is closed before an index.
pub open spec fn closed_before(events: Seq<SseEventView>, j: int) -> bool {
    exists|i: int| 0 <= i < j && is_message_done(#[trigger] events[i])
}

/// Events in order, the texts that they add, and whether the message is closed.
spec fn shows(events: Seq<SseEventView>, texts: Seq<Seq<char>>, closed: bool) -> bool {
    &&& well_ordered(events)
    &&& deltas(events) == texts
    &&& closed_before(events, events.len() as int) == closed
}

proof fn lemma_push(events: Seq<SseEventView>, texts: Seq<Seq<char>>, closed: bool, e: SseEventView)
    requires
        shows(events, texts, closed),
        events.len() > 0,
        !is_created(e),
        is_message_done(e) ==> !closed,
        is_call_added(e) ==> closed,
    ensures
        shows(
            events.push(e),
            match delta_of(e) {
                Some(s) => texts.push(s),
                None => texts,
            },
            closed || is_message_done(e),
        ),
{
    let more = events.push(e);
    let n = events.len() as int;
    lemma_filter_map_push(events, e, |e: SseEventView| delta_of(e));
    assert(more[n] == e);
    assert(more[0] == events[0]);
    assert forall|i: int| 0 < i < more.len() implies !is_created(#[trigger] more[i]) by {
        if i < n {
            assert(more[i] == events[i]);
        }
    }
    assert forall|i: int, j: int| 0 <= i < j < more.len() implies !(is_message_done(
        #[trigger] more[i],
    ) && is_message_done(#[trigger] more[j])) by {
        assert(more[i] == events[i]);
        if j < n {
            assert(more[j] == events[j]);
        } else if is_message_done(e) && is_message_done(events[i]) {
            assert(closed_before(events, n));
        }
    }
    assert forall|j: int| 0 <= j < more.len() && is_call_added(#[trigger] more[j]) implies
        closed_before(more, j) by {
        if j < n {
            assert(more[j] == events[j]);
            assert(closed_before(events, j));
            let i = choose|i: int| 0 <= i < j && is_message_done(#[trigger] events[i]);
            assert(more[i] == events[i]);
        } else {
            let i = choose|i: int| 0 <= i < n && is_message_done(#[trigger] events[i]);
            assert(more[i] == events[i]);
        }
    }
    if closed {
        let i = choose|i: int| 0 <= i < n && is_message_done(#[trigger] events[i]);
        assert(more[i] == events[i]);
    }
    if closed_before(more, n + 1) && !is_message_done(e) {
        let i = choose|i: int| 0 <= i < n + 1 && is_message_done(#[trigger] more[i]);
        assert(events[i] == more[i]);
    }
}

/// The events that begin a response, in their order.
proof fn lemma_opening(
    resp_id: Seq<char>,
    msg_id: Seq<char>,
    created: u64,
    model: Seq<char>,
)
    ensures
        shows(
            Seq::<SseEventView>::empty() + chat_to_responses_stream::opening_events(
                resp_id,
                msg_id,
                created,
                model,
            ),
            Seq::empty(),
            false,
        ),
        forall|i: int|
            0 <= i < 4 ==> !is_completed(
                #[trigger] chat_to_responses_stream::opening_events(
                    resp_id,
                    msg_id,
                    created,
                    model,
                )[i],
            ),
{
    lemma_kinds();
    let all = chat_to_responses_stream::opening_events(resp_id, msg_id, created, model);
    let response = chat_to_responses_stream::begun_response(resp_id, created, model);
    let message = responses_chat::output_message(msg_id, "in_progress"@, Seq::empty());
    lemma_response_event("response.created"@, response);
    lemma_response_event("response.in_progress"@, response);
    lemma_item_event("response.output_item.added"@, 0, message);
    lemma_part_event("response.content_part.added"@, ""@);
    lemma_items(
        ToolCallView {
            id: Seq::empty(),
            index: 0,
            name: Seq::empty(),
            arguments: Seq::empty(),
            output_index: 0,
        },
        Seq::empty(),
        "in_progress"@,
    );
    let none = Seq::<SseEventView>::empty();
    let first = none.push(all[0]);
    lemma_filter_map_push(none, all[0], |e: SseEventView| delta_of(e));
    assert(deltas(none) =~= Seq::empty());
    assert(first[0] == all[0]);
    assert(!is_message_done(all[0]));
    assert(!closed_before(first, 1));
    assert(shows(first, Seq::empty(), false));
    lemma_push(first, Seq::empty(), false, all[1]);
    lemma_push(first.push(all[1]), Seq::empty(), false, all[2]);
    lemma_push(first.push(all[1]).push(all[2]), Seq::empty(), false, all[3]);
    assert(none + all =~= first.push(all[1]).push(all[2]).push(all[3]));
}

/// The events that close the message, after others.
proof fn lemma_closing(
    events: Seq<SseEventView>,
    texts: Seq<Seq<char>>,
    msg_id: Seq<char>,
    full_text: Seq<char>,
)
    requires
        shows(events, texts, false),
        events.len() > 0,
    ensures
        shows(
            events + chat_to_responses_stream::closing_events(msg_id, full_text),
            texts,
            true,
        ),
        forall|i: int|
            0 <= i < 2 ==> !is_completed(
                #[trigger] chat_to_responses_stream::closing_events(msg_id, full_text)[i],
            ),
{
    lemma_kinds();
    let all = chat_to_responses_stream::closing_events(msg_id, full_text);
    lemma_part_event("response.content_part.done"@, full_text);
    lemma_item_event(
        "response.output_item.done"@,
        0,
        chat_to_responses_stream::closed_message(msg_id, full_text),
    );
    lemma_items(
        ToolCallView {
            id: Seq::empty(),
            index: 0,
            name: Seq::empty(),
            arguments: Seq::empty(),
            output_index: 0,
        },
        Seq::empty(),
        "completed"@,
    );
    lemma_push(events, texts, false, all[0]);
    lemma_push(events.push(all[0]), texts, false, all[1]);
    assert(events + all =~= events.push(all[0]).push(all[1]));
}

// ── Chat Completions to Responses ──────────────────────────────────────────

/// A stream so far: its state, and all that was sent.
spec fn chat_shows(p: ResponsesProgress, texts: Seq<Seq<char>>) -> bool {
    &&& shows(p.events, texts, p.state.msg_closed)
    &&& p.state.headers_emitted <==> p.events.len() > 0
}

proof fn lemma_chat_open(p: ResponsesProgress, texts: Seq<Seq<char>>)
    requires
        chat_shows(p, texts),
    ensures
        chat_shows(p.open(), texts),
        p.open().state.headers_emitted,
{
    if !p.state.headers_emitted {
        lemma_opening(p.state.resp_id, p.state.msg_id, p.state.created, p.state.model);
        assert(p.events =~= Seq::empty());
        assert(deltas(p.events) =~= Seq::empty());
        assert(texts =~= Seq::empty());
    }
}

proof fn lemma_chat_close(p: ResponsesProgress, texts: Seq<Seq<char>>)
    requires
        chat_shows(p, texts),
        p.state.headers_emitted,
    ensures
        chat_shows(p.close_message(), texts),
        p.close_message().state.headers_emitted,
        p.close_message().state.msg_closed,
{
    if !p.state.msg_closed {
        lemma_closing(p.events, texts, p.state.msg_id, p.state.full_text);
    }
}

proof fn lemma_chat_call(p: ResponsesProgress, texts: Seq<Seq<char>>, piece: JsonView)
    requires
        chat_shows(p, texts),
        p.state.headers_emitted,
    ensures
        chat_shows(p.call(piece), texts),
        p.call(piece).state.headers_emitted,
{
    let after = p.call(piece);
    let e = after.events.last();
    let index = piece.count_at("index"@) as usize;
    let at = crate::lists::first_where(
        p.state.active,
        |call: ToolCallView| call.index == index,
    );
    let function = piece.field_or("function"@, JsonView::Object(Map::empty()));
    let delta = function.text_or("arguments"@, ""@);
    if at < p.state.active.len() {
        let known = p.state.active[at];
        let call = ToolCallView { arguments: known.arguments + delta, ..known };
        lemma_arguments_events(call, delta);
        lemma_push(p.events, texts, p.state.msg_closed, e);
        assert(after.events =~= p.events.push(e));
    } else {
        let closed = p.close_message();
        let call = ToolCallView {
            id: piece.text_or("id"@, ""@),
            index,
            name: function.text_or("name"@, ""@),
            arguments: delta,
            output_index: closed.state.output_index.wrapping_add(index),
        };
        lemma_chat_close(p, texts);
        lemma_kinds();
        lemma_items(call, ""@, "in_progress"@);
        lemma_item_event(
            "response.output_item.added"@,
            call.output_index,
            chat_to_responses_stream::call_item(call, ""@, "in_progress"@),
        );
        lemma_push(closed.events, texts, true, e);
        assert(after.events =~= closed.events.push(e));
    }
}

proof fn lemma_chat_calls(p: ResponsesProgress, texts: Seq<Seq<char>>, pieces: Seq<JsonView>)
    requires
        chat_shows(p, texts),
        p.state.headers_emitted,
    ensures
        chat_shows(p.calls(pieces), texts),
        p.calls(pieces).state.headers_emitted,
    decreases pieces.len(),
{
    if pieces.len() > 0 {
        lemma_chat_calls(p, texts, pieces.drop_last());
        lemma_chat_call(p.calls(pieces.drop_last()), texts, pieces.last());
    }
}

proof fn lemma_calls_done(
    events: Seq<SseEventView>,
    texts: Seq<Seq<char>>,
    closed: bool,
    calls: Seq<ToolCallView>,
)
    requires
        shows(events, texts, closed),
        events.len() > 0,
    ensures
        shows(
            events + calls.flat_map(
                |call: ToolCallView| chat_to_responses_stream::call_done_events(call),
            ),
            texts,
            closed,
        ),
    decreases calls.len(),
{
    let expand = |call: ToolCallView| chat_to_responses_stream::call_done_events(call);
    if calls.len() == 0 {
        assert(events + calls.flat_map(expand) =~= events);
    } else {
        let before = calls.drop_last();
        let call = calls.last();
        let done = events + before.flat_map(expand);
        let added = expand(call);
        lemma_calls_done(events, texts, closed, before);
        lemma_arguments_events(call, Seq::empty());
        assert(before.push(call) =~= calls);
        before.lemma_flat_map_push(expand, call);
        lemma_push(done, texts, closed, added[0]);
        lemma_push(done.push(added[0]), texts, closed, added[1]);
        assert(events + calls.flat_map(expand) =~= done.push(added[0]).push(added[1]));
    }
}

/// The text of a chunk, where it has any.
pub open spec fn chunk_delta(chunk: JsonView) -> Option<Seq<char>> {
    if laws::chunk_text(chunk).len() > 0 {
        Some(laws::chunk_text(chunk))
    } else {
        None
    }
}

spec fn with_delta(texts: Seq<Seq<char>>, delta: Option<Seq<char>>) -> Seq<Seq<char>> {
    match delta {
        Some(s) => texts.push(s),
        None => texts,
    }
}

proof fn lemma_chat_speech(
    p: ResponsesProgress,
    texts: Seq<Seq<char>>,
    reasoning: Seq<char>,
    said: Seq<char>,
)
    requires
        chat_shows(p, texts),
        p.state.headers_emitted,
    ensures
        ({
            let spoken = p.reason(reasoning).say(said);
            &&& chat_shows(
                spoken,
                if said.len() > 0 {
                    texts.push(said)
                } else {
                    texts
                },
            )
            &&& spoken.state.headers_emitted
        }),
{
    lemma_kinds();
    let thought = p.reason(reasoning);
    if reasoning.len() > 0 {
        lemma_delta_event("response.reasoning_text.delta"@, p.state.msg_id, reasoning);
        let e = thought.events.last();
        lemma_push(p.events, texts, p.state.msg_closed, e);
        assert(thought.events =~= p.events.push(e));
    }
    if said.len() > 0 {
        let spoken = thought.say(said);
        lemma_delta_event("response.output_text.delta"@, p.state.msg_id, said);
        let e = spoken.events.last();
        assert(delta_of(e) == Some(said));
        lemma_push(thought.events, texts, thought.state.msg_closed, e);
        assert(spoken.events =~= thought.events.push(e));
    }
}

proof fn lemma_chat_after(p: ResponsesProgress, texts: Seq<Seq<char>>, chunk: JsonView)
    requires
        chat_shows(p, texts),
    ensures
        chat_shows(p.after(chunk), with_delta(texts, chunk_delta(chunk))),
        p.after(chunk).state.headers_emitted,
{
    let opened = p.open();
    lemma_chat_open(p, texts);
    match chunk.array_at("choices"@) {
        Some(choices) => {
            if choices.len() > 0 {
                let choice = choices[0];
                let delta = choice.field_or("delta"@, JsonView::Object(Map::empty()));
                let said = delta.text_or("content"@, ""@);
                let reasoning = delta.text_or("reasoning_content"@, ""@);
                let spoken = opened.reason(reasoning).say(said);
                let heard = with_delta(texts, chunk_delta(chunk));
                lemma_chat_speech(opened, texts, reasoning, said);
                let called = match delta.array_at("tool_calls"@) {
                    Some(pieces) => spoken.calls(pieces),
                    None => spoken,
                };
                match delta.array_at("tool_calls"@) {
                    Some(pieces) => {
                        lemma_chat_calls(spoken, heard, pieces);
                    },
                    None => {},
                }
                if choice.text_at("finish_reason"@) == Some("tool_calls"@) {
                    let closed = called.close_message();
                    lemma_chat_close(called, heard);
                    lemma_calls_done(closed.events, heard, true, closed.state.active);
                }
            }
        },
        None => {},
    }
}

/// What went before does not change what a chunk adds.
pub open spec fn shifted(before: Seq<SseEventView>, p: ResponsesProgress) -> ResponsesProgress {
    ResponsesProgress { state: p.state, events: before + p.events }
}

pub proof fn lemma_shift_close(before: Seq<SseEventView>, p: ResponsesProgress)
    ensures
        shifted(before, p).close_message() == shifted(before, p.close_message()),
        shifted(before, p).open() == shifted(before, p.open()),
{
    assert(shifted(before, p).close_message().events =~= shifted(
        before,
        p.close_message(),
    ).events);
    assert(shifted(before, p).open().events =~= shifted(before, p.open()).events);
}

pub proof fn lemma_shift_speech(
    before: Seq<SseEventView>,
    p: ResponsesProgress,
    reasoning: Seq<char>,
    said: Seq<char>,
)
    ensures
        shifted(before, p).reason(reasoning).say(said) == shifted(
            before,
            p.reason(reasoning).say(said),
        ),
{
    assert(shifted(before, p).reason(reasoning).events =~= shifted(
        before,
        p.reason(reasoning),
    ).events);
    assert(shifted(before, p).reason(reasoning) == shifted(before, p.reason(reasoning)));
    assert(shifted(before, p.reason(reasoning)).say(said).events =~= shifted(
        before,
        p.reason(reasoning).say(said),
    ).events);
}

pub proof fn lemma_shift_calls(
    before: Seq<SseEventView>,
    p: ResponsesProgress,
    pieces: Seq<JsonView>,
)
    ensures
        shifted(before, p).calls(pieces) == shifted(before, p.calls(pieces)),
    decreases pieces.len(),
{
    if pieces.len() > 0 {
        lemma_shift_calls(before, p, pieces.drop_last());
        let q = p.calls(pieces.drop_last());
        let piece = pieces.last();
        lemma_shift_close(before, q);
        assert(shifted(before, q).call(piece).events =~= shifted(before, q.call(piece)).events);
        assert(shifted(before, q).call(piece) == shifted(before, q.call(piece)));
        assert(p.calls(pieces) == q.call(piece));
        assert(shifted(before, p).calls(pieces) == shifted(before, p).calls(
            pieces.drop_last(),
        ).call(piece));
    }
}

pub proof fn lemma_shift_finish_calls(before: Seq<SseEventView>, p: ResponsesProgress)
    ensures
        shifted(before, p).finish_calls() == shifted(before, p.finish_calls()),
{
    lemma_shift_close(before, p);
    assert(shifted(before, p).finish_calls().events =~= shifted(
        before,
        p.finish_calls(),
    ).events);
}

proof fn lemma_shift_after(before: Seq<SseEventView>, p: ResponsesProgress, chunk: JsonView)
    ensures
        shifted(before, p).after(chunk) == shifted(before, p.after(chunk)),
{
    lemma_shift_close(before, p);
    let opened = p.open();
    match chunk.array_at("choices"@) {
        Some(choices) => {
            if choices.len() > 0 {
                let delta = choices[0].field_or("delta"@, JsonView::Object(Map::empty()));
                let reasoning = delta.text_or("reasoning_content"@, ""@);
                let said = delta.text_or("content"@, ""@);
                let spoken = opened.reason(reasoning).say(said);
                lemma_shift_speech(before, opened, reasoning, said);
                let called = match delta.array_at("tool_calls"@) {
                    Some(pieces) => spoken.calls(pieces),
                    None => spoken,
                };
                match delta.array_at("tool_calls"@) {
                    Some(pieces) => {
                        lemma_shift_calls(before, spoken, pieces);
                    },
                    None => {},
                }
                lemma_shift_finish_calls(before, called);
            }
        },
        None => {},
    }
}

/// The state of a converted chat stream after some chunks, and all that was sent
/// for them, one output after the other.
pub open spec fn chat_run(state: ChatToResponsesView, chunks: Seq<JsonView>) -> ResponsesProgress
    decreases chunks.len(),
{
    if chunks.len() == 0 {
        ResponsesProgress::from(state)
    } else {
        let before = chat_run(state, chunks.drop_last());
        let step = ResponsesProgress::from(before.state).after(chunks.last());
        ResponsesProgress { state: step.state, events: before.events + step.events }
    }
}

proof fn lemma_chat_run_step(state: ChatToResponsesView, chunks: Seq<JsonView>)
    requires
        chunks.len() > 0,
    ensures
        chat_run(state, chunks) == chat_run(state, chunks.drop_last()).after(chunks.last()),
{
    let before = chat_run(state, chunks.drop_last());
    lemma_shift_after(before.events, ResponsesProgress::from(before.state), chunks.last());
    assert(before.events + Seq::<SseEventView>::empty() =~= before.events);
    assert(shifted(before.events, ResponsesProgress::from(before.state)) == before);
}

proof fn lemma_chat_run(
    msg_id: Seq<char>,
    resp_id: Seq<char>,
    model: Seq<char>,
    created: u64,
    chunks: Seq<JsonView>,
)
    ensures
        ({
            let state = ChatToResponsesView::initial(msg_id, resp_id, model, created);
            let p = chat_run(state, chunks);
            &&& chat_shows(p, chunks.filter_map(|chunk: JsonView| chunk_delta(chunk)))
            &&& p.state.headers_emitted <==> chunks.len() > 0
            &&& p.state.full_text == chunks.flat_map(|chunk: JsonView| laws::chunk_text(chunk))
        }),
    decreases chunks.len(),
{
    let state = ChatToResponsesView::initial(msg_id, resp_id, model, created);
    let pick = |chunk: JsonView| chunk_delta(chunk);
    let words = |chunk: JsonView| laws::chunk_text(chunk);
    if chunks.len() == 0 {
        let p = chat_run(state, chunks);
        assert(deltas(p.events) =~= Seq::empty());
        assert(chunks.filter_map(pick) =~= Seq::empty());
        assert(chunks.flat_map(words) =~= Seq::empty());
    } else {
        let earlier = chunks.drop_last();
        let chunk = chunks.last();
        let before = chat_run(state, earlier);
        lemma_chat_run(msg_id, resp_id, model, created, earlier);
        lemma_chat_run_step(state, chunks);
        lemma_chat_after(before, earlier.filter_map(pick), chunk);
        laws::lemma_chunk_grows_text(before.state, chunk);
        assert(earlier.push(chunk) =~= chunks);
        lemma_filter_map_push(earlier, chunk, pick);
        earlier.lemma_flat_map_push(words, chunk);
        assert(chunks.flat_map(words) =~= earlier.flat_map(words) + words(chunk));
    }
}

/// Over all chunks of a chat stream that is converted from its beginning: the
/// response is created with the first event, and only then; the text events carry
/// exactly the non-empty texts of the chunks, in their order, and the text of the
/// message is all of them; the message is closed once at most, and before any tool
/// call is added.
pub proof fn lemma_chat_stream(
    msg_id: Seq<char>,
    resp_id: Seq<char>,
    model: Seq<char>,
    created: u64,
    chunks: Seq<JsonView>,
)
    requires
        chunks.len() > 0,
    ensures
        ({
            let p = chat_run(
                ChatToResponsesView::initial(msg_id, resp_id, model, created),
                chunks,
            );
            &&& p.events.len() > 0
            &&& is_created(p.events[0])
            &&& well_ordered(p.events)
            &&& deltas(p.events) == chunks.filter_map(|chunk: JsonView| chunk_delta(chunk))
            &&& p.state.full_text == chunks.flat_map(|chunk: JsonView| laws::chunk_text(chunk))
        }),
{
    lemma_chat_run(msg_id, resp_id, model, created, chunks);
}

// ── Anthropic Messages to Responses ────────────────────────────────────────

/// The state of a converted Anthropic stream after some lines, and all that was
/// sent for them, one output after the other.
pub open spec fn anthropic_run(
    state: AnthropicToResponsesView,
    lines: Seq<Seq<char>>,
) -> anthropic_to_responses_stream::ResponsesProgress
    decreases lines.len(),
{
    if lines.len() == 0 {
        anthropic_to_responses_stream::ResponsesProgress::from(state)
    } else {
        let before = anthropic_run(state, lines.drop_last());
        let step = anthropic_to_responses_stream::ResponsesProgress::from(before.state).line(
            lines.last(),
        );
        anthropic_to_responses_stream::ResponsesProgress {
            state: step.state,
            events: before.events + step.events,
        }
    }
}

/// The kind of the event that a line carries.
pub open spec fn line_kind(line: Seq<char>) -> Option<Seq<char>> {
    match common::value_in(line) {
        Some(chunk) => chunk.text_at("type"@),
        None => None,
    }
}

/// The text that a line adds. Thinking is no text.
pub open spec fn line_text(line: Seq<char>) -> Seq<char> {
    match common::value_in(line) {
        Some(chunk) => laws::anthropic_event_text(chunk),
        None => Seq::empty(),
    }
}

/// The input tokens that the lines report: those of the last `message_start` that
/// reports any.
pub open spec fn input_count(lines: Seq<Seq<char>>) -> u64
    decreases lines.len(),
{
    if lines.len() == 0 {
        0
    } else {
        let message = match common::value_in(lines.last()) {
            Some(chunk) => chunk.field_or("message"@, JsonView::Null),
            None => JsonView::Null,
        };
        match (line_kind(lines.last()) == Some("message_start"@), message.field("usage"@)) {
            (true, Some(usage)) => usage.count_at("input_tokens"@),
            _ => input_count(lines.drop_last()),
        }
    }
}

/// The output tokens that the lines report: those of the last `message_delta` that
/// reports any.
pub open spec fn output_count(lines: Seq<Seq<char>>) -> u64
    decreases lines.len(),
{
    if lines.len() == 0 {
        0
    } else {
        let chunk = match common::value_in(lines.last()) {
            Some(chunk) => chunk,
            None => JsonView::Null,
        };
        match (line_kind(lines.last()) == Some("message_delta"@), chunk.field("usage"@)) {
            (true, Some(usage)) => usage.count_at("output_tokens"@),
            _ => output_count(lines.drop_last()),
        }
    }
}

proof fn lemma_anthropic_kinds()
    ensures
        "message_stop"@ != "message_start"@,
        "message_stop"@ != "message_delta"@,
        "message_stop"@ != "content_block_delta"@,
        "message_start"@ != "message_delta"@,
        "message_start"@ != "content_block_delta"@,
        "message_delta"@ != "content_block_delta"@,
        "text_delta"@ != "thinking_delta"@,
{
    reveal_strlit("message_stop");
    reveal_strlit("message_start");
    reveal_strlit("message_delta");
    reveal_strlit("content_block_delta");
    reveal_strlit("text_delta");
    reveal_strlit("thinking_delta");
    assert("message_stop"@.len() == 12 && "message_start"@.len() == 13);
    assert("message_delta"@.len() == 13 && "content_block_delta"@.len() == 19);
    assert("message_start"@[8] == 's' && "message_delta"@[8] == 'd');
    assert("text_delta"@.len() == 10 && "thinking_delta"@.len() == 14);
}

/// A stream so far, without its end: what was sent, the text and the counts.
spec fn anthropic_shows(
    p: anthropic_to_responses_stream::ResponsesProgress,
    start: AnthropicToResponsesView,
    said: Seq<char>,
    input: u64,
    output: u64,
) -> bool {
    &&& p.state.resp_id == start.resp_id
    &&& p.state.msg_id == start.msg_id
    &&& p.state.model == start.model
    &&& p.state.created == start.created
    &&& !p.state.msg_closed
    &&& p.state.full_text == said
    &&& p.state.total_input == input
    &&& p.state.total_output == output
    &&& deltas(p.events).flatten() == said
    &&& forall|i: int| 0 <= i < p.events.len() ==> !is_completed(#[trigger] p.events[i])
}

proof fn lemma_deltas_push(events: Seq<SseEventView>, e: SseEventView)
    ensures
        deltas(events.push(e)).flatten() == match delta_of(e) {
            Some(s) => deltas(events).flatten() + s,
            None => deltas(events).flatten(),
        },
{
    lemma_filter_map_push(events, e, |e: SseEventView| delta_of(e));
    match delta_of(e) {
        Some(s) => {
            deltas(events).lemma_flatten_push(s);
            assert(deltas(events.push(e)).flatten() =~= deltas(events).flatten() + s);
        },
        None => {},
    }
}

/// Events without text and without the end add neither.
proof fn lemma_silent_events(events: Seq<SseEventView>, more: Seq<SseEventView>)
    requires
        forall|i: int| 0 <= i < more.len() ==> delta_of(#[trigger] more[i]) is None,
    ensures
        deltas(events + more) == deltas(events),
    decreases more.len(),
{
    if more.len() == 0 {
        assert(events + more =~= events);
    } else {
        lemma_silent_events(events, more.drop_last());
        assert(delta_of(more[more.len() - 1]) is None);
        lemma_filter_map_push(
            events + more.drop_last(),
            more.last(),
            |e: SseEventView| delta_of(e),
        );
        assert(events + more =~= (events + more.drop_last()).push(more.last()));
    }
}

proof fn lemma_opening_silent(
    resp_id: Seq<char>,
    msg_id: Seq<char>,
    created: u64,
    model: Seq<char>,
)
    ensures
        forall|i: int|
            0 <= i < 4 ==> delta_of(
                #[trigger] chat_to_responses_stream::opening_events(
                    resp_id,
                    msg_id,
                    created,
                    model,
                )[i],
            ) is None,
{
    lemma_kinds();
    let response = chat_to_responses_stream::begun_response(resp_id, created, model);
    lemma_response_event("response.created"@, response);
    lemma_response_event("response.in_progress"@, response);
    lemma_item_event(
        "response.output_item.added"@,
        0,
        responses_chat::output_message(msg_id, "in_progress"@, Seq::empty()),
    );
    lemma_part_event("response.content_part.added"@, ""@);
}

proof fn lemma_closing_silent(msg_id: Seq<char>, full_text: Seq<char>)
    ensures
        forall|i: int|
            0 <= i < 2 ==> delta_of(
                #[trigger] chat_to_responses_stream::closing_events(msg_id, full_text)[i],
            ) is None && !is_completed(
                chat_to_responses_stream::closing_events(msg_id, full_text)[i],
            ),
{
    lemma_kinds();
    lemma_part_event("response.content_part.done"@, full_text);
    lemma_item_event(
        "response.output_item.done"@,
        0,
        chat_to_responses_stream::closed_message(msg_id, full_text),
    );
}

proof fn lemma_anthropic_open(
    p: anthropic_to_responses_stream::ResponsesProgress,
    start: AnthropicToResponsesView,
    said: Seq<char>,
    input: u64,
    output: u64,
)
    requires
        anthropic_shows(p, start, said, input, output),
    ensures
        anthropic_shows(p.open(), start, said, input, output),
{
    if !p.state.headers_emitted {
        let s = p.state;
        let more = chat_to_responses_stream::opening_events(
            s.resp_id,
            s.msg_id,
            s.created,
            s.model,
        );
        lemma_opening(s.resp_id, s.msg_id, s.created, s.model);
        lemma_opening_silent(s.resp_id, s.msg_id, s.created, s.model);
        lemma_silent_events(p.events, more);
        assert forall|i: int| 0 <= i < p.open().events.len() implies !is_completed(
            #[trigger] p.open().events[i],
        ) by {
            if i < p.events.len() {
                assert(p.open().events[i] == p.events[i]);
            } else {
                assert(p.open().events[i] == more[i - p.events.len()]);
            }
        }
    }
}

proof fn lemma_anthropic_emit(
    p: anthropic_to_responses_stream::ResponsesProgress,
    start: AnthropicToResponsesView,
    said: Seq<char>,
    input: u64,
    output: u64,
    delta: Seq<char>,
)
    requires
        anthropic_shows(p, start, said, input, output),
    ensures
        anthropic_shows(p.say(delta), start, said + delta, input, output),
        anthropic_shows(p.reason(delta), start, said, input, output),
{
    lemma_kinds();
    if delta.len() > 0 {
        let spoken = p.say(delta);
        let thought = p.reason(delta);
        lemma_delta_event("response.output_text.delta"@, p.state.msg_id, delta);
        lemma_delta_event("response.reasoning_text.delta"@, p.state.msg_id, delta);
        lemma_deltas_push(p.events, spoken.events.last());
        lemma_deltas_push(p.events, thought.events.last());
        assert(spoken.events =~= p.events.push(spoken.events.last()));
        assert(thought.events =~= p.events.push(thought.events.last()));
        assert forall|i: int| 0 <= i < spoken.events.len() implies !is_completed(
            #[trigger] spoken.events[i],
        ) by {
            if i < p.events.len() {
                assert(spoken.events[i] == p.events[i]);
            }
        }
        assert forall|i: int| 0 <= i < thought.events.len() implies !is_completed(
            #[trigger] thought.events[i],
        ) by {
            if i < p.events.len() {
                assert(thought.events[i] == p.events[i]);
            }
        }
    } else {
        assert(said + delta =~= said);
    }
}

spec fn anthropic_shifted(
    before: Seq<SseEventView>,
    p: anthropic_to_responses_stream::ResponsesProgress,
) -> anthropic_to_responses_stream::ResponsesProgress {
    anthropic_to_responses_stream::ResponsesProgress {
        state: p.state,
        events: before + p.events,
    }
}

proof fn lemma_anthropic_shift(
    before: Seq<SseEventView>,
    p: anthropic_to_responses_stream::ResponsesProgress,
    line: Seq<char>,
)
    ensures
        anthropic_shifted(before, p).line(line) == anthropic_shifted(before, p.line(line)),
{
    let q = anthropic_shifted(before, p);
    assert(q.open().events =~= before + p.open().events);
    assert(q.open() == anthropic_shifted(before, p.open()));
    assert(q.line(line).events =~= before + p.line(line).events);
}

proof fn lemma_anthropic_run_step(state: AnthropicToResponsesView, lines: Seq<Seq<char>>)
    requires
        lines.len() > 0,
    ensures
        anthropic_run(state, lines) == anthropic_run(state, lines.drop_last()).line(lines.last()),
{
    let before = anthropic_run(state, lines.drop_last());
    let fresh = anthropic_to_responses_stream::ResponsesProgress::from(before.state);
    lemma_anthropic_shift(before.events, fresh, lines.last());
    assert(before.events + Seq::<SseEventView>::empty() =~= before.events);
    assert(anthropic_shifted(before.events, fresh) == before);
}

proof fn lemma_anthropic_run(start: AnthropicToResponsesView, lines: Seq<Seq<char>>)
    requires
        start == AnthropicToResponsesView::initial(
            start.resp_id,
            start.msg_id,
            start.model,
            start.created,
        ),
        forall|i: int|
            0 <= i < lines.len() ==> line_kind(#[trigger] lines[i]) != Some("message_stop"@),
    ensures
        anthropic_shows(
            anthropic_run(start, lines),
            start,
            lines.flat_map(|line: Seq<char>| line_text(line)),
            input_count(lines),
            output_count(lines),
        ),
    decreases lines.len(),
{
    let words = |line: Seq<char>| line_text(line);
    if lines.len() == 0 {
        let p = anthropic_run(start, lines);
        assert(deltas(p.events) =~= Seq::empty());
        assert(lines.flat_map(words) =~= Seq::empty());
        assert(deltas(p.events).flatten() =~= Seq::empty());
    } else {
        let earlier = lines.drop_last();
        let line = lines.last();
        let before = anthropic_run(start, earlier);
        let said = earlier.flat_map(words);
        let input = input_count(earlier);
        let output = output_count(earlier);
        assert forall|i: int| 0 <= i < earlier.len() implies line_kind(#[trigger] earlier[i])
            != Some("message_stop"@) by {
            assert(earlier[i] == lines[i]);
        }
        lemma_anthropic_run(start, earlier);
        lemma_anthropic_run_step(start, lines);
        lemma_anthropic_kinds();
        assert(earlier.push(line) =~= lines);
        earlier.lemma_flat_map_push(words, line);
        assert(lines.flat_map(words) =~= said + words(line));
        assert(said + Seq::<char>::empty() =~= said);
        assert(line_kind(lines[lines.len() - 1]) != Some("message_stop"@));
        match common::value_in(line) {
            Some(chunk) => {
                lemma_anthropic_open(before, start, said, input, output);
                let delta = chunk.field_or("delta"@, JsonView::Null);
                lemma_anthropic_emit(
                    before.open(),
                    start,
                    said,
                    input,
                    output,
                    delta.text_or("text"@, ""@),
                );
                lemma_anthropic_emit(
                    before.open(),
                    start,
                    said,
                    input,
                    output,
                    delta.text_or("thinking"@, ""@),
                );
            },
            None => {},
        }
    }
}

/// Whether the last line of a stream, and no other, ends the message.
pub open spec fn stops_once(lines: Seq<Seq<char>>) -> bool {
    &&& lines.len() > 0
    &&& line_kind(lines.last()) == Some("message_stop"@)
    &&& forall|i: int|
        0 <= i < lines.len() - 1 ==> line_kind(#[trigger] lines[i]) != Some("message_stop"@)
}

/// Over all lines of an Anthropic stream that is converted from its beginning to
/// the end of its message: the last two events complete the response, once, and end
/// the stream; the completed message holds the joined texts of the lines, without
/// the thinking, which are the texts sent on the way; and the counts are the input
/// tokens that the start reported and the output tokens reported last, with their
/// sum.
pub proof fn lemma_anthropic_stream(
    resp_id: Seq<char>,
    msg_id: Seq<char>,
    model: Seq<char>,
    created: u64,
    lines: Seq<Seq<char>>,
)
    requires
        stops_once(lines),
    ensures
        ({
            let start = AnthropicToResponsesView::initial(resp_id, msg_id, model, created);
            let p = anthropic_run(start, lines);
            let n = p.events.len();
            let said = lines.flat_map(|line: Seq<char>| line_text(line));
            let usage = chat_to_responses_stream::usage_totals(
                input_count(lines),
                output_count(lines),
            );
            &&& n >= 2
            &&& p.events[n - 1] == SseEventView::Done
            &&& p.events[n - 2] == SseEventView::Data(
                chat_to_responses_stream::response_event(
                    "response.completed"@,
                    responses_chat::completed_response(
                        resp_id,
                        created,
                        model,
                        seq![chat_to_responses_stream::closed_message(msg_id, said)],
                        usage,
                    ),
                ),
            )
            &&& forall|i: int| 0 <= i < n && i != n - 2 ==> !is_completed(#[trigger] p.events[i])
            &&& deltas(p.events).flatten() == said
            &&& p.state.completed
            &&& input_count(lines) + output_count(lines) <= u64::MAX ==> usage.field(
                "total_tokens"@,
            ) == Some(JsonView::integer(input_count(lines) + output_count(lines)))
        }),
{
    let start = AnthropicToResponsesView::initial(resp_id, msg_id, model, created);
    let words = |line: Seq<char>| line_text(line);
    let earlier = lines.drop_last();
    let line = lines.last();
    let before = anthropic_run(start, earlier);
    let said = earlier.flat_map(words);
    let input = input_count(earlier);
    let output = output_count(earlier);
    assert forall|i: int| 0 <= i < earlier.len() implies line_kind(#[trigger] earlier[i]) != Some(
        "message_stop"@,
    ) by {
        assert(earlier[i] == lines[i]);
    }
    lemma_anthropic_run(start, earlier);
    lemma_anthropic_run_step(start, lines);
    lemma_anthropic_kinds();
    lemma_anthropic_open(before, start, said, input, output);
    assert(earlier.push(line) =~= lines);
    earlier.lemma_flat_map_push(words, line);
    assert(said + Seq::<char>::empty() =~= said);
    assert(lines.flat_map(words) =~= said);
    let opened = before.open();
    let p = anthropic_run(start, lines);
    let closing = chat_to_responses_stream::closing_events(msg_id, said);
    let closed = opened.events + closing;
    let completed = p.events[p.events.len() - 2];
    assert(p == opened.stop());
    assert(p.events =~= closed.push(completed).push(SseEventView::Done));
    lemma_closing_silent(msg_id, said);
    lemma_silent_events(opened.events, closing);
    lemma_kinds();
    lemma_response_event(
        "response.completed"@,
        responses_chat::completed_response(
            resp_id,
            created,
            model,
            seq![chat_to_responses_stream::closed_message(msg_id, said)],
            chat_to_responses_stream::usage_totals(input, output),
        ),
    );
    lemma_deltas_push(closed, completed);
    lemma_deltas_push(closed.push(completed), SseEventView::Done);
    let n = p.events.len();
    assert forall|i: int| 0 <= i < n && i != n - 2 implies !is_completed(
        #[trigger] p.events[i],
    ) by {
        if i < opened.events.len() {
            assert(p.events[i] == opened.events[i]);
        } else if i < closed.len() {
            assert(p.events[i] == closing[i - opened.events.len()]);
        }
    }
}

} // verus!
