//! Streaming: Responses API events to Chat Completions events, where
//! `response.output_text.delta` and the like become `choices[0].delta`.

use crate::json;
use crate::json::{Json, JsonView, Object};
use crate::lists;
use crate::text::same_text;
use crate::transform::common;
use crate::transform::common::{
    emit, emit_done, make_id, now_secs, print_events, read_chunk, Chunk, ChunkView, SseEvent,
    SseEventView,
};
use vstd::prelude::*;

verus! {

broadcast use crate::json::group_json_views;

/// State for converting a Responses API stream to a Chat Completions stream.
pub struct ResponsesToChatStreamState {
    pub chat_id: String,
    pub model: String,
    pub created: u64,
    pub full_text: String,
    pub total_input: u64,
    pub total_output: u64,
    pub headers_emitted: bool,
    pub completed: bool,
    pub active_tool_calls: Vec<ResponsesToolCallState>,
}

/// A tool call whose arguments arrive piece by piece.
#[derive(Debug)]
pub struct ResponsesToolCallState {
    pub id: String,
    pub call_id: String,
    pub name: String,
    pub arguments: String,
}

/// What a tool call is.
pub struct ResponsesToolCallView {
    pub id: Seq<char>,
    pub call_id: Seq<char>,
    pub name: Seq<char>,
    pub arguments: Seq<char>,
}

impl View for ResponsesToolCallState {
    type V = ResponsesToolCallView;

    open spec fn view(&self) -> ResponsesToolCallView {
        ResponsesToolCallView {
            id: self.id@,
            call_id: self.call_id@,
            name: self.name@,
            arguments: self.arguments@,
        }
    }
}

impl Clone for ResponsesToolCallState {
    fn clone(&self) -> (r: ResponsesToolCallState)
        ensures
            r@ == self@,
    {
        ResponsesToolCallState {
            id: self.id.clone(),
            call_id: self.call_id.clone(),
            name: self.name.clone(),
            arguments: self.arguments.clone(),
        }
    }
}

pub open spec fn call_views(calls: Seq<ResponsesToolCallState>) -> Seq<ResponsesToolCallView> {
    calls.map_values(|call: ResponsesToolCallState| call@)
}

/// What the state of a stream is.
pub struct ResponsesToChatView {
    pub chat_id: Seq<char>,
    pub model: Seq<char>,
    pub created: u64,
    pub full_text: Seq<char>,
    pub total_input: u64,
    pub total_output: u64,
    pub headers_emitted: bool,
    pub completed: bool,
    pub active: Seq<ResponsesToolCallView>,
}

impl View for ResponsesToChatStreamState {
    type V = ResponsesToChatView;

    open spec fn view(&self) -> ResponsesToChatView {
        ResponsesToChatView {
            chat_id: self.chat_id@,
            model: self.model@,
            created: self.created,
            full_text: self.full_text@,
            total_input: self.total_input,
            total_output: self.total_output,
            headers_emitted: self.headers_emitted,
            completed: self.completed,
            active: call_views(self.active_tool_calls@),
        }
    }
}

impl ResponsesToChatView {
    /// The state before the first chunk.
    pub open spec fn initial(
        chat_id: Seq<char>,
        model: Seq<char>,
        created: u64,
    ) -> ResponsesToChatView {
        ResponsesToChatView {
            chat_id,
            model,
            created,
            full_text: Seq::empty(),
            total_input: 0,
            total_output: 0,
            headers_emitted: false,
            completed: false,
            active: Seq::empty(),
        }
    }
}

impl ResponsesToChatStreamState {
    /// The state of a stream that has not begun, under a fresh identifier.
    pub fn new(model: &str) -> (r: ResponsesToChatStreamState)
        ensures
            r@ == ResponsesToChatView::initial(r@.chat_id, model@, r@.created),
            common::is_id_for("chatcmpl"@, r@.chat_id),
            common::is_clock_reading(r@.created),
    {
        let active_tool_calls: Vec<ResponsesToolCallState> = Vec::new();
        assert(call_views(active_tool_calls@) =~= Seq::empty());
        ResponsesToChatStreamState {
            chat_id: make_id("chatcmpl"),
            model: model.to_string(),
            created: now_secs(),
            full_text: String::new(),
            total_input: 0,
            total_output: 0,
            headers_emitted: false,
            completed: false,
            active_tool_calls,
        }
    }
}

/// A chunk of a chat stream, without usage.
pub open spec fn chat_chunk(
    id: Seq<char>,
    created: u64,
    model: Seq<char>,
    delta: JsonView,
    finish_reason: JsonView,
) -> Map<Seq<char>, JsonView> {
    map![
        "id"@ => JsonView::text(id),
        "object"@ => JsonView::text("chat.completion.chunk"@),
        "created"@ => JsonView::integer(created as int),
        "model"@ => JsonView::text(model),
        "choices"@ => JsonView::Array(seq![
            JsonView::Object(map![
                "index"@ => JsonView::integer(0),
                "delta"@ => delta,
                "finish_reason"@ => finish_reason,
            ]),
        ]),
    ]
}

pub fn make_chat_chunk(
    id: &str,
    created: u64,
    model: &str,
    delta: Json,
    finish_reason: Json,
) -> (r: Object)
    ensures
        r@ == chat_chunk(id@, created, model@, delta@, finish_reason@),
{
    let choice = Object::new().with("index", Json::unsigned(0)).with("delta", delta).with(
        "finish_reason",
        finish_reason,
    );
    Object::new().with("id", Json::string(id)).with(
        "object",
        Json::string("chat.completion.chunk"),
    ).with("created", Json::unsigned(created)).with("model", Json::string(model)).with(
        "choices",
        Json::single(Json::Object(choice)),
    )
}

/// The delta that begins a tool call.
pub open spec fn call_start_delta(index: int, id: Seq<char>, name: Seq<char>) -> JsonView {
    JsonView::Object(
        map![
            "tool_calls"@ => JsonView::Array(seq![
                JsonView::Object(map![
                    "index"@ => JsonView::integer(index),
                    "id"@ => JsonView::text(id),
                    "type"@ => JsonView::text("function"@),
                    "function"@ => JsonView::Object(map![
                        "name"@ => JsonView::text(name),
                        "arguments"@ => JsonView::text(""@),
                    ]),
                ]),
            ]),
        ],
    )
}

pub fn make_call_start_delta(index: u64, id: &str, name: &str) -> (r: Json)
    ensures
        r@ == call_start_delta(index as int, id@, name@),
{
    let function = Object::new().with("name", Json::string(name)).with(
        "arguments",
        Json::string(""),
    );
    let call = Object::new().with("index", Json::unsigned(index)).with("id", Json::string(id)).with(
        "type",
        Json::string("function"),
    ).with("function", Json::Object(function));
    Json::Object(Object::new().with("tool_calls", Json::single(Json::Object(call))))
}

/// The delta that adds to the arguments of a tool call.
pub open spec fn call_arguments_delta(index: int, delta: Seq<char>) -> JsonView {
    JsonView::Object(
        map![
            "tool_calls"@ => JsonView::Array(seq![
                JsonView::Object(map![
                    "index"@ => JsonView::integer(index),
                    "function"@ => JsonView::Object(map!["arguments"@ => JsonView::text(delta)]),
                ]),
            ]),
        ],
    )
}

pub fn make_call_arguments_delta(index: u64, delta: &str) -> (r: Json)
    ensures
        r@ == call_arguments_delta(index as int, delta@),
{
    let function = Object::new().with("arguments", Json::string(delta));
    let call = Object::new().with("index", Json::unsigned(index)).with(
        "function",
        Json::Object(function),
    );
    Json::Object(Object::new().with("tool_calls", Json::single(Json::Object(call))))
}

/// A delta with one text.
pub open spec fn text_delta(key: Seq<char>, s: Seq<char>) -> JsonView {
    JsonView::Object(map![key => JsonView::text(s)])
}

pub fn make_text_delta(key: &str, s: &str) -> (r: Json)
    ensures
        r@ == text_delta(key@, s@),
{
    Json::Object(Object::new().with(key, Json::string(s)))
}

/// Token counts and their sum, as a chat response reports them.
pub open spec fn chat_usage_totals(input: u64, output: u64) -> JsonView {
    JsonView::Object(
        map![
            "prompt_tokens"@ => JsonView::integer(input as int),
            "completion_tokens"@ => JsonView::integer(output as int),
            "total_tokens"@ => JsonView::integer(input.wrapping_add(output) as int),
        ],
    )
}

pub fn make_chat_usage_totals(input: u64, output: u64) -> (r: Json)
    ensures
        r@ == chat_usage_totals(input, output),
{
    Json::Object(
        Object::new().with("prompt_tokens", Json::unsigned(input)).with(
            "completion_tokens",
            Json::unsigned(output),
        ).with("total_tokens", Json::unsigned(input.wrapping_add(output))),
    )
}

/// The state of a stream, and the events that were emitted on the way to it.
pub struct ChatProgress {
    pub state: ResponsesToChatView,
    pub events: Seq<SseEventView>,
}

impl ChatProgress {
    pub open spec fn from(state: ResponsesToChatView) -> ChatProgress {
        ChatProgress { state, events: Seq::empty() }
    }

    /// A chunk with a delta.
    pub open spec fn emit(self, delta: JsonView) -> ChatProgress {
        let state = self.state;
        ChatProgress {
            events: self.events.push(
                SseEventView::Data(
                    JsonView::Object(
                        chat_chunk(
                            state.chat_id,
                            state.created,
                            state.model,
                            delta,
                            JsonView::Null,
                        ),
                    ),
                ),
            ),
            ..self
        }
    }

    /// The chunk that names the role, once.
    pub open spec fn open(self) -> ChatProgress {
        if self.state.headers_emitted {
            self
        } else {
            ChatProgress {
                state: ResponsesToChatView { headers_emitted: true, ..self.state },
                ..self
            }.emit(text_delta("role"@, "assistant"@))
        }
    }

    /// A piece of the message's text.
    pub open spec fn say(self, delta: Seq<char>) -> ChatProgress {
        if delta.len() > 0 {
            ChatProgress {
                state: ResponsesToChatView {
                    full_text: self.state.full_text + delta,
                    ..self.state
                },
                ..self
            }.emit(text_delta("content"@, delta))
        } else {
            self
        }
    }

    /// A piece of the reasoning.
    pub open spec fn reason(self, delta: Seq<char>) -> ChatProgress {
        if delta.len() > 0 {
            self.emit(text_delta("reasoning_content"@, delta))
        } else {
            self
        }
    }

    /// An item of the output begins. Only tool calls show.
    pub open spec fn begin_item(self, item: JsonView) -> ChatProgress {
        if item.text_at("type"@) == Some("function_call"@) {
            let call = ResponsesToolCallView {
                id: item.text_or("id"@, ""@),
                call_id: item.text_or("call_id"@, ""@),
                name: item.text_or("name"@, ""@),
                arguments: Seq::empty(),
            };
            ChatProgress {
                state: ResponsesToChatView {
                    active: self.state.active.push(call),
                    ..self.state
                },
                ..self
            }.emit(call_start_delta(self.state.active.len() as int, call.call_id, call.name))
        } else {
            self
        }
    }

    /// A piece of the arguments of the tool call with an identifier. One of an
    /// unknown tool call is dropped.
    pub open spec fn add_arguments(self, id: Seq<char>, delta: Seq<char>) -> ChatProgress {
        let at = lists::first_where(
            self.state.active,
            |call: ResponsesToolCallView| call.id == id,
        );
        if at < self.state.active.len() {
            let known = self.state.active[at];
            ChatProgress {
                state: ResponsesToChatView {
                    active: self.state.active.update(
                        at,
                        ResponsesToolCallView { arguments: known.arguments + delta, ..known },
                    ),
                    ..self.state
                },
                ..self
            }.emit(call_arguments_delta(at, delta))
        } else {
            self
        }
    }

    /// The end of the response, with the token counts that it reports.
    pub open spec fn complete(self, response: JsonView) -> ChatProgress {
        let metered = match response.field("usage"@) {
            Some(usage) => ResponsesToChatView {
                total_input: usage.count_at("input_tokens"@),
                total_output: usage.count_at("output_tokens"@),
                ..self.state
            },
            None => self.state,
        };
        let finish_reason = if metered.active.len() > 0 {
            "tool_calls"@
        } else {
            "stop"@
        };
        let last = chat_chunk(
            metered.chat_id,
            metered.created,
            metered.model,
            JsonView::Object(Map::empty()),
            JsonView::text(finish_reason),
        ).insert("usage"@, chat_usage_totals(metered.total_input, metered.total_output));
        ChatProgress {
            state: ResponsesToChatView { completed: true, ..metered },
            events: self.events.push(SseEventView::Data(JsonView::Object(last))).push(
                SseEventView::Done,
            ),
        }
    }

    /// A chunk of the stream.
    pub open spec fn after(self, chunk: JsonView) -> ChatProgress {
        let kind = chunk.text_at("type"@);
        let opened = self.open();
        if kind == Some("response.output_text.delta"@) {
            opened.say(chunk.text_or("delta"@, ""@))
        } else if kind == Some("response.reasoning_text.delta"@) {
            opened.reason(chunk.text_or("delta"@, ""@))
        } else if kind == Some("response.output_item.added"@) {
            opened.begin_item(chunk.field_or("item"@, JsonView::Object(Map::empty())))
        } else if kind == Some("response.function_call_arguments.delta"@) {
            opened.add_arguments(chunk.text_or("item_id"@, ""@), chunk.text_or("delta"@, ""@))
        } else if kind == Some("response.completed"@) {
            opened.complete(chunk.field_or("response"@, JsonView::Object(Map::empty())))
        } else {
            opened
        }
    }

    /// The end of a stream whose response did not end.
    pub open spec fn finish(self) -> ChatProgress {
        if self.state.completed {
            self
        } else {
            self.open().complete(JsonView::Null)
        }
    }

    /// A line of the stream. The line that ends the stream shows nothing here.
    pub open spec fn line(self, line: Seq<char>) -> ChatProgress {
        match common::chunk_in(line) {
            ChunkView::Value(chunk) => self.after(chunk),
            _ => self,
        }
    }
}

pub open spec fn progress(
    state: ResponsesToChatStreamState,
    events: Seq<SseEvent>,
) -> ChatProgress {
    ChatProgress { state: state@, events: common::event_views(events) }
}

fn emit_delta(state: &ResponsesToChatStreamState, delta: Json, events: &mut Vec<SseEvent>)
    ensures
        progress(*state, final(events)@) == progress(*state, old(events)@).emit(delta@),
{
    emit(
        events,
        Json::Object(
            make_chat_chunk(
                state.chat_id.as_str(),
                state.created,
                state.model.as_str(),
                delta,
                Json::Null,
            ),
        ),
    );
}

/// The index of the tool call with an identifier, or the number of tool calls.
fn find_call(calls: &Vec<ResponsesToolCallState>, id: &str) -> (r: usize)
    ensures
        r <= calls.len(),
        r == lists::first_where(
            call_views(calls@),
            |call: ResponsesToolCallView| call.id == id@,
        ),
{
    let ghost wanted = |call: ResponsesToolCallView| call.id == id@;
    let mut i: usize = 0;
    while i < calls.len() && !same_text(calls[i].id.as_str(), id)
        invariant
            i <= calls.len(),
            wanted == (|call: ResponsesToolCallView| call.id == id@),
            forall|j: int| 0 <= j < i ==> !wanted(#[trigger] call_views(calls@)[j]),
        decreases calls.len() - i,
    {
        i = i + 1;
    }
    proof {
        lists::lemma_first_where(call_views(calls@), wanted, i as int);
    }
    i
}

/// Handles the start of an item of the output.
pub fn begin_item(
    item: &Json,
    state: &mut ResponsesToChatStreamState,
    events: &mut Vec<SseEvent>,
)
    ensures
        progress(*final(state), final(events)@) == progress(
            *old(state),
            old(events)@,
        ).begin_item(item@),
{
    if item.has_text("type", "function_call") {
        let index: u64 = state.active_tool_calls.len() as u64;
        let call_id = item.text_or("call_id", "");
        let name = item.text_or("name", "");
        let call = ResponsesToolCallState {
            id: item.text_or("id", "").to_string(),
            call_id: call_id.to_string(),
            name: name.to_string(),
            arguments: String::new(),
        };
        let ghost before = state.active_tool_calls@;
        let ghost view = call@;
        state.active_tool_calls.push(call);
        assert(call_views(state.active_tool_calls@) =~= call_views(before).push(view));
        emit_delta(state, make_call_start_delta(index, call_id, name), events);
    }
}

/// Handles a piece of the arguments of a tool call.
pub fn add_arguments(
    id: &str,
    delta: &str,
    state: &mut ResponsesToChatStreamState,
    events: &mut Vec<SseEvent>,
)
    ensures
        progress(*final(state), final(events)@) == progress(
            *old(state),
            old(events)@,
        ).add_arguments(id@, delta@),
{
    let at: usize = find_call(&state.active_tool_calls, id);
    if at < state.active_tool_calls.len() {
        let ghost before = state.active_tool_calls@;
        let mut call = state.active_tool_calls[at].clone();
        call.arguments.append(delta);
        let ghost view = call@;
        state.active_tool_calls.set(at, call);
        assert(call_views(state.active_tool_calls@) =~= call_views(before).update(
            at as int,
            view,
        ));
        emit_delta(state, make_call_arguments_delta(at as u64, delta), events);
    }
}

/// Handles the end of the response.
pub fn complete(
    response: &Json,
    state: &mut ResponsesToChatStreamState,
    events: &mut Vec<SseEvent>,
)
    ensures
        progress(*final(state), final(events)@) == progress(*old(state), old(events)@).complete(
            response@,
        ),
{
    match response.get("usage") {
        Some(usage) => {
            state.total_input = usage.count_at("input_tokens");
            state.total_output = usage.count_at("output_tokens");
        },
        None => {},
    }
    let finish_reason = if state.active_tool_calls.len() > 0 {
        "tool_calls"
    } else {
        "stop"
    };
    let last = make_chat_chunk(
        state.chat_id.as_str(),
        state.created,
        state.model.as_str(),
        Json::empty_object(),
        Json::string(finish_reason),
    ).with("usage", make_chat_usage_totals(state.total_input, state.total_output));
    emit(events, Json::Object(last));
    state.completed = true;
    emit_done(events);
}

fn emit_role(state: &mut ResponsesToChatStreamState, events: &mut Vec<SseEvent>)
    ensures
        progress(*final(state), final(events)@) == progress(*old(state), old(events)@).open(),
{
    if !state.headers_emitted {
        state.headers_emitted = true;
        emit_delta(state, make_text_delta("role", "assistant"), events);
    }
}

/// Converts one event of a Responses stream. `None` where nothing is to be sent
/// for it.
pub fn transform_responses_event(chunk: &Json, state: &mut ResponsesToChatStreamState) -> (r:
    Option<String>)
    ensures
        final(state)@ == ChatProgress::from(old(state)@).after(chunk@).state,
        json::string_of(r) == common::sent(ChatProgress::from(old(state)@).after(chunk@).events),
{
    let mut events: Vec<SseEvent> = Vec::new();
    assert(common::event_views(events@) =~= Seq::empty());
    emit_role(state, &mut events);
    proof {
        reveal_strlit("");
    }
    if chunk.has_text("type", "response.output_text.delta") {
        let delta = chunk.text_or("delta", "");
        if delta.unicode_len() > 0 {
            state.full_text.append(delta);
            emit_delta(state, make_text_delta("content", delta), &mut events);
        }
    } else if chunk.has_text("type", "response.reasoning_text.delta") {
        let delta = chunk.text_or("delta", "");
        if delta.unicode_len() > 0 {
            emit_delta(state, make_text_delta("reasoning_content", delta), &mut events);
        }
    } else if chunk.has_text("type", "response.output_item.added") {
        begin_item(&chunk.field_or("item", Json::empty_object()), state, &mut events);
    } else if chunk.has_text("type", "response.function_call_arguments.delta") {
        add_arguments(
            chunk.text_or("item_id", ""),
            chunk.text_or("delta", ""),
            state,
            &mut events,
        );
    } else if chunk.has_text("type", "response.completed") {
        complete(&chunk.field_or("response", Json::empty_object()), state, &mut events);
    }
    print_events(&events)
}

/// Converts one line of a Responses API stream to Chat Completions. `None`
/// where nothing is to be sent for it.
pub fn responses_sse_to_chat_sse(line: &str, state: &mut ResponsesToChatStreamState) -> (r: Option<
    String,
>)
    ensures
        final(state)@ == ChatProgress::from(old(state)@).line(line@).state,
        json::string_of(r) == common::sent(ChatProgress::from(old(state)@).line(line@).events),
{
    match read_chunk(line) {
        Chunk::Value(chunk) => transform_responses_event(&chunk, state),
        _ => None,
    }
}

/// Flushes a stream that ended without `response.completed`: emits a final chunk
/// with a `finish_reason`, and `[DONE]`, so that the client receives a properly
/// terminated stream. `None` where the stream was terminated before.
pub fn flush_responses_to_chat(state: &mut ResponsesToChatStreamState) -> (r: Option<String>)
    ensures
        final(state)@ == ChatProgress::from(old(state)@).finish().state,
        json::string_of(r) == common::sent(ChatProgress::from(old(state)@).finish().events),
{
    if state.completed {
        return None;
    }
    let mut events: Vec<SseEvent> = Vec::new();
    assert(common::event_views(events@) =~= Seq::empty());
    emit_role(state, &mut events);
    complete(&Json::Null, state, &mut events);
    print_events(&events)
}

} // verus!
