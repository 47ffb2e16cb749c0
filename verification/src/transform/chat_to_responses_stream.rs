//! Streaming: Chat Completions events to Responses API events, where
//! `choices[0].delta` becomes `response.output_text.delta` and the like.

use crate::json;
use crate::json::{no_items, Json, JsonView, Object};
use crate::lists;
use crate::text::same_text;
use crate::transform::common;
use crate::transform::common::{
    emit, emit_done, make_id, now_secs, print_events, read_chunk, Chunk, ChunkView, SseEvent,
    SseEventView,
};
use crate::transform::responses_chat;
use crate::transform::responses_chat::{
    make_completed_response, make_output_message, make_output_text,
};
use vstd::prelude::*;

verus! {

broadcast use crate::json::group_json_views;

/// State for converting a Chat Completions stream to a Responses API stream.
pub struct ChatToResponsesStreamState {
    pub msg_id: String,
    pub resp_id: String,
    pub model: String,
    pub created: u64,
    pub full_text: String,
    pub total_input: u64,
    pub total_output: u64,
    pub msg_closed: bool,
    pub output_index: usize,
    pub active_tool_calls: Vec<ToolCallState>,
    pub completed_tool_calls: Vec<ToolCallState>,
    pub headers_emitted: bool,
    pub completed: bool,
}

/// A tool call whose arguments arrive piece by piece.
#[derive(Debug)]
pub struct ToolCallState {
    pub id: String,
    pub index: usize,
    pub name: String,
    pub arguments: String,
    pub output_index: usize,
}

/// What a tool call is.
pub struct ToolCallView {
    pub id: Seq<char>,
    pub index: usize,
    pub name: Seq<char>,
    pub arguments: Seq<char>,
    pub output_index: usize,
}

impl View for ToolCallState {
    type V = ToolCallView;

    open spec fn view(&self) -> ToolCallView {
        ToolCallView {
            id: self.id@,
            index: self.index,
            name: self.name@,
            arguments: self.arguments@,
            output_index: self.output_index,
        }
    }
}

impl Clone for ToolCallState {
    fn clone(&self) -> (r: ToolCallState)
        ensures
            r@ == self@,
    {
        ToolCallState {
            id: self.id.clone(),
            index: self.index,
            name: self.name.clone(),
            arguments: self.arguments.clone(),
            output_index: self.output_index,
        }
    }
}

pub open spec fn call_views(calls: Seq<ToolCallState>) -> Seq<ToolCallView> {
    calls.map_values(|call: ToolCallState| call@)
}

/// What the state of a stream is.
pub struct ChatToResponsesView {
    pub msg_id: Seq<char>,
    pub resp_id: Seq<char>,
    pub model: Seq<char>,
    pub created: u64,
    pub full_text: Seq<char>,
    pub total_input: u64,
    pub total_output: u64,
    pub msg_closed: bool,
    pub output_index: usize,
    pub active: Seq<ToolCallView>,
    pub finished: Seq<ToolCallView>,
    pub headers_emitted: bool,
    pub completed: bool,
}

impl View for ChatToResponsesStreamState {
    type V = ChatToResponsesView;

    open spec fn view(&self) -> ChatToResponsesView {
        ChatToResponsesView {
            msg_id: self.msg_id@,
            resp_id: self.resp_id@,
            model: self.model@,
            created: self.created,
            full_text: self.full_text@,
            total_input: self.total_input,
            total_output: self.total_output,
            msg_closed: self.msg_closed,
            output_index: self.output_index,
            active: call_views(self.active_tool_calls@),
            finished: call_views(self.completed_tool_calls@),
            headers_emitted: self.headers_emitted,
            completed: self.completed,
        }
    }
}

impl ChatToResponsesView {
    /// The state before the first chunk.
    pub open spec fn initial(
        msg_id: Seq<char>,
        resp_id: Seq<char>,
        model: Seq<char>,
        created: u64,
    ) -> ChatToResponsesView {
        ChatToResponsesView {
            msg_id,
            resp_id,
            model,
            created,
            full_text: Seq::empty(),
            total_input: 0,
            total_output: 0,
            msg_closed: false,
            output_index: 0,
            active: Seq::empty(),
            finished: Seq::empty(),
            headers_emitted: false,
            completed: false,
        }
    }
}

impl ChatToResponsesStreamState {
    /// The state of a stream that has not begun, under fresh identifiers.
    pub fn new(model: &str) -> (r: ChatToResponsesStreamState)
        ensures
            r@ == ChatToResponsesView::initial(r@.msg_id, r@.resp_id, model@, r@.created),
            common::is_id_for("msg"@, r@.msg_id),
            common::is_id_for("resp"@, r@.resp_id),
            common::is_clock_reading(r@.created),
    {
        let active_tool_calls: Vec<ToolCallState> = Vec::new();
        let completed_tool_calls: Vec<ToolCallState> = Vec::new();
        assert(call_views(active_tool_calls@) =~= Seq::empty());
        assert(call_views(completed_tool_calls@) =~= Seq::empty());
        ChatToResponsesStreamState {
            msg_id: make_id("msg"),
            resp_id: make_id("resp"),
            model: model.to_string(),
            created: now_secs(),
            full_text: String::new(),
            total_input: 0,
            total_output: 0,
            msg_closed: false,
            output_index: 0,
            active_tool_calls,
            completed_tool_calls,
            headers_emitted: false,
            completed: false,
        }
    }
}

/// A response that has begun and holds nothing yet.
pub open spec fn begun_response(resp_id: Seq<char>, created: u64, model: Seq<char>) -> JsonView {
    JsonView::Object(
        map![
            "id"@ => JsonView::text(resp_id),
            "object"@ => JsonView::text("response"@),
            "created_at"@ => JsonView::integer(created as int),
            "status"@ => JsonView::text("in_progress"@),
            "model"@ => JsonView::text(model),
            "output"@ => JsonView::Array(Seq::empty()),
            "usage"@ => JsonView::Null,
        ],
    )
}

/// An event about the whole response.
pub open spec fn response_event(kind: Seq<char>, response: JsonView) -> JsonView {
    JsonView::Object(map!["type"@ => JsonView::text(kind), "response"@ => response])
}

/// An event about an item of the output.
pub open spec fn item_event(kind: Seq<char>, output_index: usize, item: JsonView) -> JsonView {
    JsonView::Object(
        map![
            "type"@ => JsonView::text(kind),
            "output_index"@ => JsonView::integer(output_index as int),
            "item"@ => item,
        ],
    )
}

/// An event about the text of the message.
pub open spec fn part_event(kind: Seq<char>, s: Seq<char>) -> JsonView {
    JsonView::Object(
        map![
            "type"@ => JsonView::text(kind),
            "output_index"@ => JsonView::integer(0),
            "content_index"@ => JsonView::integer(0),
            "part"@ => responses_chat::output_text(s),
        ],
    )
}

/// An event that adds to the message.
pub open spec fn delta_event(kind: Seq<char>, msg_id: Seq<char>, delta: Seq<char>) -> JsonView {
    JsonView::Object(
        map![
            "type"@ => JsonView::text(kind),
            "item_id"@ => JsonView::text(msg_id),
            "output_index"@ => JsonView::integer(0),
            "content_index"@ => JsonView::integer(0),
            "delta"@ => JsonView::text(delta),
        ],
    )
}

/// The events that begin a response.
pub open spec fn opening_events(
    resp_id: Seq<char>,
    msg_id: Seq<char>,
    created: u64,
    model: Seq<char>,
) -> Seq<SseEventView> {
    let response = begun_response(resp_id, created, model);
    seq![
        SseEventView::Data(response_event("response.created"@, response)),
        SseEventView::Data(response_event("response.in_progress"@, response)),
        SseEventView::Data(
            item_event(
                "response.output_item.added"@,
                0,
                responses_chat::output_message(msg_id, "in_progress"@, Seq::empty()),
            ),
        ),
        SseEventView::Data(part_event("response.content_part.added"@, ""@)),
    ]
}

/// The message of a completed response.
pub open spec fn closed_message(msg_id: Seq<char>, full_text: Seq<char>) -> JsonView {
    responses_chat::output_message(
        msg_id,
        "completed"@,
        seq![responses_chat::output_text(full_text)],
    )
}

/// The events that complete the message.
pub open spec fn closing_events(msg_id: Seq<char>, full_text: Seq<char>) -> Seq<SseEventView> {
    seq![
        SseEventView::Data(part_event("response.content_part.done"@, full_text)),
        SseEventView::Data(
            item_event("response.output_item.done"@, 0, closed_message(msg_id, full_text)),
        ),
    ]
}

/// A tool call as an item of the output.
pub open spec fn call_item(
    call: ToolCallView,
    arguments: Seq<char>,
    status: Seq<char>,
) -> JsonView {
    JsonView::Object(
        map![
            "id"@ => JsonView::text(call.id),
            "type"@ => JsonView::text("function_call"@),
            "call_id"@ => JsonView::text(call.id),
            "name"@ => JsonView::text(call.name),
            "arguments"@ => JsonView::text(arguments),
            "status"@ => JsonView::text(status),
        ],
    )
}

/// An event that adds to the arguments of a tool call.
pub open spec fn arguments_delta_event(call: ToolCallView, delta: Seq<char>) -> JsonView {
    JsonView::Object(
        map![
            "type"@ => JsonView::text("response.function_call_arguments.delta"@),
            "item_id"@ => JsonView::text(call.id),
            "output_index"@ => JsonView::integer(call.output_index as int),
            "delta"@ => JsonView::text(delta),
        ],
    )
}

/// The events that complete a tool call.
pub open spec fn call_done_events(call: ToolCallView) -> Seq<SseEventView> {
    seq![
        SseEventView::Data(
            JsonView::Object(
                map![
                    "type"@ => JsonView::text("response.function_call_arguments.done"@),
                    "item_id"@ => JsonView::text(call.id),
                    "output_index"@ => JsonView::integer(call.output_index as int),
                    "arguments"@ => JsonView::text(call.arguments),
                ],
            ),
        ),
        SseEventView::Data(
            item_event(
                "response.output_item.done"@,
                call.output_index,
                call_item(call, call.arguments, "completed"@),
            ),
        ),
    ]
}

pub open spec fn has_call(calls: Seq<ToolCallView>, id: Seq<char>) -> bool {
    exists|i: int| 0 <= i < calls.len() && (#[trigger] calls[i]).id == id
}

/// The tool calls of a stream that were not completed before its end.
pub open spec fn open_calls(state: ChatToResponsesView) -> Seq<ToolCallView> {
    state.active.filter(|call: ToolCallView| !has_call(state.finished, call.id))
}

/// The items of the output of a completed response.
pub open spec fn final_output(state: ChatToResponsesView) -> Seq<JsonView> {
    let said = if state.full_text.len() > 0 {
        seq![closed_message(state.msg_id, state.full_text)]
    } else {
        Seq::empty()
    };
    said + (state.finished + open_calls(state)).map_values(
        |call: ToolCallView| call_item(call, call.arguments, "completed"@),
    )
}

/// The state of a stream, and the events that were emitted on the way to it.
pub struct ResponsesProgress {
    pub state: ChatToResponsesView,
    pub events: Seq<SseEventView>,
}

impl ResponsesProgress {
    pub open spec fn from(state: ChatToResponsesView) -> ResponsesProgress {
        ResponsesProgress { state, events: Seq::empty() }
    }

    pub open spec fn emit(self, v: JsonView) -> ResponsesProgress {
        ResponsesProgress { events: self.events.push(SseEventView::Data(v)), ..self }
    }

    /// The events that begin a response, once.
    pub open spec fn open(self) -> ResponsesProgress {
        if self.state.headers_emitted {
            self
        } else {
            ResponsesProgress {
                state: ChatToResponsesView { headers_emitted: true, ..self.state },
                events: self.events + opening_events(
                    self.state.resp_id,
                    self.state.msg_id,
                    self.state.created,
                    self.state.model,
                ),
            }
        }
    }

    /// The events that complete the message, once.
    pub open spec fn close_message(self) -> ResponsesProgress {
        if self.state.msg_closed {
            self
        } else {
            ResponsesProgress {
                state: ChatToResponsesView { msg_closed: true, output_index: 1, ..self.state },
                events: self.events + closing_events(self.state.msg_id, self.state.full_text),
            }
        }
    }

    /// A piece of the reasoning.
    pub open spec fn reason(self, delta: Seq<char>) -> ResponsesProgress {
        if delta.len() > 0 {
            self.emit(delta_event("response.reasoning_text.delta"@, self.state.msg_id, delta))
        } else {
            self
        }
    }

    /// A piece of the message's text.
    pub open spec fn say(self, delta: Seq<char>) -> ResponsesProgress {
        if delta.len() > 0 {
            ResponsesProgress {
                state: ChatToResponsesView {
                    full_text: self.state.full_text + delta,
                    ..self.state
                },
                ..self
            }.emit(delta_event("response.output_text.delta"@, self.state.msg_id, delta))
        } else {
            self
        }
    }

    /// A piece of a tool call. The first piece with an index begins a call; any
    /// other adds to its arguments.
    pub open spec fn call(self, piece: JsonView) -> ResponsesProgress {
        let index = piece.count_at("index"@) as usize;
        let function = piece.field_or("function"@, JsonView::Object(Map::empty()));
        let delta = function.text_or("arguments"@, ""@);
        let at = lists::first_where(
            self.state.active,
            |call: ToolCallView| call.index == index,
        );
        if at < self.state.active.len() {
            let known = self.state.active[at];
            let call = ToolCallView { arguments: known.arguments + delta, ..known };
            ResponsesProgress {
                state: ChatToResponsesView {
                    active: self.state.active.update(at, call),
                    ..self.state
                },
                ..self
            }.emit(arguments_delta_event(call, delta))
        } else {
            let closed = self.close_message();
            let call = ToolCallView {
                id: piece.text_or("id"@, ""@),
                index,
                name: function.text_or("name"@, ""@),
                arguments: delta,
                output_index: closed.state.output_index.wrapping_add(index),
            };
            ResponsesProgress {
                state: ChatToResponsesView {
                    active: closed.state.active.push(call),
                    ..closed.state
                },
                ..closed
            }.emit(
                item_event(
                    "response.output_item.added"@,
                    call.output_index,
                    call_item(call, ""@, "in_progress"@),
                ),
            )
        }
    }

    pub open spec fn calls(self, pieces: Seq<JsonView>) -> ResponsesProgress {
        pieces.fold_left(
            self,
            |progress: ResponsesProgress, piece: JsonView| progress.call(piece),
        )
    }

    /// The events that complete every tool call.
    pub open spec fn finish_calls(self) -> ResponsesProgress {
        let closed = self.close_message();
        ResponsesProgress {
            state: ChatToResponsesView {
                active: Seq::empty(),
                finished: closed.state.active,
                ..closed.state
            },
            events: closed.events + closed.state.active.flat_map(
                |call: ToolCallView| call_done_events(call),
            ),
        }
    }

    /// The token counts of a chunk, where it has any.
    pub open spec fn meter(self, chunk: JsonView) -> ResponsesProgress {
        match chunk.field("usage"@) {
            Some(usage) => ResponsesProgress {
                state: ChatToResponsesView {
                    total_input: usage.count_at("prompt_tokens"@),
                    total_output: usage.count_at("completion_tokens"@),
                    ..self.state
                },
                ..self
            },
            None => self,
        }
    }

    /// A choice of a chunk: reasoning, text, tool calls, and the end of these.
    pub open spec fn choice(self, choice: JsonView) -> ResponsesProgress {
        let delta = choice.field_or("delta"@, JsonView::Object(Map::empty()));
        let spoken = self.reason(delta.text_or("reasoning_content"@, ""@)).say(
            delta.text_or("content"@, ""@),
        );
        let called = match delta.array_at("tool_calls"@) {
            Some(pieces) => spoken.calls(pieces),
            None => spoken,
        };
        if choice.text_at("finish_reason"@) == Some("tool_calls"@) {
            called.finish_calls()
        } else {
            called
        }
    }

    /// A chunk of the stream.
    pub open spec fn after(self, chunk: JsonView) -> ResponsesProgress {
        match chunk.array_at("choices"@) {
            Some(choices) => if choices.len() > 0 {
                self.open().choice(choices[0]).meter(chunk)
            } else {
                self.open().meter(chunk)
            },
            None => self.open().meter(chunk),
        }
    }

    /// The end of the stream: everything open is completed, once.
    pub open spec fn finish(self) -> ResponsesProgress {
        if self.state.completed {
            self
        } else {
            let closed = ResponsesProgress {
                state: ChatToResponsesView { completed: true, ..self.state },
                ..self
            }.close_message();
            let state = closed.state;
            let done = ResponsesProgress {
                events: closed.events + open_calls(state).flat_map(
                    |call: ToolCallView| call_done_events(call),
                ),
                ..closed
            }.emit(
                response_event(
                    "response.completed"@,
                    responses_chat::completed_response(
                        state.resp_id,
                        state.created,
                        state.model,
                        final_output(state),
                        usage_totals(state.total_input, state.total_output),
                    ),
                ),
            );
            ResponsesProgress { events: done.events.push(SseEventView::Done), ..done }
        }
    }

    /// A line of the stream.
    pub open spec fn line(self, line: Seq<char>) -> ResponsesProgress {
        match common::chunk_in(line) {
            ChunkView::Value(chunk) => self.after(chunk),
            ChunkView::End => self.finish(),
            ChunkView::Nothing => self,
        }
    }
}

/// Token counts and their sum, as a Responses object reports them.
pub open spec fn usage_totals(input: u64, output: u64) -> JsonView {
    JsonView::Object(
        map![
            "input_tokens"@ => JsonView::integer(input as int),
            "output_tokens"@ => JsonView::integer(output as int),
            "total_tokens"@ => JsonView::integer(input.wrapping_add(output) as int),
        ],
    )
}

pub open spec fn progress(
    state: ChatToResponsesStreamState,
    events: Seq<SseEvent>,
) -> ResponsesProgress {
    ResponsesProgress { state: state@, events: common::event_views(events) }
}


pub fn make_response_event(kind: &str, response: Json) -> (r: Json)
    ensures
        r@ == response_event(kind@, response@),
{
    Json::Object(Object::new().with("type", Json::string(kind)).with("response", response))
}

fn make_item_event(kind: &str, output_index: usize, item: Json) -> (r: Json)
    ensures
        r@ == item_event(kind@, output_index, item@),
{
    Json::Object(
        Object::new().with("type", Json::string(kind)).with(
            "output_index",
            Json::unsigned(output_index as u64),
        ).with("item", item),
    )
}

fn make_part_event(kind: &str, s: &str) -> (r: Json)
    ensures
        r@ == part_event(kind@, s@),
{
    Json::Object(
        Object::new().with("type", Json::string(kind)).with("output_index", Json::unsigned(0)).with(
            "content_index",
            Json::unsigned(0),
        ).with("part", make_output_text(s)),
    )
}

pub fn make_delta_event(kind: &str, msg_id: &str, delta: &str) -> (r: Json)
    ensures
        r@ == delta_event(kind@, msg_id@, delta@),
{
    Json::Object(
        Object::new().with("type", Json::string(kind)).with("item_id", Json::string(msg_id)).with(
            "output_index",
            Json::unsigned(0),
        ).with("content_index", Json::unsigned(0)).with("delta", Json::string(delta)),
    )
}

fn make_call_item(call: &ToolCallState, arguments: &str, status: &str) -> (r: Json)
    ensures
        r@ == call_item(call@, arguments@, status@),
{
    let mut item = Object::new();
    item.set("id", Json::string(call.id.as_str()));
    item.set("type", Json::string("function_call"));
    item.set("call_id", Json::string(call.id.as_str()));
    item.set("name", Json::string(call.name.as_str()));
    item.set("arguments", Json::string(arguments));
    item.set("status", Json::string(status));
    Json::Object(item)
}

pub fn make_closed_message(msg_id: &str, full_text: &str) -> (r: Json)
    ensures
        r@ == closed_message(msg_id@, full_text@),
{
    let mut content: Vec<Json> = Vec::new();
    content.push(make_output_text(full_text));
    assert(json::json_views(content@) =~= seq![responses_chat::output_text(full_text@)]);
    make_output_message(msg_id, "completed", content)
}

fn make_begun_response(resp_id: &str, created: u64, model: &str) -> (r: Json)
    ensures
        r@ == begun_response(resp_id@, created, model@),
{
    let mut response = Object::new();
    response.set("id", Json::string(resp_id));
    response.set("object", Json::string("response"));
    response.set("created_at", Json::unsigned(created));
    response.set("status", Json::string("in_progress"));
    response.set("model", Json::string(model));
    response.set("output", Json::empty_list());
    response.set("usage", Json::Null);
    Json::Object(response)
}

/// Emits the events that begin a response.
pub fn emit_opening(
    resp_id: &str,
    msg_id: &str,
    created: u64,
    model: &str,
    events: &mut Vec<SseEvent>,
)
    ensures
        common::event_views(final(events)@) == common::event_views(old(events)@)
            + opening_events(resp_id@, msg_id@, created, model@),
{
    let ghost before = common::event_views(events@);
    let response = make_begun_response(resp_id, created, model);
    emit(events, make_response_event("response.created", response.clone()));
    emit(events, make_response_event("response.in_progress", response));
    let message = make_output_message(msg_id, "in_progress", no_items());
    emit(events, make_item_event("response.output_item.added", 0, message));
    emit(events, make_part_event("response.content_part.added", ""));
    assert(common::event_views(events@) =~= before + opening_events(
        resp_id@,
        msg_id@,
        created,
        model@,
    ));
}

/// Emits the events that complete the message.
pub fn emit_closing(msg_id: &str, full_text: &str, events: &mut Vec<SseEvent>)
    ensures
        common::event_views(final(events)@) == common::event_views(old(events)@)
            + closing_events(msg_id@, full_text@),
{
    let ghost before = common::event_views(events@);
    emit(events, make_part_event("response.content_part.done", full_text));
    emit(
        events,
        make_item_event("response.output_item.done", 0, make_closed_message(msg_id, full_text)),
    );
    assert(common::event_views(events@) =~= before + closing_events(msg_id@, full_text@));
}

/// Emits the events that begin a response, once.
pub fn emit_stream_headers(state: &mut ChatToResponsesStreamState, events: &mut Vec<SseEvent>)
    ensures
        progress(*final(state), final(events)@) == progress(*old(state), old(events)@).open(),
{
    if state.headers_emitted {
        return;
    }
    state.headers_emitted = true;
    emit_opening(
        state.resp_id.as_str(),
        state.msg_id.as_str(),
        state.created,
        state.model.as_str(),
        events,
    );
}

/// Emits the events that complete the message, once.
pub fn close_msg_item(state: &mut ChatToResponsesStreamState, events: &mut Vec<SseEvent>)
    ensures
        progress(*final(state), final(events)@) == progress(
            *old(state),
            old(events)@,
        ).close_message(),
{
    if state.msg_closed {
        return;
    }
    state.msg_closed = true;
    emit_closing(state.msg_id.as_str(), state.full_text.as_str(), events);
    state.output_index = 1;
}

/// The index of the tool call that has an index in its stream, or the number of
/// tool calls.
fn find_call(calls: &Vec<ToolCallState>, index: usize) -> (r: usize)
    ensures
        r <= calls.len(),
        r == lists::first_where(
            call_views(calls@),
            |call: ToolCallView| call.index == index,
        ),
{
    let ghost wanted = |call: ToolCallView| call.index == index;
    let mut i: usize = 0;
    while i < calls.len() && calls[i].index != index
        invariant
            i <= calls.len(),
            wanted == (|call: ToolCallView| call.index == index),
            forall|j: int| 0 <= j < i ==> !wanted(#[trigger] call_views(calls@)[j]),
        decreases calls.len() - i,
    {
        i = i + 1;
    }
    proof {
        lists::lemma_first_where(call_views(calls@), wanted, i as int);
    }
    i
}

/// Handles a piece of a tool call.
#[verifier::truncate]
pub fn transform_tool_call(
    piece: &Json,
    state: &mut ChatToResponsesStreamState,
    events: &mut Vec<SseEvent>,
)
    ensures
        progress(*final(state), final(events)@) == progress(*old(state), old(events)@).call(
            piece@,
        ),
{
    let index: usize = piece.count_at("index") as usize;
    let function = piece.field_or("function", Json::empty_object());
    let delta = function.text_or("arguments", "");
    let at: usize = find_call(&state.active_tool_calls, index);
    if at < state.active_tool_calls.len() {
        let ghost before = state.active_tool_calls@;
        let mut call = state.active_tool_calls[at].clone();
        call.arguments.append(delta);
        emit(
            events,
            Json::Object(
                Object::new().with(
                    "type",
                    Json::string("response.function_call_arguments.delta"),
                ).with("item_id", Json::string(call.id.as_str())).with(
                    "output_index",
                    Json::unsigned(call.output_index as u64),
                ).with("delta", Json::string(delta)),
            ),
        );
        let ghost view = call@;
        state.active_tool_calls.set(at, call);
        assert(call_views(state.active_tool_calls@) =~= call_views(before).update(
            at as int,
            view,
        ));
    } else {
        close_msg_item(state, events);
        let call = ToolCallState {
            id: piece.text_or("id", "").to_string(),
            index,
            name: function.text_or("name", "").to_string(),
            arguments: delta.to_string(),
            output_index: state.output_index.wrapping_add(index),
        };
        emit(
            events,
            make_item_event(
                "response.output_item.added",
                call.output_index,
                make_call_item(&call, "", "in_progress"),
            ),
        );
        let ghost before = state.active_tool_calls@;
        let ghost view = call@;
        state.active_tool_calls.push(call);
        assert(call_views(state.active_tool_calls@) =~= call_views(before).push(view));
    }
}

fn emit_call_done(call: &ToolCallState, events: &mut Vec<SseEvent>)
    ensures
        common::event_views(final(events)@) == common::event_views(old(events)@)
            + call_done_events(call@),
{
    let ghost before = common::event_views(events@);
    emit(
        events,
        Json::Object(
            Object::new().with("type", Json::string("response.function_call_arguments.done")).with(
                "item_id",
                Json::string(call.id.as_str()),
            ).with("output_index", Json::unsigned(call.output_index as u64)).with(
                "arguments",
                Json::string(call.arguments.as_str()),
            ),
        ),
    );
    emit(
        events,
        make_item_event(
            "response.output_item.done",
            call.output_index,
            make_call_item(call, call.arguments.as_str(), "completed"),
        ),
    );
    assert(common::event_views(events@) =~= before + call_done_events(call@));
}

/// Emits the events that complete some tool calls.
pub fn emit_calls_done(calls: &Vec<ToolCallState>, events: &mut Vec<SseEvent>)
    ensures
        common::event_views(final(events)@) == common::event_views(old(events)@) + call_views(
            calls@,
        ).flat_map(|call: ToolCallView| call_done_events(call)),
{
    let ghost before = common::event_views(events@);
    let ghost views = call_views(calls@);
    let ghost expand = |call: ToolCallView| call_done_events(call);
    assert(common::event_views(events@) =~= before + views.take(0).flat_map(expand));
    for i in 0..calls.len()
        invariant
            views == call_views(calls@),
            expand == (|call: ToolCallView| call_done_events(call)),
            common::event_views(events@) == before + views.take(i as int).flat_map(expand),
    {
        proof {
            views.lemma_flat_map_take_append(expand, i as int);
        }
        emit_call_done(&calls[i], events);
        assert(common::event_views(events@) =~= before + views.take(i + 1).flat_map(expand));
    }
    assert(views.take(views.len() as int) =~= views);
}

/// Emits the events that complete every tool call.
pub fn finish_tool_calls(state: &mut ChatToResponsesStreamState, events: &mut Vec<SseEvent>)
    ensures
        progress(*final(state), final(events)@) == progress(
            *old(state),
            old(events)@,
        ).finish_calls(),
{
    close_msg_item(state, events);
    emit_calls_done(&state.active_tool_calls, events);
    let mut finished: Vec<ToolCallState> = Vec::new();
    finished.append(&mut state.active_tool_calls);
    state.completed_tool_calls = finished;
    assert(call_views(state.active_tool_calls@) =~= Seq::empty());
}

/// Takes over the token counts of a chunk.
pub fn note_usage(chunk: &Json, state: &mut ChatToResponsesStreamState)
    ensures
        forall|events: Seq<SseEvent>| #[trigger] progress(*final(state), events) == progress(
            *old(state),
            events,
        ).meter(chunk@),
{
    match chunk.get("usage") {
        Some(usage) => {
            state.total_input = usage.count_at("prompt_tokens");
            state.total_output = usage.count_at("completion_tokens");
        },
        None => {},
    }
}

/// Handles a choice of a chunk.
pub fn transform_choice(
    choice: &Json,
    state: &mut ChatToResponsesStreamState,
    events: &mut Vec<SseEvent>,
)
    ensures
        progress(*final(state), final(events)@) == progress(*old(state), old(events)@).choice(
            choice@,
        ),
{
    let delta = choice.field_or("delta", Json::empty_object());
    let reasoning = delta.text_or("reasoning_content", "");
    proof {
        reveal_strlit("");
    }
    if reasoning.unicode_len() > 0 {
        emit(
            events,
            make_delta_event("response.reasoning_text.delta", state.msg_id.as_str(), reasoning),
        );
    }
    let content = delta.text_or("content", "");
    if content.unicode_len() > 0 {
        state.full_text.append(content);
        emit(
            events,
            make_delta_event("response.output_text.delta", state.msg_id.as_str(), content),
        );
    }
    let ghost spoken = progress(*state, events@);
    match delta.array_at("tool_calls") {
        Some(pieces) => {
            let ghost views = json::json_views(pieces@);
            let ghost step = |p: ResponsesProgress, piece: JsonView| p.call(piece);
            assert(views.take(0) =~= Seq::empty());
            for i in 0..pieces.len()
                invariant
                    views == json::json_views(pieces@),
                    step == (|p: ResponsesProgress, piece: JsonView| p.call(piece)),
                    progress(*state, events@) == views.take(i as int).fold_left(spoken, step),
            {
                assert(views.take(i + 1).drop_last() =~= views.take(i as int));
                transform_tool_call(&pieces[i], state, events);
            }
            assert(views.take(views.len() as int) =~= views);
        },
        None => {},
    }
    if choice.has_text("finish_reason", "tool_calls") {
        finish_tool_calls(state, events);
    }
}

/// Converts one chunk of a Chat Completions stream. `None` where nothing is to
/// be sent for it.
pub fn transform_sse_chunk(chunk: &Json, state: &mut ChatToResponsesStreamState) -> (r: Option<
    String,
>)
    ensures
        final(state)@ == ResponsesProgress::from(old(state)@).after(chunk@).state,
        json::string_of(r) == common::sent(
            ResponsesProgress::from(old(state)@).after(chunk@).events,
        ),
{
    let mut events: Vec<SseEvent> = Vec::new();
    assert(common::event_views(events@) =~= Seq::empty());
    emit_stream_headers(state, &mut events);
    match chunk.array_at("choices") {
        Some(choices) => if choices.len() > 0 {
            transform_choice(&choices[0], state, &mut events);
        },
        None => {},
    }
    let ghost before = progress(*state, events@);
    note_usage(chunk, state);
    assert(progress(*state, events@) == before.meter(chunk@));
    print_events(&events)
}

fn contains_call(calls: &Vec<ToolCallState>, id: &str) -> (r: bool)
    ensures
        r == has_call(call_views(calls@), id@),
{
    for i in 0..calls.len()
        invariant
            forall|j: int| 0 <= j < i ==> (#[trigger] call_views(calls@)[j]).id != id@,
    {
        if same_text(calls[i].id.as_str(), id) {
            assert(call_views(calls@)[i as int].id == id@);
            return true;
        }
    }
    false
}

/// The tool calls that were not completed before the end of the stream.
pub fn remaining_calls(state: &ChatToResponsesStreamState) -> (r: Vec<ToolCallState>)
    ensures
        call_views(r@) == open_calls(state@),
{
    let mut r: Vec<ToolCallState> = Vec::new();
    let ghost views = state@.active;
    let ghost wanted = |call: ToolCallView| !has_call(state@.finished, call.id);
    proof {
        reveal(Seq::filter);
        assert(call_views(r@) =~= views.take(0).filter(wanted));
    }
    for i in 0..state.active_tool_calls.len()
        invariant
            views == state@.active,
            wanted == (|call: ToolCallView| !has_call(state@.finished, call.id)),
            call_views(r@) == views.take(i as int).filter(wanted),
    {
        proof {
            lists::lemma_filter_take_succ(views, wanted, i as int);
        }
        let call = &state.active_tool_calls[i];
        if !contains_call(&state.completed_tool_calls, call.id.as_str()) {
            let ghost before = r@;
            let copy = call.clone();
            let ghost view = copy@;
            r.push(copy);
            assert(call_views(r@) =~= call_views(before).push(view));
        }
    }
    assert(views.take(views.len() as int) =~= views);
    r
}

fn push_call_items(calls: &Vec<ToolCallState>, items: &mut Vec<Json>)
    ensures
        json::json_views(final(items)@) == json::json_views(old(items)@) + call_views(
            calls@,
        ).map_values(|call: ToolCallView| call_item(call, call.arguments, "completed"@)),
{
    let ghost before = json::json_views(items@);
    let ghost views = call_views(calls@);
    for i in 0..calls.len()
        invariant
            views == call_views(calls@),
            json::json_views(items@) =~= before + views.take(i as int).map_values(
                |call: ToolCallView| call_item(call, call.arguments, "completed"@),
            ),
    {
        items.push(make_call_item(&calls[i], calls[i].arguments.as_str(), "completed"));
    }
    assert(views.take(views.len() as int) =~= views);
}

/// The items of the output of a completed response.
pub fn output_items(state: &ChatToResponsesStreamState) -> (r: Vec<Json>)
    ensures
        json::json_views(r@) == final_output(state@),
{
    let mut items: Vec<Json> = Vec::new();
    if state.full_text.as_str().unicode_len() > 0 {
        items.push(make_closed_message(state.msg_id.as_str(), state.full_text.as_str()));
    }
    push_call_items(&state.completed_tool_calls, &mut items);
    push_call_items(&remaining_calls(state), &mut items);
    assert(json::json_views(items@) =~= final_output(state@));
    items
}

pub fn make_usage_totals(input: u64, output: u64) -> (r: Json)
    ensures
        r@ == usage_totals(input, output),
{
    Json::Object(
        Object::new().with("input_tokens", Json::unsigned(input)).with(
            "output_tokens",
            Json::unsigned(output),
        ).with("total_tokens", Json::unsigned(input.wrapping_add(output))),
    )
}

/// Completes everything that is open at the end of the stream. `None` where
/// that was done before.
pub fn flush_stream_completion(state: &mut ChatToResponsesStreamState) -> (r: Option<String>)
    ensures
        final(state)@ == ResponsesProgress::from(old(state)@).finish().state,
        json::string_of(r) == common::sent(ResponsesProgress::from(old(state)@).finish().events),
{
    if state.completed {
        return None;
    }
    state.completed = true;
    let mut events: Vec<SseEvent> = Vec::new();
    assert(common::event_views(events@) =~= Seq::empty());
    close_msg_item(state, &mut events);
    emit_calls_done(&remaining_calls(state), &mut events);
    let response = make_completed_response(
        state.resp_id.as_str(),
        state.created,
        state.model.as_str(),
        output_items(state),
        make_usage_totals(state.total_input, state.total_output),
    );
    emit(&mut events, make_response_event("response.completed", response));
    emit_done(&mut events);
    print_events(&events)
}

/// Converts one line of a Chat Completions stream to the Responses API. `None`
/// where nothing is to be sent for it.
pub fn chat_sse_to_responses_sse(line: &str, state: &mut ChatToResponsesStreamState) -> (r: Option<
    String,
>)
    ensures
        final(state)@ == ResponsesProgress::from(old(state)@).line(line@).state,
        json::string_of(r) == common::sent(
            ResponsesProgress::from(old(state)@).line(line@).events,
        ),
{
    match read_chunk(line) {
        Chunk::Value(chunk) => transform_sse_chunk(&chunk, state),
        Chunk::End => flush_stream_completion(state),
        Chunk::Nothing => None,
    }
}

} // verus!
