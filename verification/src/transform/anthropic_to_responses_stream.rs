//! Streaming: Anthropic Messages events to Responses API events.

use crate::json;
use crate::json::{no_items, Json, JsonView};
use crate::transform::chat_to_responses_stream;
use crate::transform::chat_to_responses_stream::{
    emit_closing, emit_opening, make_closed_message, make_delta_event, make_response_event,
    make_usage_totals,
};
use crate::transform::common;
use crate::transform::common::{
    emit, emit_done, make_id, now_secs, print_events, read_value, SseEvent, SseEventView,
};
use crate::transform::responses_chat;
use crate::transform::responses_chat::make_completed_response;
use vstd::prelude::*;

verus! {

broadcast use crate::json::group_json_views;

/// State for converting an Anthropic stream to a Responses API stream.
pub struct AnthropicToResponsesStreamState {
    pub resp_id: String,
    pub msg_id: String,
    pub model: String,
    pub created: u64,
    pub full_text: String,
    pub total_input: u64,
    pub total_output: u64,
    pub msg_closed: bool,
    pub output_index: usize,
    pub headers_emitted: bool,
    pub completed: bool,
}

/// What the state of a stream is.
pub struct AnthropicToResponsesView {
    pub resp_id: Seq<char>,
    pub msg_id: Seq<char>,
    pub model: Seq<char>,
    pub created: u64,
    pub full_text: Seq<char>,
    pub total_input: u64,
    pub total_output: u64,
    pub msg_closed: bool,
    pub output_index: usize,
    pub headers_emitted: bool,
    pub completed: bool,
}

impl View for AnthropicToResponsesStreamState {
    type V = AnthropicToResponsesView;

    open spec fn view(&self) -> AnthropicToResponsesView {
        AnthropicToResponsesView {
            resp_id: self.resp_id@,
            msg_id: self.msg_id@,
            model: self.model@,
            created: self.created,
            full_text: self.full_text@,
            total_input: self.total_input,
            total_output: self.total_output,
            msg_closed: self.msg_closed,
            output_index: self.output_index,
            headers_emitted: self.headers_emitted,
            completed: self.completed,
        }
    }
}

impl AnthropicToResponsesView {
    /// The state before the first event.
    pub open spec fn initial(
        resp_id: Seq<char>,
        msg_id: Seq<char>,
        model: Seq<char>,
        created: u64,
    ) -> AnthropicToResponsesView {
        AnthropicToResponsesView {
            resp_id,
            msg_id,
            model,
            created,
            full_text: Seq::empty(),
            total_input: 0,
            total_output: 0,
            msg_closed: false,
            output_index: 0,
            headers_emitted: false,
            completed: false,
        }
    }
}

impl AnthropicToResponsesStreamState {
    /// The state of a stream that has not begun, under fresh identifiers.
    pub fn new(model: &str) -> (r: AnthropicToResponsesStreamState)
        ensures
            r@ == AnthropicToResponsesView::initial(r@.resp_id, r@.msg_id, model@, r@.created),
            common::is_id_for("resp"@, r@.resp_id),
            common::is_id_for("msg"@, r@.msg_id),
            common::is_clock_reading(r@.created),
    {
        AnthropicToResponsesStreamState {
            resp_id: make_id("resp"),
            msg_id: make_id("msg"),
            model: model.to_string(),
            created: now_secs(),
            full_text: String::new(),
            total_input: 0,
            total_output: 0,
            msg_closed: false,
            output_index: 0,
            headers_emitted: false,
            completed: false,
        }
    }
}

/// The state of a stream, and the events that were emitted on the way to it.
pub struct ResponsesProgress {
    pub state: AnthropicToResponsesView,
    pub events: Seq<SseEventView>,
}

impl ResponsesProgress {
    pub open spec fn from(state: AnthropicToResponsesView) -> ResponsesProgress {
        ResponsesProgress { state, events: Seq::empty() }
    }

    pub open spec fn emit(self, v: JsonView) -> ResponsesProgress {
        ResponsesProgress { events: self.events.push(SseEventView::Data(v)), ..self }
    }

    /// The events that begin a response, once.
    pub open spec fn open(self) -> ResponsesProgress {
        if self.state.headers_emitted {
            self
        } else {
            ResponsesProgress {
                state: AnthropicToResponsesView { headers_emitted: true, ..self.state },
                events: self.events + chat_to_responses_stream::opening_events(
                    self.state.resp_id,
                    self.state.msg_id,
                    self.state.created,
                    self.state.model,
                ),
            }
        }
    }

    /// A piece of the message's text.
    pub open spec fn say(self, delta: Seq<char>) -> ResponsesProgress {
        if delta.len() > 0 {
            ResponsesProgress {
                state: AnthropicToResponsesView {
                    full_text: self.state.full_text + delta,
                    ..self.state
                },
                ..self
            }.emit(
                chat_to_responses_stream::delta_event(
                    "response.output_text.delta"@,
                    self.state.msg_id,
                    delta,
                ),
            )
        } else {
            self
        }
    }

    /// A piece of the reasoning.
    pub open spec fn reason(self, delta: Seq<char>) -> ResponsesProgress {
        if delta.len() > 0 {
            self.emit(
                chat_to_responses_stream::delta_event(
                    "response.reasoning_text.delta"@,
                    self.state.msg_id,
                    delta,
                ),
            )
        } else {
            self
        }
    }

    /// A piece of a block. Only text and thinking show.
    pub open spec fn add(self, delta: JsonView) -> ResponsesProgress {
        if delta.text_at("type"@) == Some("text_delta"@) {
            self.say(delta.text_or("text"@, ""@))
        } else if delta.text_at("type"@) == Some("thinking_delta"@) {
            self.reason(delta.text_or("thinking"@, ""@))
        } else {
            self
        }
    }

    /// The events that complete the message, once.
    pub open spec fn close_message(self) -> ResponsesProgress {
        if self.state.msg_closed {
            self
        } else {
            ResponsesProgress {
                state: AnthropicToResponsesView { msg_closed: true, ..self.state },
                events: self.events + chat_to_responses_stream::closing_events(
                    self.state.msg_id,
                    self.state.full_text,
                ),
            }
        }
    }

    /// The end of the message.
    pub open spec fn stop(self) -> ResponsesProgress {
        let closed = self.close_message();
        let state = closed.state;
        let done = ResponsesProgress {
            state: AnthropicToResponsesView { completed: true, ..state },
            ..closed
        }.emit(
            chat_to_responses_stream::response_event(
                "response.completed"@,
                responses_chat::completed_response(
                    state.resp_id,
                    state.created,
                    state.model,
                    seq![chat_to_responses_stream::closed_message(state.msg_id, state.full_text)],
                    chat_to_responses_stream::usage_totals(state.total_input, state.total_output),
                ),
            ),
        );
        ResponsesProgress { events: done.events.push(SseEventView::Done), ..done }
    }

    /// An event of the stream.
    pub open spec fn after(self, chunk: JsonView) -> ResponsesProgress {
        let kind = chunk.text_at("type"@);
        let opened = self.open();
        if kind == Some("content_block_delta"@) {
            opened.add(chunk.field_or("delta"@, JsonView::Null))
        } else if kind == Some("message_delta"@) {
            match chunk.field("usage"@) {
                Some(usage) => ResponsesProgress {
                    state: AnthropicToResponsesView {
                        total_output: usage.count_at("output_tokens"@),
                        ..opened.state
                    },
                    ..opened
                },
                None => opened,
            }
        } else if kind == Some("message_start"@) {
            match chunk.field_or("message"@, JsonView::Null).field("usage"@) {
                Some(usage) => ResponsesProgress {
                    state: AnthropicToResponsesView {
                        total_input: usage.count_at("input_tokens"@),
                        ..opened.state
                    },
                    ..opened
                },
                None => opened,
            }
        } else if kind == Some("message_stop"@) {
            opened.stop()
        } else {
            opened
        }
    }

    /// The end of a stream whose message did not end.
    pub open spec fn finish(self) -> ResponsesProgress {
        if self.state.completed {
            self
        } else {
            self.open().stop()
        }
    }

    /// A line of the stream.
    pub open spec fn line(self, line: Seq<char>) -> ResponsesProgress {
        match common::value_in(line) {
            Some(chunk) => self.after(chunk),
            None => self,
        }
    }
}

pub open spec fn progress(
    state: AnthropicToResponsesStreamState,
    events: Seq<SseEvent>,
) -> ResponsesProgress {
    ResponsesProgress { state: state@, events: common::event_views(events) }
}

fn emit_headers(state: &mut AnthropicToResponsesStreamState, events: &mut Vec<SseEvent>)
    ensures
        progress(*final(state), final(events)@) == progress(*old(state), old(events)@).open(),
{
    if !state.headers_emitted {
        state.headers_emitted = true;
        emit_opening(
            state.resp_id.as_str(),
            state.msg_id.as_str(),
            state.created,
            state.model.as_str(),
            events,
        );
    }
}

/// Handles a piece of a block.
pub fn add_delta(
    delta: &Json,
    state: &mut AnthropicToResponsesStreamState,
    events: &mut Vec<SseEvent>,
)
    ensures
        progress(*final(state), final(events)@) == progress(*old(state), old(events)@).add(
            delta@,
        ),
{
    if delta.has_text("type", "text_delta") {
        let s = delta.text_or("text", "");
        if s.unicode_len() > 0 {
            state.full_text.append(s);
            emit(
                events,
                make_delta_event("response.output_text.delta", state.msg_id.as_str(), s),
            );
        }
    } else if delta.has_text("type", "thinking_delta") {
        let s = delta.text_or("thinking", "");
        if s.unicode_len() > 0 {
            emit(
                events,
                make_delta_event("response.reasoning_text.delta", state.msg_id.as_str(), s),
            );
        }
    }
}

/// Handles the end of the message.
pub fn stop_message(state: &mut AnthropicToResponsesStreamState, events: &mut Vec<SseEvent>)
    ensures
        progress(*final(state), final(events)@) == progress(*old(state), old(events)@).stop(),
{
    if !state.msg_closed {
        state.msg_closed = true;
        emit_closing(state.msg_id.as_str(), state.full_text.as_str(), events);
    }
    state.completed = true;
    let mut output = no_items();
    output.push(make_closed_message(state.msg_id.as_str(), state.full_text.as_str()));
    let response = make_completed_response(
        state.resp_id.as_str(),
        state.created,
        state.model.as_str(),
        output,
        make_usage_totals(state.total_input, state.total_output),
    );
    emit(events, make_response_event("response.completed", response));
    emit_done(events);
}

/// Converts one event of an Anthropic stream. `None` where nothing is to be sent
/// for it.
pub fn transform_anthropic_event(
    chunk: &Json,
    state: &mut AnthropicToResponsesStreamState,
) -> (r: Option<String>)
    ensures
        final(state)@ == ResponsesProgress::from(old(state)@).after(chunk@).state,
        json::string_of(r) == common::sent(
            ResponsesProgress::from(old(state)@).after(chunk@).events,
        ),
{
    let mut events: Vec<SseEvent> = Vec::new();
    assert(common::event_views(events@) =~= Seq::empty());
    emit_headers(state, &mut events);
    if chunk.has_text("type", "content_block_delta") {
        add_delta(&chunk.field_or("delta", Json::Null), state, &mut events);
    } else if chunk.has_text("type", "message_delta") {
        match chunk.get("usage") {
            Some(usage) => state.total_output = usage.count_at("output_tokens"),
            None => {},
        }
    } else if chunk.has_text("type", "message_start") {
        match chunk.field_or("message", Json::Null).get("usage") {
            Some(usage) => state.total_input = usage.count_at("input_tokens"),
            None => {},
        }
    } else if chunk.has_text("type", "message_stop") {
        stop_message(state, &mut events);
    }
    print_events(&events)
}

/// Converts one line of an Anthropic stream to the Responses API. `None` where
/// nothing is to be sent for it.
pub fn anthropic_sse_to_responses_sse(
    line: &str,
    state: &mut AnthropicToResponsesStreamState,
) -> (r: Option<String>)
    ensures
        final(state)@ == ResponsesProgress::from(old(state)@).line(line@).state,
        json::string_of(r) == common::sent(
            ResponsesProgress::from(old(state)@).line(line@).events,
        ),
{
    match read_value(line) {
        Some(chunk) => transform_anthropic_event(&chunk, state),
        None => None,
    }
}

/// Flushes a stream that ended without `message_stop`: completes the message and
/// the response, so that the client receives a properly terminated stream. `None`
/// where the stream was terminated before.
pub fn flush_anthropic_to_responses(state: &mut AnthropicToResponsesStreamState) -> (r: Option<
    String,
>)
    ensures
        final(state)@ == ResponsesProgress::from(old(state)@).finish().state,
        json::string_of(r) == common::sent(ResponsesProgress::from(old(state)@).finish().events),
{
    if state.completed {
        return None;
    }
    let mut events: Vec<SseEvent> = Vec::new();
    assert(common::event_views(events@) =~= Seq::empty());
    emit_headers(state, &mut events);
    stop_message(state, &mut events);
    print_events(&events)
}

} // verus!
