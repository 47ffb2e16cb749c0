//! Streaming: Responses API events to Anthropic Messages events.

use crate::json;
use crate::json::{Json, JsonView};
use crate::transform::anthropic;
use crate::transform::anthropic::{
    emit_message_end, make_block_delta, make_block_start, make_block_stop, make_message_start,
};
use crate::transform::common;
use crate::transform::common::{
    emit, make_id, print_events, read_chunk, Chunk, ChunkView, SseEvent, SseEventView,
};
use vstd::prelude::*;

verus! {

/// State for converting a Responses API stream to an Anthropic stream.
pub struct ResponsesToAnthropicStreamState {
    pub msg_id: String,
    pub model: String,
    pub full_text: String,
    pub headers_emitted: bool,
    pub completed: bool,
}

/// What the state of a stream is.
pub struct ResponsesToAnthropicView {
    pub msg_id: Seq<char>,
    pub model: Seq<char>,
    pub full_text: Seq<char>,
    pub headers_emitted: bool,
    pub completed: bool,
}

impl View for ResponsesToAnthropicStreamState {
    type V = ResponsesToAnthropicView;

    open spec fn view(&self) -> ResponsesToAnthropicView {
        ResponsesToAnthropicView {
            msg_id: self.msg_id@,
            model: self.model@,
            full_text: self.full_text@,
            headers_emitted: self.headers_emitted,
            completed: self.completed,
        }
    }
}

impl ResponsesToAnthropicView {
    /// The state before the first event.
    pub open spec fn initial(msg_id: Seq<char>, model: Seq<char>) -> ResponsesToAnthropicView {
        ResponsesToAnthropicView {
            msg_id,
            model,
            full_text: Seq::empty(),
            headers_emitted: false,
            completed: false,
        }
    }
}

impl ResponsesToAnthropicStreamState {
    /// The state of a stream that has not begun, under a fresh identifier.
    pub fn new(model: &str) -> (r: ResponsesToAnthropicStreamState)
        ensures
            r@ == ResponsesToAnthropicView::initial(r@.msg_id, model@),
            common::is_id_for("msg"@, r@.msg_id),
    {
        ResponsesToAnthropicStreamState {
            msg_id: make_id("msg"),
            model: model.to_string(),
            full_text: String::new(),
            headers_emitted: false,
            completed: false,
        }
    }
}

/// The state of a stream, and the events that were emitted on the way to it.
pub struct AnthropicProgress {
    pub state: ResponsesToAnthropicView,
    pub events: Seq<SseEventView>,
}

impl AnthropicProgress {
    pub open spec fn from(state: ResponsesToAnthropicView) -> AnthropicProgress {
        AnthropicProgress { state, events: Seq::empty() }
    }

    pub open spec fn emit(self, v: JsonView) -> AnthropicProgress {
        AnthropicProgress { events: self.events.push(SseEventView::Data(v)), ..self }
    }

    /// The events that begin a message and its block of text, once.
    pub open spec fn open(self) -> AnthropicProgress {
        if self.state.headers_emitted {
            self
        } else {
            AnthropicProgress {
                state: ResponsesToAnthropicView { headers_emitted: true, ..self.state },
                ..self
            }.emit(anthropic::message_start(self.state.msg_id, self.state.model)).emit(
                anthropic::block_start(),
            )
        }
    }

    /// A piece of the message's text.
    pub open spec fn say(self, delta: Seq<char>) -> AnthropicProgress {
        if delta.len() > 0 {
            AnthropicProgress {
                state: ResponsesToAnthropicView {
                    full_text: self.state.full_text + delta,
                    ..self.state
                },
                ..self
            }.emit(anthropic::block_delta("text_delta"@, "text"@, delta))
        } else {
            self
        }
    }

    /// A piece of the reasoning.
    pub open spec fn reason(self, delta: Seq<char>) -> AnthropicProgress {
        if delta.len() > 0 {
            self.emit(anthropic::block_delta("thinking_delta"@, "thinking"@, delta))
        } else {
            self
        }
    }

    /// The end of the response, with the token counts that it reports.
    pub open spec fn complete(self, response: JsonView) -> AnthropicProgress {
        let usage = response.field_or("usage"@, JsonView::Object(Map::empty()));
        let stopped = self.emit(anthropic::block_stop());
        AnthropicProgress {
            state: ResponsesToAnthropicView { completed: true, ..stopped.state },
            events: stopped.events + anthropic::message_end(
                "end_turn"@,
                usage.count_at("input_tokens"@),
                usage.count_at("output_tokens"@),
            ),
        }
    }

    /// An event of the stream.
    pub open spec fn after(self, chunk: JsonView) -> AnthropicProgress {
        let kind = chunk.text_at("type"@);
        let opened = self.open();
        if kind == Some("response.output_text.delta"@) {
            opened.say(chunk.text_or("delta"@, ""@))
        } else if kind == Some("response.reasoning_text.delta"@) {
            opened.reason(chunk.text_or("delta"@, ""@))
        } else if kind == Some("response.completed"@) {
            opened.complete(chunk.field_or("response"@, JsonView::Null))
        } else {
            opened
        }
    }

    /// The end of a stream whose response did not end.
    pub open spec fn finish(self) -> AnthropicProgress {
        if self.state.completed {
            self
        } else {
            self.open().complete(JsonView::Null)
        }
    }

    /// A line of the stream. The line that ends the stream shows nothing here.
    pub open spec fn line(self, line: Seq<char>) -> AnthropicProgress {
        match common::chunk_in(line) {
            ChunkView::Value(chunk) => self.after(chunk),
            _ => self,
        }
    }
}

pub open spec fn progress(
    state: ResponsesToAnthropicStreamState,
    events: Seq<SseEvent>,
) -> AnthropicProgress {
    AnthropicProgress { state: state@, events: common::event_views(events) }
}

fn emit_start(state: &mut ResponsesToAnthropicStreamState, events: &mut Vec<SseEvent>)
    ensures
        progress(*final(state), final(events)@) == progress(*old(state), old(events)@).open(),
{
    if !state.headers_emitted {
        state.headers_emitted = true;
        emit(events, make_message_start(state.msg_id.as_str(), state.model.as_str()));
        emit(events, make_block_start());
    }
}

/// Handles the end of the response.
pub fn complete(
    response: &Json,
    state: &mut ResponsesToAnthropicStreamState,
    events: &mut Vec<SseEvent>,
)
    ensures
        progress(*final(state), final(events)@) == progress(*old(state), old(events)@).complete(
            response@,
        ),
{
    let usage = response.field_or("usage", Json::empty_object());
    emit(events, make_block_stop());
    emit_message_end(
        "end_turn",
        usage.count_at("input_tokens"),
        usage.count_at("output_tokens"),
        events,
    );
    state.completed = true;
}

/// Converts one event of a Responses stream. `None` where nothing is to be sent
/// for it.
pub fn transform_responses_event(
    chunk: &Json,
    state: &mut ResponsesToAnthropicStreamState,
) -> (r: Option<String>)
    ensures
        final(state)@ == AnthropicProgress::from(old(state)@).after(chunk@).state,
        json::string_of(r) == common::sent(
            AnthropicProgress::from(old(state)@).after(chunk@).events,
        ),
{
    let mut events: Vec<SseEvent> = Vec::new();
    assert(common::event_views(events@) =~= Seq::empty());
    emit_start(state, &mut events);
    if chunk.has_text("type", "response.output_text.delta") {
        let delta = chunk.text_or("delta", "");
        if delta.unicode_len() > 0 {
            state.full_text.append(delta);
            emit(&mut events, make_block_delta("text_delta", "text", delta));
        }
    } else if chunk.has_text("type", "response.reasoning_text.delta") {
        let delta = chunk.text_or("delta", "");
        if delta.unicode_len() > 0 {
            emit(&mut events, make_block_delta("thinking_delta", "thinking", delta));
        }
    } else if chunk.has_text("type", "response.completed") {
        complete(&chunk.field_or("response", Json::Null), state, &mut events);
    }
    print_events(&events)
}

/// Converts one line of a Responses API stream to Anthropic Messages. `None`
/// where nothing is to be sent for it.
pub fn responses_sse_to_anthropic_sse(
    line: &str,
    state: &mut ResponsesToAnthropicStreamState,
) -> (r: Option<String>)
    ensures
        final(state)@ == AnthropicProgress::from(old(state)@).line(line@).state,
        json::string_of(r) == common::sent(
            AnthropicProgress::from(old(state)@).line(line@).events,
        ),
{
    match read_chunk(line) {
        Chunk::Value(chunk) => transform_responses_event(&chunk, state),
        _ => None,
    }
}

/// Flushes a stream that ended without `response.completed`: emits
/// `content_block_stop`, `message_delta` and `message_stop`, so that the client
/// receives a properly terminated stream. `None` where the stream was terminated
/// before.
pub fn flush_responses_to_anthropic(state: &mut ResponsesToAnthropicStreamState) -> (r: Option<
    String,
>)
    ensures
        final(state)@ == AnthropicProgress::from(old(state)@).finish().state,
        json::string_of(r) == common::sent(AnthropicProgress::from(old(state)@).finish().events),
{
    if state.completed {
        return None;
    }
    let mut events: Vec<SseEvent> = Vec::new();
    assert(common::event_views(events@) =~= Seq::empty());
    emit_start(state, &mut events);
    complete(&Json::Null, state, &mut events);
    print_events(&events)
}

} // verus!
