//! Streaming: Chat Completions events to Anthropic Messages events.

use crate::json;
use crate::json::{Json, JsonView};
use crate::text::same_text;
use crate::transform::anthropic;
use crate::transform::anthropic::{
    emit_message_end, make_block_delta, make_block_start, make_block_stop, make_message_start,
};
use crate::transform::common;
use crate::transform::common::{
    emit, make_id, print_events, read_chunk, Chunk, ChunkView, SseEvent, SseEventView,
};
use vstd::prelude::*;

verus! {

broadcast use crate::json::group_json_views;

/// State for converting a Chat Completions stream to an Anthropic stream.
pub struct ChatToAnthropicStreamState {
    pub msg_id: String,
    pub model: String,
    pub full_text: String,
    pub headers_emitted: bool,
    pub content_block_started: bool,
    pub completed: bool,
}

/// What the state of a stream is.
pub struct ChatToAnthropicView {
    pub msg_id: Seq<char>,
    pub model: Seq<char>,
    pub full_text: Seq<char>,
    pub headers_emitted: bool,
    pub content_block_started: bool,
    pub completed: bool,
}

impl View for ChatToAnthropicStreamState {
    type V = ChatToAnthropicView;

    open spec fn view(&self) -> ChatToAnthropicView {
        ChatToAnthropicView {
            msg_id: self.msg_id@,
            model: self.model@,
            full_text: self.full_text@,
            headers_emitted: self.headers_emitted,
            content_block_started: self.content_block_started,
            completed: self.completed,
        }
    }
}

impl ChatToAnthropicView {
    /// The state before the first chunk.
    pub open spec fn initial(msg_id: Seq<char>, model: Seq<char>) -> ChatToAnthropicView {
        ChatToAnthropicView {
            msg_id,
            model,
            full_text: Seq::empty(),
            headers_emitted: false,
            content_block_started: false,
            completed: false,
        }
    }
}

impl ChatToAnthropicStreamState {
    /// The state of a stream that has not begun, under a fresh identifier.
    pub fn new(model: &str) -> (r: ChatToAnthropicStreamState)
        ensures
            r@ == ChatToAnthropicView::initial(r@.msg_id, model@),
            common::is_id_for("msg"@, r@.msg_id),
    {
        ChatToAnthropicStreamState {
            msg_id: make_id("msg"),
            model: model.to_string(),
            full_text: String::new(),
            headers_emitted: false,
            content_block_started: false,
            completed: false,
        }
    }
}

/// The state of a stream, and the events that were emitted on the way to it.
pub struct AnthropicProgress {
    pub state: ChatToAnthropicView,
    pub events: Seq<SseEventView>,
}

impl AnthropicProgress {
    pub open spec fn from(state: ChatToAnthropicView) -> AnthropicProgress {
        AnthropicProgress { state, events: Seq::empty() }
    }

    pub open spec fn emit(self, v: JsonView) -> AnthropicProgress {
        AnthropicProgress { events: self.events.push(SseEventView::Data(v)), ..self }
    }

    /// The event that begins a message, once.
    pub open spec fn open(self) -> AnthropicProgress {
        if self.state.headers_emitted {
            self
        } else {
            AnthropicProgress {
                state: ChatToAnthropicView { headers_emitted: true, ..self.state },
                ..self
            }.emit(anthropic::message_start(self.state.msg_id, self.state.model))
        }
    }

    /// The event that begins the block of text, once.
    pub open spec fn open_block(self) -> AnthropicProgress {
        if self.state.content_block_started {
            self
        } else {
            AnthropicProgress {
                state: ChatToAnthropicView { content_block_started: true, ..self.state },
                ..self
            }.emit(anthropic::block_start())
        }
    }

    /// A piece of the message's text.
    pub open spec fn say(self, delta: Seq<char>) -> AnthropicProgress {
        if delta.len() > 0 {
            let opened = self.open_block();
            AnthropicProgress {
                state: ChatToAnthropicView {
                    full_text: opened.state.full_text + delta,
                    ..opened.state
                },
                ..opened
            }.emit(anthropic::block_delta("text_delta"@, "text"@, delta))
        } else {
            self
        }
    }

    /// A piece of the reasoning.
    pub open spec fn reason(self, delta: Seq<char>) -> AnthropicProgress {
        if delta.len() > 0 {
            self.emit(anthropic::block_delta("thinking_delta"@, "thinking"@, delta))
        } else {
            self
        }
    }

    /// The end of the message, and of its block of text if that has begun.
    pub open spec fn complete(self, stop_reason: Seq<char>) -> AnthropicProgress {
        let stopped = if self.state.content_block_started {
            self.emit(anthropic::block_stop())
        } else {
            self
        };
        AnthropicProgress {
            state: ChatToAnthropicView { completed: true, ..stopped.state },
            events: stopped.events + anthropic::message_end(stop_reason, 0, 0),
        }
    }

    /// A choice of a chunk: text, reasoning, and the end of these.
    pub open spec fn choice(self, choice: JsonView) -> AnthropicProgress {
        let delta = choice.field_or("delta"@, JsonView::Object(Map::empty()));
        let spoken = self.say(delta.text_or("content"@, ""@)).reason(
            delta.text_or("reasoning_content"@, ""@),
        );
        match choice.text_at("finish_reason"@) {
            Some(reason) => spoken.complete(
                if reason == "tool_calls"@ {
                    "tool_use"@
                } else {
                    "end_turn"@
                },
            ),
            None => spoken,
        }
    }

    /// A chunk of the stream.
    pub open spec fn after(self, chunk: JsonView) -> AnthropicProgress {
        match chunk.array_at("choices"@) {
            Some(choices) => if choices.len() > 0 {
                self.open().choice(choices[0])
            } else {
                self.open()
            },
            None => self.open(),
        }
    }

    /// The line that ends the stream.
    pub open spec fn end(self) -> AnthropicProgress {
        if self.state.completed {
            self
        } else {
            self.complete("end_turn"@)
        }
    }

    /// The end of a stream without a line that says so.
    pub open spec fn finish(self) -> AnthropicProgress {
        if self.state.completed {
            self
        } else {
            self.open().complete("end_turn"@)
        }
    }

    /// A line of the stream.
    pub open spec fn line(self, line: Seq<char>) -> AnthropicProgress {
        match common::chunk_in(line) {
            ChunkView::Value(chunk) => self.after(chunk),
            ChunkView::End => self.end(),
            ChunkView::Nothing => self,
        }
    }
}

pub open spec fn progress(
    state: ChatToAnthropicStreamState,
    events: Seq<SseEvent>,
) -> AnthropicProgress {
    AnthropicProgress { state: state@, events: common::event_views(events) }
}

fn emit_start(state: &mut ChatToAnthropicStreamState, events: &mut Vec<SseEvent>)
    ensures
        progress(*final(state), final(events)@) == progress(*old(state), old(events)@).open(),
{
    if !state.headers_emitted {
        state.headers_emitted = true;
        emit(events, make_message_start(state.msg_id.as_str(), state.model.as_str()));
    }
}

/// Handles the end of the message.
pub fn complete(
    stop_reason: &str,
    state: &mut ChatToAnthropicStreamState,
    events: &mut Vec<SseEvent>,
)
    ensures
        progress(*final(state), final(events)@) == progress(*old(state), old(events)@).complete(
            stop_reason@,
        ),
{
    if state.content_block_started {
        emit(events, make_block_stop());
    }
    emit_message_end(stop_reason, 0, 0, events);
    state.completed = true;
}

/// Handles a choice of a chunk.
pub fn transform_choice(
    choice: &Json,
    state: &mut ChatToAnthropicStreamState,
    events: &mut Vec<SseEvent>,
)
    ensures
        progress(*final(state), final(events)@) == progress(*old(state), old(events)@).choice(
            choice@,
        ),
{
    let delta = choice.field_or("delta", Json::empty_object());
    proof {
        reveal_strlit("");
    }
    let content = delta.text_or("content", "");
    if content.unicode_len() > 0 {
        if !state.content_block_started {
            state.content_block_started = true;
            emit(events, make_block_start());
        }
        state.full_text.append(content);
        emit(events, make_block_delta("text_delta", "text", content));
    }
    let reasoning = delta.text_or("reasoning_content", "");
    if reasoning.unicode_len() > 0 {
        emit(events, make_block_delta("thinking_delta", "thinking", reasoning));
    }
    match choice.text_at("finish_reason") {
        Some(reason) => if same_text(reason, "tool_calls") {
            complete("tool_use", state, events);
        } else {
            complete("end_turn", state, events);
        },
        None => {},
    }
}

/// Converts one chunk of a Chat Completions stream. `None` where nothing is to
/// be sent for it.
pub fn transform_chat_chunk(chunk: &Json, state: &mut ChatToAnthropicStreamState) -> (r: Option<
    String,
>)
    ensures
        final(state)@ == AnthropicProgress::from(old(state)@).after(chunk@).state,
        json::string_of(r) == common::sent(
            AnthropicProgress::from(old(state)@).after(chunk@).events,
        ),
{
    let mut events: Vec<SseEvent> = Vec::new();
    assert(common::event_views(events@) =~= Seq::empty());
    emit_start(state, &mut events);
    match chunk.array_at("choices") {
        Some(choices) => if choices.len() > 0 {
            transform_choice(&choices[0], state, &mut events);
        },
        None => {},
    }
    print_events(&events)
}

/// Converts one line of a Chat Completions stream to Anthropic Messages. `None`
/// where nothing is to be sent for it.
pub fn chat_sse_to_anthropic_sse(line: &str, state: &mut ChatToAnthropicStreamState) -> (r: Option<
    String,
>)
    ensures
        final(state)@ == AnthropicProgress::from(old(state)@).line(line@).state,
        json::string_of(r) == common::sent(
            AnthropicProgress::from(old(state)@).line(line@).events,
        ),
{
    match read_chunk(line) {
        Chunk::Value(chunk) => transform_chat_chunk(&chunk, state),
        Chunk::End => {
            if state.completed {
                return None;
            }
            let mut events: Vec<SseEvent> = Vec::new();
            assert(common::event_views(events@) =~= Seq::empty());
            complete("end_turn", state, &mut events);
            print_events(&events)
        },
        Chunk::Nothing => None,
    }
}

/// Flushes a stream that ended without `[DONE]`: emits `content_block_stop`,
/// `message_delta` and `message_stop`, so that the client receives a properly
/// terminated stream. `None` where the stream was terminated before.
pub fn flush_chat_to_anthropic(state: &mut ChatToAnthropicStreamState) -> (r: Option<String>)
    ensures
        final(state)@ == AnthropicProgress::from(old(state)@).finish().state,
        json::string_of(r) == common::sent(AnthropicProgress::from(old(state)@).finish().events),
{
    if state.completed {
        return None;
    }
    let mut events: Vec<SseEvent> = Vec::new();
    assert(common::event_views(events@) =~= Seq::empty());
    emit_start(state, &mut events);
    complete("end_turn", state, &mut events);
    print_events(&events)
}

} // verus!
