//! Streaming: Anthropic Messages events to Chat Completions events.

use crate::json;
use crate::json::{Json, JsonView};
use crate::text::same_text;
use crate::transform::common;
use crate::transform::common::{
    emit, emit_done, make_id, now_secs, print_events, read_value, SseEvent, SseEventView,
};
use crate::transform::responses_to_chat_stream;
use crate::transform::responses_to_chat_stream::{
    make_chat_chunk, make_chat_usage_totals, make_text_delta,
};
use vstd::prelude::*;

verus! {

/// State for converting an Anthropic stream to a Chat Completions stream.
pub struct AnthropicToChatStreamState {
    pub chat_id: String,
    pub model: String,
    pub created: u64,
    pub full_text: String,
    pub total_input: u64,
    pub total_output: u64,
    pub headers_emitted: bool,
    pub completed: bool,
}

/// What the state of a stream is.
pub struct AnthropicToChatView {
    pub chat_id: Seq<char>,
    pub model: Seq<char>,
    pub created: u64,
    pub full_text: Seq<char>,
    pub total_input: u64,
    pub total_output: u64,
    pub headers_emitted: bool,
    pub completed: bool,
}

impl View for AnthropicToChatStreamState {
    type V = AnthropicToChatView;

    open spec fn view(&self) -> AnthropicToChatView {
        AnthropicToChatView {
            chat_id: self.chat_id@,
            model: self.model@,
            created: self.created,
            full_text: self.full_text@,
            total_input: self.total_input,
            total_output: self.total_output,
            headers_emitted: self.headers_emitted,
            completed: self.completed,
        }
    }
}

impl AnthropicToChatView {
    /// The state before the first event.
    pub open spec fn initial(
        chat_id: Seq<char>,
        model: Seq<char>,
        created: u64,
    ) -> AnthropicToChatView {
        AnthropicToChatView {
            chat_id,
            model,
            created,
            full_text: Seq::empty(),
            total_input: 0,
            total_output: 0,
            headers_emitted: false,
            completed: false,
        }
    }
}

impl AnthropicToChatStreamState {
    /// The state of a stream that has not begun, under a fresh identifier.
    pub fn new(model: &str) -> (r: AnthropicToChatStreamState)
        ensures
            r@ == AnthropicToChatView::initial(r@.chat_id, model@, r@.created),
            common::is_id_for("chatcmpl"@, r@.chat_id),
            common::is_clock_reading(r@.created),
    {
        AnthropicToChatStreamState {
            chat_id: make_id("chatcmpl"),
            model: model.to_string(),
            created: now_secs(),
            full_text: String::new(),
            total_input: 0,
            total_output: 0,
            headers_emitted: false,
            completed: false,
        }
    }
}

/// The state of a stream, and the events that were emitted on the way to it.
pub struct ChatProgress {
    pub state: AnthropicToChatView,
    pub events: Seq<SseEventView>,
}

impl ChatProgress {
    pub open spec fn from(state: AnthropicToChatView) -> ChatProgress {
        ChatProgress { state, events: Seq::empty() }
    }

    /// A chunk with a delta.
    pub open spec fn emit(self, delta: JsonView) -> ChatProgress {
        let chunk = responses_to_chat_stream::chat_chunk(
            self.state.chat_id,
            self.state.created,
            self.state.model,
            delta,
            JsonView::Null,
        );
        ChatProgress {
            events: self.events.push(SseEventView::Data(JsonView::Object(chunk))),
            ..self
        }
    }

    /// The chunk that names the role, once.
    pub open spec fn open(self) -> ChatProgress {
        if self.state.headers_emitted {
            self
        } else {
            ChatProgress {
                state: AnthropicToChatView { headers_emitted: true, ..self.state },
                ..self
            }.emit(responses_to_chat_stream::text_delta("role"@, "assistant"@))
        }
    }

    /// A piece of the message's text.
    pub open spec fn say(self, delta: Seq<char>) -> ChatProgress {
        if delta.len() > 0 {
            ChatProgress {
                state: AnthropicToChatView {
                    full_text: self.state.full_text + delta,
                    ..self.state
                },
                ..self
            }.emit(responses_to_chat_stream::text_delta("content"@, delta))
        } else {
            self
        }
    }

    /// A piece of the reasoning.
    pub open spec fn reason(self, delta: Seq<char>) -> ChatProgress {
        if delta.len() > 0 {
            self.emit(responses_to_chat_stream::text_delta("reasoning_content"@, delta))
        } else {
            self
        }
    }

    /// A piece of a block. Only text and thinking show.
    pub open spec fn add(self, delta: JsonView) -> ChatProgress {
        if delta.text_at("type"@) == Some("text_delta"@) {
            self.say(delta.text_or("text"@, ""@))
        } else if delta.text_at("type"@) == Some("thinking_delta"@) {
            self.reason(delta.text_or("thinking"@, ""@))
        } else {
            self
        }
    }

    /// The end of the message: the last chunk, with the token counts, and the
    /// end of the stream.
    pub open spec fn complete(self, finish_reason: Seq<char>) -> ChatProgress {
        let last = responses_to_chat_stream::chat_chunk(
            self.state.chat_id,
            self.state.created,
            self.state.model,
            JsonView::Object(Map::empty()),
            JsonView::text(finish_reason),
        ).insert(
            "usage"@,
            responses_to_chat_stream::chat_usage_totals(
                self.state.total_input,
                self.state.total_output,
            ),
        );
        ChatProgress {
            state: AnthropicToChatView { completed: true, ..self.state },
            events: self.events.push(SseEventView::Data(JsonView::Object(last))).push(
                SseEventView::Done,
            ),
        }
    }

    /// The output tokens that an event reports, and the end of the message
    /// where it gives the reason of it.
    pub open spec fn settle(self, chunk: JsonView) -> ChatProgress {
        let metered = match chunk.field("usage"@) {
            Some(usage) => ChatProgress {
                state: AnthropicToChatView {
                    total_output: usage.count_at("output_tokens"@),
                    ..self.state
                },
                ..self
            },
            None => self,
        };
        match chunk.field_or("delta"@, JsonView::Null).text_at("stop_reason"@) {
            Some(reason) => metered.complete(
                if reason == "tool_use"@ {
                    "tool_calls"@
                } else {
                    "stop"@
                },
            ),
            None => metered,
        }
    }

    /// An event of the stream.
    pub open spec fn after(self, chunk: JsonView) -> ChatProgress {
        let kind = chunk.text_at("type"@);
        let opened = self.open();
        if kind == Some("content_block_delta"@) {
            opened.add(chunk.field_or("delta"@, JsonView::Null))
        } else if kind == Some("message_start"@) {
            match chunk.field_or("message"@, JsonView::Null).field("usage"@) {
                Some(usage) => ChatProgress {
                    state: AnthropicToChatView {
                        total_input: usage.count_at("input_tokens"@),
                        ..opened.state
                    },
                    ..opened
                },
                None => opened,
            }
        } else if kind == Some("message_delta"@) {
            opened.settle(chunk)
        } else if kind == Some("message_stop"@) && !opened.state.completed {
            opened.complete("stop"@)
        } else {
            opened
        }
    }

    /// The end of a stream whose message did not end.
    pub open spec fn finish(self) -> ChatProgress {
        if self.state.completed {
            self
        } else {
            self.open().complete("stop"@)
        }
    }

    /// A line of the stream.
    pub open spec fn line(self, line: Seq<char>) -> ChatProgress {
        match common::value_in(line) {
            Some(chunk) => self.after(chunk),
            None => self,
        }
    }
}

pub open spec fn progress(
    state: AnthropicToChatStreamState,
    events: Seq<SseEvent>,
) -> ChatProgress {
    ChatProgress { state: state@, events: common::event_views(events) }
}

fn emit_delta(state: &AnthropicToChatStreamState, delta: Json, events: &mut Vec<SseEvent>)
    ensures
        progress(*state, final(events)@) == progress(*state, old(events)@).emit(delta@),
{
    let chunk = make_chat_chunk(
        state.chat_id.as_str(),
        state.created,
        state.model.as_str(),
        delta,
        Json::Null,
    );
    emit(events, Json::Object(chunk));
}

fn emit_role(state: &mut AnthropicToChatStreamState, events: &mut Vec<SseEvent>)
    ensures
        progress(*final(state), final(events)@) == progress(*old(state), old(events)@).open(),
{
    if !state.headers_emitted {
        state.headers_emitted = true;
        emit_delta(state, make_text_delta("role", "assistant"), events);
    }
}

/// Handles a piece of a block.
pub fn add_delta(
    delta: &Json,
    state: &mut AnthropicToChatStreamState,
    events: &mut Vec<SseEvent>,
)
    ensures
        progress(*final(state), final(events)@) == progress(*old(state), old(events)@).add(
            delta@,
        ),
{
    if delta.has_text("type", "text_delta") {
        let s = delta.text_or("text", "");
        if s.unicode_len() > 0 {
            state.full_text.append(s);
            emit_delta(state, make_text_delta("content", s), events);
        }
    } else if delta.has_text("type", "thinking_delta") {
        let s = delta.text_or("thinking", "");
        if s.unicode_len() > 0 {
            emit_delta(state, make_text_delta("reasoning_content", s), events);
        }
    }
}

/// Handles the end of the message.
pub fn complete(
    finish_reason: &str,
    state: &mut AnthropicToChatStreamState,
    events: &mut Vec<SseEvent>,
)
    ensures
        progress(*final(state), final(events)@) == progress(*old(state), old(events)@).complete(
            finish_reason@,
        ),
{
    let last = make_chat_chunk(
        state.chat_id.as_str(),
        state.created,
        state.model.as_str(),
        Json::empty_object(),
        Json::string(finish_reason),
    ).with("usage", make_chat_usage_totals(state.total_input, state.total_output));
    emit(events, Json::Object(last));
    state.completed = true;
    emit_done(events);
}

/// Handles what an event says about the whole message.
pub fn settle(
    chunk: &Json,
    state: &mut AnthropicToChatStreamState,
    events: &mut Vec<SseEvent>,
)
    ensures
        progress(*final(state), final(events)@) == progress(*old(state), old(events)@).settle(
            chunk@,
        ),
{
    match chunk.get("usage") {
        Some(usage) => state.total_output = usage.count_at("output_tokens"),
        None => {},
    }
    match chunk.field_or("delta", Json::Null).text_at("stop_reason") {
        Some(reason) => if same_text(reason, "tool_use") {
            complete("tool_calls", state, events);
        } else {
            complete("stop", state, events);
        },
        None => {},
    }
}

/// Converts one event of an Anthropic stream. `None` where nothing is to be sent
/// for it.
pub fn transform_anthropic_event(
    chunk: &Json,
    state: &mut AnthropicToChatStreamState,
) -> (r: Option<String>)
    ensures
        final(state)@ == ChatProgress::from(old(state)@).after(chunk@).state,
        json::string_of(r) == common::sent(ChatProgress::from(old(state)@).after(chunk@).events),
{
    let mut events: Vec<SseEvent> = Vec::new();
    assert(common::event_views(events@) =~= Seq::empty());
    emit_role(state, &mut events);
    if chunk.has_text("type", "content_block_delta") {
        add_delta(&chunk.field_or("delta", Json::Null), state, &mut events);
    } else if chunk.has_text("type", "message_start") {
        match chunk.field_or("message", Json::Null).get("usage") {
            Some(usage) => state.total_input = usage.count_at("input_tokens"),
            None => {},
        }
    } else if chunk.has_text("type", "message_delta") {
        settle(chunk, state, &mut events);
    } else if chunk.has_text("type", "message_stop") && !state.completed {
        complete("stop", state, &mut events);
    }
    print_events(&events)
}

/// Converts one line of an Anthropic stream to Chat Completions. `None` where
/// nothing is to be sent for it.
pub fn anthropic_sse_to_chat_sse(line: &str, state: &mut AnthropicToChatStreamState) -> (r: Option<
    String,
>)
    ensures
        final(state)@ == ChatProgress::from(old(state)@).line(line@).state,
        json::string_of(r) == common::sent(ChatProgress::from(old(state)@).line(line@).events),
{
    match read_value(line) {
        Some(chunk) => transform_anthropic_event(&chunk, state),
        None => None,
    }
}

/// Flushes a stream that ended without `message_stop`: emits a final chunk with
/// a `finish_reason`, and `[DONE]`, so that the client receives a properly
/// terminated stream. `None` where the stream was terminated before.
pub fn flush_anthropic_to_chat(state: &mut AnthropicToChatStreamState) -> (r: Option<String>)
    ensures
        final(state)@ == ChatProgress::from(old(state)@).finish().state,
        json::string_of(r) == common::sent(ChatProgress::from(old(state)@).finish().events),
{
    if state.completed {
        return None;
    }
    let mut events: Vec<SseEvent> = Vec::new();
    assert(common::event_views(events@) =~= Seq::empty());
    emit_role(state, &mut events);
    complete("stop", state, &mut events);
    print_events(&events)
}

} // verus!
