//! Protocol transform module — bidirectional conversion between all protocol pairs.
//!
//! Supported conversions:
//! - responses ↔ chat
//! - responses ↔ anthropic
//! - chat ↔ anthropic
//!
//! Each conversion has:
//! - Request body transform (JSON → JSON)
//! - Response body transform (non-streaming, JSON → JSON)
//! - Response SSE stream transform (streaming, chunk → SSE events)

pub mod anthropic;
pub mod anthropic_to_chat_stream;
pub mod anthropic_to_responses_stream;
pub mod chat_anthropic;
pub mod chat_to_anthropic_stream;
pub mod chat_to_responses_stream;
pub mod common;
pub mod conversion_laws;
pub mod event_laws;
pub mod history;
pub mod history_laws;
pub mod laws;
pub mod memory_laws;
pub mod outcome_laws;
pub mod output_event_laws;
pub mod reading_laws;
pub mod request_laws;
pub mod response_laws;
pub mod responses_anthropic;
pub mod responses_chat;
pub mod responses_to_anthropic_stream;
pub mod responses_to_chat_stream;
pub mod round_trip;
pub mod stream_laws;

use crate::format::Protocol;
use crate::json;
use crate::json::{parse_json, print_json, Json, JsonView, Parsed};
use crate::text::concat;
use crate::transform::anthropic_to_chat_stream::{
    anthropic_sse_to_chat_sse, flush_anthropic_to_chat, AnthropicToChatStreamState,
    AnthropicToChatView,
};
use crate::transform::anthropic_to_responses_stream::{
    anthropic_sse_to_responses_sse, flush_anthropic_to_responses, AnthropicToResponsesStreamState,
    AnthropicToResponsesView,
};
use crate::transform::chat_anthropic::{
    request_anthropic_to_chat, request_chat_to_anthropic, response_anthropic_to_chat_with,
    response_chat_to_anthropic_with,
};
use crate::transform::chat_to_anthropic_stream::{
    chat_sse_to_anthropic_sse, flush_chat_to_anthropic, ChatToAnthropicStreamState,
    ChatToAnthropicView,
};
use crate::transform::chat_to_responses_stream::{
    chat_sse_to_responses_sse, flush_stream_completion, ChatToResponsesStreamState,
    ChatToResponsesView,
};
use crate::transform::common::{
    is_end_line, make_id, now_secs, passthrough_sse_line, rewrite_model_in_response, ChunkView,
};
use crate::transform::responses_anthropic::{
    request_anthropic_to_responses, request_responses_to_anthropic,
    response_anthropic_to_responses_with, response_responses_to_anthropic_with,
};
use crate::transform::responses_chat::{
    request_chat_to_responses, request_responses_to_chat, response_chat_to_responses_with,
    response_responses_to_chat_with,
};
use crate::transform::responses_to_anthropic_stream::{
    flush_responses_to_anthropic, responses_sse_to_anthropic_sse, ResponsesToAnthropicStreamState,
    ResponsesToAnthropicView,
};
use crate::transform::responses_to_chat_stream::{
    flush_responses_to_chat, responses_sse_to_chat_sse, ResponsesToChatStreamState,
    ResponsesToChatView,
};
use vstd::prelude::*;
use vstd::slice::slice_to_vec;

verus! {

/// The result of a request transform: the converted body bytes and the
/// upstream API path to use (e.g., `/v1/chat/completions`).
pub struct TransformedRequest {
    pub body: Vec<u8>,
    pub upstream_path: String,
}

/// A JSON text in bytes.
pub open spec fn json_bytes(v: JsonView) -> Seq<u8> {
    vstd::utf8::encode_utf8(json::json_text(v))
}

/// The request in one protocol that says what a request in another one says.
pub open spec fn converted_request(from: Protocol, to: Protocol, body: JsonView) -> JsonView {
    match (from, to) {
        (Protocol::Responses, Protocol::Chat) => JsonView::Object(
            responses_chat::chat_request(body),
        ),
        (Protocol::Chat, Protocol::Responses) => JsonView::Object(
            responses_chat::responses_request(body),
        ),
        (Protocol::Responses, Protocol::Anthropic) => JsonView::Object(
            responses_anthropic::anthropic_request(body),
        ),
        (Protocol::Anthropic, Protocol::Responses) => JsonView::Object(
            responses_anthropic::responses_request(body),
        ),
        (Protocol::Chat, Protocol::Anthropic) => JsonView::Object(
            chat_anthropic::anthropic_request(body),
        ),
        (Protocol::Anthropic, Protocol::Chat) => JsonView::Object(
            chat_anthropic::chat_request(body),
        ),
        _ => body,
    }
}

/// Whether bytes are a JSON text of a value, which gives the value back where it
/// does not nest too deep.
pub open spec fn is_text_of(v: JsonView, bytes: Seq<u8>) -> bool {
    bytes == json_bytes(v) && (json::nested_within(v, json::MAX_NESTING as nat)
        ==> json::json_parse(bytes) == Parsed::Value(v))
}

/// The body that goes to the upstream, or what is wrong with the body that came
/// from the client. A body that needs no conversion is not looked into.
pub open spec fn request_outcome(from: Protocol, to: Protocol, body: Seq<u8>) -> Result<
    Seq<u8>,
    Seq<char>,
> {
    if from == to {
        Ok(body)
    } else {
        match json::json_parse(body) {
            Parsed::Value(v) => Ok(json_bytes(converted_request(from, to, v))),
            Parsed::Fault(message) => Err(
                "failed to parse request body as JSON: "@ + message,
            ),
        }
    }
}

fn convert_request(from: Protocol, to: Protocol, body: &Json) -> (r: Result<Json, String>)
    requires
        from != to,
    ensures
        r is Ok,
        r->Ok_0@ == converted_request(from, to, body@),
{
    match (from, to) {
        (Protocol::Responses, Protocol::Chat) => request_responses_to_chat(body),
        (Protocol::Chat, Protocol::Responses) => request_chat_to_responses(body),
        (Protocol::Responses, Protocol::Anthropic) => request_responses_to_anthropic(body),
        (Protocol::Anthropic, Protocol::Responses) => request_anthropic_to_responses(body),
        (Protocol::Chat, Protocol::Anthropic) => request_chat_to_anthropic(body),
        (Protocol::Anthropic, Protocol::Chat) => request_anthropic_to_chat(body),
        _ => Ok(body.clone()),
    }
}

/// Dispatches request transformation based on the conversion direction.
///
/// Returns `Ok(TransformedRequest)` if conversion succeeded,
/// `Err(message)` if the conversion failed (the caller decides whether
/// to fall back to passthrough or return an error).
pub fn transform_request(from: Protocol, to: Protocol, body: &[u8]) -> (r: Result<
    TransformedRequest,
    String,
>)
    ensures
        match r {
            Ok(request) => request_outcome(from, to, body@) == Ok::<Seq<u8>, Seq<char>>(
                request.body@,
            ) && request.upstream_path@ == to.spec_api_path() && (from != to ==> is_text_of(
                converted_request(from, to, json::json_parse(body@)->Value_0),
                request.body@,
            )),
            Err(message) => request_outcome(from, to, body@) == Err::<Seq<u8>, Seq<char>>(
                message@,
            ),
        },
{
    if from == to {
        return Ok(
            TransformedRequest {
                body: slice_to_vec(body),
                upstream_path: to.api_path().to_string(),
            },
        );
    }
    match parse_json(body) {
        Ok(value) => match convert_request(from, to, &value) {
            Ok(converted) => Ok(
                TransformedRequest {
                    body: print_json(&converted).as_str().as_bytes_vec(),
                    upstream_path: to.api_path().to_string(),
                },
            ),
            Err(message) => Err(message),
        },
        Err(message) => Err(concat("failed to parse request body as JSON: ", message.as_str())),
    }
}

/// The identifiers and the time under which a response is converted.
pub struct Fresh {
    pub msg_id: String,
    pub resp_id: String,
    pub chat_id: String,
    pub created: u64,
}

pub struct FreshView {
    pub msg_id: Seq<char>,
    pub resp_id: Seq<char>,
    pub chat_id: Seq<char>,
    pub created: u64,
}

impl View for Fresh {
    type V = FreshView;

    open spec fn view(&self) -> FreshView {
        FreshView {
            msg_id: self.msg_id@,
            resp_id: self.resp_id@,
            chat_id: self.chat_id@,
            created: self.created,
        }
    }
}

impl FreshView {
    /// The identifiers have their prefixes, and the time is a reading of the clock.
    pub open spec fn wf(self) -> bool {
        &&& common::is_id_for("msg"@, self.msg_id)
        &&& common::is_id_for("resp"@, self.resp_id)
        &&& common::is_id_for("chatcmpl"@, self.chat_id)
        &&& common::is_clock_reading(self.created)
    }
}

impl Fresh {
    /// Random identifiers and the current time.
    pub fn new() -> (r: Fresh)
        ensures
            r@.wf(),
    {
        Fresh {
            msg_id: make_id("msg"),
            resp_id: make_id("resp"),
            chat_id: make_id("chatcmpl"),
            created: now_secs(),
        }
    }
}

/// The response in one protocol that says what a response in another one says,
/// if that says anything.
pub open spec fn converted_response(
    from: Protocol,
    to: Protocol,
    body: JsonView,
    client_model: Option<Seq<char>>,
    fresh: FreshView,
) -> Option<JsonView> {
    match (from, to) {
        (Protocol::Chat, Protocol::Responses) => responses_chat::responses_response(
            body,
            client_model,
            fresh.msg_id,
            fresh.resp_id,
            fresh.created,
        ),
        (Protocol::Responses, Protocol::Chat) => responses_chat::chat_response(
            body,
            client_model,
            fresh.chat_id,
            fresh.created,
        ),
        (Protocol::Anthropic, Protocol::Responses) => Some(
            responses_anthropic::responses_response(
                body,
                client_model,
                fresh.msg_id,
                fresh.resp_id,
                fresh.created,
            ),
        ),
        (Protocol::Responses, Protocol::Anthropic) => Some(
            responses_anthropic::anthropic_response(body, client_model, fresh.msg_id),
        ),
        (Protocol::Anthropic, Protocol::Chat) => Some(
            chat_anthropic::chat_response(body, client_model, fresh.chat_id, fresh.created),
        ),
        (Protocol::Chat, Protocol::Anthropic) => chat_anthropic::anthropic_response(
            body,
            client_model,
            fresh.msg_id,
        ),
        _ => Some(body),
    }
}

/// The body that goes to the client, or what is wrong with the body that came
/// from the upstream. Where no conversion is needed, only the name of the model
/// changes.
pub open spec fn response_outcome(
    from: Protocol,
    to: Protocol,
    body: Seq<u8>,
    client_model: Option<Seq<char>>,
    fresh: FreshView,
) -> Result<Seq<u8>, Seq<char>> {
    if from == to {
        Ok(common::with_client_model(body, client_model))
    } else {
        match json::json_parse(body) {
            Parsed::Value(v) => match converted_response(from, to, v, client_model, fresh) {
                Some(converted) => Ok(json_bytes(converted)),
                None => Err(
                    "response conversion "@ + from.spec_name() + "→"@ + to.spec_name()
                        + " produced None"@,
                ),
            },
            Parsed::Fault(message) => Err("failed to parse response body: "@ + message),
        }
    }
}

pub open spec fn outcome_of(r: Result<Vec<u8>, String>) -> Result<Seq<u8>, Seq<char>> {
    match r {
        Ok(body) => Ok(body@),
        Err(message) => Err(message@),
    }
}

fn convert_response(
    from: Protocol,
    to: Protocol,
    body: &Json,
    client_model: Option<&str>,
    fresh: &Fresh,
) -> (r: Option<Json>)
    ensures
        json::value_of(r) == converted_response(
            from,
            to,
            body@,
            json::text_of(client_model),
            fresh@,
        ),
{
    let msg_id = fresh.msg_id.as_str();
    let resp_id = fresh.resp_id.as_str();
    let chat_id = fresh.chat_id.as_str();
    let created: u64 = fresh.created;
    match (from, to) {
        (Protocol::Chat, Protocol::Responses) => response_chat_to_responses_with(
            body,
            client_model,
            msg_id,
            resp_id,
            created,
        ),
        (Protocol::Responses, Protocol::Chat) => response_responses_to_chat_with(
            body,
            client_model,
            chat_id,
            created,
        ),
        (Protocol::Anthropic, Protocol::Responses) => Some(
            response_anthropic_to_responses_with(body, client_model, msg_id, resp_id, created),
        ),
        (Protocol::Responses, Protocol::Anthropic) => Some(
            response_responses_to_anthropic_with(body, client_model, msg_id),
        ),
        (Protocol::Anthropic, Protocol::Chat) => Some(
            response_anthropic_to_chat_with(body, client_model, chat_id, created),
        ),
        (Protocol::Chat, Protocol::Anthropic) => response_chat_to_anthropic_with(
            body,
            client_model,
            msg_id,
        ),
        _ => Some(body.clone()),
    }
}

/// Dispatches non-streaming response transformation, under given identifiers
/// and a given time.
///
/// `from` is the upstream's protocol, `to` is the client's protocol.
pub fn transform_response_body_with(
    from: Protocol,
    to: Protocol,
    body: &[u8],
    client_model: Option<&str>,
    fresh: &Fresh,
) -> (r: Result<Vec<u8>, String>)
    ensures
        outcome_of(r) == response_outcome(
            from,
            to,
            body@,
            json::text_of(client_model),
            fresh@,
        ),
        from != to && r is Ok ==> is_text_of(
            converted_response(
                from,
                to,
                json::json_parse(body@)->Value_0,
                json::text_of(client_model),
                fresh@,
            )->0,
            r->Ok_0@,
        ),
{
    if from == to {
        return Ok(rewrite_model_in_response(body, client_model));
    }
    match parse_json(body) {
        Ok(value) => match convert_response(from, to, &value, client_model, fresh) {
            Some(converted) => Ok(print_json(&converted).as_str().as_bytes_vec()),
            None => {
                let mut message = concat("response conversion ", from.name());
                message.append("→");
                message.append(to.name());
                message.append(" produced None");
                Err(message)
            },
        },
        Err(message) => Err(concat("failed to parse response body: ", message.as_str())),
    }
}

/// Dispatches non-streaming response transformation, under fresh identifiers
/// and the current time.
///
/// `from` is the upstream's protocol, `to` is the client's protocol.
pub fn transform_response_body(
    from: Protocol,
    to: Protocol,
    body: &[u8],
    client_model: Option<&str>,
) -> (r: Result<Vec<u8>, String>)
    ensures
        exists|fresh: FreshView|
            fresh.wf() && outcome_of(r) == #[trigger] response_outcome(
                from,
                to,
                body@,
                json::text_of(client_model),
                fresh,
            ),
{
    transform_response_body_with(from, to, body, client_model, &Fresh::new())
}

/// A converter of streams, for one conversion direction: from the upstream's
/// protocol to the client's.
#[allow(inconsistent_fields)]
pub enum StreamTransformer {
    Passthrough { client_model: Option<String> },
    ChatToResponses { state: ChatToResponsesStreamState },
    ResponsesToChat { state: ResponsesToChatStreamState },
    AnthropicToResponses { state: AnthropicToResponsesStreamState },
    ResponsesToAnthropic { state: ResponsesToAnthropicStreamState },
    AnthropicToChat { state: AnthropicToChatStreamState },
    ChatToAnthropic { state: ChatToAnthropicStreamState },
}

/// What the state of a converter is.
pub enum StreamView {
    Passthrough(Option<Seq<char>>),
    ChatToResponses(ChatToResponsesView),
    ResponsesToChat(ResponsesToChatView),
    AnthropicToResponses(AnthropicToResponsesView),
    ResponsesToAnthropic(ResponsesToAnthropicView),
    AnthropicToChat(AnthropicToChatView),
    ChatToAnthropic(ChatToAnthropicView),
}

impl View for StreamTransformer {
    type V = StreamView;

    open spec fn view(&self) -> StreamView {
        match *self {
            StreamTransformer::Passthrough { client_model } => StreamView::Passthrough(
                json::string_of(client_model),
            ),
            StreamTransformer::ChatToResponses { state } => StreamView::ChatToResponses(state@),
            StreamTransformer::ResponsesToChat { state } => StreamView::ResponsesToChat(state@),
            StreamTransformer::AnthropicToResponses { state } => StreamView::AnthropicToResponses(
                state@,
            ),
            StreamTransformer::ResponsesToAnthropic { state } => StreamView::ResponsesToAnthropic(
                state@,
            ),
            StreamTransformer::AnthropicToChat { state } => StreamView::AnthropicToChat(state@),
            StreamTransformer::ChatToAnthropic { state } => StreamView::ChatToAnthropic(state@),
        }
    }
}

impl StreamView {
    /// A converter in this direction that has not seen anything, with
    /// identifiers of the right kind and a reading of the clock.
    pub open spec fn begins(
        self,
        from: Protocol,
        to: Protocol,
        client_model: Option<Seq<char>>,
    ) -> bool {
        let model = match client_model {
            Some(model) => model,
            None => ""@,
        };
        match (from, to) {
            (Protocol::Chat, Protocol::Responses) => {
                &&& self matches StreamView::ChatToResponses(s)
                &&& s == ChatToResponsesView::initial(s.msg_id, s.resp_id, model, s.created)
                &&& common::is_id_for("msg"@, s.msg_id)
                &&& common::is_id_for("resp"@, s.resp_id)
                &&& common::is_clock_reading(s.created)
            },
            (Protocol::Responses, Protocol::Chat) => {
                &&& self matches StreamView::ResponsesToChat(s)
                &&& s == ResponsesToChatView::initial(s.chat_id, model, s.created)
                &&& common::is_id_for("chatcmpl"@, s.chat_id)
                &&& common::is_clock_reading(s.created)
            },
            (Protocol::Anthropic, Protocol::Responses) => {
                &&& self matches StreamView::AnthropicToResponses(s)
                &&& s == AnthropicToResponsesView::initial(s.resp_id, s.msg_id, model, s.created)
                &&& common::is_id_for("resp"@, s.resp_id)
                &&& common::is_id_for("msg"@, s.msg_id)
                &&& common::is_clock_reading(s.created)
            },
            (Protocol::Responses, Protocol::Anthropic) => {
                &&& self matches StreamView::ResponsesToAnthropic(s)
                &&& s == ResponsesToAnthropicView::initial(s.msg_id, model)
                &&& common::is_id_for("msg"@, s.msg_id)
            },
            (Protocol::Anthropic, Protocol::Chat) => {
                &&& self matches StreamView::AnthropicToChat(s)
                &&& s == AnthropicToChatView::initial(s.chat_id, model, s.created)
                &&& common::is_id_for("chatcmpl"@, s.chat_id)
                &&& common::is_clock_reading(s.created)
            },
            (Protocol::Chat, Protocol::Anthropic) => {
                &&& self matches StreamView::ChatToAnthropic(s)
                &&& s == ChatToAnthropicView::initial(s.msg_id, model)
                &&& common::is_id_for("msg"@, s.msg_id)
            },
            _ => self == StreamView::Passthrough(client_model),
        }
    }

    /// The converter after a line of the upstream's stream, and what is sent to
    /// the client for it. The line that ends the stream flushes what is pending.
    pub open spec fn after_line(self, line: Seq<char>) -> (StreamView, Option<Seq<char>>) {
        match common::chunk_in(line) {
            ChunkView::End => match self {
                StreamView::ResponsesToChat(_) => self.flushed(),
                StreamView::AnthropicToResponses(_) => self.flushed(),
                StreamView::ResponsesToAnthropic(_) => self.flushed(),
                StreamView::AnthropicToChat(_) => self.flushed(),
                _ => self.converted_line(line),
            },
            _ => self.converted_line(line),
        }
    }

    /// The converter after a line that its conversion knows, and what is sent to
    /// the client for it.
    pub open spec fn converted_line(self, line: Seq<char>) -> (StreamView, Option<Seq<char>>) {
        match self {
            StreamView::Passthrough(client_model) => (
                self,
                Some(common::line_with_client_model(line, client_model)),
            ),
            StreamView::ChatToResponses(s) => {
                let p = chat_to_responses_stream::ResponsesProgress::from(s).line(line);
                (StreamView::ChatToResponses(p.state), common::sent(p.events))
            },
            StreamView::ResponsesToChat(s) => {
                let p = responses_to_chat_stream::ChatProgress::from(s).line(line);
                (StreamView::ResponsesToChat(p.state), common::sent(p.events))
            },
            StreamView::AnthropicToResponses(s) => {
                let p = anthropic_to_responses_stream::ResponsesProgress::from(s).line(line);
                (StreamView::AnthropicToResponses(p.state), common::sent(p.events))
            },
            StreamView::ResponsesToAnthropic(s) => {
                let p = responses_to_anthropic_stream::AnthropicProgress::from(s).line(line);
                (StreamView::ResponsesToAnthropic(p.state), common::sent(p.events))
            },
            StreamView::AnthropicToChat(s) => {
                let p = anthropic_to_chat_stream::ChatProgress::from(s).line(line);
                (StreamView::AnthropicToChat(p.state), common::sent(p.events))
            },
            StreamView::ChatToAnthropic(s) => {
                let p = chat_to_anthropic_stream::AnthropicProgress::from(s).line(line);
                (StreamView::ChatToAnthropic(p.state), common::sent(p.events))
            },
        }
    }

    /// The converter after the upstream's stream has ended, and what is sent to
    /// the client so that its stream ends properly.
    pub open spec fn flushed(self) -> (StreamView, Option<Seq<char>>) {
        match self {
            StreamView::ChatToResponses(s) => {
                let p = chat_to_responses_stream::ResponsesProgress::from(s).finish();
                (StreamView::ChatToResponses(p.state), common::sent(p.events))
            },
            StreamView::ResponsesToChat(s) => {
                let p = responses_to_chat_stream::ChatProgress::from(s).finish();
                (StreamView::ResponsesToChat(p.state), common::sent(p.events))
            },
            StreamView::AnthropicToResponses(s) => {
                let p = anthropic_to_responses_stream::ResponsesProgress::from(s).finish();
                (StreamView::AnthropicToResponses(p.state), common::sent(p.events))
            },
            StreamView::ResponsesToAnthropic(s) => {
                let p = responses_to_anthropic_stream::AnthropicProgress::from(s).finish();
                (StreamView::ResponsesToAnthropic(p.state), common::sent(p.events))
            },
            StreamView::AnthropicToChat(s) => {
                let p = anthropic_to_chat_stream::ChatProgress::from(s).finish();
                (StreamView::AnthropicToChat(p.state), common::sent(p.events))
            },
            StreamView::ChatToAnthropic(s) => {
                let p = chat_to_anthropic_stream::AnthropicProgress::from(s).finish();
                (StreamView::ChatToAnthropic(p.state), common::sent(p.events))
            },
            StreamView::Passthrough(_) => (self, None),
        }
    }

    /// Whether the client's stream has ended.
    pub open spec fn is_complete(self) -> bool {
        match self {
            StreamView::Passthrough(_) => true,
            StreamView::ChatToResponses(s) => s.completed,
            StreamView::ResponsesToChat(s) => s.completed,
            StreamView::AnthropicToResponses(s) => s.completed,
            StreamView::ResponsesToAnthropic(s) => s.completed,
            StreamView::AnthropicToChat(s) => s.completed,
            StreamView::ChatToAnthropic(s) => s.completed,
        }
    }
}

fn owned_text(s: Option<&str>) -> (r: Option<String>)
    ensures
        json::string_of(r) == json::text_of(s),
{
    match s {
        Some(t) => Some(t.to_string()),
        None => None,
    }
}

fn borrowed_text(s: &Option<String>) -> (r: Option<&str>)
    ensures
        json::text_of(r) == json::string_of(*s),
{
    match s {
        Some(t) => Some(t.as_str()),
        None => None,
    }
}

impl StreamTransformer {
    /// Creates a new stream transformer for the given conversion.
    pub fn new(from: Protocol, to: Protocol, client_model: Option<&str>) -> (r: StreamTransformer)
        ensures
            r@.begins(from, to, json::text_of(client_model)),
    {
        let model = match client_model {
            Some(model) => model,
            None => "",
        };
        match (from, to) {
            (Protocol::Chat, Protocol::Responses) => StreamTransformer::ChatToResponses {
                state: ChatToResponsesStreamState::new(model),
            },
            (Protocol::Responses, Protocol::Chat) => StreamTransformer::ResponsesToChat {
                state: ResponsesToChatStreamState::new(model),
            },
            (Protocol::Anthropic, Protocol::Responses) => StreamTransformer::AnthropicToResponses {
                state: AnthropicToResponsesStreamState::new(model),
            },
            (Protocol::Responses, Protocol::Anthropic) => StreamTransformer::ResponsesToAnthropic {
                state: ResponsesToAnthropicStreamState::new(model),
            },
            (Protocol::Anthropic, Protocol::Chat) => StreamTransformer::AnthropicToChat {
                state: AnthropicToChatStreamState::new(model),
            },
            (Protocol::Chat, Protocol::Anthropic) => StreamTransformer::ChatToAnthropic {
                state: ChatToAnthropicStreamState::new(model),
            },
            _ => StreamTransformer::Passthrough { client_model: owned_text(client_model) },
        }
    }

    /// Processes one SSE line from the upstream and returns SSE lines to send to the client.
    ///
    /// For passthrough mode, this rewrites the model field in `data:` lines.
    /// For conversion modes, this transforms the chunk into the target protocol's SSE format.
    ///
    /// Returns `Some(output)` with SSE data lines to send, or `None` if nothing to emit.
    /// When the `[DONE]` marker is received, the transformer flushes any pending state.
    pub fn transform_sse_line(&mut self, line: &str) -> (r: Option<String>)
        ensures
            (final(self)@, json::string_of(r)) == old(self)@.after_line(line@),
            common::chunk_in(line@) is End && !(old(self)@ is Passthrough) ==> {
                &&& final(self)@.is_complete()
                &&& r is Some <==> !old(self)@.is_complete()
            },
    {
        let is_end = is_end_line(line);
        match self {
            StreamTransformer::Passthrough { client_model } => passthrough_sse_line(
                line,
                borrowed_text(client_model),
            ),
            StreamTransformer::ChatToResponses { state } => chat_sse_to_responses_sse(line, state),
            StreamTransformer::ResponsesToChat { state } => if is_end {
                flush_responses_to_chat(state)
            } else {
                responses_sse_to_chat_sse(line, state)
            },
            StreamTransformer::AnthropicToResponses { state } => if is_end {
                flush_anthropic_to_responses(state)
            } else {
                anthropic_sse_to_responses_sse(line, state)
            },
            StreamTransformer::ResponsesToAnthropic { state } => if is_end {
                flush_responses_to_anthropic(state)
            } else {
                responses_sse_to_anthropic_sse(line, state)
            },
            StreamTransformer::AnthropicToChat { state } => if is_end {
                flush_anthropic_to_chat(state)
            } else {
                anthropic_sse_to_chat_sse(line, state)
            },
            StreamTransformer::ChatToAnthropic { state } => chat_sse_to_anthropic_sse(line, state),
        }
    }

    /// Ends the client's stream properly where the upstream's stream ended
    /// without saying so. `None` if nothing is to be sent for it.
    pub fn flush_if_incomplete(&mut self) -> (r: Option<String>)
        ensures
            (final(self)@, json::string_of(r)) == old(self)@.flushed(),
            final(self)@.is_complete(),
            r is Some <==> !old(self)@.is_complete(),
    {
        match self {
            StreamTransformer::Passthrough { .. } => None,
            StreamTransformer::ResponsesToChat { state } => flush_responses_to_chat(state),
            StreamTransformer::AnthropicToResponses { state } => flush_anthropic_to_responses(
                state,
            ),
            StreamTransformer::ResponsesToAnthropic { state } => flush_responses_to_anthropic(
                state,
            ),
            StreamTransformer::ChatToResponses { state } => flush_stream_completion(state),
            StreamTransformer::AnthropicToChat { state } => flush_anthropic_to_chat(state),
            StreamTransformer::ChatToAnthropic { state } => flush_chat_to_anthropic(state),
        }
    }

    /// Whether this transformer is passthrough (no protocol conversion).
    pub fn is_passthrough(&self) -> (r: bool)
        ensures
            r == (self@ is Passthrough),
    {
        matches!(self, StreamTransformer::Passthrough { .. })
    }
}

} // verus!
