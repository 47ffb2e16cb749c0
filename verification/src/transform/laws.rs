//! What holds of all conversions.

use crate::format::Protocol;
use crate::json;
use crate::json::JsonView;
use crate::lists;
use crate::transform;
use crate::transform::anthropic;
use crate::transform::anthropic_to_chat_stream;
use crate::transform::anthropic_to_responses_stream;
use crate::transform::chat_anthropic;
use crate::transform::chat_to_anthropic_stream;
use crate::transform::chat_to_responses_stream;
use crate::transform::chat_to_responses_stream::{ChatToResponsesView, ResponsesProgress};
use crate::transform::common;
use crate::transform::common::SseEventView;
use crate::transform::responses_anthropic;
use crate::transform::responses_chat;
use crate::transform::responses_to_anthropic_stream;
use crate::transform::responses_to_chat_stream;
use crate::transform::{FreshView, StreamView};
use vstd::prelude::*;

verus! {

/// The entries of requests other than `model`.
spec fn is_other_key(key: Seq<char>) -> bool {
    ||| key == "messages"@
    ||| key == "input"@
    ||| key == "instructions"@
    ||| key == "system"@
    ||| key == "max_tokens"@
    ||| key == "max_completion_tokens"@
    ||| key == "max_output_tokens"@
    ||| key == "temperature"@
    ||| key == "top_p"@
    ||| key == "stream_options"@
    ||| key == "reasoning"@
    ||| key == "reasoning_effort"@
    ||| key == "tools"@
    ||| key == "tool_choice"@
    ||| key == "metadata"@
    ||| key == "stop"@
    ||| key == "presence_penalty"@
    ||| key == "frequency_penalty"@
    ||| key == "logit_bias"@
    ||| key == "seed"@
    ||| key == "user"@
}

proof fn lemma_other_keys()
    ensures
        forall|key: Seq<char>| #[trigger] is_other_key(key) ==> key != "model"@ && key != "stream"@,
        "model"@ != "stream"@,
{
    reveal_strlit("model");
    reveal_strlit("stream");
    reveal_strlit("messages");
    reveal_strlit("input");
    reveal_strlit("instructions");
    reveal_strlit("system");
    reveal_strlit("max_tokens");
    reveal_strlit("max_completion_tokens");
    reveal_strlit("max_output_tokens");
    reveal_strlit("temperature");
    reveal_strlit("top_p");
    reveal_strlit("stream_options");
    reveal_strlit("reasoning");
    reveal_strlit("reasoning_effort");
    reveal_strlit("tools");
    reveal_strlit("tool_choice");
    reveal_strlit("metadata");
    reveal_strlit("stop");
    reveal_strlit("presence_penalty");
    reveal_strlit("frequency_penalty");
    reveal_strlit("logit_bias");
    reveal_strlit("seed");
    reveal_strlit("user");
    assert("model"@.len() == 5 && "model"@[0] == 'm');
    assert("stream"@.len() == 6 && "stream"@[1] == 't');
    assert("messages"@.len() == 8);
    assert("input"@.len() == 5 && "input"@[0] == 'i');
    assert("instructions"@.len() == 12);
    assert("system"@.len() == 6 && "system"@[1] == 'y');
    assert("max_tokens"@.len() == 10);
    assert("max_completion_tokens"@.len() == 21);
    assert("max_output_tokens"@.len() == 17);
    assert("temperature"@.len() == 11);
    assert("top_p"@.len() == 5 && "top_p"@[0] == 't');
    assert("stream_options"@.len() == 14);
    assert("reasoning"@.len() == 9);
    assert("reasoning_effort"@.len() == 16);
    assert("tools"@.len() == 5 && "tools"@[0] == 't');
    assert("tool_choice"@.len() == 11);
    assert("metadata"@.len() == 8);
    assert("stop"@.len() == 4);
    assert("presence_penalty"@.len() == 16);
    assert("frequency_penalty"@.len() == 17);
    assert("logit_bias"@.len() == 10);
    assert("seed"@.len() == 4);
    assert("user"@.len() == 4);
}

/// What a request says about the model and the stream.
spec fn asked(m: Map<Seq<char>, JsonView>) -> (Option<JsonView>, Option<JsonView>) {
    (JsonView::Object(m).field("model"@), JsonView::Object(m).field("stream"@))
}

proof fn lemma_insert_keeps(m: Map<Seq<char>, JsonView>, key: Seq<char>, value: JsonView)
    requires
        is_other_key(key),
    ensures
        asked(m.insert(key, value)) == asked(m),
{
    lemma_other_keys();
}

proof fn lemma_carried_keeps(
    m: Map<Seq<char>, JsonView>,
    key: Seq<char>,
    value: Option<JsonView>,
)
    requires
        is_other_key(key),
    ensures
        asked(json::carried(m, key, value)) == asked(m),
{
    lemma_other_keys();
}

proof fn lemma_model_carried(body: JsonView)
    ensures
        asked(json::carried(Map::empty(), "model"@, body.field("model"@))) == (
            body.field("model"@),
            None::<JsonView>,
        ),
{
    lemma_other_keys();
}

proof fn lemma_stream_carried(m: Map<Seq<char>, JsonView>, body: JsonView)
    requires
        asked(m).1 is None,
    ensures
        asked(json::carried(m, "stream"@, body.field("stream"@))) == (
            asked(m).0,
            body.field("stream"@),
        ),
{
    lemma_other_keys();
}

proof fn lemma_chat_request_asks(body: JsonView)
    ensures
        asked(responses_chat::chat_request(body)) == (body.field("model"@), body.field("stream"@)),
{
    let limit = if responses_chat::is_o_series(body.text_or("model"@, ""@)) {
        "max_completion_tokens"@
    } else {
        "max_tokens"@
    };
    let tools = responses_chat::tools_of(body).filter_map(
        |tool: JsonView| responses_chat::chat_tool(tool),
    );
    let choice = match body.field("tool_choice"@) {
        Some(choice) => Some(responses_chat::chat_tool_choice(choice)),
        None => None,
    };
    lemma_model_carried(body);
    let r0 = json::carried(Map::empty(), "model"@, body.field("model"@));
    lemma_insert_keeps(
        r0,
        "messages"@,
        JsonView::Array(responses_chat::chat_messages(body)),
    );
    let r1 = r0.insert("messages"@, JsonView::Array(responses_chat::chat_messages(body)));
    lemma_carried_keeps(r1, limit, body.field("max_output_tokens"@));
    let r2 = json::carried(r1, limit, body.field("max_output_tokens"@));
    lemma_carried_keeps(r2, "max_tokens"@, body.field("max_tokens"@));
    let r3 = json::carried(r2, "max_tokens"@, body.field("max_tokens"@));
    lemma_carried_keeps(r3, "max_completion_tokens"@, body.field("max_completion_tokens"@));
    let r4 = json::carried(r3, "max_completion_tokens"@, body.field("max_completion_tokens"@));
    lemma_carried_keeps(r4, "temperature"@, body.field("temperature"@));
    let r5 = json::carried(r4, "temperature"@, body.field("temperature"@));
    lemma_carried_keeps(r5, "top_p"@, body.field("top_p"@));
    let r6 = json::carried(r5, "top_p"@, body.field("top_p"@));
    lemma_stream_carried(r6, body);
    let r7 = json::carried(r6, "stream"@, body.field("stream"@));
    lemma_carried_keeps(r7, "reasoning_effort"@, responses_chat::effort_of(body));
    let r8 = json::carried(r7, "reasoning_effort"@, responses_chat::effort_of(body));
    lemma_insert_keeps(r8, "tools"@, JsonView::Array(tools));
    lemma_carried_keeps(r8.insert("tools"@, JsonView::Array(tools)), "tool_choice"@, choice);
    let r9 = if tools.len() > 0 {
        json::carried(r8.insert("tools"@, JsonView::Array(tools)), "tool_choice"@, choice)
    } else {
        r8
    };
    lemma_carried_keeps(r9, "metadata"@, body.field("metadata"@));
    let r10 = json::carried(r9, "metadata"@, body.field("metadata"@));
    lemma_carried_keeps(r10, "stop"@, body.field("stop"@));
    let r11 = json::carried(r10, "stop"@, body.field("stop"@));
    lemma_carried_keeps(r11, "presence_penalty"@, body.field("presence_penalty"@));
    let r12 = json::carried(r11, "presence_penalty"@, body.field("presence_penalty"@));
    lemma_carried_keeps(r12, "frequency_penalty"@, body.field("frequency_penalty"@));
    let r13 = json::carried(r12, "frequency_penalty"@, body.field("frequency_penalty"@));
    lemma_carried_keeps(r13, "logit_bias"@, body.field("logit_bias"@));
    let r14 = json::carried(r13, "logit_bias"@, body.field("logit_bias"@));
    lemma_carried_keeps(r14, "seed"@, body.field("seed"@));
    let r15 = json::carried(r14, "seed"@, body.field("seed"@));
    lemma_carried_keeps(r15, "user"@, body.field("user"@));
    let r16 = json::carried(r15, "user"@, body.field("user"@));
    lemma_insert_keeps(
        r16,
        "stream_options"@,
        JsonView::Object(map!["include_usage"@ => JsonView::Bool(true)]),
    );
}

proof fn lemma_responses_request_asks(body: JsonView)
    ensures
        asked(responses_chat::responses_request(body)) == (
            body.field("model"@),
            body.field("stream"@),
        ),
{
    let messages = responses_chat::messages_of(body);
    let instructions = responses_chat::instructions_of(messages);
    let tools = responses_chat::tools_of(body).filter_map(
        |tool: JsonView| responses_chat::responses_tool(tool),
    );
    let input = JsonView::Array(
        messages.flat_map(|message: JsonView| responses_chat::input_items(message)),
    );
    lemma_model_carried(body);
    let r0 = json::carried(Map::empty(), "model"@, body.field("model"@));
    lemma_insert_keeps(r0, "instructions"@, JsonView::text(instructions));
    let r1 = if instructions.len() > 0 {
        r0.insert("instructions"@, JsonView::text(instructions))
    } else {
        r0
    };
    lemma_insert_keeps(r1, "input"@, input);
    let r2 = r1.insert("input"@, input);
    lemma_carried_keeps(r2, "max_output_tokens"@, body.field("max_tokens"@));
    let r3 = json::carried(r2, "max_output_tokens"@, body.field("max_tokens"@));
    lemma_carried_keeps(r3, "max_output_tokens"@, body.field("max_completion_tokens"@));
    let r4 = json::carried(r3, "max_output_tokens"@, body.field("max_completion_tokens"@));
    lemma_carried_keeps(r4, "temperature"@, body.field("temperature"@));
    let r5 = json::carried(r4, "temperature"@, body.field("temperature"@));
    lemma_carried_keeps(r5, "top_p"@, body.field("top_p"@));
    let r6 = json::carried(r5, "top_p"@, body.field("top_p"@));
    lemma_stream_carried(r6, body);
    let r7 = json::carried(r6, "stream"@, body.field("stream"@));
    let r8 = match body.text_at("reasoning_effort"@) {
        Some(effort) => r7.insert(
            "reasoning"@,
            JsonView::Object(
                map!["effort"@ => JsonView::text(effort), "summary"@ => JsonView::text("auto"@)],
            ),
        ),
        None => r7,
    };
    match body.text_at("reasoning_effort"@) {
        Some(effort) => {
            lemma_insert_keeps(r7, "reasoning"@, r8["reasoning"@]);
        },
        None => {},
    }
    lemma_insert_keeps(r8, "tools"@, JsonView::Array(tools));
    let r9 = if tools.len() > 0 {
        r8.insert("tools"@, JsonView::Array(tools))
    } else {
        r8
    };
    lemma_carried_keeps(r9, "metadata"@, body.field("metadata"@));
    let r10 = json::carried(r9, "metadata"@, body.field("metadata"@));
    lemma_carried_keeps(r10, "stop"@, body.field("stop"@));
    let r11 = json::carried(r10, "stop"@, body.field("stop"@));
    lemma_carried_keeps(r11, "seed"@, body.field("seed"@));
    let r12 = json::carried(r11, "seed"@, body.field("seed"@));
    lemma_carried_keeps(r12, "user"@, body.field("user"@));
}

proof fn lemma_anthropic_request_asks(body: JsonView)
    ensures
        asked(responses_anthropic::anthropic_request(body)) == (
            body.field("model"@),
            body.field("stream"@),
        ),
        asked(responses_anthropic::responses_request(body)) == (
            body.field("model"@),
            body.field("stream"@),
        ),
        asked(chat_anthropic::anthropic_request(body)) == (
            body.field("model"@),
            body.field("stream"@),
        ),
        asked(chat_anthropic::chat_request(body)) == (body.field("model"@), body.field("stream"@)),
{
    lemma_other_keys();
    assert(is_other_key("max_tokens"@));
    assert(is_other_key("max_output_tokens"@));
    assert(is_other_key("temperature"@));
    assert(is_other_key("top_p"@));
    assert(is_other_key("system"@));
    assert(is_other_key("instructions"@));
    assert(is_other_key("messages"@));
    assert(is_other_key("input"@));
    assert(is_other_key("tools"@));
}

/// A converted request asks for the model that the request asks for, and for a
/// stream exactly where the request does.
pub proof fn lemma_request_keeps_model_and_stream(from: Protocol, to: Protocol, body: JsonView)
    ensures
        transform::converted_request(from, to, body).field("model"@) == body.field("model"@),
        transform::converted_request(from, to, body).field("stream"@) == body.field("stream"@),
{
    lemma_chat_request_asks(body);
    lemma_responses_request_asks(body);
    lemma_anthropic_request_asks(body);
}

/// A streaming chat request made from a Responses request asks for the token
/// counts; no other does.
pub proof fn lemma_stream_asks_for_usage(body: JsonView)
    ensures
        responses_chat::chat_request(body).dom().contains("stream_options"@) <==> body.field(
            "stream"@,
        ) == Some(JsonView::Bool(true)),
{
    lemma_stream_options_key();
}

proof fn lemma_stream_options_key()
    ensures
        "stream_options"@ != "model"@,
        "stream_options"@ != "messages"@,
        "stream_options"@ != "max_tokens"@,
        "stream_options"@ != "max_completion_tokens"@,
        "stream_options"@ != "temperature"@,
        "stream_options"@ != "top_p"@,
        "stream_options"@ != "stream"@,
        "stream_options"@ != "reasoning_effort"@,
        "stream_options"@ != "tools"@,
        "stream_options"@ != "tool_choice"@,
        "stream_options"@ != "metadata"@,
        "stream_options"@ != "stop"@,
        "stream_options"@ != "presence_penalty"@,
        "stream_options"@ != "frequency_penalty"@,
        "stream_options"@ != "logit_bias"@,
        "stream_options"@ != "seed"@,
        "stream_options"@ != "user"@,
{
    reveal_strlit("stream_options");
    reveal_strlit("model");
    reveal_strlit("messages");
    reveal_strlit("max_tokens");
    reveal_strlit("max_completion_tokens");
    reveal_strlit("temperature");
    reveal_strlit("top_p");
    reveal_strlit("stream");
    reveal_strlit("reasoning_effort");
    reveal_strlit("tools");
    reveal_strlit("tool_choice");
    reveal_strlit("metadata");
    reveal_strlit("stop");
    reveal_strlit("presence_penalty");
    reveal_strlit("frequency_penalty");
    reveal_strlit("logit_bias");
    reveal_strlit("seed");
    reveal_strlit("user");
    assert("stream_options"@.len() == 14);
}

/// The entries of responses other than `model` that are set after it.
proof fn lemma_response_keys()
    ensures
        "model"@ != "output"@,
        "model"@ != "usage"@,
        "model"@ != "parallel_tool_calls"@,
        "model"@ != "previous_response_id"@,
        "model"@ != "reasoning"@,
        "model"@ != "text"@,
        "model"@ != "tools"@,
        "model"@ != "truncation"@,
        "model"@ != "choices"@,
        "model"@ != "content"@,
        "model"@ != "stop_reason"@,
{
    reveal_strlit("model");
    reveal_strlit("output");
    reveal_strlit("usage");
    reveal_strlit("parallel_tool_calls");
    reveal_strlit("previous_response_id");
    reveal_strlit("reasoning");
    reveal_strlit("text");
    reveal_strlit("tools");
    reveal_strlit("truncation");
    reveal_strlit("choices");
    reveal_strlit("content");
    reveal_strlit("stop_reason");
    assert("model"@.len() == 5 && "model"@[0] == 'm');
    assert("usage"@[0] == 'u' && "tools"@[0] == 't');
    assert("output"@.len() == 6 && "text"@.len() == 4);
}

/// A converted response names the model by the name that the client used; where
/// that is not known, by the name that the upstream gave.
pub proof fn lemma_response_names_client_model(
    from: Protocol,
    to: Protocol,
    body: JsonView,
    client_model: Option<Seq<char>>,
    fresh: FreshView,
)
    requires
        from != to,
    ensures
        transform::converted_response(from, to, body, client_model, fresh) matches Some(response)
            ==> response.text_at("model"@) == Some(
            responses_chat::model_name(body, client_model),
        ),
{
    lemma_response_keys();
}

/// Only the conversions of chat responses can fail, and only where the first
/// choice holds no message; and that of Responses to chat, only where there is
/// no list of output items.
pub proof fn lemma_response_converts(
    from: Protocol,
    to: Protocol,
    body: JsonView,
    client_model: Option<Seq<char>>,
    fresh: FreshView,
)
    requires
        from != to,
    ensures
        transform::converted_response(from, to, body, client_model, fresh) is None <==> match (
            from,
            to,
        ) {
            (Protocol::Chat, _) => responses_chat::first_message(body) is None,
            (Protocol::Responses, Protocol::Chat) => body.array_at("output"@) is None,
            _ => false,
        },
{
}

proof fn lemma_role_key()
    ensures
        "role"@ != "content"@,
{
    reveal_strlit("role");
    reveal_strlit("content");
    assert("role"@.len() == 4 && "content"@.len() == 7);
}

proof fn lemma_filter_all_out<A>(items: Seq<A>, wanted: spec_fn(A) -> bool)
    requires
        forall|i: int| 0 <= i < items.len() ==> !wanted(#[trigger] items[i]),
    ensures
        items.filter(wanted).len() == 0,
    decreases items.len(),
{
    reveal(Seq::filter);
    if items.len() > 0 {
        lemma_filter_all_out(items.drop_last(), wanted);
        assert(!wanted(items[items.len() - 1]));
    }
}

/// A chat request made from a Responses request has one system message where its
/// input has any, and none otherwise; that message holds the texts of all of
/// them, each on its own lines.
pub proof fn lemma_one_system_message(messages: Seq<JsonView>)
    ensures
        ({
            let all = responses_chat::collapsed(messages);
            let systems = all.filter(|message: JsonView| responses_chat::is_system(message));
            let first = responses_chat::first_system(messages);
            &&& systems.len() == if first < messages.len() {
                1int
            } else {
                0int
            }
            &&& first < messages.len() ==> all[first].text_at("content"@) == Some(
                crate::text::joined(
                    messages.filter_map(
                        |message: JsonView| responses_chat::system_text(message),
                    ),
                    "\n"@,
                ),
            )
        }),
{
    let is_system = |message: JsonView| responses_chat::is_system(message);
    let no_system = |message: JsonView| !responses_chat::is_system(message);
    let first = responses_chat::first_system(messages);
    lists::lemma_first_where_found(messages, is_system);
    if first < messages.len() {
        lemma_role_key();
        let head = messages.take(first);
        let rest = messages.skip(first + 1).filter(no_system);
        let merged = responses_chat::collapsed(messages)[first];
        assert(is_system(messages[first]));
        assert(is_system(merged));
        assert forall|i: int| 0 <= i < head.len() implies !is_system(#[trigger] head[i]) by {
            assert(!is_system(messages[i]));
        }
        assert forall|i: int| 0 <= i < rest.len() implies !is_system(#[trigger] rest[i]) by {
            messages.skip(first + 1).lemma_filter_pred(no_system, i);
        }
        lemma_filter_all_out(head, is_system);
        lemma_filter_all_out(rest, is_system);
        head.lemma_filter_push(merged, is_system);
        Seq::filter_distributes_over_add(head.push(merged), rest, is_system);
        assert(responses_chat::collapsed(messages) == head.push(merged) + rest);
    } else {
        assert forall|i: int| 0 <= i < messages.len() implies !is_system(
            #[trigger] messages[i],
        ) by {}
        lemma_filter_all_out(messages, is_system);
    }
}

// ── Streams ────────────────────────────────────────────────────────────────

/// To flush a stream twice is to flush it once: the second time nothing is sent
/// and nothing changes.
pub proof fn lemma_flush_once(stream: StreamView)
    ensures
        stream.flushed().0.flushed() == (stream.flushed().0, None::<Seq<char>>),
{
}

/// A stream that has ended is left alone by the flush.
pub proof fn lemma_complete_not_flushed(stream: StreamView)
    requires
        stream.is_complete(),
    ensures
        stream.flushed() == (stream, None::<Seq<char>>),
{
}

/// The line that ends a stream flushes what is pending: the client's stream is
/// ended, where it was not before, and nothing is left to flush.
pub proof fn lemma_end_line_completes(stream: StreamView, line: Seq<char>)
    requires
        common::chunk_in(line) is End,
    ensures
        stream.after_line(line).0.is_complete(),
        stream.after_line(line).0.flushed().1 is None,
        !(stream is Passthrough) ==> (stream.after_line(line).1 is Some <==> !stream.is_complete()),
{
}

/// The line that ends a stream does what the flush does. An Anthropic stream made
/// from a chat one that has not begun is ended without the event that begins it.
pub proof fn lemma_end_line_flushes(stream: StreamView, line: Seq<char>)
    requires
        common::chunk_in(line) is End,
        !(stream is Passthrough),
        stream matches StreamView::ChatToAnthropic(s) ==> s.headers_emitted || s.completed,
    ensures
        stream.after_line(line) == stream.flushed(),
{
}

/// The flush ends every stream, and sends something exactly where it was not
/// ended before.
pub proof fn lemma_flush_completes(stream: StreamView)
    ensures
        stream.flushed().0.is_complete(),
        stream.flushed().1 is Some <==> !stream.is_complete(),
{
}

impl ResponsesProgress {
    /// What never changes in the course of a stream.
    pub open spec fn same_stream(self, other: ResponsesProgress) -> bool {
        &&& self.state.msg_id == other.state.msg_id
        &&& self.state.resp_id == other.state.resp_id
        &&& self.state.model == other.state.model
        &&& self.state.created == other.state.created
        &&& self.state.completed == other.state.completed
    }
}

/// The text that a chunk of a chat stream adds.
pub open spec fn chunk_text(chunk: JsonView) -> Seq<char> {
    match chunk.array_at("choices"@) {
        Some(choices) => if choices.len() > 0 {
            choices[0].field_or("delta"@, JsonView::Object(Map::empty())).text_or(
                "content"@,
                ""@,
            )
        } else {
            Seq::empty()
        },
        None => Seq::empty(),
    }
}

proof fn lemma_calls_keep_stream(p: ResponsesProgress, pieces: Seq<JsonView>)
    ensures
        p.calls(pieces).same_stream(p),
        p.calls(pieces).state.full_text == p.state.full_text,
        p.calls(pieces).state.headers_emitted == p.state.headers_emitted,
    decreases pieces.len(),
{
    if pieces.len() > 0 {
        lemma_calls_keep_stream(p, pieces.drop_last());
        let before = p.calls(pieces.drop_last());
        assert(p.calls(pieces) == before.call(pieces.last()));
    }
}

/// Over the chunks of a chat stream, the identifiers, the model and the time of
/// the response stay; the text grows by exactly what each chunk adds; and the
/// events that begin the response are sent with the first chunk and never again.
pub proof fn lemma_chunk_grows_text(state: ChatToResponsesView, chunk: JsonView)
    ensures
        ({
            let start = ResponsesProgress::from(state);
            let after = start.after(chunk);
            &&& after.same_stream(start)
            &&& after.state.full_text == state.full_text + chunk_text(chunk)
            &&& after.state.headers_emitted
            &&& state.headers_emitted ==> start.open() == start
        }),
{
    reveal_strlit("");
    let start = ResponsesProgress::from(state);
    let opened = start.open();
    match chunk.array_at("choices"@) {
        Some(choices) => {
            if choices.len() > 0 {
                let choice = choices[0];
                let delta = choice.field_or("delta"@, JsonView::Object(Map::empty()));
                let said = delta.text_or("content"@, ""@);
                let spoken = opened.reason(delta.text_or("reasoning_content"@, ""@)).say(said);
                match delta.array_at("tool_calls"@) {
                    Some(pieces) => {
                        lemma_calls_keep_stream(spoken, pieces);
                    },
                    None => {},
                }
                if said.len() == 0 {
                    assert(said =~= Seq::empty());
                    assert(state.full_text + said =~= state.full_text);
                }
            } else {
                assert(state.full_text + Seq::<char>::empty() =~= state.full_text);
            }
        },
        None => {
            assert(state.full_text + Seq::<char>::empty() =~= state.full_text);
        },
    }
}

/// The last event before the end of a converted chat stream reports the whole
/// text, the tool calls and the token counts.
pub proof fn lemma_finish_reports_all(state: ChatToResponsesView)
    requires
        !state.completed,
    ensures
        ({
            let events = ResponsesProgress::from(state).finish().events;
            let closed = ChatToResponsesView { msg_closed: true, ..state };
            &&& events.len() >= 2
            &&& events.last() == SseEventView::Done
            &&& events[events.len() - 2] == SseEventView::Data(
                chat_to_responses_stream::response_event(
                    "response.completed"@,
                    responses_chat::completed_response(
                        state.resp_id,
                        state.created,
                        state.model,
                        chat_to_responses_stream::final_output(closed),
                        chat_to_responses_stream::usage_totals(
                            state.total_input,
                            state.total_output,
                        ),
                    ),
                ),
            )
        }),
{
}

/// A converter without conversion passes every line on, and changes at most the
/// name of the model in it.
pub proof fn lemma_passthrough_passes_on(line: Seq<char>, client_model: Option<Seq<char>>)
    ensures
        StreamView::Passthrough(client_model).after_line(line) == (
            StreamView::Passthrough(client_model),
            Some(common::line_with_client_model(line, client_model)),
        ),
        client_model is None ==> common::line_with_client_model(line, client_model) == line,
        !crate::text::has_prefix(crate::text::trimmed(line), "data: "@)
            ==> common::line_with_client_model(line, client_model) == line,
{
}

/// The text that an event of a Responses stream adds.
pub open spec fn responses_event_text(chunk: JsonView) -> Seq<char> {
    if chunk.text_at("type"@) == Some("response.output_text.delta"@) {
        chunk.text_or("delta"@, ""@)
    } else {
        Seq::empty()
    }
}

/// The text that an event of an Anthropic stream adds.
pub open spec fn anthropic_event_text(chunk: JsonView) -> Seq<char> {
    let delta = chunk.field_or("delta"@, JsonView::Null);
    if chunk.text_at("type"@) == Some("content_block_delta"@) && delta.text_at("type"@) == Some(
        "text_delta"@,
    ) {
        delta.text_or("text"@, ""@)
    } else {
        Seq::empty()
    }
}

proof fn lemma_nothing_added(s: Seq<char>, more: Seq<char>)
    ensures
        s + Seq::<char>::empty() == s,
        more.len() == 0 ==> s + more == s,
{
    assert(s + Seq::<char>::empty() =~= s);
    if more.len() == 0 {
        assert(s + more =~= s);
    }
}

/// Over the events of a Responses stream, the text of the chat message grows by
/// exactly what each event adds, and its identity stays.
pub proof fn lemma_responses_to_chat_text(
    state: responses_to_chat_stream::ResponsesToChatView,
    chunk: JsonView,
)
    ensures
        ({
            let after = responses_to_chat_stream::ChatProgress::from(state).after(chunk).state;
            &&& after.full_text == state.full_text + responses_event_text(chunk)
            &&& after.chat_id == state.chat_id && after.model == state.model && after.created
                == state.created
            &&& after.headers_emitted
            &&& state.completed ==> after.completed
        }),
{
    lemma_nothing_added(state.full_text, chunk.text_or("delta"@, ""@));
}

/// Over the events of an Anthropic stream, the text of the Responses message
/// grows by exactly what each event adds, and its identity stays.
pub proof fn lemma_anthropic_to_responses_text(
    state: anthropic_to_responses_stream::AnthropicToResponsesView,
    chunk: JsonView,
)
    ensures
        ({
            let after = anthropic_to_responses_stream::ResponsesProgress::from(state).after(
                chunk,
            ).state;
            &&& after.full_text == state.full_text + anthropic_event_text(chunk)
            &&& after.resp_id == state.resp_id && after.msg_id == state.msg_id && after.model
                == state.model && after.created == state.created
            &&& after.headers_emitted
            &&& state.completed ==> after.completed
        }),
{
    lemma_nothing_added(
        state.full_text,
        chunk.field_or("delta"@, JsonView::Null).text_or("text"@, ""@),
    );
}

/// Over the events of a Responses stream, the text of the Anthropic message grows
/// by exactly what each event adds, and its identity stays.
pub proof fn lemma_responses_to_anthropic_text(
    state: responses_to_anthropic_stream::ResponsesToAnthropicView,
    chunk: JsonView,
)
    ensures
        ({
            let after = responses_to_anthropic_stream::AnthropicProgress::from(state).after(
                chunk,
            ).state;
            &&& after.full_text == state.full_text + responses_event_text(chunk)
            &&& after.msg_id == state.msg_id && after.model == state.model
            &&& after.headers_emitted
            &&& state.completed ==> after.completed
        }),
{
    lemma_nothing_added(state.full_text, chunk.text_or("delta"@, ""@));
}

/// Over the events of an Anthropic stream, the text of the chat message grows by
/// exactly what each event adds, and its identity stays.
pub proof fn lemma_anthropic_to_chat_text(
    state: anthropic_to_chat_stream::AnthropicToChatView,
    chunk: JsonView,
)
    ensures
        ({
            let after = anthropic_to_chat_stream::ChatProgress::from(state).after(chunk).state;
            &&& after.full_text == state.full_text + anthropic_event_text(chunk)
            &&& after.chat_id == state.chat_id && after.model == state.model && after.created
                == state.created
            &&& after.headers_emitted
            &&& state.completed ==> after.completed
        }),
{
    lemma_nothing_added(
        state.full_text,
        chunk.field_or("delta"@, JsonView::Null).text_or("text"@, ""@),
    );
}

/// Over the chunks of a chat stream, the text of the Anthropic message grows by
/// exactly what each chunk adds, and its identity stays.
pub proof fn lemma_chat_to_anthropic_text(
    state: chat_to_anthropic_stream::ChatToAnthropicView,
    chunk: JsonView,
)
    ensures
        ({
            let after = chat_to_anthropic_stream::AnthropicProgress::from(state).after(
                chunk,
            ).state;
            &&& after.full_text == state.full_text + chunk_text(chunk)
            &&& after.msg_id == state.msg_id && after.model == state.model
            &&& after.headers_emitted
            &&& state.completed ==> after.completed
        }),
{
    lemma_nothing_added(state.full_text, chunk_text(chunk));
}

/// A flushed chat stream made from an Anthropic one ends with the line that ends
/// chat streams, and is complete.
pub proof fn lemma_flushed_chat_stream_ends(state: anthropic_to_chat_stream::AnthropicToChatView)
    requires
        !state.completed,
    ensures
        ({
            let end = anthropic_to_chat_stream::ChatProgress::from(state).finish();
            &&& end.state.completed && end.state.headers_emitted
            &&& end.events.len() >= 2
            &&& end.events.last() == SseEventView::Done
        }),
{
}

/// A flushed Anthropic stream made from a chat one ends with the events that end
/// a message, and is complete.
pub proof fn lemma_flushed_anthropic_stream_ends(
    state: chat_to_anthropic_stream::ChatToAnthropicView,
)
    requires
        !state.completed,
    ensures
        ({
            let end = chat_to_anthropic_stream::AnthropicProgress::from(state).finish();
            let last = anthropic::message_end("end_turn"@, 0, 0);
            &&& end.state.completed && end.state.headers_emitted
            &&& end.events.len() >= last.len()
            &&& end.events.skip(end.events.len() - last.len()) == last
        }),
{
    let end = chat_to_anthropic_stream::AnthropicProgress::from(state).finish();
    let last = anthropic::message_end("end_turn"@, 0, 0);
    assert(end.events.skip(end.events.len() - last.len()) =~= last);
}

/// A flushed chat stream made from a Responses one ends with a chunk that gives the
/// reason and the line that ends chat streams, and is complete.
pub proof fn lemma_flushed_responses_to_chat_ends(
    state: responses_to_chat_stream::ResponsesToChatView,
)
    requires
        !state.completed,
    ensures
        ({
            let end = responses_to_chat_stream::ChatProgress::from(state).finish();
            let last = responses_to_chat_stream::chat_chunk(
                state.chat_id,
                state.created,
                state.model,
                JsonView::Object(Map::empty()),
                JsonView::text(
                    if state.active.len() > 0 {
                        "tool_calls"@
                    } else {
                        "stop"@
                    },
                ),
            ).insert(
                "usage"@,
                responses_to_chat_stream::chat_usage_totals(
                    state.total_input,
                    state.total_output,
                ),
            );
            &&& end.state.completed && end.state.headers_emitted
            &&& end.events.len() >= 2
            &&& end.events[end.events.len() - 2] == SseEventView::Data(JsonView::Object(last))
            &&& end.events.last() == SseEventView::Done
        }),
{
}

/// A flushed Responses stream made from an Anthropic one ends with the completed
/// response, which holds the text so far, and the end of the stream.
pub proof fn lemma_flushed_anthropic_to_responses_ends(
    state: anthropic_to_responses_stream::AnthropicToResponsesView,
)
    requires
        !state.completed,
    ensures
        ({
            let end = anthropic_to_responses_stream::ResponsesProgress::from(state).finish();
            &&& end.state.completed && end.state.headers_emitted && end.state.msg_closed
            &&& end.events.len() >= 2
            &&& end.events[end.events.len() - 2] == SseEventView::Data(
                chat_to_responses_stream::response_event(
                    "response.completed"@,
                    responses_chat::completed_response(
                        state.resp_id,
                        state.created,
                        state.model,
                        seq![
                            chat_to_responses_stream::closed_message(
                                state.msg_id,
                                state.full_text,
                            ),
                        ],
                        chat_to_responses_stream::usage_totals(
                            state.total_input,
                            state.total_output,
                        ),
                    ),
                ),
            )
            &&& end.events.last() == SseEventView::Done
        }),
{
}

/// A flushed Anthropic stream made from a Responses one ends with the end of its
/// block and the events that end a message, and is complete.
pub proof fn lemma_flushed_responses_to_anthropic_ends(
    state: responses_to_anthropic_stream::ResponsesToAnthropicView,
)
    requires
        !state.completed,
    ensures
        ({
            let end = responses_to_anthropic_stream::AnthropicProgress::from(state).finish();
            let last = seq![SseEventView::Data(anthropic::block_stop())] + anthropic::message_end(
                "end_turn"@,
                0,
                0,
            );
            &&& end.state.completed && end.state.headers_emitted
            &&& end.events.len() >= last.len()
            &&& end.events.skip(end.events.len() - last.len()) == last
        }),
{
    let end = responses_to_anthropic_stream::AnthropicProgress::from(state).finish();
    let last = seq![SseEventView::Data(anthropic::block_stop())] + anthropic::message_end(
        "end_turn"@,
        0,
        0,
    );
    assert(end.events.skip(end.events.len() - last.len()) =~= last);
}

} // verus!
