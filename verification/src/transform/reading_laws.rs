//! What a client reads of a converted stream: over all lines, whatever they are,
//! the texts that reach it make up the texts that the upstream sent.

use crate::format::Protocol;
use crate::json;
use crate::json::{JsonView, Parsed};
use crate::literals;
use crate::text;
use crate::transform::anthropic_to_chat_stream;
use crate::transform::anthropic_to_responses_stream;
use crate::transform::chat_to_anthropic_stream;
use crate::transform::chat_to_responses_stream;
use crate::transform::chat_to_responses_stream::{
    ChatToResponsesView, ResponsesProgress, ToolCallView,
};
use crate::transform::common;
use crate::transform::common::{ChunkView, SseEventView};
use crate::transform::event_laws as seen;
use crate::transform::output_event_laws as output;
use crate::transform::request_laws as entries;
use crate::transform::responses_to_anthropic_stream;
use crate::transform::responses_to_chat_stream;
use crate::transform::StreamView;
use vstd::prelude::*;

verus! {

// ── Words and thoughts ─────────────────────────────────────────────────────

/// The text that an event of a stream of a protocol adds.
pub open spec fn heard(protocol: Protocol, v: JsonView) -> Seq<char> {
    match protocol {
        Protocol::Responses => seen::responses_words(v),
        Protocol::Chat => seen::chat_words(v),
        Protocol::Anthropic => seen::anthropic_words(v),
    }
}

/// The reasoning that an event of a stream of a protocol adds.
pub open spec fn thought(protocol: Protocol, v: JsonView) -> Seq<char> {
    match protocol {
        Protocol::Responses => seen::responses_thoughts(v),
        Protocol::Chat => seen::chat_thoughts(v),
        Protocol::Anthropic => seen::anthropic_thoughts(v),
    }
}

pub open spec fn all_heard(protocol: Protocol, events: Seq<SseEventView>) -> Seq<char> {
    seen::all_said(events, |v: JsonView| heard(protocol, v))
}

pub open spec fn all_thought(protocol: Protocol, events: Seq<SseEventView>) -> Seq<char> {
    seen::all_said(events, |v: JsonView| thought(protocol, v))
}

/// Whether events say something and nothing else.
pub open spec fn they_say(
    protocol: Protocol,
    events: Seq<SseEventView>,
    words: Seq<char>,
    thoughts: Seq<char>,
) -> bool {
    all_heard(protocol, events) == words && all_thought(protocol, events) == thoughts
}

proof fn lemma_say_push(protocol: Protocol, events: Seq<SseEventView>, e: SseEventView)
    ensures
        they_say(
            protocol,
            events.push(e),
            all_heard(protocol, events) + heard(protocol, seen::value_of(e)),
            all_thought(protocol, events) + thought(protocol, seen::value_of(e)),
        ),
{
    seen::lemma_all_said(events.push(e), |v: JsonView| heard(protocol, v));
    seen::lemma_all_said(events.push(e), |v: JsonView| thought(protocol, v));
    assert(events.push(e).drop_last() =~= events);
}

proof fn lemma_say_add(protocol: Protocol, a: Seq<SseEventView>, b: Seq<SseEventView>)
    ensures
        they_say(
            protocol,
            a + b,
            all_heard(protocol, a) + all_heard(protocol, b),
            all_thought(protocol, a) + all_thought(protocol, b),
        ),
{
    seen::lemma_all_said_add(a, b, |v: JsonView| heard(protocol, v));
    seen::lemma_all_said_add(a, b, |v: JsonView| thought(protocol, v));
}

proof fn lemma_say_few(protocol: Protocol, events: Seq<SseEventView>)
    ensures
        events.len() == 0 ==> they_say(protocol, events, Seq::empty(), Seq::empty()),
{
    seen::lemma_few_said(events, |v: JsonView| heard(protocol, v));
    seen::lemma_few_said(events, |v: JsonView| thought(protocol, v));
}

spec fn is_silent(protocol: Protocol, e: SseEventView) -> bool {
    heard(protocol, seen::value_of(e)).len() == 0 && thought(protocol, seen::value_of(e)).len()
        == 0
}

proof fn lemma_silent(protocol: Protocol, events: Seq<SseEventView>)
    requires
        forall|i: int| 0 <= i < events.len() ==> is_silent(protocol, #[trigger] events[i]),
    ensures
        they_say(protocol, events, Seq::empty(), Seq::empty()),
{
    let words = |v: JsonView| heard(protocol, v);
    let thoughts = |v: JsonView| thought(protocol, v);
    assert forall|i: int| 0 <= i < events.len() implies words(
        seen::value_of(#[trigger] events[i]),
    ).len() == 0 by {
        assert(is_silent(protocol, events[i]));
    }
    assert forall|i: int| 0 <= i < events.len() implies thoughts(
        seen::value_of(#[trigger] events[i]),
    ).len() == 0 by {
        assert(is_silent(protocol, events[i]));
    }
    entries::lemma_no_flat_map(events, |e: SseEventView| words(seen::value_of(e)));
    entries::lemma_no_flat_map(events, |e: SseEventView| thoughts(seen::value_of(e)));
}

// ── One converter after the other ──────────────────────────────────────────

/// For every event of an Anthropic stream, the chat client reads exactly what the
/// event adds, and the end of a stream adds nothing.
pub proof fn lemma_anthropic_to_chat_read(
    state: anthropic_to_chat_stream::AnthropicToChatView,
    v: JsonView,
)
    ensures
        they_say(
            Protocol::Chat,
            anthropic_to_chat_stream::ChatProgress::from(state).after(v).events,
            seen::anthropic_words(v),
            seen::anthropic_thoughts(v),
        ),
        they_say(
            Protocol::Chat,
            anthropic_to_chat_stream::ChatProgress::from(state).finish().events,
            Seq::empty(),
            Seq::empty(),
        ),
{
    literals::lemma_literals();
    seen::lemma_anthropic_to_chat_events(state, v);
    seen::lemma_anthropic_to_chat_finish(state);
    let events = anthropic_to_chat_stream::ChatProgress::from(state).after(v).events;
    let last = anthropic_to_chat_stream::ChatProgress::from(state).finish().events;
    lemma_say_few(Protocol::Chat, events);
    lemma_say_few(Protocol::Chat, last);
    seen::lemma_few_said(events, |v: JsonView| heard(Protocol::Chat, v));
    seen::lemma_few_said(events, |v: JsonView| thought(Protocol::Chat, v));
    seen::lemma_few_said(last, |v: JsonView| heard(Protocol::Chat, v));
    seen::lemma_few_said(last, |v: JsonView| thought(Protocol::Chat, v));
    assert(all_heard(Protocol::Chat, events) =~= seen::anthropic_words(v));
    assert(all_thought(Protocol::Chat, events) =~= seen::anthropic_thoughts(v));
    assert(all_heard(Protocol::Chat, last) =~= Seq::empty());
    assert(all_thought(Protocol::Chat, last) =~= Seq::empty());
}

/// For every event of a Responses stream, the chat client reads exactly what the
/// event adds, and the end of a stream adds nothing.
pub proof fn lemma_responses_to_chat_read(
    state: responses_to_chat_stream::ResponsesToChatView,
    v: JsonView,
)
    ensures
        they_say(
            Protocol::Chat,
            responses_to_chat_stream::ChatProgress::from(state).after(v).events,
            seen::responses_words(v),
            seen::responses_thoughts(v),
        ),
        they_say(
            Protocol::Chat,
            responses_to_chat_stream::ChatProgress::from(state).finish().events,
            Seq::empty(),
            Seq::empty(),
        ),
{
    literals::lemma_literals();
    let events = responses_to_chat_stream::ChatProgress::from(state).after(v).events;
    let last = responses_to_chat_stream::ChatProgress::from(state).finish().events;
    seen::lemma_few_said(events, |v: JsonView| heard(Protocol::Chat, v));
    seen::lemma_few_said(events, |v: JsonView| thought(Protocol::Chat, v));
    seen::lemma_few_said(last, |v: JsonView| heard(Protocol::Chat, v));
    seen::lemma_few_said(last, |v: JsonView| thought(Protocol::Chat, v));
    assert(all_heard(Protocol::Chat, events) =~= seen::responses_words(v));
    assert(all_thought(Protocol::Chat, events) =~= seen::responses_thoughts(v));
    assert(all_heard(Protocol::Chat, last) =~= Seq::empty());
    assert(all_thought(Protocol::Chat, last) =~= Seq::empty());
}

/// For every event of a Responses stream, the Anthropic client reads exactly what
/// the event adds, and the end of a stream adds nothing.
pub proof fn lemma_responses_to_anthropic_read(
    state: responses_to_anthropic_stream::ResponsesToAnthropicView,
    v: JsonView,
)
    ensures
        they_say(
            Protocol::Anthropic,
            responses_to_anthropic_stream::AnthropicProgress::from(state).after(v).events,
            seen::responses_words(v),
            seen::responses_thoughts(v),
        ),
        they_say(
            Protocol::Anthropic,
            responses_to_anthropic_stream::AnthropicProgress::from(state).finish().events,
            Seq::empty(),
            Seq::empty(),
        ),
{
    literals::lemma_literals();
    let events = responses_to_anthropic_stream::AnthropicProgress::from(state).after(v).events;
    let last = responses_to_anthropic_stream::AnthropicProgress::from(state).finish().events;
    seen::lemma_few_said(events, |v: JsonView| heard(Protocol::Anthropic, v));
    seen::lemma_few_said(events, |v: JsonView| thought(Protocol::Anthropic, v));
    seen::lemma_few_said(last, |v: JsonView| heard(Protocol::Anthropic, v));
    seen::lemma_few_said(last, |v: JsonView| thought(Protocol::Anthropic, v));
    assert(all_heard(Protocol::Anthropic, events) =~= seen::responses_words(v));
    assert(all_thought(Protocol::Anthropic, events) =~= seen::responses_thoughts(v));
    assert(all_heard(Protocol::Anthropic, last) =~= Seq::empty());
    assert(all_thought(Protocol::Anthropic, last) =~= Seq::empty());
}

/// For every chunk of a chat stream, the Anthropic client reads exactly what the
/// chunk adds, and the end of a stream adds nothing.
pub proof fn lemma_chat_to_anthropic_read(
    state: chat_to_anthropic_stream::ChatToAnthropicView,
    v: JsonView,
)
    ensures
        they_say(
            Protocol::Anthropic,
            chat_to_anthropic_stream::AnthropicProgress::from(state).after(v).events,
            seen::chat_words(v),
            seen::chat_thoughts(v),
        ),
        they_say(
            Protocol::Anthropic,
            chat_to_anthropic_stream::AnthropicProgress::from(state).end().events,
            Seq::empty(),
            Seq::empty(),
        ),
        they_say(
            Protocol::Anthropic,
            chat_to_anthropic_stream::AnthropicProgress::from(state).finish().events,
            Seq::empty(),
            Seq::empty(),
        ),
{
    literals::lemma_literals();
    seen::lemma_chat_to_anthropic_events(state, v);
    seen::lemma_chat_to_anthropic_finish(state);
    let events = chat_to_anthropic_stream::AnthropicProgress::from(state).after(v).events;
    let ended = chat_to_anthropic_stream::AnthropicProgress::from(state).end().events;
    let last = chat_to_anthropic_stream::AnthropicProgress::from(state).finish().events;
    seen::lemma_few_said(events, |v: JsonView| heard(Protocol::Anthropic, v));
    seen::lemma_few_said(events, |v: JsonView| thought(Protocol::Anthropic, v));
    seen::lemma_few_said(ended, |v: JsonView| heard(Protocol::Anthropic, v));
    seen::lemma_few_said(ended, |v: JsonView| thought(Protocol::Anthropic, v));
    seen::lemma_few_said(last, |v: JsonView| heard(Protocol::Anthropic, v));
    seen::lemma_few_said(last, |v: JsonView| thought(Protocol::Anthropic, v));
    assert(all_heard(Protocol::Anthropic, events) =~= seen::chat_words(v));
    assert(all_thought(Protocol::Anthropic, events) =~= seen::chat_thoughts(v));
    assert(all_heard(Protocol::Anthropic, ended) =~= Seq::empty());
    assert(all_thought(Protocol::Anthropic, ended) =~= Seq::empty());
    assert(all_heard(Protocol::Anthropic, last) =~= Seq::empty());
    assert(all_thought(Protocol::Anthropic, last) =~= Seq::empty());
}

/// For every event of an Anthropic stream, the Responses client reads exactly what
/// the event adds, and the end of a stream adds nothing.
pub proof fn lemma_anthropic_to_responses_read(
    state: anthropic_to_responses_stream::AnthropicToResponsesView,
    v: JsonView,
)
    ensures
        they_say(
            Protocol::Responses,
            anthropic_to_responses_stream::ResponsesProgress::from(state).after(v).events,
            seen::anthropic_words(v),
            seen::anthropic_thoughts(v),
        ),
        they_say(
            Protocol::Responses,
            anthropic_to_responses_stream::ResponsesProgress::from(state).finish().events,
            Seq::empty(),
            Seq::empty(),
        ),
{
    literals::lemma_literals();
    output::lemma_anthropic_to_responses_events(state, v);
    output::lemma_anthropic_to_responses_finish(state);
    let events = anthropic_to_responses_stream::ResponsesProgress::from(state).after(v).events;
    let last = anthropic_to_responses_stream::ResponsesProgress::from(state).finish().events;
    seen::lemma_few_said(events, |v: JsonView| heard(Protocol::Responses, v));
    seen::lemma_few_said(events, |v: JsonView| thought(Protocol::Responses, v));
    seen::lemma_few_said(last, |v: JsonView| heard(Protocol::Responses, v));
    seen::lemma_few_said(last, |v: JsonView| thought(Protocol::Responses, v));
    assert(all_heard(Protocol::Responses, events) =~= seen::anthropic_words(v));
    assert(all_thought(Protocol::Responses, events) =~= seen::anthropic_thoughts(v));
    assert(all_heard(Protocol::Responses, last) =~= Seq::empty());
    assert(all_thought(Protocol::Responses, last) =~= Seq::empty());
}

/// Whether a step of a Responses stream says something more.
spec fn goes_on(
    before: Seq<SseEventView>,
    after: Seq<SseEventView>,
    words: Seq<char>,
    thoughts: Seq<char>,
) -> bool {
    they_say(
        Protocol::Responses,
        after,
        all_heard(Protocol::Responses, before) + words,
        all_thought(Protocol::Responses, before) + thoughts,
    )
}

proof fn lemma_quiet(before: Seq<SseEventView>, more: Seq<SseEventView>)
    requires
        forall|i: int| 0 <= i < more.len() ==> is_silent(Protocol::Responses, #[trigger] more[i]),
    ensures
        goes_on(before, before + more, Seq::empty(), Seq::empty()),
{
    lemma_silent(Protocol::Responses, more);
    lemma_say_add(Protocol::Responses, before, more);
}

proof fn lemma_step(p: ResponsesProgress, piece: JsonView, words: Seq<char>, thoughts: Seq<char>)
    ensures
        goes_on(p.events, p.open().events, Seq::empty(), Seq::empty()),
        goes_on(p.events, p.close_message().events, Seq::empty(), Seq::empty()),
        goes_on(p.events, p.call(piece).events, Seq::empty(), Seq::empty()),
        goes_on(p.events, p.reason(thoughts).events, Seq::empty(), thoughts),
        goes_on(p.events, p.say(words).events, words, Seq::empty()),
{
    literals::lemma_literals();
    let r = Protocol::Responses;
    let h = all_heard(r, p.events);
    let t = all_thought(r, p.events);
    assert(h + Seq::<char>::empty() =~= h);
    assert(t + Seq::<char>::empty() =~= t);
    lemma_quiet(
        p.events,
        chat_to_responses_stream::opening_events(
            p.state.resp_id,
            p.state.msg_id,
            p.state.created,
            p.state.model,
        ),
    );
    lemma_quiet(
        p.events,
        chat_to_responses_stream::closing_events(p.state.msg_id, p.state.full_text),
    );
    let called = p.call(piece).events;
    let closed = p.close_message().events;
    let last = called.last();
    assert(called =~= p.events.push(last) || called =~= closed.push(last));
    lemma_say_push(r, p.events, last);
    lemma_say_push(r, closed, last);
    assert(heard(r, seen::value_of(last)) =~= Seq::empty());
    assert(thought(r, seen::value_of(last)) =~= Seq::empty());
    if thoughts.len() > 0 {
        lemma_say_push(r, p.events, p.reason(thoughts).events.last());
    } else {
        assert(thoughts =~= Seq::empty());
    }
    if words.len() > 0 {
        lemma_say_push(r, p.events, p.say(words).events.last());
    } else {
        assert(words =~= Seq::empty());
    }
}

proof fn lemma_calls_quiet(p: ResponsesProgress, pieces: Seq<JsonView>)
    ensures
        goes_on(p.events, p.calls(pieces).events, Seq::empty(), Seq::empty()),
    decreases pieces.len(),
{
    let h = all_heard(Protocol::Responses, p.events);
    let t = all_thought(Protocol::Responses, p.events);
    assert(h + Seq::<char>::empty() =~= h);
    assert(t + Seq::<char>::empty() =~= t);
    if pieces.len() > 0 {
        let q = p.calls(pieces.drop_last());
        lemma_calls_quiet(p, pieces.drop_last());
        lemma_step(q, pieces.last(), Seq::empty(), Seq::empty());
        assert(p.calls(pieces) == q.call(pieces.last()));
    }
}

spec fn done_events(calls: Seq<ToolCallView>) -> Seq<SseEventView> {
    calls.flat_map(|call: ToolCallView| chat_to_responses_stream::call_done_events(call))
}

proof fn lemma_done_silent(calls: Seq<ToolCallView>)
    ensures
        forall|i: int|
            0 <= i < done_events(calls).len() ==> is_silent(
                Protocol::Responses,
                #[trigger] done_events(calls)[i],
            ),
{
    literals::lemma_literals();
    output::lemma_calls_done(calls);
    let done = done_events(calls);
    assert forall|i: int| 0 <= i < done.len() implies is_silent(
        Protocol::Responses,
        #[trigger] done[i],
    ) by {
        let k = i / 2;
        assert(i == 2 * k || i == 2 * k + 1);
        assert(output::are_call_done(done[2 * k], done[2 * k + 1], calls[k]));
    }
}

/// For every chunk of a chat stream, the Responses client reads exactly what the
/// chunk adds, and the end of a stream adds nothing.
pub proof fn lemma_chat_to_responses_read(state: ChatToResponsesView, v: JsonView)
    ensures
        they_say(
            Protocol::Responses,
            ResponsesProgress::from(state).after(v).events,
            seen::chat_words(v),
            seen::chat_thoughts(v),
        ),
        they_say(
            Protocol::Responses,
            ResponsesProgress::from(state).finish().events,
            Seq::empty(),
            Seq::empty(),
        ),
{
    literals::lemma_literals();
    let r = Protocol::Responses;
    let words = seen::chat_words(v);
    let thoughts = seen::chat_thoughts(v);
    let pieces = output::pieces_in(v);
    output::lemma_chunk_parts(state, v);
    let start = ResponsesProgress::from(state);
    lemma_say_few(r, start.events);
    let opened = start.open();
    lemma_step(start, v, words, thoughts);
    lemma_step(opened, v, words, thoughts);
    let reasoned = opened.reason(thoughts);
    lemma_step(reasoned, v, words, thoughts);
    let spoken = reasoned.say(words);
    lemma_calls_quiet(spoken, pieces);
    let called = spoken.calls(pieces);
    lemma_step(called, v, words, thoughts);
    let closed = called.close_message();
    lemma_done_silent(closed.state.active);
    lemma_quiet(closed.events, done_events(closed.state.active));
    let after = start.after(v).events;
    assert(all_heard(r, after) =~= words);
    assert(all_thought(r, after) =~= thoughts);
    if !state.completed {
        let begun = ResponsesProgress::from(ChatToResponsesView { completed: true, ..state });
        lemma_step(begun, v, words, thoughts);
        let ended = begun.close_message();
        let open = chat_to_responses_stream::open_calls(ended.state);
        lemma_done_silent(open);
        let done = done_events(open);
        lemma_quiet(ended.events, done);
        let all = ended.events + done;
        let last = start.finish().events;
        let completed = last[last.len() - 2];
        assert(last =~= all.push(completed).push(SseEventView::Done));
        lemma_say_push(r, all, completed);
        lemma_say_push(r, all.push(completed), SseEventView::Done);
        assert(all_heard(r, last) =~= Seq::empty());
        assert(all_thought(r, last) =~= Seq::empty());
    }
}

// ── Lines and streams ──────────────────────────────────────────────────────

/// The value that a line of a stream brings: the JSON after `data: `, without the
/// white space around it. The line that ends chat streams brings none.
pub open spec fn brought(line: Seq<char>) -> Option<JsonView> {
    let data = text::trimmed(line.skip(6));
    if text::has_prefix(line, "data: "@) && data != "[DONE]"@ {
        match json::json_parse(vstd::utf8::encode_utf8(data)) {
            Parsed::Value(v) => Some(v),
            Parsed::Fault(_) => None,
        }
    } else {
        None
    }
}

/// The text that a line of a stream of a protocol adds.
pub open spec fn heard_in(protocol: Protocol, line: Seq<char>) -> Seq<char> {
    match brought(line) {
        Some(v) => heard(protocol, v),
        None => Seq::empty(),
    }
}

/// The reasoning that a line of a stream of a protocol adds.
pub open spec fn thought_in(protocol: Protocol, line: Seq<char>) -> Seq<char> {
    match brought(line) {
        Some(v) => thought(protocol, v),
        None => Seq::empty(),
    }
}

/// The texts of lines, one after the other.
pub open spec fn lines_heard(protocol: Protocol, lines: Seq<Seq<char>>) -> Seq<char> {
    lines.flat_map(|line: Seq<char>| heard_in(protocol, line))
}

/// The reasoning of lines, one after the other.
pub open spec fn lines_thought(protocol: Protocol, lines: Seq<Seq<char>>) -> Seq<char> {
    lines.flat_map(|line: Seq<char>| thought_in(protocol, line))
}

/// An event as it is written to the client.
pub open spec fn written(e: SseEventView) -> Seq<char> {
    match e {
        SseEventView::Data(v) => "data: "@ + json::json_text(v) + "\n\n"@,
        SseEventView::Done => "data: [DONE]\n\n"@,
    }
}

/// Events as they are written to the client, one after the other.
pub open spec fn all_written(events: Seq<SseEventView>) -> Seq<char> {
    events.flat_map(|e: SseEventView| written(e))
}

/// The text of what is sent, where something is sent.
pub open spec fn text_sent(sent: Option<Seq<char>>) -> Seq<char> {
    match sent {
        Some(s) => s,
        None => Seq::empty(),
    }
}

/// The protocol of the upstream of a converted stream.
pub open spec fn source(stream: StreamView) -> Protocol {
    match stream {
        StreamView::ChatToResponses(_) => Protocol::Chat,
        StreamView::ChatToAnthropic(_) => Protocol::Chat,
        StreamView::ResponsesToChat(_) => Protocol::Responses,
        StreamView::ResponsesToAnthropic(_) => Protocol::Responses,
        _ => Protocol::Anthropic,
    }
}

/// The protocol of the client of a converted stream.
pub open spec fn target(stream: StreamView) -> Protocol {
    match stream {
        StreamView::ChatToResponses(_) => Protocol::Responses,
        StreamView::AnthropicToResponses(_) => Protocol::Responses,
        StreamView::ResponsesToChat(_) => Protocol::Chat,
        StreamView::AnthropicToChat(_) => Protocol::Chat,
        _ => Protocol::Anthropic,
    }
}

/// Whether what is sent is written events that say something and nothing else.
pub open spec fn reads(
    protocol: Protocol,
    sent: Seq<char>,
    events: Seq<SseEventView>,
    words: Seq<char>,
    thoughts: Seq<char>,
) -> bool {
    sent == all_written(events) && they_say(protocol, events, words, thoughts)
}

proof fn lemma_sent(events: Seq<SseEventView>)
    ensures
        text_sent(common::sent(events)) == all_written(events),
        events.len() > 0 <==> common::sent(events) is Some,
    decreases events.len(),
{
    let f = |e: SseEventView| common::event_text(e);
    let g = |e: SseEventView| written(e);
    if events.len() > 0 {
        let before = events.drop_last();
        lemma_sent(before);
        before.lemma_flat_map_push(f, events.last());
        before.lemma_flat_map_push(g, events.last());
        assert(before.push(events.last()) =~= events);
        if before.len() == 0 {
            assert(before.flat_map(f) =~= Seq::empty());
            assert(before.flat_map(g) =~= Seq::empty());
        }
    } else {
        assert(events.flat_map(g) =~= Seq::empty());
    }
}

proof fn lemma_brought(line: Seq<char>)
    ensures
        common::chunk_in(line) is Value <==> brought(line) is Some,
        brought(line) matches Some(v) ==> common::chunk_in(line) == ChunkView::Value(v)
            && common::value_in(line) == Some(v),
        common::chunk_in(line) is Nothing ==> common::value_in(line) is None,
{
    reveal_strlit("data: ");
}

/// For every line of a converted stream, the client reads exactly the text and the
/// reasoning that the line adds, and the stream goes on between the same protocols.
pub proof fn lemma_line_read(stream: StreamView, line: Seq<char>)
    requires
        !(stream is Passthrough),
    ensures
        ({
            let after = stream.after_line(line);
            &&& !(after.0 is Passthrough)
            &&& source(after.0) == source(stream) && target(after.0) == target(stream)
            &&& exists|events: Seq<SseEventView>| #[trigger]
                reads(
                    target(stream),
                    text_sent(after.1),
                    events,
                    heard_in(source(stream), line),
                    thought_in(source(stream), line),
                )
        }),
{
    lemma_brought(line);
    let v = match brought(line) {
        Some(v) => v,
        None => JsonView::Null,
    };
    let none = Seq::<SseEventView>::empty();
    let events = match stream {
        StreamView::ChatToResponses(s) => {
            lemma_chat_to_responses_read(s, v);
            ResponsesProgress::from(s).line(line).events
        },
        StreamView::ResponsesToChat(s) => {
            lemma_responses_to_chat_read(s, v);
            let p = responses_to_chat_stream::ChatProgress::from(s);
            if common::chunk_in(line) is End {
                p.finish().events
            } else {
                p.line(line).events
            }
        },
        StreamView::AnthropicToResponses(s) => {
            lemma_anthropic_to_responses_read(s, v);
            let p = anthropic_to_responses_stream::ResponsesProgress::from(s);
            if common::chunk_in(line) is End {
                p.finish().events
            } else {
                p.line(line).events
            }
        },
        StreamView::ResponsesToAnthropic(s) => {
            lemma_responses_to_anthropic_read(s, v);
            let p = responses_to_anthropic_stream::AnthropicProgress::from(s);
            if common::chunk_in(line) is End {
                p.finish().events
            } else {
                p.line(line).events
            }
        },
        StreamView::AnthropicToChat(s) => {
            lemma_anthropic_to_chat_read(s, v);
            let p = anthropic_to_chat_stream::ChatProgress::from(s);
            if common::chunk_in(line) is End {
                p.finish().events
            } else {
                p.line(line).events
            }
        },
        StreamView::ChatToAnthropic(s) => {
            lemma_chat_to_anthropic_read(s, v);
            chat_to_anthropic_stream::AnthropicProgress::from(s).line(line).events
        },
        StreamView::Passthrough(_) => none,
    };
    lemma_say_few(target(stream), none);
    lemma_sent(events);
    assert(reads(
        target(stream),
        text_sent(stream.after_line(line).1),
        events,
        heard_in(source(stream), line),
        thought_in(source(stream), line),
    ));
}

/// The end of a converted stream adds nothing to what the client reads.
pub proof fn lemma_flush_read(stream: StreamView)
    requires
        !(stream is Passthrough),
    ensures
        exists|events: Seq<SseEventView>| #[trigger]
            reads(
                target(stream),
                text_sent(stream.flushed().1),
                events,
                Seq::empty(),
                Seq::empty(),
            ),
{
    let v = JsonView::Null;
    let events = match stream {
        StreamView::ChatToResponses(s) => {
            lemma_chat_to_responses_read(s, v);
            ResponsesProgress::from(s).finish().events
        },
        StreamView::ResponsesToChat(s) => {
            lemma_responses_to_chat_read(s, v);
            responses_to_chat_stream::ChatProgress::from(s).finish().events
        },
        StreamView::AnthropicToResponses(s) => {
            lemma_anthropic_to_responses_read(s, v);
            anthropic_to_responses_stream::ResponsesProgress::from(s).finish().events
        },
        StreamView::ResponsesToAnthropic(s) => {
            lemma_responses_to_anthropic_read(s, v);
            responses_to_anthropic_stream::AnthropicProgress::from(s).finish().events
        },
        StreamView::AnthropicToChat(s) => {
            lemma_anthropic_to_chat_read(s, v);
            anthropic_to_chat_stream::ChatProgress::from(s).finish().events
        },
        StreamView::ChatToAnthropic(s) => {
            lemma_chat_to_anthropic_read(s, v);
            chat_to_anthropic_stream::AnthropicProgress::from(s).finish().events
        },
        StreamView::Passthrough(_) => Seq::<SseEventView>::empty(),
    };
    lemma_sent(events);
    assert(reads(
        target(stream),
        text_sent(stream.flushed().1),
        events,
        Seq::empty(),
        Seq::empty(),
    ));
}

/// A stream after some lines, and all that was sent for them.
pub open spec fn after_lines(stream: StreamView, lines: Seq<Seq<char>>) -> (StreamView, Seq<char>)
    decreases lines.len(),
{
    if lines.len() == 0 {
        (stream, Seq::empty())
    } else {
        let before = after_lines(stream, lines.drop_last());
        let after = before.0.after_line(lines.last());
        (after.0, before.1 + text_sent(after.1))
    }
}

/// Over all lines of a converted stream, in every direction, the texts that the
/// client reads make up exactly the texts that the upstream sent, in their order,
/// and so does the reasoning.
pub proof fn lemma_stream_read(stream: StreamView, lines: Seq<Seq<char>>)
    requires
        !(stream is Passthrough),
    ensures
        ({
            let after = after_lines(stream, lines);
            &&& !(after.0 is Passthrough)
            &&& source(after.0) == source(stream) && target(after.0) == target(stream)
            &&& exists|events: Seq<SseEventView>| #[trigger]
                reads(
                    target(stream),
                    after.1,
                    events,
                    lines_heard(source(stream), lines),
                    lines_thought(source(stream), lines),
                )
        }),
    decreases lines.len(),
{
    let from = source(stream);
    let to = target(stream);
    let words = |line: Seq<char>| heard_in(from, line);
    let thoughts = |line: Seq<char>| thought_in(from, line);
    let f = |e: SseEventView| written(e);
    if lines.len() == 0 {
        let none = Seq::<SseEventView>::empty();
        lemma_say_few(to, none);
        assert(none.flat_map(f) =~= Seq::empty());
        assert(lines.flat_map(words) =~= Seq::empty());
        assert(lines.flat_map(thoughts) =~= Seq::empty());
        assert(reads(
            to,
            after_lines(stream, lines).1,
            none,
            lines_heard(from, lines),
            lines_thought(from, lines),
        ));
    } else {
        let earlier = lines.drop_last();
        let line = lines.last();
        lemma_stream_read(stream, earlier);
        let before = after_lines(stream, earlier);
        let a = choose|events: Seq<SseEventView>| #[trigger]
            reads(to, before.1, events, lines_heard(from, earlier), lines_thought(from, earlier));
        lemma_line_read(before.0, line);
        let after = before.0.after_line(line);
        let b = choose|events: Seq<SseEventView>| #[trigger]
            reads(to, text_sent(after.1), events, heard_in(from, line), thought_in(from, line));
        entries::lemma_flat_map_add(a, b, f);
        lemma_say_add(to, a, b);
        earlier.lemma_flat_map_push(words, line);
        earlier.lemma_flat_map_push(thoughts, line);
        assert(earlier.push(line) =~= lines);
        assert(reads(
            to,
            after_lines(stream, lines).1,
            a + b,
            lines_heard(from, lines),
            lines_thought(from, lines),
        ));
    }
}

/// A stream converts between the protocols that it begins with.
pub proof fn lemma_begins_between(
    stream: StreamView,
    from: Protocol,
    to: Protocol,
    client_model: Option<Seq<char>>,
)
    requires
        stream.begins(from, to, client_model),
    ensures
        from == to ==> stream == StreamView::Passthrough(client_model),
        from != to ==> !(stream is Passthrough) && source(stream) == from && target(stream) == to,
{
}

/// A stream begins with nothing sent and nothing counted, under the name by which
/// the client calls the model.
pub proof fn lemma_begins_fresh(
    stream: StreamView,
    from: Protocol,
    to: Protocol,
    client_model: Option<Seq<char>>,
)
    requires
        stream.begins(from, to, client_model),
        from != to,
    ensures
        !stream.is_complete(),
        ({
            let model = match client_model {
                Some(model) => model,
                None => Seq::empty(),
            };
            match stream {
                StreamView::ChatToResponses(s) => {
                    &&& s.model == model && s.full_text.len() == 0 && !s.headers_emitted
                    &&& s.total_input == 0 && s.total_output == 0 && !s.msg_closed
                    &&& s.active.len() == 0 && s.finished.len() == 0 && s.output_index == 0
                },
                StreamView::ResponsesToChat(s) => {
                    &&& s.model == model && s.full_text.len() == 0 && !s.headers_emitted
                    &&& s.total_input == 0 && s.total_output == 0 && s.active.len() == 0
                },
                StreamView::AnthropicToResponses(s) => {
                    &&& s.model == model && s.full_text.len() == 0 && !s.headers_emitted
                    &&& s.total_input == 0 && s.total_output == 0 && !s.msg_closed
                },
                StreamView::ResponsesToAnthropic(s) => s.model == model && s.full_text.len() == 0
                    && !s.headers_emitted,
                StreamView::AnthropicToChat(s) => {
                    &&& s.model == model && s.full_text.len() == 0 && !s.headers_emitted
                    &&& s.total_input == 0 && s.total_output == 0
                },
                StreamView::ChatToAnthropic(s) => s.model == model && s.full_text.len() == 0
                    && !s.headers_emitted && !s.content_block_started,
                StreamView::Passthrough(_) => false,
            }
        }),
{
    reveal_strlit("");
    assert(""@ =~= Seq::empty());
}

/// Whether a step of a stream is the one that a converter takes, with all that it
/// writes.
pub open spec fn is_step(
    step: (StreamView, Option<Seq<char>>),
    state: StreamView,
    events: Seq<SseEventView>,
) -> bool {
    &&& step.0 == state
    &&& step.1 is Some <==> events.len() > 0
    &&& text_sent(step.1) == all_written(events)
}

/// Every value that a line brings goes through the converter of the stream, and a
/// line that brings nothing and ends nothing changes nothing.
pub proof fn lemma_line_converted(stream: StreamView, line: Seq<char>)
    ensures
        ({
            let step = stream.after_line(line);
            let ends = text::has_prefix(line, "data: "@) && text::trimmed(line.skip(6))
                == "[DONE]"@;
            &&& brought(line) matches Some(v) ==> match stream {
                StreamView::ChatToResponses(s) => {
                    let p = ResponsesProgress::from(s).after(v);
                    is_step(step, StreamView::ChatToResponses(p.state), p.events)
                },
                StreamView::ResponsesToChat(s) => {
                    let p = responses_to_chat_stream::ChatProgress::from(s).after(v);
                    is_step(step, StreamView::ResponsesToChat(p.state), p.events)
                },
                StreamView::AnthropicToResponses(s) => {
                    let p = anthropic_to_responses_stream::ResponsesProgress::from(s).after(v);
                    is_step(step, StreamView::AnthropicToResponses(p.state), p.events)
                },
                StreamView::ResponsesToAnthropic(s) => {
                    let p = responses_to_anthropic_stream::AnthropicProgress::from(s).after(v);
                    is_step(step, StreamView::ResponsesToAnthropic(p.state), p.events)
                },
                StreamView::AnthropicToChat(s) => {
                    let p = anthropic_to_chat_stream::ChatProgress::from(s).after(v);
                    is_step(step, StreamView::AnthropicToChat(p.state), p.events)
                },
                StreamView::ChatToAnthropic(s) => {
                    let p = chat_to_anthropic_stream::AnthropicProgress::from(s).after(v);
                    is_step(step, StreamView::ChatToAnthropic(p.state), p.events)
                },
                StreamView::Passthrough(_) => true,
            }
            &&& brought(line) is None && !ends && !(stream is Passthrough) ==> step == (
                stream,
                None::<Seq<char>>,
            )
            &&& ends ==> match stream {
                StreamView::ChatToAnthropic(s) => {
                    let p = chat_to_anthropic_stream::AnthropicProgress::from(s).end();
                    is_step(step, StreamView::ChatToAnthropic(p.state), p.events)
                },
                StreamView::Passthrough(_) => true,
                _ => step == stream.flushed(),
            }
        }),
{
    reveal_strlit("data: ");
    lemma_brought(line);
    let v = match brought(line) {
        Some(v) => v,
        None => JsonView::Null,
    };
    match stream {
        StreamView::ChatToResponses(s) => {
            lemma_sent(ResponsesProgress::from(s).after(v).events);
        },
        StreamView::ResponsesToChat(s) => {
            lemma_sent(responses_to_chat_stream::ChatProgress::from(s).after(v).events);
        },
        StreamView::AnthropicToResponses(s) => {
            lemma_sent(anthropic_to_responses_stream::ResponsesProgress::from(s).after(v).events);
        },
        StreamView::ResponsesToAnthropic(s) => {
            lemma_sent(responses_to_anthropic_stream::AnthropicProgress::from(s).after(v).events);
        },
        StreamView::AnthropicToChat(s) => {
            lemma_sent(anthropic_to_chat_stream::ChatProgress::from(s).after(v).events);
        },
        StreamView::ChatToAnthropic(s) => {
            lemma_sent(chat_to_anthropic_stream::AnthropicProgress::from(s).after(v).events);
            lemma_sent(chat_to_anthropic_stream::AnthropicProgress::from(s).end().events);
        },
        StreamView::Passthrough(_) => {},
    }
}

/// The end of a stream goes through the converter of the stream.
pub proof fn lemma_flush_converted(stream: StreamView)
    ensures
        ({
            let step = stream.flushed();
            match stream {
                StreamView::ChatToResponses(s) => {
                    let p = ResponsesProgress::from(s).finish();
                    is_step(step, StreamView::ChatToResponses(p.state), p.events)
                },
                StreamView::ResponsesToChat(s) => {
                    let p = responses_to_chat_stream::ChatProgress::from(s).finish();
                    is_step(step, StreamView::ResponsesToChat(p.state), p.events)
                },
                StreamView::AnthropicToResponses(s) => {
                    let p = anthropic_to_responses_stream::ResponsesProgress::from(s).finish();
                    is_step(step, StreamView::AnthropicToResponses(p.state), p.events)
                },
                StreamView::ResponsesToAnthropic(s) => {
                    let p = responses_to_anthropic_stream::AnthropicProgress::from(s).finish();
                    is_step(step, StreamView::ResponsesToAnthropic(p.state), p.events)
                },
                StreamView::AnthropicToChat(s) => {
                    let p = anthropic_to_chat_stream::ChatProgress::from(s).finish();
                    is_step(step, StreamView::AnthropicToChat(p.state), p.events)
                },
                StreamView::ChatToAnthropic(s) => {
                    let p = chat_to_anthropic_stream::AnthropicProgress::from(s).finish();
                    is_step(step, StreamView::ChatToAnthropic(p.state), p.events)
                },
                StreamView::Passthrough(_) => step == (stream, None::<Seq<char>>),
            }
        }),
{
    match stream {
        StreamView::ChatToResponses(s) => {
            lemma_sent(ResponsesProgress::from(s).finish().events);
        },
        StreamView::ResponsesToChat(s) => {
            lemma_sent(responses_to_chat_stream::ChatProgress::from(s).finish().events);
        },
        StreamView::AnthropicToResponses(s) => {
            lemma_sent(anthropic_to_responses_stream::ResponsesProgress::from(s).finish().events);
        },
        StreamView::ResponsesToAnthropic(s) => {
            lemma_sent(responses_to_anthropic_stream::AnthropicProgress::from(s).finish().events);
        },
        StreamView::AnthropicToChat(s) => {
            lemma_sent(anthropic_to_chat_stream::ChatProgress::from(s).finish().events);
        },
        StreamView::ChatToAnthropic(s) => {
            lemma_sent(chat_to_anthropic_stream::AnthropicProgress::from(s).finish().events);
        },
        StreamView::Passthrough(_) => {},
    }
}

} // verus!
