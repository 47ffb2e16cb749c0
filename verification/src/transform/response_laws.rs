//! What a converted response says, entry by entry: the text, the tool calls, the
//! reason for the end and the token counts are those of the response that it was
//! made from.

use crate::json;
use crate::json::{JsonView, Parsed};
use crate::literals;
use crate::transform::anthropic;
use crate::transform::chat_anthropic;
use crate::transform::responses_anthropic;
use crate::transform::responses_chat;
use vstd::prelude::*;

verus! {

/// The entry under a key; null where there is none.
pub open spec fn at(v: JsonView, key: Seq<char>) -> JsonView {
    match v.field(key) {
        Some(entry) => entry,
        None => JsonView::Null,
    }
}

/// The items of the list under a key; none where there is no list.
pub open spec fn list(v: JsonView, key: Seq<char>) -> Seq<JsonView> {
    match v.field(key) {
        Some(JsonView::Array(items)) => items,
        _ => Seq::empty(),
    }
}

/// The text under a key; a default where there is none.
pub open spec fn said(v: JsonView, key: Seq<char>, default: Seq<char>) -> Seq<char> {
    match v.field(key) {
        Some(JsonView::String(s)) => s,
        _ => default,
    }
}

pub open spec fn says(v: JsonView, key: Seq<char>, s: Seq<char>) -> bool {
    v.field(key) == Some(JsonView::String(s))
}

/// The unsigned integer under a key; 0 where there is none.
pub open spec fn count(v: JsonView, key: Seq<char>) -> int {
    match v.field(key) {
        Some(JsonView::Number(json::NumberView::Int(n))) => if 0 <= n <= u64::MAX {
            n
        } else {
            0
        },
        _ => 0,
    }
}

pub open spec fn is_type(v: JsonView, kind: Seq<char>) -> bool {
    says(v, "type"@, kind)
}

/// The items of some type.
pub open spec fn typed(items: Seq<JsonView>, kind: Seq<char>) -> Seq<JsonView> {
    items.filter(|item: JsonView| is_type(item, kind))
}

pub proof fn lemma_filter_map_as_filter<A, B>(
    items: Seq<A>,
    pick: spec_fn(A) -> Option<B>,
    wanted: spec_fn(A) -> bool,
    image: spec_fn(A) -> B,
)
    requires
        forall|a: A| #[trigger] pick(a) == if wanted(a) {
            Some(image(a))
        } else {
            None
        },
    ensures
        items.filter_map(pick) == items.filter(wanted).map_values(image),
    decreases items.len(),
{
    reveal(Seq::filter);
    if items.len() > 0 {
        let n = items.len() - 1;
        items.lemma_filter_map_take_succ(pick, n);
        assert(items.take(n + 1) =~= items);
        assert(items.take(n) =~= items.drop_last());
        lemma_filter_map_as_filter(items.drop_last(), pick, wanted, image);
        assert(items.filter_map(pick) =~= items.filter(wanted).map_values(image));
    } else {
        assert(items.filter_map(pick) =~= items.filter(wanted).map_values(image));
    }
}

/// The name of the model in an answer.
pub open spec fn named_model(source: JsonView, client_model: Option<Seq<char>>) -> Seq<char> {
    match client_model {
        Some(model) => model,
        None => said(source, "model"@, ""@),
    }
}

pub open spec fn empty_object() -> JsonView {
    JsonView::Object(Map::empty())
}

/// Whether a tool call of a chat message is told by a part or an item of the
/// Responses API: with its identifier, its name and its arguments.
pub open spec fn tells_chat_call(part: JsonView, call: JsonView) -> bool {
    let function = at(call, "function"@);
    &&& is_type(part, "function_call"@)
    &&& says(part, "id"@, said(call, "id"@, ""@))
    &&& says(part, "call_id"@, said(call, "id"@, ""@))
    &&& part.field("name"@) == Some(function.field_or("name"@, JsonView::text(""@)))
    &&& part.field("arguments"@) == Some(function.field_or("arguments"@, JsonView::text("{}"@)))
}

/// A chat response and the Responses object made from it: one message with the
/// text, and every tool call with its own identifier, name and arguments.
pub proof fn lemma_chat_to_responses_tells(
    chat: JsonView,
    client_model: Option<Seq<char>>,
    msg_id: Seq<char>,
    resp_id: Seq<char>,
    created: u64,
)
    ensures
        ({
            let r = responses_chat::responses_response(
                chat,
                client_model,
                msg_id,
                resp_id,
                created,
            );
            let choices = list(chat, "choices"@);
            let answered = choices.len() > 0 && choices[0].field("message"@) is Some;
            let message = at(choices[0], "message"@);
            let calls = list(message, "tool_calls"@);
            let usage = at(chat, "usage"@);
            let output = list(r->0, "output"@);
            let content = list(output[0], "content"@);
            &&& r is Some <==> answered
            &&& answered ==> {
                &&& says(r->0, "id"@, resp_id)
                &&& says(r->0, "object"@, "response"@)
                &&& says(r->0, "status"@, "completed"@)
                &&& says(r->0, "model"@, named_model(chat, client_model))
                &&& r->0.field("created_at"@) == Some(JsonView::integer(created as int))
                &&& output.len() == 1
                &&& says(output[0], "id"@, msg_id)
                &&& is_type(output[0], "message"@)
                &&& says(output[0], "role"@, "assistant"@)
                &&& says(output[0], "status"@, "completed"@)
                &&& content.len() == calls.len() + 1
                &&& is_type(content[0], "output_text"@)
                &&& says(content[0], "text"@, said(message, "content"@, ""@))
                &&& forall|i: int|
                    0 <= i < calls.len() ==> tells_chat_call(content[i + 1], #[trigger] calls[i])
                &&& tells_usage(
                    at(r->0, "usage"@),
                    usage,
                    "input_tokens"@,
                    "prompt_tokens"@,
                )
                &&& tells_usage(
                    at(r->0, "usage"@),
                    usage,
                    "output_tokens"@,
                    "completion_tokens"@,
                )
                &&& tells_usage(
                    at(r->0, "usage"@),
                    usage,
                    "total_tokens"@,
                    "total_tokens"@,
                )
            }
        }),
{
    literals::lemma_literals();
    let choices = list(chat, "choices"@);
    if choices.len() > 0 && choices[0].field("message"@) is Some {
        let message = at(choices[0], "message"@);
        let calls = list(message, "tool_calls"@);
        let r = responses_chat::responses_response(chat, client_model, msg_id, resp_id, created);
        let output = list(r->0, "output"@);
        assert(output =~= seq![
            responses_chat::output_message(
                msg_id,
                "completed"@,
                responses_chat::message_parts(message),
            ),
        ]);
        let content = list(output[0], "content"@);
        assert(content == responses_chat::message_parts(message));
        assert forall|i: int| 0 <= i < calls.len() implies tells_chat_call(
            content[i + 1],
            #[trigger] calls[i],
        ) by {
            assert(content[i + 1] == responses_chat::call_part(calls[i]));
        }
    }
}

/// Whether a token count is told under its name in another protocol.
pub open spec fn tells_usage(
    told: JsonView,
    usage: JsonView,
    key: Seq<char>,
    source: Seq<char>,
) -> bool {
    told.field(key) == Some(usage.field_or(source, JsonView::integer(0)))
}

/// The text of a part of a Responses message.
pub open spec fn output_words(part: JsonView) -> Seq<char> {
    if is_type(part, "output_text"@) {
        said(part, "text"@, ""@)
    } else {
        Seq::empty()
    }
}

/// The text of an item of a Responses output.
pub open spec fn item_words(item: JsonView) -> Seq<char> {
    if is_type(item, "message"@) {
        list(item, "content"@).flat_map(|part: JsonView| output_words(part))
    } else {
        Seq::empty()
    }
}

/// Whether a chat tool call has an identifier, a name and arguments.
pub open spec fn is_chat_call(
    call: JsonView,
    id: Seq<char>,
    name: Seq<char>,
    arguments: Seq<char>,
) -> bool {
    let function = at(call, "function"@);
    &&& says(call, "id"@, id)
    &&& is_type(call, "function"@)
    &&& says(function, "name"@, name)
    &&& says(function, "arguments"@, arguments)
}

proof fn lemma_chat_call(id: Seq<char>, name: Seq<char>, arguments: Seq<char>)
    ensures
        is_chat_call(responses_chat::chat_tool_call(id, name, arguments), id, name, arguments),
{
    literals::lemma_literals();
}

/// Whether a chat response holds one choice with a text, so many tool calls, and a
/// reason that fits them.
pub open spec fn is_chat_answer(r: JsonView, words: Seq<char>, calls: nat) -> bool {
    let choices = list(r, "choices"@);
    let message = at(choices[0], "message"@);
    &&& says(r, "object"@, "chat.completion"@)
    &&& choices.len() == 1
    &&& choices[0].field("index"@) == Some(JsonView::integer(0))
    &&& says(message, "role"@, "assistant"@)
    &&& says(message, "content"@, words)
    &&& list(message, "tool_calls"@).len() == calls
    &&& calls == 0 ==> message.field("tool_calls"@) is None
    &&& says(
        choices[0],
        "finish_reason"@,
        if calls > 0 {
            "tool_calls"@
        } else {
            "stop"@
        },
    )
}

/// The tool calls of a chat answer.
pub open spec fn answer_calls(r: JsonView) -> Seq<JsonView> {
    list(at(list(r, "choices"@)[0], "message"@), "tool_calls"@)
}

proof fn lemma_chat_answer(
    id: JsonView,
    created: JsonView,
    model: Seq<char>,
    words: Seq<char>,
    calls: Seq<JsonView>,
    usage: JsonView,
)
    ensures
        ({
            let r = responses_chat::chat_completion(
                id,
                created,
                model,
                JsonView::text(words),
                calls,
                JsonView::text(
                    if calls.len() > 0 {
                        "tool_calls"@
                    } else {
                        "stop"@
                    },
                ),
                usage,
            );
            &&& is_chat_answer(r, words, calls.len())
            &&& answer_calls(r) == calls
            &&& r.field("id"@) == Some(id)
            &&& r.field("created"@) == Some(created)
            &&& says(r, "model"@, model)
            &&& r.field("usage"@) == Some(usage)
        }),
{
    literals::lemma_literals();
    let r = responses_chat::chat_completion(
        id,
        created,
        model,
        JsonView::text(words),
        calls,
        JsonView::text(
            if calls.len() > 0 {
                "tool_calls"@
            } else {
                "stop"@
            },
        ),
        usage,
    );
    assert(list(r, "choices"@).len() == 1);
    if calls.len() == 0 {
        assert(answer_calls(r) =~= calls);
    }
}

/// A Responses object and the chat response made from it: the texts of its
/// messages, one after the other, and every tool call with its own identifier, name
/// and arguments.
pub proof fn lemma_responses_to_chat_tells(
    resp: JsonView,
    client_model: Option<Seq<char>>,
    chat_id: Seq<char>,
    created: u64,
)
    ensures
        ({
            let r = responses_chat::chat_response(resp, client_model, chat_id, created);
            let output = list(resp, "output"@);
            let calls = typed(output, "function_call"@);
            let usage = at(resp, "usage"@);
            &&& r is Some <==> (resp.field("output"@) is Some && resp.field("output"@)->0 is Array)
            &&& r is Some ==> {
                &&& is_chat_answer(
                    r->0,
                    output.flat_map(|item: JsonView| item_words(item)),
                    calls.len(),
                )
                &&& forall|j: int|
                    0 <= j < calls.len() ==> is_chat_call(
                        #[trigger] answer_calls(r->0)[j],
                        said(calls[j], "call_id"@, ""@),
                        said(calls[j], "name"@, ""@),
                        said(calls[j], "arguments"@, "{}"@),
                    )
                &&& r->0.field("id"@) == Some(resp.field_or("id"@, JsonView::text(chat_id)))
                &&& r->0.field("created"@) == Some(
                    resp.field_or("created_at"@, JsonView::integer(created as int)),
                )
                &&& says(r->0, "model"@, named_model(resp, client_model))
                &&& tells_usage(at(r->0, "usage"@), usage, "prompt_tokens"@, "input_tokens"@)
                &&& tells_usage(at(r->0, "usage"@), usage, "completion_tokens"@, "output_tokens"@)
                &&& tells_usage(at(r->0, "usage"@), usage, "total_tokens"@, "total_tokens"@)
            }
        }),
{
    literals::lemma_literals();
    let output = list(resp, "output"@);
    let wanted = |item: JsonView| is_type(item, "function_call"@);
    let pick = |item: JsonView| responses_chat::output_item_call(item);
    let image = |item: JsonView|
        responses_chat::chat_tool_call(
            said(item, "call_id"@, ""@),
            said(item, "name"@, ""@),
            said(item, "arguments"@, "{}"@),
        );
    lemma_filter_map_as_filter(output, pick, wanted, image);
    lemma_same_words(output);
    let calls = output.filter_map(pick);
    lemma_chat_answer(
        resp.field_or("id"@, JsonView::text(chat_id)),
        resp.field_or("created_at"@, JsonView::integer(created as int)),
        responses_chat::model_name(resp, client_model),
        output.flat_map(|item: JsonView| responses_chat::output_item_text(item)),
        calls,
        responses_chat::chat_usage(resp),
    );
    let told = typed(output, "function_call"@);
    assert forall|j: int| 0 <= j < told.len() implies is_chat_call(
        #[trigger] calls[j],
        said(told[j], "call_id"@, ""@),
        said(told[j], "name"@, ""@),
        said(told[j], "arguments"@, "{}"@),
    ) by {
        lemma_chat_call(
            said(told[j], "call_id"@, ""@),
            said(told[j], "name"@, ""@),
            said(told[j], "arguments"@, "{}"@),
        );
    }
}

proof fn lemma_same_flat_map<A, B>(items: Seq<A>, f: spec_fn(A) -> Seq<B>, g: spec_fn(A) -> Seq<B>)
    requires
        forall|i: int| 0 <= i < items.len() ==> f(#[trigger] items[i]) == g(items[i]),
    ensures
        items.flat_map(f) == items.flat_map(g),
{
    assert(items.map_values(f) =~= items.map_values(g));
}

proof fn lemma_same_words(output: Seq<JsonView>)
    ensures
        output.flat_map(|item: JsonView| responses_chat::output_item_text(item))
            == output.flat_map(|item: JsonView| item_words(item)),
{
    let f = |item: JsonView| responses_chat::output_item_text(item);
    let g = |item: JsonView| item_words(item);
    let p = |part: JsonView| responses_chat::output_part_text(part);
    let q = |part: JsonView| output_words(part);
    assert forall|i: int| 0 <= i < output.len() implies f(#[trigger] output[i]) == g(output[i]) by {
        let item = output[i];
        lemma_same_flat_map(list(item, "content"@), p, q);
        if item.array_at("content"@) is None {
            assert(list(item, "content"@) =~= Seq::empty());
            assert(list(item, "content"@).flat_map(q) =~= Seq::empty());
        }
    }
    lemma_same_flat_map(output, f, g);
}

/// The value that a text denotes; the empty object where it denotes none.
pub open spec fn denoted(arguments: Seq<char>) -> JsonView {
    match json::json_parse(vstd::utf8::encode_utf8(arguments)) {
        Parsed::Value(v) => v,
        Parsed::Fault(_) => empty_object(),
    }
}

/// An Anthropic message and the Responses object made from it: its texts in one
/// message, if there are any, and every use of a tool as a tool call with its own
/// identifier, name and input.
pub proof fn lemma_anthropic_to_responses_tells(
    message: JsonView,
    client_model: Option<Seq<char>>,
    msg_id: Seq<char>,
    resp_id: Seq<char>,
    created: u64,
)
    ensures
        ({
            let r = responses_anthropic::responses_response(
                message,
                client_model,
                msg_id,
                resp_id,
                created,
            );
            let texts = typed(list(message, "content"@), "text"@);
            let uses = typed(list(message, "content"@), "tool_use"@);
            let usage = at(message, "usage"@);
            let output = list(r, "output"@);
            let first = if texts.len() > 0 {
                1int
            } else {
                0int
            };
            &&& says(r, "id"@, resp_id)
            &&& says(r, "object"@, "response"@)
            &&& says(r, "status"@, "completed"@)
            &&& says(r, "model"@, named_model(message, client_model))
            &&& r.field("created_at"@) == Some(JsonView::integer(created as int))
            &&& output.len() == first + uses.len()
            &&& texts.len() > 0 ==> {
                &&& is_type(output[0], "message"@)
                &&& says(output[0], "id"@, msg_id)
                &&& says(output[0], "role"@, "assistant"@)
                &&& says(output[0], "status"@, "completed"@)
                &&& list(output[0], "content"@).len() == texts.len()
                &&& forall|i: int|
                    0 <= i < texts.len() ==> is_type(
                        #[trigger] list(output[0], "content"@)[i],
                        "output_text"@,
                    ) && says(
                        list(output[0], "content"@)[i],
                        "text"@,
                        said(texts[i], "text"@, ""@),
                    )
            }
            &&& forall|j: int|
                0 <= j < uses.len() ==> {
                    &&& is_type(output[first + j], "function_call"@)
                    &&& says(output[first + j], "id"@, said(#[trigger] uses[j], "id"@, ""@))
                    &&& says(output[first + j], "call_id"@, said(uses[j], "id"@, ""@))
                    &&& says(output[first + j], "name"@, said(uses[j], "name"@, ""@))
                    &&& says(
                        output[first + j],
                        "arguments"@,
                        json::json_text(uses[j].field_or("input"@, empty_object())),
                    )
                }
            &&& tells_usage(at(r, "usage"@), usage, "input_tokens"@, "input_tokens"@)
            &&& tells_usage(at(r, "usage"@), usage, "output_tokens"@, "output_tokens"@)
            &&& count(usage, "input_tokens"@) + count(usage, "output_tokens"@) <= u64::MAX
                ==> at(r, "usage"@).field("total_tokens"@) == Some(
                JsonView::integer(count(usage, "input_tokens"@) + count(usage, "output_tokens"@)),
            )
        }),
{
    literals::lemma_literals();
    let blocks = list(message, "content"@);
    let texts = typed(blocks, "text"@);
    let uses = typed(blocks, "tool_use"@);
    let text_part = |block: JsonView| responses_chat::output_text(said(block, "text"@, ""@));
    let call_item = |block: JsonView| responses_anthropic::block_output_call(block)->0;
    lemma_filter_map_as_filter(
        blocks,
        |block: JsonView| responses_anthropic::block_output_text(block),
        |block: JsonView| is_type(block, "text"@),
        text_part,
    );
    lemma_filter_map_as_filter(
        blocks,
        |block: JsonView| responses_anthropic::block_output_call(block),
        |block: JsonView| is_type(block, "tool_use"@),
        call_item,
    );
    let parts = texts.map_values(text_part);
    let calls = uses.map_values(call_item);
    let r = responses_anthropic::responses_response(
        message,
        client_model,
        msg_id,
        resp_id,
        created,
    );
    let output = list(r, "output"@);
    assert(output == responses_anthropic::blocks_output(blocks, msg_id));
    let first = if texts.len() > 0 {
        1int
    } else {
        0int
    };
    if texts.len() > 0 {
        assert(output =~= seq![responses_chat::output_message(msg_id, "completed"@, parts)]
            + calls);
        assert(list(output[0], "content"@) == parts);
        assert forall|i: int| 0 <= i < texts.len() implies is_type(
            #[trigger] list(output[0], "content"@)[i],
            "output_text"@,
        ) && says(list(output[0], "content"@)[i], "text"@, said(texts[i], "text"@, ""@)) by {
            assert(parts[i] == text_part(texts[i]));
        }
    } else {
        assert(output =~= calls);
    }
    assert forall|j: int| 0 <= j < uses.len() implies is_type(
        output[first + j],
        "function_call"@,
    ) && says(output[first + j], "id"@, said(#[trigger] uses[j], "id"@, ""@)) && says(
        output[first + j],
        "call_id"@,
        said(uses[j], "id"@, ""@),
    ) && says(output[first + j], "name"@, said(uses[j], "name"@, ""@)) && says(
        output[first + j],
        "arguments"@,
        json::json_text(uses[j].field_or("input"@, empty_object())),
    ) by {
        assert(output[first + j] == call_item(uses[j]));
        blocks.lemma_filter_pred(|block: JsonView| is_type(block, "tool_use"@), j);
    }
}

/// All texts of a message of a Responses output, one after the other.
pub open spec fn all_words(item: JsonView) -> Seq<char> {
    list(item, "content"@).flat_map(|part: JsonView| said(part, "text"@, ""@))
}

/// Whether an item of a Responses output shows in an Anthropic message: a tool
/// call, or a message with text.
pub open spec fn is_shown(item: JsonView) -> bool {
    is_type(item, "function_call"@) || (is_type(item, "message"@) && all_words(item).len() > 0)
}

/// Whether a block uses a tool, with an identifier, a name and an input.
pub open spec fn is_tool_use(
    block: JsonView,
    id: Seq<char>,
    name: Seq<char>,
    arguments: Seq<char>,
) -> bool {
    &&& is_type(block, "tool_use"@)
    &&& says(block, "id"@, id)
    &&& says(block, "name"@, name)
    &&& block.field("input"@) == Some(denoted(arguments))
}

/// Whether an Anthropic message has an identifier, a model, and a reason for its
/// end.
pub open spec fn is_anthropic_answer(
    r: JsonView,
    id: JsonView,
    model: Seq<char>,
    used_tool: bool,
) -> bool {
    &&& r.field("id"@) == Some(id)
    &&& is_type(r, "message"@)
    &&& says(r, "role"@, "assistant"@)
    &&& says(r, "model"@, model)
    &&& says(
        r,
        "stop_reason"@,
        if used_tool {
            "tool_use"@
        } else {
            "end_turn"@
        },
    )
}

/// A Responses object and the Anthropic message made from it: a block for every
/// message with text and for every tool call, in their order.
pub proof fn lemma_responses_to_anthropic_tells(
    resp: JsonView,
    client_model: Option<Seq<char>>,
    msg_id: Seq<char>,
)
    ensures
        ({
            let r = responses_anthropic::anthropic_response(resp, client_model, msg_id);
            let output = list(resp, "output"@);
            let shown = output.filter(|item: JsonView| is_shown(item));
            let content = list(r, "content"@);
            let usage = at(resp, "usage"@);
            &&& is_anthropic_answer(
                r,
                resp.field_or("id"@, JsonView::text(msg_id)),
                named_model(resp, client_model),
                typed(output, "function_call"@).len() > 0,
            )
            &&& content.len() == shown.len()
            &&& forall|j: int|
                0 <= j < shown.len() ==> if is_type(#[trigger] shown[j], "function_call"@) {
                    is_tool_use(
                        content[j],
                        said(shown[j], "call_id"@, ""@),
                        said(shown[j], "name"@, ""@),
                        said(shown[j], "arguments"@, "{}"@),
                    )
                } else {
                    is_type(content[j], "text"@) && says(
                        content[j],
                        "text"@,
                        all_words(shown[j]),
                    )
                }
            &&& tells_usage(at(r, "usage"@), usage, "input_tokens"@, "input_tokens"@)
            &&& tells_usage(at(r, "usage"@), usage, "output_tokens"@, "output_tokens"@)
        }),
{
    literals::lemma_literals();
    let output = list(resp, "output"@);
    let r = responses_anthropic::anthropic_response(resp, client_model, msg_id);
    let wanted = |item: JsonView| is_shown(item);
    let pick = |item: JsonView| responses_anthropic::output_block(item);
    let image = |item: JsonView| responses_anthropic::output_block(item)->0;
    assert forall|item: JsonView| #[trigger] pick(item) == if wanted(item) {
        Some(image(item))
    } else {
        None
    } by {
        lemma_all_words(item);
    }
    lemma_filter_map_as_filter(output, pick, wanted, image);
    let shown = output.filter(wanted);
    let content = list(r, "content"@);
    assert(content == shown.map_values(image));
    assert forall|j: int| 0 <= j < shown.len() implies if is_type(
        #[trigger] shown[j],
        "function_call"@,
    ) {
        is_tool_use(
            content[j],
            said(shown[j], "call_id"@, ""@),
            said(shown[j], "name"@, ""@),
            said(shown[j], "arguments"@, "{}"@),
        )
    } else {
        is_type(content[j], "text"@) && says(content[j], "text"@, all_words(shown[j]))
    } by {
        lemma_all_words(shown[j]);
        output.lemma_filter_pred(wanted, j);
        assert(content[j] == image(shown[j]));
    }
    lemma_has_typed(output);
}

proof fn lemma_all_words(item: JsonView)
    ensures
        responses_anthropic::output_message_text(item) == all_words(item),
{
    let f = |part: JsonView| part.text_or("text"@, ""@);
    let g = |part: JsonView| said(part, "text"@, ""@);
    lemma_same_flat_map(list(item, "content"@), f, g);
    if item.array_at("content"@) is None {
        assert(list(item, "content"@) =~= Seq::empty());
        assert(list(item, "content"@).flat_map(g) =~= Seq::empty());
    }
}

proof fn lemma_has_typed(output: Seq<JsonView>)
    ensures
        responses_anthropic::has_call(output) <==> typed(output, "function_call"@).len() > 0,
{
    let wanted = |item: JsonView| is_type(item, "function_call"@);
    if responses_anthropic::has_call(output) {
        let i = choose|i: int|
            0 <= i < output.len() && responses_anthropic::is_call(#[trigger] output[i]);
        output.lemma_filter_contains(wanted, i);
    }
    if output.filter(wanted).len() > 0 {
        let item = output.filter(wanted)[0];
        output.lemma_filter_pred(wanted, 0);
        assert(output.filter(wanted).contains(item));
        output.lemma_filter_contains_rev(wanted, item);
        let i = choose|i: int| 0 <= i < output.len() && output[i] == item;
        assert(responses_anthropic::is_call(output[i]));
    }
}

/// An Anthropic message and the chat response made from it: its texts, one after
/// the other, and every use of a tool as a tool call with its own identifier, name
/// and input.
pub proof fn lemma_anthropic_to_chat_tells(
    message: JsonView,
    client_model: Option<Seq<char>>,
    chat_id: Seq<char>,
    created: u64,
)
    ensures
        ({
            let r = chat_anthropic::chat_response(message, client_model, chat_id, created);
            let blocks = list(message, "content"@);
            let texts = typed(blocks, "text"@);
            let uses = typed(blocks, "tool_use"@);
            let usage = at(message, "usage"@);
            &&& is_chat_answer(
                r,
                texts.flat_map(|block: JsonView| said(block, "text"@, ""@)),
                uses.len(),
            )
            &&& forall|j: int|
                0 <= j < uses.len() ==> is_chat_call(
                    #[trigger] answer_calls(r)[j],
                    said(uses[j], "id"@, ""@),
                    said(uses[j], "name"@, ""@),
                    json::json_text(uses[j].field_or("input"@, empty_object())),
                )
            &&& says(r, "id"@, chat_id)
            &&& r.field("created"@) == Some(JsonView::integer(created as int))
            &&& says(r, "model"@, named_model(message, client_model))
            &&& tells_usage(at(r, "usage"@), usage, "prompt_tokens"@, "input_tokens"@)
            &&& tells_usage(at(r, "usage"@), usage, "completion_tokens"@, "output_tokens"@)
            &&& count(usage, "input_tokens"@) + count(usage, "output_tokens"@) <= u64::MAX
                ==> at(r, "usage"@).field("total_tokens"@) == Some(
                JsonView::integer(count(usage, "input_tokens"@) + count(usage, "output_tokens"@)),
            )
        }),
{
    literals::lemma_literals();
    let blocks = list(message, "content"@);
    let uses = typed(blocks, "tool_use"@);
    let pick = |block: JsonView| chat_anthropic::block_call(block);
    let image = |block: JsonView|
        responses_chat::chat_tool_call(
            said(block, "id"@, ""@),
            said(block, "name"@, ""@),
            json::json_text(block.field_or("input"@, empty_object())),
        );
    lemma_filter_map_as_filter(
        blocks,
        pick,
        |block: JsonView| is_type(block, "tool_use"@),
        image,
    );
    let calls = blocks.filter_map(pick);
    lemma_texts_only(blocks);
    lemma_chat_answer(
        JsonView::text(chat_id),
        JsonView::integer(created as int),
        responses_chat::model_name(message, client_model),
        blocks.flat_map(|block: JsonView| chat_anthropic::block_text(block)),
        calls,
        chat_anthropic::summed_usage(message),
    );
    assert forall|j: int| 0 <= j < uses.len() implies is_chat_call(
        #[trigger] calls[j],
        said(uses[j], "id"@, ""@),
        said(uses[j], "name"@, ""@),
        json::json_text(uses[j].field_or("input"@, empty_object())),
    ) by {
        lemma_chat_call(
            said(uses[j], "id"@, ""@),
            said(uses[j], "name"@, ""@),
            json::json_text(uses[j].field_or("input"@, empty_object())),
        );
    }
}

/// The text of blocks is that of the text blocks among them.
pub proof fn lemma_texts_only(blocks: Seq<JsonView>)
    ensures
        blocks.flat_map(|block: JsonView| chat_anthropic::block_text(block)) == typed(
            blocks,
            "text"@,
        ).flat_map(|block: JsonView| said(block, "text"@, ""@)),
    decreases blocks.len(),
{
    let f = |block: JsonView| chat_anthropic::block_text(block);
    let g = |block: JsonView| said(block, "text"@, ""@);
    let wanted = |block: JsonView| is_type(block, "text"@);
    if blocks.len() == 0 {
        reveal(Seq::filter);
        assert(blocks.flat_map(f) =~= Seq::empty());
        assert(blocks.filter(wanted).flat_map(g) =~= Seq::empty());
    } else {
        let before = blocks.drop_last();
        let last = blocks.last();
        lemma_texts_only(before);
        assert(before.push(last) =~= blocks);
        before.lemma_flat_map_push(f, last);
        before.lemma_filter_push(last, wanted);
        before.filter(wanted).lemma_flat_map_push(g, last);
        assert(before.flat_map(f) + Seq::<char>::empty() =~= before.flat_map(f));
        assert(blocks.flat_map(f) =~= blocks.filter(wanted).flat_map(g));
    }
}

/// A chat response and the Anthropic message made from it: a block with the text,
/// if there is any, and a block for every tool call with its own identifier, name
/// and input.
pub proof fn lemma_chat_to_anthropic_tells(
    chat: JsonView,
    client_model: Option<Seq<char>>,
    msg_id: Seq<char>,
)
    ensures
        ({
            let r = chat_anthropic::anthropic_response(chat, client_model, msg_id);
            let choices = list(chat, "choices"@);
            let answered = choices.len() > 0 && choices[0].field("message"@) is Some;
            let message = at(choices[0], "message"@);
            let words = said(message, "content"@, ""@);
            let calls = list(message, "tool_calls"@);
            let content = list(r->0, "content"@);
            let usage = at(chat, "usage"@);
            let first = if words.len() > 0 {
                1int
            } else {
                0int
            };
            &&& r is Some <==> answered
            &&& answered ==> {
                &&& is_anthropic_answer(
                    r->0,
                    JsonView::text(msg_id),
                    named_model(chat, client_model),
                    calls.len() > 0,
                )
                &&& content.len() == first + calls.len()
                &&& words.len() > 0 ==> is_type(content[0], "text"@) && says(
                    content[0],
                    "text"@,
                    words,
                )
                &&& forall|i: int|
                    0 <= i < calls.len() ==> uses_chat_call(content[first + i], #[trigger] calls[i])
                &&& tells_usage(at(r->0, "usage"@), usage, "input_tokens"@, "prompt_tokens"@)
                &&& tells_usage(at(r->0, "usage"@), usage, "output_tokens"@, "completion_tokens"@)
            }
        }),
{
    literals::lemma_literals();
    let choices = list(chat, "choices"@);
    if choices.len() > 0 && choices[0].field("message"@) is Some {
        let message = at(choices[0], "message"@);
        let r = chat_anthropic::anthropic_response(chat, client_model, msg_id)->0;
        let content = list(r, "content"@);
        assert(content == chat_anthropic::message_blocks(message));
        lemma_message_blocks(message);
    }
}

/// Whether a block uses the tool that a chat tool call calls.
pub open spec fn uses_chat_call(block: JsonView, call: JsonView) -> bool {
    let function = at(call, "function"@);
    is_tool_use(
        block,
        said(call, "id"@, ""@),
        said(function, "name"@, ""@),
        said(function, "arguments"@, "{}"@),
    )
}

/// The blocks of a chat message: its text, if there is any, and its tool calls.
pub proof fn lemma_message_blocks(message: JsonView)
    ensures
        ({
            let words = said(message, "content"@, ""@);
            let calls = list(message, "tool_calls"@);
            let content = chat_anthropic::message_blocks(message);
            let first = if words.len() > 0 {
                1int
            } else {
                0int
            };
            &&& content.len() == first + calls.len()
            &&& words.len() > 0 ==> is_type(content[0], "text"@) && says(
                content[0],
                "text"@,
                words,
            )
            &&& forall|i: int|
                0 <= i < calls.len() ==> uses_chat_call(content[first + i], #[trigger] calls[i])
        }),
{
    literals::lemma_literals();
    let words = said(message, "content"@, ""@);
    let calls = list(message, "tool_calls"@);
    let content = chat_anthropic::message_blocks(message);
    let first = if words.len() > 0 {
        1int
    } else {
        0int
    };
    assert(chat_anthropic::calls_of(message) =~= calls);
    assert forall|i: int| 0 <= i < calls.len() implies uses_chat_call(
        content[first + i],
        #[trigger] calls[i],
    ) by {
        assert(content[first + i] == chat_anthropic::call_block(calls[i]));
    }
}

/// What every completed response says besides: it has no tools of its own, follows
/// no other response, and is not cut.
pub proof fn lemma_completed_response_says(
    id: Seq<char>,
    created: u64,
    model: Seq<char>,
    output: Seq<JsonView>,
    usage: JsonView,
)
    ensures
        ({
            let r = responses_chat::completed_response(id, created, model, output, usage);
            &&& r.field("parallel_tool_calls"@) == Some(JsonView::Bool(true))
            &&& r.field("previous_response_id"@) == Some(JsonView::Null)
            &&& says(at(r, "reasoning"@), "effort"@, "medium"@)
            &&& says(at(r, "reasoning"@), "summary"@, "auto"@)
            &&& is_type(at(at(r, "text"@), "format"@), "text"@)
            &&& r.field("tools"@) is Some && r.field("tools"@)->0 is Array && list(r, "tools"@).len()
                == 0
            &&& says(r, "truncation"@, "disabled"@)
            &&& r.field("usage"@) == Some(usage)
            &&& r.field("output"@) == Some(JsonView::Array(output))
        }),
{
    literals::lemma_literals();
}

/// A part with a text has no annotations.
pub proof fn lemma_output_text_says(s: Seq<char>)
    ensures
        ({
            let part = responses_chat::output_text(s);
            &&& is_type(part, "output_text"@)
            &&& says(part, "text"@, s)
            &&& part.field("annotations"@) is Some && part.field("annotations"@)->0 is Array
            &&& list(part, "annotations"@).len() == 0
        }),
{
    literals::lemma_literals();
}

/// A completed response says nothing else.
pub proof fn lemma_completed_response_nothing_else(
    id: Seq<char>,
    created: u64,
    model: Seq<char>,
    output: Seq<JsonView>,
    usage: JsonView,
    key: Seq<char>,
)
    ensures
        responses_chat::completed_response(id, created, model, output, usage).field(key) is Some
            ==> key == "id"@ || key == "object"@ || key == "created_at"@ || key == "status"@
            || key == "model"@ || key == "output"@ || key == "usage"@
            || key == "parallel_tool_calls"@ || key == "previous_response_id"@
            || key == "reasoning"@ || key == "text"@ || key == "tools"@ || key == "truncation"@,
{
}

/// A chat completion says nothing else.
pub proof fn lemma_chat_completion_nothing_else(
    id: JsonView,
    created: JsonView,
    model: Seq<char>,
    content: JsonView,
    calls: Seq<JsonView>,
    finish_reason: JsonView,
    usage: JsonView,
    key: Seq<char>,
)
    ensures
        ({
            let r = responses_chat::chat_completion(
                id,
                created,
                model,
                content,
                calls,
                finish_reason,
                usage,
            );
            let choice = list(r, "choices"@)[0];
            &&& r.field(key) is Some ==> key == "id"@ || key == "object"@ || key == "created"@ || key == "model"@
                || key == "choices"@ || key == "usage"@
            &&& choice.field(key) is Some ==> key == "index"@ || key == "message"@ || key
                == "finish_reason"@
            &&& at(choice, "message"@).field(key) is Some ==> key == "role"@ || key == "content"@
                || key == "tool_calls"@
        }),
{
    literals::lemma_literals();
}

/// An Anthropic message says nothing else.
pub proof fn lemma_completed_message_nothing_else(
    id: JsonView,
    model: Seq<char>,
    content: Seq<JsonView>,
    stop_reason: Seq<char>,
    usage: JsonView,
    key: Seq<char>,
)
    ensures
        anthropic::completed_message(id, model, content, stop_reason, usage).field(key) is Some
            ==> key == "id"@ || key == "type"@ || key == "role"@ || key == "model"@
            || key == "content"@ || key == "stop_reason"@ || key == "usage"@,
{
}

} // verus!
