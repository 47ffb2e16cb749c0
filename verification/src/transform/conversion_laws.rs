//! What a converted request says, message by message: each message becomes the
//! messages or items that say the same, and a longer conversation is the shorter
//! ones one after the other.

use crate::json;
use crate::json::JsonView;
use crate::literals;
use crate::text;
use crate::transform::chat_anthropic;
use crate::transform::request_laws as entries;
use crate::transform::response_laws as told;
use crate::transform::responses_anthropic;
use crate::transform::responses_chat;
use vstd::prelude::*;

verus! {

/// The entry of a value under a key, or a default.
pub open spec fn given(v: JsonView, key: Seq<char>, default: JsonView) -> JsonView {
    match v.field(key) {
        Some(entry) => entry,
        None => default,
    }
}

/// How the entries of a map are found, for the long chains of entries of a request.
proof fn lemma_entries()
    ensures
        forall|m: Map<Seq<char>, JsonView>, key: Seq<char>, value: JsonView, k: Seq<char>|
            #[trigger] entries::look(m.insert(key, value), k) == if k == key {
                Some(value)
            } else {
                entries::look(m, k)
            },
        forall|m: Map<Seq<char>, JsonView>, key: Seq<char>, value: Option<JsonView>, k: Seq<char>|
            #[trigger] entries::look(json::carried(m, key, value), k) == if k == key
                && value is Some {
                value
            } else {
                entries::look(m, k)
            },
        forall|k: Seq<char>| #[trigger] entries::look(Map::empty(), k) is None,
{
    reveal(entries::look);
}

/// Whether two values have the same under a key, or both nothing.
pub open spec fn same(r: JsonView, key: Seq<char>, body: JsonView, source: Seq<char>) -> bool {
    r.field(key) == body.field(source)
}

/// Whether a part says a text under a type.
pub open spec fn is_part(part: JsonView, kind: Seq<char>, s: Seq<char>) -> bool {
    told::is_type(part, kind) && told::says(part, "text"@, s)
}

/// Whether a value is a message of someone with a single part.
pub open spec fn is_said(
    item: JsonView,
    role: Seq<char>,
    kind: Seq<char>,
    s: Seq<char>,
) -> bool {
    &&& told::says(item, "role"@, role)
    &&& told::list(item, "content"@).len() == 1
    &&& is_part(told::list(item, "content"@)[0], kind, s)
}

/// Whether a value is an item for a call of a function.
pub open spec fn is_call_item(
    item: JsonView,
    id: JsonView,
    name: JsonView,
    arguments: JsonView,
) -> bool {
    &&& told::is_type(item, "function_call"@)
    &&& item.field("call_id"@) == Some(id)
    &&& item.field("name"@) == Some(name)
    &&& item.field("arguments"@) == Some(arguments)
}

/// Whether a value is an item for the result of a call.
pub open spec fn is_result_item(item: JsonView, id: JsonView, output: JsonView) -> bool {
    &&& told::is_type(item, "function_call_output"@)
    &&& item.field("call_id"@) == Some(id)
    &&& item.field("output"@) == Some(output)
}

/// Whether a value is an Anthropic message with the result of a call.
pub open spec fn is_result_message(message: JsonView, id: Seq<char>, output: Seq<char>) -> bool {
    let blocks = told::list(message, "content"@);
    &&& told::says(message, "role"@, "user"@)
    &&& blocks.len() == 1
    &&& told::is_type(blocks[0], "tool_result"@)
    &&& told::says(blocks[0], "tool_use_id"@, id)
    &&& told::says(blocks[0], "content"@, output)
}

/// Whether a value has the name, description and schema of a function.
pub open spec fn declares(
    tool: JsonView,
    function: JsonView,
    schema: Seq<char>,
    source_schema: Seq<char>,
) -> bool {
    &&& tool.field("name"@) == Some(given(function, "name"@, JsonView::text(""@)))
    &&& tool.field("description"@) == Some(given(function, "description"@, JsonView::text(""@)))
    &&& tool.field(schema) == Some(given(function, source_schema, told::empty_object()))
}

proof fn lemma_one_flat_map<A, B>(a: A, f: spec_fn(A) -> Seq<B>)
    ensures
        seq![a].flat_map(f) == f(a),
{
    seq![a].lemma_flat_map_singleton(f);
}

// ── Chat to Responses ──────────────────────────────────────────────────────

/// The Responses request made from a chat request.
pub open spec fn responses_of_chat(body: JsonView) -> JsonView {
    JsonView::Object(responses_chat::responses_request(body))
}

/// The options of a chat request are those of the Responses request made from it.
pub proof fn lemma_chat_to_responses_options(body: JsonView)
    ensures
        ({
            let r = responses_of_chat(body);
            &&& same(r, "model"@, body, "model"@)
            &&& same(r, "temperature"@, body, "temperature"@)
            &&& same(r, "top_p"@, body, "top_p"@)
            &&& same(r, "stream"@, body, "stream"@)
            &&& same(r, "metadata"@, body, "metadata"@)
            &&& same(r, "stop"@, body, "stop"@)
            &&& same(r, "seed"@, body, "seed"@)
            &&& same(r, "user"@, body, "user"@)
            &&& same(
                r,
                "max_output_tokens"@,
                body,
                if body.field("max_completion_tokens"@) is Some {
                    "max_completion_tokens"@
                } else {
                    "max_tokens"@
                },
            )
            &&& match body.field("reasoning_effort"@) {
                Some(JsonView::String(effort)) => told::says(
                    told::at(r, "reasoning"@),
                    "effort"@,
                    effort,
                ) && told::says(told::at(r, "reasoning"@), "summary"@, "auto"@),
                _ => r.field("reasoning"@) is None,
            }
        }),
{
    let m = responses_chat::responses_request(body);
    lemma_entries();
    literals::lemma_literals();
    entries::lemma_look(m, "model"@);
    entries::lemma_look(m, "temperature"@);
    entries::lemma_look(m, "top_p"@);
    entries::lemma_look(m, "stream"@);
    entries::lemma_look(m, "metadata"@);
    entries::lemma_look(m, "stop"@);
    entries::lemma_look(m, "seed"@);
    entries::lemma_look(m, "user"@);
    entries::lemma_look(m, "max_output_tokens"@);
    entries::lemma_look(m, "reasoning"@);
}

proof fn lemma_chat_to_responses_entries(body: JsonView)
    ensures
        told::list(responses_of_chat(body), "input"@) == told::list(body, "messages"@).flat_map(
            |message: JsonView| responses_chat::input_items(message),
        ),
        told::said(responses_of_chat(body), "instructions"@, ""@)
            == responses_chat::instructions_of(told::list(body, "messages"@)),
        responses_of_chat(body).field("instructions"@) is Some ==> told::said(
            responses_of_chat(body),
            "instructions"@,
            ""@,
        ).len() > 0,
        ({
            let tools = told::list(body, "tools"@).filter_map(
                |tool: JsonView| responses_chat::responses_tool(tool),
            );
            &&& told::list(responses_of_chat(body), "tools"@) == tools
            &&& responses_of_chat(body).field("tools"@) is Some <==> tools.len() > 0
        }),
{
    let m = responses_chat::responses_request(body);
    lemma_entries();
    literals::lemma_literals();
    entries::lemma_tools_of(body);
    entries::lemma_look(m, "input"@);
    entries::lemma_look(m, "instructions"@);
    entries::lemma_look(m, "tools"@);
    let instructions = responses_chat::instructions_of(told::list(body, "messages"@));
    if instructions.len() == 0 {
        assert(instructions =~= ""@);
    }
    let tools = told::list(body, "tools"@).filter_map(
        |tool: JsonView| responses_chat::responses_tool(tool),
    );
    assert(told::list(responses_of_chat(body), "tools"@) =~= tools);
}

/// The input made from a longer conversation is that of its beginning followed by
/// that of its end.
pub proof fn lemma_chat_to_responses_joins(a: JsonView, b: JsonView, whole: JsonView)
    requires
        told::list(whole, "messages"@) == told::list(a, "messages"@) + told::list(b, "messages"@),
    ensures
        told::list(responses_of_chat(whole), "input"@) == told::list(responses_of_chat(a), "input"@)
            + told::list(responses_of_chat(b), "input"@),
{
    lemma_chat_to_responses_entries(a);
    lemma_chat_to_responses_entries(b);
    lemma_chat_to_responses_entries(whole);
    entries::lemma_flat_map_add(
        told::list(a, "messages"@),
        told::list(b, "messages"@),
        |message: JsonView| responses_chat::input_items(message),
    );
}

/// Whether a user's chat message and an item of a Responses input say the same.
pub open spec fn says_as_user(item: JsonView, message: JsonView) -> bool {
    &&& told::is_type(item, "message"@)
    &&& told::says(item, "role"@, "user"@)
    &&& match message.field("content"@) {
        Some(JsonView::Array(parts)) => item.field("content"@) == Some(JsonView::Array(parts)),
        Some(JsonView::String(s)) => is_said(item, "user"@, "input_text"@, s),
        _ => is_said(item, "user"@, "input_text"@, ""@),
    }
}

/// One chat message becomes the items that say the same: a user's text is the
/// text of its one input part, every tool call keeps its identifier, name and
/// arguments, and a result its identifier and output.
pub proof fn lemma_chat_to_responses_message(body: JsonView, message: JsonView)
    requires
        told::list(body, "messages"@) == seq![message],
    ensures
        ({
            let input = told::list(responses_of_chat(body), "input"@);
            let role = told::said(message, "role"@, "user"@);
            let calls = told::list(message, "tool_calls"@);
            let content = message.field("content"@);
            &&& role == "user"@ ==> input.len() == 1 && says_as_user(input[0], message)
            &&& role == "assistant"@ ==> {
                &&& input.len() == calls.len() + if content is Some && content->0 is String {
                    1int
                } else {
                    0int
                }
                &&& forall|i: int|
                    0 <= i < calls.len() ==> {
                        let function = given(calls[i], "function"@, told::empty_object());
                        &&& is_call_item(
                            #[trigger] input[i],
                            given(calls[i], "id"@, JsonView::text(""@)),
                            given(function, "name"@, JsonView::text(""@)),
                            given(function, "arguments"@, JsonView::text("{}"@)),
                        )
                        &&& input[i].field("id"@) == Some(given(calls[i], "id"@, JsonView::text(""@)))
                    }
                &&& content matches Some(JsonView::String(s)) ==> told::is_type(
                    input.last(),
                    "message"@,
                ) && is_said(input.last(), "assistant"@, "output_text"@, s)
            }
            &&& role == "tool"@ ==> input.len() == 1 && is_result_item(
                input[0],
                given(message, "tool_call_id"@, JsonView::text(""@)),
                given(message, "content"@, JsonView::text(""@)),
            )
            &&& role != "user"@ && role != "assistant"@ && role != "tool"@ ==> input.len() == 0
        }),
{
    literals::lemma_literals();
    lemma_chat_to_responses_entries(body);
    lemma_one_flat_map(message, |message: JsonView| responses_chat::input_items(message));
}

/// The instructions made from a conversation are what the system says in it, each
/// text on a line of its own.
pub proof fn lemma_chat_to_responses_instructions(
    body: JsonView,
    longer: JsonView,
    message: JsonView,
)
    requires
        told::list(longer, "messages"@) == told::list(body, "messages"@).push(message),
    ensures
        ({
            let before = told::said(responses_of_chat(body), "instructions"@, ""@);
            let after = told::said(responses_of_chat(longer), "instructions"@, ""@);
            let s = told::said(message, "content"@, ""@);
            &&& told::list(body, "messages"@).len() == 0 ==> responses_of_chat(body).field(
                "instructions"@,
            ) is None
            &&& after == if !told::says(message, "role"@, "system"@) {
                before
            } else if before.len() == 0 {
                s
            } else {
                before + seq!['\n'] + s
            }
        }),
{
    literals::lemma_literals();
    lemma_chat_to_responses_entries(body);
    lemma_chat_to_responses_entries(longer);
    let messages = told::list(body, "messages"@);
    assert(messages.push(message).drop_last() =~= messages);
    let before = responses_chat::instructions_of(messages);
    let s = told::said(message, "content"@, ""@);
    reveal_strlit("\n");
    assert("\n"@ =~= seq!['\n']);
    assert(before.len() == 0 ==> before + s =~= s);
    assert(responses_chat::instructions_of(messages.push(message)) == responses_chat::instructed(
        before,
        message,
    ));
}

/// The functions of a chat request are the tools of the Responses request made
/// from it.
pub proof fn lemma_chat_to_responses_tools(body: JsonView)
    ensures
        ({
            let functions = told::typed(told::list(body, "tools"@), "function"@);
            let tools = told::list(responses_of_chat(body), "tools"@);
            &&& tools.len() == functions.len()
            &&& responses_of_chat(body).field("tools"@) is Some <==> functions.len() > 0
            &&& forall|j: int|
                0 <= j < functions.len() ==> told::is_type(#[trigger] tools[j], "function"@)
                    && declares(
                    tools[j],
                    given(functions[j], "function"@, told::empty_object()),
                    "parameters"@,
                    "parameters"@,
                )
        }),
{
    literals::lemma_literals();
    lemma_chat_to_responses_entries(body);
    told::lemma_filter_map_as_filter(
        told::list(body, "tools"@),
        |tool: JsonView| responses_chat::responses_tool(tool),
        |tool: JsonView| told::is_type(tool, "function"@),
        |tool: JsonView| responses_chat::responses_tool(tool)->0,
    );
    let functions = told::typed(told::list(body, "tools"@), "function"@);
    let wanted = |tool: JsonView| told::is_type(tool, "function"@);
    assert forall|j: int| 0 <= j < functions.len() implies wanted(#[trigger] functions[j]) by {
        told::list(body, "tools"@).lemma_filter_pred(wanted, j);
    }
}

// ── Responses to Anthropic ─────────────────────────────────────────────────

/// The Anthropic request made from a Responses request.
pub open spec fn anthropic_of_responses(body: JsonView) -> JsonView {
    JsonView::Object(responses_anthropic::anthropic_request(body))
}

/// The options and instructions of a Responses request are those of the Anthropic
/// request made from it, which always has a limit on its tokens.
pub proof fn lemma_responses_to_anthropic_options(body: JsonView)
    ensures
        ({
            let r = anthropic_of_responses(body);
            &&& same(r, "model"@, body, "model"@)
            &&& same(r, "temperature"@, body, "temperature"@)
            &&& same(r, "top_p"@, body, "top_p"@)
            &&& same(r, "stream"@, body, "stream"@)
            &&& r.field("max_tokens"@) == Some(
                given(body, "max_output_tokens"@, JsonView::integer(4096)),
            )
            &&& match body.field("instructions"@) {
                Some(JsonView::String(s)) => told::says(r, "system"@, s),
                _ => r.field("system"@) is None,
            }
        }),
{
    let m = responses_anthropic::anthropic_request(body);
    lemma_entries();
    literals::lemma_literals();
    entries::lemma_look(m, "model"@);
    entries::lemma_look(m, "temperature"@);
    entries::lemma_look(m, "top_p"@);
    entries::lemma_look(m, "stream"@);
    entries::lemma_look(m, "max_tokens"@);
    entries::lemma_look(m, "system"@);
}

proof fn lemma_responses_to_anthropic_entries(body: JsonView)
    ensures
        told::list(anthropic_of_responses(body), "messages"@)
            == responses_anthropic::input_messages(body),
        ({
            let tools = told::list(body, "tools"@).filter_map(
                |tool: JsonView| responses_anthropic::anthropic_tool(tool),
            );
            &&& told::list(anthropic_of_responses(body), "tools"@) == tools
            &&& anthropic_of_responses(body).field("tools"@) is Some <==> tools.len() > 0
        }),
{
    let m = responses_anthropic::anthropic_request(body);
    lemma_entries();
    literals::lemma_literals();
    entries::lemma_tools_of(body);
    entries::lemma_look(m, "messages"@);
    entries::lemma_look(m, "tools"@);
    let tools = told::list(body, "tools"@).filter_map(
        |tool: JsonView| responses_anthropic::anthropic_tool(tool),
    );
    assert(told::list(anthropic_of_responses(body), "tools"@) =~= tools);
}

/// The messages made from a longer input are those of its beginning followed by
/// those of its end.
pub proof fn lemma_responses_to_anthropic_joins(a: JsonView, b: JsonView, whole: JsonView)
    requires
        told::at(a, "input"@) is Array,
        told::at(b, "input"@) is Array,
        told::at(whole, "input"@) is Array,
        told::list(whole, "input"@) == told::list(a, "input"@) + told::list(b, "input"@),
    ensures
        told::list(anthropic_of_responses(whole), "messages"@) == told::list(
            anthropic_of_responses(a),
            "messages"@,
        ) + told::list(anthropic_of_responses(b), "messages"@),
{
    lemma_responses_to_anthropic_entries(a);
    lemma_responses_to_anthropic_entries(b);
    lemma_responses_to_anthropic_entries(whole);
    entries::lemma_filter_map_add(
        told::list(a, "input"@),
        told::list(b, "input"@),
        |item: JsonView| responses_anthropic::item_message(item),
    );
}

/// The text of a part of a message that is not an image or the like.
pub open spec fn plain_part(part: JsonView) -> Option<Seq<char>> {
    if told::is_type(part, "input_text"@) || told::is_type(part, "output_text"@) {
        match part.field("text"@) {
            Some(JsonView::String(s)) => Some(s),
            _ => None,
        }
    } else {
        None
    }
}

/// The text of a message, its parts on lines of their own.
pub open spec fn plain_text(item: JsonView) -> Seq<char> {
    match item.field("content"@) {
        Some(JsonView::String(s)) => s,
        Some(JsonView::Array(parts)) => text::joined(
            parts.filter_map(|part: JsonView| plain_part(part)),
            "\n"@,
        ),
        _ => Seq::empty(),
    }
}

/// One item of a Responses input becomes the message that says the same: a
/// message its text, a call its identifier, name and arguments, a result its
/// identifier and output. Where nothing is said there is no message.
pub proof fn lemma_responses_to_anthropic_item(body: JsonView, item: JsonView)
    requires
        body.field("input"@) == Some(JsonView::Array(seq![item])),
    ensures
        ({
            let messages = told::list(anthropic_of_responses(body), "messages"@);
            &&& told::is_type(item, "message"@) ==> {
                &&& messages.len() == if plain_text(item).len() > 0 {
                    1int
                } else {
                    0int
                }
                &&& plain_text(item).len() > 0 ==> told::says(
                    messages[0],
                    "content"@,
                    plain_text(item),
                ) && told::says(
                    messages[0],
                    "role"@,
                    if told::says(item, "role"@, "assistant"@) {
                        "assistant"@
                    } else {
                        "user"@
                    },
                )
            }
            &&& told::is_type(item, "function_call"@) ==> {
                let blocks = told::list(messages[0], "content"@);
                &&& messages.len() == 1
                &&& told::says(messages[0], "role"@, "assistant"@)
                &&& blocks.len() == 1
                &&& told::is_tool_use(
                    blocks[0],
                    told::said(item, "call_id"@, ""@),
                    told::said(item, "name"@, ""@),
                    told::said(item, "arguments"@, "{}"@),
                )
            }
            &&& told::is_type(item, "function_call_output"@) ==> messages.len() == 1
                && is_result_message(
                messages[0],
                told::said(item, "call_id"@, ""@),
                told::said(item, "output"@, ""@),
            )
            &&& !told::is_type(item, "message"@) && !told::is_type(item, "function_call"@)
                && !told::is_type(item, "function_call_output"@) ==> messages.len() == 0
        }),
{
    literals::lemma_literals();
    lemma_responses_to_anthropic_entries(body);
    entries::lemma_filter_map_one(
        item,
        |item: JsonView| responses_anthropic::item_message(item),
    );
    match item.field("content"@) {
        Some(JsonView::Array(parts)) => {
            entries::lemma_same_filter_map(
                parts,
                |part: JsonView| responses_anthropic::part_text(part),
                |part: JsonView| plain_part(part),
            );
        },
        _ => {},
    }
    assert(responses_anthropic::message_text(item) == plain_text(item));
}

/// An input that is a text is one message of the user; without an input there are
/// no messages.
pub proof fn lemma_responses_to_anthropic_text(body: JsonView)
    ensures
        ({
            let messages = told::list(anthropic_of_responses(body), "messages"@);
            &&& body.field("input"@) matches Some(JsonView::String(s)) ==> messages.len() == 1
                && told::says(messages[0], "role"@, "user"@) && told::says(
                messages[0],
                "content"@,
                s,
            )
            &&& !(told::at(body, "input"@) is String) && !(told::at(body, "input"@) is Array)
                ==> messages.len() == 0
        }),
{
    literals::lemma_literals();
    lemma_responses_to_anthropic_entries(body);
}

/// The functions of a Responses request are the tools of the Anthropic request
/// made from it.
pub proof fn lemma_responses_to_anthropic_tools(body: JsonView)
    ensures
        ({
            let functions = told::typed(told::list(body, "tools"@), "function"@);
            let tools = told::list(anthropic_of_responses(body), "tools"@);
            &&& tools.len() == functions.len()
            &&& anthropic_of_responses(body).field("tools"@) is Some <==> functions.len() > 0
            &&& forall|j: int|
                0 <= j < functions.len() ==> declares(
                    #[trigger] tools[j],
                    functions[j],
                    "input_schema"@,
                    "parameters"@,
                )
        }),
{
    literals::lemma_literals();
    lemma_responses_to_anthropic_entries(body);
    told::lemma_filter_map_as_filter(
        told::list(body, "tools"@),
        |tool: JsonView| responses_anthropic::anthropic_tool(tool),
        |tool: JsonView| told::is_type(tool, "function"@),
        |tool: JsonView| responses_anthropic::anthropic_tool(tool)->0,
    );
    let functions = told::typed(told::list(body, "tools"@), "function"@);
    let wanted = |tool: JsonView| told::is_type(tool, "function"@);
    assert forall|j: int| 0 <= j < functions.len() implies wanted(#[trigger] functions[j]) by {
        told::list(body, "tools"@).lemma_filter_pred(wanted, j);
    }
}

// ── Anthropic to Responses ─────────────────────────────────────────────────

/// The Responses request made from an Anthropic request.
pub open spec fn responses_of_anthropic(body: JsonView) -> JsonView {
    JsonView::Object(responses_anthropic::responses_request(body))
}

/// The options and the system prompt of an Anthropic request are those of the
/// Responses request made from it.
pub proof fn lemma_anthropic_to_responses_options(body: JsonView)
    ensures
        ({
            let r = responses_of_anthropic(body);
            &&& same(r, "model"@, body, "model"@)
            &&& same(r, "max_output_tokens"@, body, "max_tokens"@)
            &&& same(r, "temperature"@, body, "temperature"@)
            &&& same(r, "top_p"@, body, "top_p"@)
            &&& same(r, "stream"@, body, "stream"@)
            &&& match body.field("system"@) {
                Some(JsonView::String(s)) => told::says(r, "instructions"@, s),
                _ => r.field("instructions"@) is None,
            }
        }),
{
    let m = responses_anthropic::responses_request(body);
    lemma_entries();
    literals::lemma_literals();
    entries::lemma_look(m, "model"@);
    entries::lemma_look(m, "max_output_tokens"@);
    entries::lemma_look(m, "temperature"@);
    entries::lemma_look(m, "top_p"@);
    entries::lemma_look(m, "stream"@);
    entries::lemma_look(m, "instructions"@);
}

proof fn lemma_anthropic_to_responses_entries(body: JsonView)
    ensures
        told::list(responses_of_anthropic(body), "input"@) == told::list(
            body,
            "messages"@,
        ).flat_map(|message: JsonView| responses_anthropic::message_items(message)),
        ({
            let tools = told::list(body, "tools"@).map_values(
                |tool: JsonView| responses_anthropic::responses_tool(tool),
            );
            &&& told::list(responses_of_anthropic(body), "tools"@) == tools
            &&& responses_of_anthropic(body).field("tools"@) is Some <==> tools.len() > 0
        }),
{
    let m = responses_anthropic::responses_request(body);
    lemma_entries();
    literals::lemma_literals();
    entries::lemma_tools_of(body);
    entries::lemma_look(m, "input"@);
    entries::lemma_look(m, "tools"@);
    let tools = told::list(body, "tools"@).map_values(
        |tool: JsonView| responses_anthropic::responses_tool(tool),
    );
    assert(told::list(responses_of_anthropic(body), "tools"@) =~= tools);
}

/// The input made from a longer conversation is that of its beginning followed by
/// that of its end.
pub proof fn lemma_anthropic_to_responses_joins(a: JsonView, b: JsonView, whole: JsonView)
    requires
        told::list(whole, "messages"@) == told::list(a, "messages"@) + told::list(b, "messages"@),
    ensures
        told::list(responses_of_anthropic(whole), "input"@) == told::list(
            responses_of_anthropic(a),
            "input"@,
        ) + told::list(responses_of_anthropic(b), "input"@),
{
    lemma_anthropic_to_responses_entries(a);
    lemma_anthropic_to_responses_entries(b);
    lemma_anthropic_to_responses_entries(whole);
    entries::lemma_flat_map_add(
        told::list(a, "messages"@),
        told::list(b, "messages"@),
        |message: JsonView| responses_anthropic::message_items(message),
    );
}

/// The type of the part in which someone says a text.
pub open spec fn spoken_by(role: Seq<char>) -> Seq<char> {
    if role == "assistant"@ {
        "output_text"@
    } else {
        "input_text"@
    }
}

proof fn lemma_blocks_picked(
    blocks: Seq<JsonView>,
    kind: Seq<char>,
    pick: spec_fn(JsonView) -> Option<JsonView>,
)
    requires
        forall|block: JsonView|
            (#[trigger] pick(block)) is Some <==> told::is_type(block, kind),
    ensures
        blocks.filter_map(pick).len() == told::typed(blocks, kind).len(),
        forall|i: int|
            0 <= i < told::typed(blocks, kind).len() ==> {
                &&& told::is_type(#[trigger] told::typed(blocks, kind)[i], kind)
                &&& Some(blocks.filter_map(pick)[i]) == pick(told::typed(blocks, kind)[i])
            },
{
    let wanted = |block: JsonView| told::is_type(block, kind);
    let image = |block: JsonView| pick(block)->0;
    told::lemma_filter_map_as_filter(blocks, pick, wanted, image);
    assert forall|i: int| 0 <= i < told::typed(blocks, kind).len() implies told::is_type(
        #[trigger] told::typed(blocks, kind)[i],
        kind,
    ) && Some(blocks.filter_map(pick)[i]) == pick(told::typed(blocks, kind)[i]) by {
        blocks.lemma_filter_pred(wanted, i);
        assert(wanted(told::typed(blocks, kind)[i]));
        assert(pick(told::typed(blocks, kind)[i]) is Some);
    }
}

/// One Anthropic message becomes the items that say the same: first the results
/// that it gives, then what it says, then the calls that it makes.
pub proof fn lemma_anthropic_to_responses_message(body: JsonView, message: JsonView)
    requires
        told::list(body, "messages"@) == seq![message],
    ensures
        ({
            let input = told::list(responses_of_anthropic(body), "input"@);
            let role = told::said(message, "role"@, "user"@);
            let blocks = told::list(message, "content"@);
            let results = told::typed(blocks, "tool_result"@);
            let texts = told::typed(blocks, "text"@);
            let calls = told::typed(blocks, "tool_use"@);
            let spoken = if texts.len() > 0 {
                1int
            } else {
                0int
            };
            &&& message.field("content"@) matches Some(JsonView::String(s)) ==> {
                &&& input.len() == 1
                &&& told::is_type(input[0], "message"@)
                &&& is_said(input[0], role, spoken_by(role), s)
            }
            &&& told::at(message, "content"@) is Array ==> {
                &&& input.len() == results.len() + spoken + calls.len()
                &&& forall|i: int|
                    0 <= i < results.len() ==> is_result_item(
                        #[trigger] input[i],
                        JsonView::text(told::said(results[i], "tool_use_id"@, ""@)),
                        JsonView::text(told::said(results[i], "content"@, ""@)),
                    )
                &&& texts.len() > 0 ==> {
                    let item = input[results.len() as int];
                    let parts = told::list(item, "content"@);
                    &&& told::is_type(item, "message"@)
                    &&& told::says(item, "role"@, role)
                    &&& parts.len() == texts.len()
                    &&& forall|i: int|
                        0 <= i < texts.len() ==> is_part(
                            #[trigger] parts[i],
                            spoken_by(role),
                            told::said(texts[i], "text"@, ""@),
                        )
                }
                &&& forall|i: int|
                    0 <= i < calls.len() ==> is_call_item(
                        input[results.len() + spoken + i],
                        JsonView::text(told::said(#[trigger] calls[i], "id"@, ""@)),
                        JsonView::text(told::said(calls[i], "name"@, ""@)),
                        JsonView::text(
                            json::json_text(given(calls[i], "input"@, told::empty_object())),
                        ),
                    )
            }
            &&& !(told::at(message, "content"@) is Array) && !(told::at(
                message,
                "content"@,
            ) is String) ==> input.len() == 0
        }),
{
    literals::lemma_literals();
    lemma_anthropic_to_responses_entries(body);
    lemma_one_flat_map(message, |message: JsonView| responses_anthropic::message_items(message));
    let role = told::said(message, "role"@, "user"@);
    let blocks = told::list(message, "content"@);
    lemma_blocks_picked(
        blocks,
        "tool_result"@,
        |block: JsonView| responses_anthropic::block_result(block),
    );
    lemma_blocks_picked(
        blocks,
        "text"@,
        |block: JsonView| responses_anthropic::block_part(role, block),
    );
    lemma_blocks_picked(
        blocks,
        "tool_use"@,
        |block: JsonView| responses_anthropic::block_call(block),
    );
    if told::at(message, "content"@) is Array {
        let texts = told::typed(blocks, "text"@);
        let results = blocks.filter_map(
            |block: JsonView| responses_anthropic::block_result(block),
        );
        let calls = blocks.filter_map(|block: JsonView| responses_anthropic::block_call(block));
        let input = told::list(responses_of_anthropic(body), "input"@);
        let spoken = if texts.len() > 0 {
            1int
        } else {
            0int
        };
        assert(input.len() == results.len() + spoken + calls.len());
        assert forall|i: int| 0 <= i < results.len() implies input[i] == #[trigger] results[i] by {}
        assert forall|i: int| 0 <= i < calls.len() implies input[results.len() + spoken + i]
            == #[trigger] calls[i] by {}
        assert forall|i: int| 0 <= i < results.len() implies is_result_item(
            #[trigger] input[i],
            JsonView::text(
                told::said(told::typed(blocks, "tool_result"@)[i], "tool_use_id"@, ""@),
            ),
            JsonView::text(told::said(told::typed(blocks, "tool_result"@)[i], "content"@, ""@)),
        ) by {
            assert(input[i] == results[i]);
            let source = told::typed(blocks, "tool_result"@)[i];
            assert(Some(results[i]) == responses_anthropic::block_result(source));
        }
        assert forall|i: int| 0 <= i < calls.len() implies is_call_item(
            input[results.len() + spoken + i],
            JsonView::text(
                told::said(#[trigger] told::typed(blocks, "tool_use"@)[i], "id"@, ""@),
            ),
            JsonView::text(told::said(told::typed(blocks, "tool_use"@)[i], "name"@, ""@)),
            JsonView::text(
                json::json_text(
                    given(told::typed(blocks, "tool_use"@)[i], "input"@, told::empty_object()),
                ),
            ),
        ) by {
            assert(input[results.len() + spoken + i] == calls[i]);
            let source = told::typed(blocks, "tool_use"@)[i];
            assert(Some(calls[i]) == responses_anthropic::block_call(source));
        }
        if texts.len() > 0 {
            let parts = blocks.filter_map(
                |block: JsonView| responses_anthropic::block_part(role, block),
            );
            assert(told::list(input[results.len() as int], "content"@) == parts);
            assert forall|i: int| 0 <= i < texts.len() implies is_part(
                #[trigger] parts[i],
                spoken_by(role),
                told::said(texts[i], "text"@, ""@),
            ) by {
                assert(Some(parts[i]) == responses_anthropic::block_part(role, texts[i]));
            }
        }
    }
}

/// The tools of an Anthropic request are the functions of the Responses request
/// made from it.
pub proof fn lemma_anthropic_to_responses_tools(body: JsonView)
    ensures
        ({
            let tools = told::list(body, "tools"@);
            let functions = told::list(responses_of_anthropic(body), "tools"@);
            &&& functions.len() == tools.len()
            &&& responses_of_anthropic(body).field("tools"@) is Some <==> tools.len() > 0
            &&& forall|j: int|
                0 <= j < tools.len() ==> told::is_type(#[trigger] functions[j], "function"@)
                    && declares(functions[j], tools[j], "parameters"@, "input_schema"@)
        }),
{
    literals::lemma_literals();
    lemma_anthropic_to_responses_entries(body);
}

// ── Chat to Anthropic ──────────────────────────────────────────────────────

/// The Anthropic request made from a chat request.
pub open spec fn anthropic_of_chat(body: JsonView) -> JsonView {
    JsonView::Object(chat_anthropic::anthropic_request(body))
}

/// The options of a chat request are those of the Anthropic request made from it,
/// which always has a limit on its tokens.
pub proof fn lemma_chat_to_anthropic_options(body: JsonView)
    ensures
        ({
            let r = anthropic_of_chat(body);
            &&& same(r, "model"@, body, "model"@)
            &&& same(r, "temperature"@, body, "temperature"@)
            &&& same(r, "top_p"@, body, "top_p"@)
            &&& same(r, "stream"@, body, "stream"@)
            &&& r.field("max_tokens"@) == Some(
                given(
                    body,
                    "max_completion_tokens"@,
                    given(body, "max_tokens"@, JsonView::integer(4096)),
                ),
            )
        }),
{
    let m = chat_anthropic::anthropic_request(body);
    lemma_entries();
    literals::lemma_literals();
    entries::lemma_look(m, "model"@);
    entries::lemma_look(m, "temperature"@);
    entries::lemma_look(m, "top_p"@);
    entries::lemma_look(m, "stream"@);
    entries::lemma_look(m, "max_tokens"@);
}

proof fn lemma_chat_to_anthropic_entries(body: JsonView)
    ensures
        told::list(anthropic_of_chat(body), "messages"@) == told::list(
            body,
            "messages"@,
        ).filter_map(|message: JsonView| chat_anthropic::anthropic_message(message)),
        told::said(anthropic_of_chat(body), "system"@, ""@) == chat_anthropic::system_prompt(
            told::list(body, "messages"@),
        ),
        anthropic_of_chat(body).field("system"@) is Some ==> told::said(
            anthropic_of_chat(body),
            "system"@,
            ""@,
        ).len() > 0,
        ({
            let tools = told::list(body, "tools"@).filter_map(
                |tool: JsonView| chat_anthropic::anthropic_tool(tool),
            );
            &&& told::list(anthropic_of_chat(body), "tools"@) == tools
            &&& anthropic_of_chat(body).field("tools"@) is Some <==> tools.len() > 0
        }),
{
    let m = chat_anthropic::anthropic_request(body);
    lemma_entries();
    literals::lemma_literals();
    entries::lemma_tools_of(body);
    entries::lemma_look(m, "messages"@);
    entries::lemma_look(m, "system"@);
    entries::lemma_look(m, "tools"@);
    let system = chat_anthropic::system_prompt(told::list(body, "messages"@));
    if system.len() == 0 {
        assert(system =~= ""@);
    }
    let tools = told::list(body, "tools"@).filter_map(
        |tool: JsonView| chat_anthropic::anthropic_tool(tool),
    );
    assert(told::list(anthropic_of_chat(body), "tools"@) =~= tools);
}

/// The messages made from a longer conversation are those of its beginning
/// followed by those of its end.
pub proof fn lemma_chat_to_anthropic_joins(a: JsonView, b: JsonView, whole: JsonView)
    requires
        told::list(whole, "messages"@) == told::list(a, "messages"@) + told::list(b, "messages"@),
    ensures
        told::list(anthropic_of_chat(whole), "messages"@) == told::list(
            anthropic_of_chat(a),
            "messages"@,
        ) + told::list(anthropic_of_chat(b), "messages"@),
{
    lemma_chat_to_anthropic_entries(a);
    lemma_chat_to_anthropic_entries(b);
    lemma_chat_to_anthropic_entries(whole);
    entries::lemma_filter_map_add(
        told::list(a, "messages"@),
        told::list(b, "messages"@),
        |message: JsonView| chat_anthropic::anthropic_message(message),
    );
}

/// One chat message becomes the Anthropic message that says the same: a text is
/// the text of a block, every tool call keeps its identifier, name and arguments,
/// and a result its identifier and output.
pub proof fn lemma_chat_to_anthropic_message(body: JsonView, message: JsonView)
    requires
        told::list(body, "messages"@) == seq![message],
    ensures
        ({
            let messages = told::list(anthropic_of_chat(body), "messages"@);
            let blocks = told::list(messages[0], "content"@);
            let role = told::said(message, "role"@, "user"@);
            let calls = told::list(message, "tool_calls"@);
            let s = told::said(message, "content"@, ""@);
            let spoken = if s.len() > 0 {
                1int
            } else {
                0int
            };
            &&& role == "user"@ ==> {
                &&& messages.len() == 1
                &&& told::says(messages[0], "role"@, "user"@)
                &&& match message.field("content"@) {
                    Some(JsonView::Array(parts)) => messages[0].field("content"@) == Some(
                        JsonView::Array(parts),
                    ),
                    _ => is_said(messages[0], "user"@, "text"@, s),
                }
            }
            &&& role == "assistant"@ ==> {
                &&& messages.len() == if spoken + calls.len() > 0 {
                    1int
                } else {
                    0int
                }
                &&& spoken + calls.len() > 0 ==> {
                    &&& told::says(messages[0], "role"@, "assistant"@)
                    &&& blocks.len() == spoken + calls.len()
                    &&& s.len() > 0 ==> is_part(blocks[0], "text"@, s)
                    &&& forall|i: int|
                        0 <= i < calls.len() ==> {
                            let function = told::at(#[trigger] calls[i], "function"@);
                            told::is_tool_use(
                                blocks[spoken + i],
                                told::said(calls[i], "id"@, ""@),
                                told::said(function, "name"@, ""@),
                                told::said(function, "arguments"@, "{}"@),
                            )
                        }
                }
            }
            &&& role == "tool"@ ==> messages.len() == 1 && is_result_message(
                messages[0],
                told::said(message, "tool_call_id"@, ""@),
                s,
            )
            &&& role != "user"@ && role != "assistant"@ && role != "tool"@ ==> messages.len() == 0
        }),
{
    literals::lemma_literals();
    lemma_chat_to_anthropic_entries(body);
    entries::lemma_filter_map_one(
        message,
        |message: JsonView| chat_anthropic::anthropic_message(message),
    );
    let role = told::said(message, "role"@, "user"@);
    let calls = told::list(message, "tool_calls"@);
    assert(chat_anthropic::calls_of(message) =~= calls);
    if role == "assistant"@ {
        let made = chat_anthropic::message_blocks(message);
        let s = told::said(message, "content"@, ""@);
        let spoken = if s.len() > 0 {
            1int
        } else {
            0int
        };
        assert(made.len() == spoken + calls.len());
        assert forall|i: int| 0 <= i < calls.len() implies {
            let function = told::at(#[trigger] calls[i], "function"@);
            told::is_tool_use(
                made[spoken + i],
                told::said(calls[i], "id"@, ""@),
                told::said(function, "name"@, ""@),
                told::said(function, "arguments"@, "{}"@),
            )
        } by {
            assert(made[spoken + i] == chat_anthropic::call_block(calls[i]));
        }
    }
}

/// The system prompt made from a conversation is what the system says in it, each
/// text on a line of its own.
pub proof fn lemma_chat_to_anthropic_system(body: JsonView, longer: JsonView, message: JsonView)
    requires
        told::list(longer, "messages"@) == told::list(body, "messages"@).push(message),
    ensures
        ({
            let before = told::said(anthropic_of_chat(body), "system"@, ""@);
            let after = told::said(anthropic_of_chat(longer), "system"@, ""@);
            &&& told::list(body, "messages"@).len() == 0 ==> anthropic_of_chat(body).field(
                "system"@,
            ) is None
            &&& after == match message.field("content"@) {
                Some(JsonView::String(s)) => if !told::says(message, "role"@, "system"@) {
                    before
                } else if before.len() == 0 {
                    s
                } else {
                    before + seq!['\n'] + s
                },
                _ => before,
            }
        }),
{
    literals::lemma_literals();
    lemma_chat_to_anthropic_entries(body);
    lemma_chat_to_anthropic_entries(longer);
    let messages = told::list(body, "messages"@);
    assert(messages.push(message).drop_last() =~= messages);
    let before = chat_anthropic::system_prompt(messages);
    let s = told::said(message, "content"@, ""@);
    reveal_strlit("\n");
    assert("\n"@ =~= seq!['\n']);
    assert(before.len() == 0 ==> before + s =~= s);
    assert(chat_anthropic::system_prompt(messages.push(message)) == chat_anthropic::prompted(
        before,
        message,
    ));
}

/// The functions of a chat request are the tools of the Anthropic request made
/// from it.
pub proof fn lemma_chat_to_anthropic_tools(body: JsonView)
    ensures
        ({
            let functions = told::typed(told::list(body, "tools"@), "function"@);
            let tools = told::list(anthropic_of_chat(body), "tools"@);
            &&& tools.len() == functions.len()
            &&& anthropic_of_chat(body).field("tools"@) is Some <==> functions.len() > 0
            &&& forall|j: int|
                0 <= j < functions.len() ==> declares(
                    #[trigger] tools[j],
                    told::at(functions[j], "function"@),
                    "input_schema"@,
                    "parameters"@,
                )
        }),
{
    literals::lemma_literals();
    lemma_chat_to_anthropic_entries(body);
    told::lemma_filter_map_as_filter(
        told::list(body, "tools"@),
        |tool: JsonView| chat_anthropic::anthropic_tool(tool),
        |tool: JsonView| told::is_type(tool, "function"@),
        |tool: JsonView| chat_anthropic::anthropic_tool(tool)->0,
    );
    let functions = told::typed(told::list(body, "tools"@), "function"@);
    let wanted = |tool: JsonView| told::is_type(tool, "function"@);
    assert forall|j: int| 0 <= j < functions.len() implies wanted(#[trigger] functions[j]) by {
        told::list(body, "tools"@).lemma_filter_pred(wanted, j);
    }
}

// ── Anthropic to Chat ──────────────────────────────────────────────────────

/// The chat request made from an Anthropic request.
pub open spec fn chat_of_anthropic(body: JsonView) -> JsonView {
    JsonView::Object(chat_anthropic::chat_request(body))
}

/// The options of an Anthropic request are those of the chat request made from it.
pub proof fn lemma_anthropic_to_chat_options(body: JsonView)
    ensures
        ({
            let r = chat_of_anthropic(body);
            &&& same(r, "model"@, body, "model"@)
            &&& same(r, "max_tokens"@, body, "max_tokens"@)
            &&& same(r, "temperature"@, body, "temperature"@)
            &&& same(r, "top_p"@, body, "top_p"@)
            &&& same(r, "stream"@, body, "stream"@)
        }),
{
    let m = chat_anthropic::chat_request(body);
    lemma_entries();
    literals::lemma_literals();
    entries::lemma_look(m, "model"@);
    entries::lemma_look(m, "max_tokens"@);
    entries::lemma_look(m, "temperature"@);
    entries::lemma_look(m, "top_p"@);
    entries::lemma_look(m, "stream"@);
}

proof fn lemma_anthropic_to_chat_entries(body: JsonView)
    ensures
        told::list(chat_of_anthropic(body), "messages"@) == chat_anthropic::request_messages(body),
        responses_chat::messages_of(body) == told::list(body, "messages"@),
        ({
            let tools = told::list(body, "tools"@).map_values(
                |tool: JsonView| chat_anthropic::chat_tool(tool),
            );
            &&& told::list(chat_of_anthropic(body), "tools"@) == tools
            &&& chat_of_anthropic(body).field("tools"@) is Some <==> tools.len() > 0
        }),
{
    let m = chat_anthropic::chat_request(body);
    lemma_entries();
    literals::lemma_literals();
    entries::lemma_tools_of(body);
    entries::lemma_look(m, "messages"@);
    entries::lemma_look(m, "tools"@);
    let tools = told::list(body, "tools"@).map_values(
        |tool: JsonView| chat_anthropic::chat_tool(tool),
    );
    assert(told::list(chat_of_anthropic(body), "tools"@) =~= tools);
}

/// The messages made from a longer conversation are those of its beginning, the
/// system prompt first, followed by those of its end.
pub proof fn lemma_anthropic_to_chat_joins(a: JsonView, b: JsonView, whole: JsonView)
    requires
        told::list(whole, "messages"@) == told::list(a, "messages"@) + told::list(b, "messages"@),
        whole.field("system"@) == a.field("system"@),
        !(told::at(b, "system"@) is String),
    ensures
        told::list(chat_of_anthropic(whole), "messages"@) == told::list(
            chat_of_anthropic(a),
            "messages"@,
        ) + told::list(chat_of_anthropic(b), "messages"@),
{
    lemma_anthropic_to_chat_entries(a);
    lemma_anthropic_to_chat_entries(b);
    lemma_anthropic_to_chat_entries(whole);
    entries::lemma_flat_map_add(
        told::list(a, "messages"@),
        told::list(b, "messages"@),
        |message: JsonView| chat_anthropic::chat_messages(message),
    );
    assert(told::list(chat_of_anthropic(whole), "messages"@) =~= told::list(
        chat_of_anthropic(a),
        "messages"@,
    ) + told::list(chat_of_anthropic(b), "messages"@));
}

/// Without messages there is only the system prompt, said by the system.
pub proof fn lemma_anthropic_to_chat_system(body: JsonView)
    requires
        told::list(body, "messages"@).len() == 0,
    ensures
        ({
            let messages = told::list(chat_of_anthropic(body), "messages"@);
            match body.field("system"@) {
                Some(JsonView::String(s)) => messages.len() == 1 && told::says(
                    messages[0],
                    "role"@,
                    "system"@,
                ) && told::says(messages[0], "content"@, s),
                _ => messages.len() == 0,
            }
        }),
{
    literals::lemma_literals();
    lemma_anthropic_to_chat_entries(body);
    let f = |message: JsonView| chat_anthropic::chat_messages(message);
    assert(told::list(body, "messages"@).flat_map(f) =~= Seq::empty());
}

/// Whether a chat message gives the result that a block gives.
pub open spec fn gives_result(message: JsonView, block: JsonView) -> bool {
    &&& told::says(message, "role"@, "tool"@)
    &&& told::says(message, "tool_call_id"@, told::said(block, "tool_use_id"@, ""@))
    &&& told::says(message, "content"@, told::said(block, "content"@, ""@))
}

/// One Anthropic message becomes the chat messages that say the same: what it
/// says, then the calls that it makes, then the results that it gives.
pub proof fn lemma_anthropic_to_chat_message(body: JsonView, message: JsonView)
    requires
        told::list(body, "messages"@) == seq![message],
        !(told::at(body, "system"@) is String),
    ensures
        ({
            let messages = told::list(chat_of_anthropic(body), "messages"@);
            let role = told::said(message, "role"@, "user"@);
            let blocks = told::list(message, "content"@);
            let words = told::typed(blocks, "text"@).flat_map(
                |block: JsonView| told::said(block, "text"@, ""@),
            );
            let calls = told::typed(blocks, "tool_use"@);
            let results = told::typed(blocks, "tool_result"@);
            let spoken = if words.len() > 0 || calls.len() == 0 {
                1int
            } else {
                0int
            };
            let called = if calls.len() > 0 {
                1int
            } else {
                0int
            };
            &&& message.field("content"@) matches Some(JsonView::String(s)) ==> messages.len() == 1
                && told::says(messages[0], "role"@, role) && told::says(
                messages[0],
                "content"@,
                s,
            )
            &&& told::at(message, "content"@) is Array ==> {
                let made = told::list(messages[spoken], "tool_calls"@);
                &&& messages.len() == spoken + called + results.len()
                &&& spoken == 1 ==> told::says(messages[0], "role"@, role) && told::says(
                    messages[0],
                    "content"@,
                    words,
                )
                &&& calls.len() > 0 ==> told::says(messages[spoken], "role"@, "assistant"@)
                    && made.len() == calls.len()
                &&& forall|i: int|
                    0 <= i < calls.len() ==> told::is_chat_call(
                        made[i],
                        told::said(#[trigger] calls[i], "id"@, ""@),
                        told::said(calls[i], "name"@, ""@),
                        json::json_text(given(calls[i], "input"@, told::empty_object())),
                    )
                &&& forall|i: int|
                    0 <= i < results.len() ==> gives_result(
                        messages[messages.len() - results.len() + i],
                        #[trigger] results[i],
                    )
            }
            &&& !(told::at(message, "content"@) is Array) && !(told::at(
                message,
                "content"@,
            ) is String) ==> messages.len() == 0
        }),
{
    literals::lemma_literals();
    lemma_anthropic_to_chat_entries(body);
    lemma_one_flat_map(message, |message: JsonView| chat_anthropic::chat_messages(message));
    let messages = told::list(chat_of_anthropic(body), "messages"@);
    assert(messages =~= chat_anthropic::chat_messages(message));
    let blocks = told::list(message, "content"@);
    lemma_blocks_picked(
        blocks,
        "tool_use"@,
        |block: JsonView| chat_anthropic::block_call(block),
    );
    lemma_blocks_picked(
        blocks,
        "tool_result"@,
        |block: JsonView| chat_anthropic::block_result(block),
    );
    lemma_words(blocks);
    if told::at(message, "content"@) is Array {
        let made_calls = blocks.filter_map(
            |block: JsonView| chat_anthropic::block_call(block),
        );
        let made_results = blocks.filter_map(
            |block: JsonView| chat_anthropic::block_result(block),
        );
        let calls = told::typed(blocks, "tool_use"@);
        let results = told::typed(blocks, "tool_result"@);
        let words = blocks.flat_map(|block: JsonView| chat_anthropic::block_text(block));
        let spoken = if words.len() > 0 || calls.len() == 0 {
            1int
        } else {
            0int
        };
        let called = if calls.len() > 0 {
            1int
        } else {
            0int
        };
        assert(messages.len() == spoken + called + results.len());
        assert forall|i: int| 0 <= i < results.len() implies messages[spoken + called + i]
            == #[trigger] made_results[i] by {}
        assert(called == 1 ==> told::list(messages[spoken], "tool_calls"@) == made_calls);
        assert forall|i: int| 0 <= i < calls.len() implies told::is_chat_call(
            made_calls[i],
            told::said(#[trigger] calls[i], "id"@, ""@),
            told::said(calls[i], "name"@, ""@),
            json::json_text(given(calls[i], "input"@, told::empty_object())),
        ) by {
            assert(Some(made_calls[i]) == chat_anthropic::block_call(calls[i]));
        }
        assert forall|i: int| 0 <= i < results.len() implies gives_result(
            messages[messages.len() - results.len() + i],
            #[trigger] results[i],
        ) by {
            assert(messages[messages.len() - results.len() + i] == made_results[i]);
            assert(Some(made_results[i]) == chat_anthropic::block_result(results[i]));
        }
        let role = told::said(message, "role"@, "user"@);
        if spoken == 1 {
            assert(messages[0] == responses_chat::chat_message(role, words));
        }
    }
}

/// The words of text blocks.
proof fn lemma_words(blocks: Seq<JsonView>)
    ensures
        blocks.flat_map(|block: JsonView| chat_anthropic::block_text(block)) == told::typed(
            blocks,
            "text"@,
        ).flat_map(|block: JsonView| told::said(block, "text"@, ""@)),
    decreases blocks.len(),
{
    reveal(Seq::filter);
    let f = |block: JsonView| chat_anthropic::block_text(block);
    let g = |block: JsonView| told::said(block, "text"@, ""@);
    let wanted = |block: JsonView| told::is_type(block, "text"@);
    if blocks.len() == 0 {
        assert(blocks.flat_map(f) =~= Seq::empty());
        assert(blocks.filter(wanted).flat_map(g) =~= Seq::empty());
    } else {
        let before = blocks.drop_last();
        let last = blocks.last();
        lemma_words(before);
        assert(before.push(last) =~= blocks);
        before.lemma_flat_map_push(f, last);
        before.lemma_filter_push(last, wanted);
        before.filter(wanted).lemma_flat_map_push(g, last);
        assert(blocks.flat_map(f) =~= blocks.filter(wanted).flat_map(g));
    }
}

/// The tools of an Anthropic request are the functions of the chat request made
/// from it.
pub proof fn lemma_anthropic_to_chat_tools(body: JsonView)
    ensures
        ({
            let tools = told::list(body, "tools"@);
            let functions = told::list(chat_of_anthropic(body), "tools"@);
            &&& functions.len() == tools.len()
            &&& chat_of_anthropic(body).field("tools"@) is Some <==> tools.len() > 0
            &&& forall|j: int|
                0 <= j < tools.len() ==> told::is_type(#[trigger] functions[j], "function"@)
                    && declares(
                    told::at(functions[j], "function"@),
                    tools[j],
                    "parameters"@,
                    "input_schema"@,
                )
        }),
{
    literals::lemma_literals();
    lemma_anthropic_to_chat_entries(body);
}

// ── Nothing else ───────────────────────────────────────────────────────────

/// A Responses request made from a chat request says nothing else.
pub proof fn lemma_chat_to_responses_nothing_else(body: JsonView, key: Seq<char>)
    ensures
        responses_of_chat(body).field(key) is Some ==> key == "model"@ || key == "instructions"@ || key == "input"@
            || key == "max_output_tokens"@ || key == "temperature"@ || key == "top_p"@
            || key == "stream"@ || key == "reasoning"@ || key == "tools"@ || key == "metadata"@
            || key == "stop"@ || key == "seed"@ || key == "user"@,
{
    lemma_entries();
    literals::lemma_literals();
    entries::lemma_look(responses_chat::responses_request(body), key);
}

/// An Anthropic request made from a Responses request says nothing else.
pub proof fn lemma_responses_to_anthropic_nothing_else(body: JsonView, key: Seq<char>)
    ensures
        anthropic_of_responses(body).field(key) is Some ==> key == "model"@ || key == "max_tokens"@ || key == "temperature"@ || key == "top_p"@
            || key == "stream"@ || key == "system"@ || key == "messages"@ || key == "tools"@,
{
    lemma_entries();
    literals::lemma_literals();
    entries::lemma_look(responses_anthropic::anthropic_request(body), key);
}

/// A Responses request made from an Anthropic request says nothing else.
pub proof fn lemma_anthropic_to_responses_nothing_else(body: JsonView, key: Seq<char>)
    ensures
        responses_of_anthropic(body).field(key) is Some ==> key == "model"@ || key == "max_output_tokens"@ || key == "temperature"@
            || key == "top_p"@ || key == "stream"@ || key == "instructions"@ || key == "input"@
            || key == "tools"@,
{
    lemma_entries();
    literals::lemma_literals();
    entries::lemma_look(responses_anthropic::responses_request(body), key);
}

/// An Anthropic request made from a chat request says nothing else.
pub proof fn lemma_chat_to_anthropic_nothing_else(body: JsonView, key: Seq<char>)
    ensures
        anthropic_of_chat(body).field(key) is Some ==> key == "model"@ || key == "max_tokens"@ || key == "temperature"@ || key == "top_p"@
            || key == "stream"@ || key == "system"@ || key == "messages"@ || key == "tools"@,
{
    lemma_entries();
    literals::lemma_literals();
    entries::lemma_look(chat_anthropic::anthropic_request(body), key);
}

/// A chat request made from an Anthropic request says nothing else.
pub proof fn lemma_anthropic_to_chat_nothing_else(body: JsonView, key: Seq<char>)
    ensures
        chat_of_anthropic(body).field(key) is Some ==> key == "model"@ || key == "max_tokens"@ || key == "temperature"@ || key == "top_p"@
            || key == "stream"@ || key == "messages"@ || key == "tools"@,
{
    lemma_entries();
    literals::lemma_literals();
    entries::lemma_look(chat_anthropic::chat_request(body), key);
}

} // verus!
