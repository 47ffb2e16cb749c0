//! Bidirectional conversion between OpenAI Chat Completions and Anthropic Messages.
//!
//! The streaming response directions are in `anthropic_to_chat_stream` and
//! `chat_to_anthropic_stream`.

use crate::json;
use crate::json::{convert, expand, gather, no_items, select, Json, JsonView, Object};
use crate::text::same_text;
use crate::transform::anthropic;
use crate::transform::anthropic::{
    make_completed_message, make_role_content, make_text_block, make_token_counts,
    make_tool_of_function, make_tool_result_message, make_tool_use_block, print_block_arguments,
};
use crate::transform::common;
use crate::transform::common::{make_id, now_secs};
use crate::transform::responses_anthropic;
use crate::transform::responses_anthropic::DEFAULT_MAX_TOKENS;
use crate::transform::responses_chat;
use crate::transform::responses_chat::{
    first_choice_message, make_chat_completion, make_chat_message, make_chat_tool_call,
    response_model,
};
use vstd::prelude::*;

verus! {

broadcast use crate::json::group_json_views;

/// The Anthropic form of the content of a chat message.
pub open spec fn anthropic_content(message: JsonView) -> JsonView {
    match message.field("content"@) {
        Some(JsonView::Array(parts)) => JsonView::Array(parts),
        Some(JsonView::String(s)) => JsonView::Array(seq![anthropic::text_block(s)]),
        _ => JsonView::Array(seq![anthropic::text_block(""@)]),
    }
}

/// The Anthropic form of the content of a chat message.
pub fn chat_content_to_anthropic(message: &Json) -> (r: Json)
    ensures
        r@ == anthropic_content(message@),
{
    match message.get("content") {
        Some(Json::String(s)) => Json::single(make_text_block(s.as_str())),
        Some(content) => match content {
            Json::Array(_) => content.clone(),
            _ => Json::single(make_text_block("")),
        },
        None => Json::single(make_text_block("")),
    }
}

/// The block for a chat tool call.
pub open spec fn call_block(call: JsonView) -> JsonView {
    let function = call.field_or("function"@, JsonView::Object(Map::empty()));
    anthropic::tool_use_block(
        call.text_or("id"@, ""@),
        function.text_or("name"@, ""@),
        function.text_or("arguments"@, "{}"@),
    )
}

fn make_call_block(call: &Json) -> (r: Json)
    ensures
        r@ == call_block(call@),
{
    let function = call.field_or("function", Json::empty_object());
    make_tool_use_block(
        call.text_or("id", ""),
        function.text_or("name", ""),
        function.text_or("arguments", "{}"),
    )
}

/// The tool calls of a chat message.
pub open spec fn calls_of(message: JsonView) -> Seq<JsonView> {
    match message.array_at("tool_calls"@) {
        Some(calls) => calls,
        None => Seq::empty(),
    }
}

/// The blocks for a chat message: its text, if any, then its tool calls.
pub open spec fn message_blocks(message: JsonView) -> Seq<JsonView> {
    let said = message.text_or("content"@, ""@);
    let calls = calls_of(message).map_values(|call: JsonView| call_block(call));
    if said.len() > 0 {
        seq![anthropic::text_block(said)] + calls
    } else {
        calls
    }
}

/// The blocks for a chat message.
pub fn chat_message_to_blocks(message: &Json) -> (r: Vec<Json>)
    ensures
        json::json_views(r@) == message_blocks(message@),
{
    let none = no_items();
    let calls = match message.array_at("tool_calls") {
        Some(calls) => calls,
        None => &none,
    };
    let mut used = convert(calls, make_call_block, Ghost(|call: JsonView| call_block(call)));
    let said = message.text_or("content", "");
    if said.unicode_len() > 0 {
        let mut blocks = no_items();
        blocks.push(make_text_block(said));
        blocks.append(&mut used);
        blocks
    } else {
        used
    }
}

/// The Anthropic message that a chat message stands for. A system message and
/// an empty message of the assistant stand for none.
pub open spec fn anthropic_message(message: JsonView) -> Option<JsonView> {
    let role = message.text_or("role"@, "user"@);
    if role == "user"@ {
        Some(anthropic::role_content("user"@, anthropic_content(message)))
    } else if role == "assistant"@ {
        if message_blocks(message).len() > 0 {
            Some(
                anthropic::role_content("assistant"@, JsonView::Array(message_blocks(message))),
            )
        } else {
            None
        }
    } else if role == "tool"@ {
        Some(
            anthropic::tool_result_message(
                message.text_or("tool_call_id"@, ""@),
                message.text_or("content"@, ""@),
            ),
        )
    } else {
        None
    }
}

/// The Anthropic message that a chat message stands for.
pub fn chat_message_to_anthropic(message: &Json) -> (r: Option<Json>)
    ensures
        json::value_of(r) == anthropic_message(message@),
{
    let role = message.text_or("role", "user");
    if same_text(role, "user") {
        Some(make_role_content("user", chat_content_to_anthropic(message)))
    } else if same_text(role, "assistant") {
        let blocks = chat_message_to_blocks(message);
        if blocks.len() > 0 {
            Some(make_role_content("assistant", Json::Array(blocks)))
        } else {
            None
        }
    } else if same_text(role, "tool") {
        Some(
            make_tool_result_message(
                message.text_or("tool_call_id", ""),
                message.text_or("content", ""),
            ),
        )
    } else {
        None
    }
}

/// A system prompt followed by the text of a message, if it is a system message
/// with a text, on a line of its own.
pub open spec fn prompted(prompt: Seq<char>, message: JsonView) -> Seq<char> {
    match message.text_at("content"@) {
        Some(s) => if message.text_or("role"@, "user"@) == "system"@ {
            if prompt.len() > 0 {
                prompt + "\n"@ + s
            } else {
                prompt + s
            }
        } else {
            prompt
        },
        None => prompt,
    }
}

/// The system prompt that the system messages of a chat request give.
pub open spec fn system_prompt(messages: Seq<JsonView>) -> Seq<char> {
    messages.fold_left(
        Seq::empty(),
        |prompt: Seq<char>, message: JsonView| prompted(prompt, message),
    )
}

/// The system prompt that chat messages give.
pub fn gather_system_prompt(messages: &Vec<Json>) -> (r: String)
    ensures
        r@ == system_prompt(json::json_views(messages@)),
{
    let mut prompt = String::new();
    let ghost views = json::json_views(messages@);
    let ghost step = |prompt: Seq<char>, message: JsonView| prompted(prompt, message);
    assert(views.take(0) =~= Seq::empty());
    for i in 0..messages.len()
        invariant
            views == json::json_views(messages@),
            step == (|prompt: Seq<char>, message: JsonView| prompted(prompt, message)),
            prompt@ == views.take(i as int).fold_left(Seq::empty(), step),
    {
        assert(views.take(i + 1).drop_last() =~= views.take(i as int));
        let message = &messages[i];
        if same_text(message.text_or("role", "user"), "system") {
            match message.text_at("content") {
                Some(s) => {
                    if prompt.as_str().unicode_len() > 0 {
                        prompt.append("\n");
                    }
                    prompt.append(s);
                },
                None => {},
            }
        }
    }
    assert(views.take(views.len() as int) =~= views);
    prompt
}

/// The Anthropic form of a chat tool. Only functions have one.
pub open spec fn anthropic_tool(tool: JsonView) -> Option<JsonView> {
    if tool.text_at("type"@) == Some("function"@) {
        Some(anthropic::tool_of_function(tool.field_or("function"@, JsonView::Null)))
    } else {
        None
    }
}

fn tool_to_anthropic(tool: &Json) -> (r: Option<Json>)
    ensures
        json::value_of(r) == anthropic_tool(tool@),
{
    if tool.has_text("type", "function") {
        Some(make_tool_of_function(&tool.field_or("function", Json::Null)))
    } else {
        None
    }
}

/// The Anthropic request that says what a chat request says.
pub open spec fn anthropic_request(body: JsonView) -> Map<Seq<char>, JsonView> {
    let messages = responses_chat::messages_of(body);
    let system = system_prompt(messages);
    let tools = responses_chat::tools_of(body).filter_map(|tool: JsonView| anthropic_tool(tool));
    let r = json::carried(Map::empty(), "model"@, body.field("model"@));
    let r = r.insert(
        "max_tokens"@,
        body.field_or(
            "max_completion_tokens"@,
            body.field_or("max_tokens"@, JsonView::integer(DEFAULT_MAX_TOKENS as int)),
        ),
    );
    let r = json::carried(r, "temperature"@, body.field("temperature"@));
    let r = json::carried(r, "top_p"@, body.field("top_p"@));
    let r = json::carried(r, "stream"@, body.field("stream"@));
    let r = if system.len() > 0 {
        r.insert("system"@, JsonView::text(system))
    } else {
        r
    };
    let r = r.insert(
        "messages"@,
        JsonView::Array(messages.filter_map(|message: JsonView| anthropic_message(message))),
    );
    if tools.len() > 0 {
        r.insert("tools"@, JsonView::Array(tools))
    } else {
        r
    }
}

/// Converts a Chat Completions request to an Anthropic Messages request.
pub fn request_chat_to_anthropic(body: &Json) -> (r: Result<Json, String>)
    ensures
        r is Ok,
        r->Ok_0@ == JsonView::Object(anthropic_request(body@)),
{
    let mut r = Object::new();
    r.carry("model", body, "model");
    let max_tokens = body.field_or("max_tokens", Json::unsigned(DEFAULT_MAX_TOKENS));
    r.set("max_tokens", body.field_or("max_completion_tokens", max_tokens));
    r.carry("temperature", body, "temperature");
    r.carry("top_p", body, "top_p");
    r.carry("stream", body, "stream");
    let none = no_items();
    let messages = match body.array_at("messages") {
        Some(messages) => messages,
        None => &none,
    };
    let system = gather_system_prompt(messages);
    if system.as_str().unicode_len() > 0 {
        r.set("system", Json::String(system));
    }
    let converted = select(
        messages,
        chat_message_to_anthropic,
        Ghost(|message: JsonView| anthropic_message(message)),
    );
    r.set("messages", Json::Array(converted));
    let declared = match body.array_at("tools") {
        Some(tools) => tools,
        None => &none,
    };
    let tools = select(declared, tool_to_anthropic, Ghost(|tool: JsonView| anthropic_tool(tool)));
    if tools.len() > 0 {
        r.set("tools", Json::Array(tools));
    }
    Ok(Json::Object(r))
}

/// The text of a block.
pub open spec fn block_text(block: JsonView) -> Seq<char> {
    if block.text_at("type"@) == Some("text"@) {
        block.text_or("text"@, ""@)
    } else {
        Seq::empty()
    }
}

fn text_in_block(block: &Json) -> (r: String)
    ensures
        r@ == block_text(block@),
{
    if block.has_text("type", "text") {
        block.text_or("text", "").to_string()
    } else {
        String::new()
    }
}

/// The chat tool call that a block makes.
pub open spec fn block_call(block: JsonView) -> Option<JsonView> {
    if block.text_at("type"@) == Some("tool_use"@) {
        Some(
            responses_chat::chat_tool_call(
                block.text_or("id"@, ""@),
                block.text_or("name"@, ""@),
                anthropic::block_arguments(block),
            ),
        )
    } else {
        None
    }
}

fn call_in_block(block: &Json) -> (r: Option<Json>)
    ensures
        json::value_of(r) == block_call(block@),
{
    if block.has_text("type", "tool_use") {
        let arguments = print_block_arguments(block);
        Some(
            make_chat_tool_call(
                block.text_or("id", ""),
                block.text_or("name", ""),
                arguments.as_str(),
            ),
        )
    } else {
        None
    }
}

/// The chat message for the result of a tool call that a block gives.
pub open spec fn block_result(block: JsonView) -> Option<JsonView> {
    if block.text_at("type"@) == Some("tool_result"@) {
        Some(
            JsonView::Object(
                map![
                    "role"@ => JsonView::text("tool"@),
                    "tool_call_id"@ => JsonView::text(block.text_or("tool_use_id"@, ""@)),
                    "content"@ => JsonView::text(block.text_or("content"@, ""@)),
                ],
            ),
        )
    } else {
        None
    }
}

fn result_in_block(block: &Json) -> (r: Option<Json>)
    ensures
        json::value_of(r) == block_result(block@),
{
    if block.has_text("type", "tool_result") {
        Some(
            Json::Object(
                Object::new().with("role", Json::string("tool")).with(
                    "tool_call_id",
                    Json::string(block.text_or("tool_use_id", "")),
                ).with("content", Json::string(block.text_or("content", ""))),
            ),
        )
    } else {
        None
    }
}

/// The chat messages that an Anthropic message stands for: its text, its tool
/// calls, and the results of tool calls. The text is left out where it is empty
/// and there are tool calls.
pub open spec fn chat_messages(message: JsonView) -> Seq<JsonView> {
    let role = message.text_or("role"@, "user"@);
    match message.field("content"@) {
        Some(JsonView::String(s)) => seq![responses_chat::chat_message(role, s)],
        Some(JsonView::Array(blocks)) => {
            let said = blocks.flat_map(|block: JsonView| block_text(block));
            let calls = blocks.filter_map(|block: JsonView| block_call(block));
            let results = blocks.filter_map(|block: JsonView| block_result(block));
            let text_message = if said.len() > 0 || calls.len() == 0 {
                seq![responses_chat::chat_message(role, said)]
            } else {
                Seq::empty()
            };
            let call_message = if calls.len() > 0 {
                seq![
                    JsonView::Object(
                        map![
                            "role"@ => JsonView::text("assistant"@),
                            "tool_calls"@ => JsonView::Array(calls),
                        ],
                    ),
                ]
            } else {
                Seq::empty()
            };
            text_message + call_message + results
        },
        _ => Seq::empty(),
    }
}

/// The chat messages that an Anthropic message stands for.
pub fn anthropic_message_to_chat(message: &Json) -> (r: Vec<Json>)
    ensures
        json::json_views(r@) == chat_messages(message@),
{
    let role = message.text_or("role", "user");
    match message.get("content") {
        Some(Json::String(s)) => {
            let mut messages = no_items();
            messages.push(make_chat_message(role, s.as_str()));
            messages
        },
        Some(Json::Array(blocks)) => {
            let said = gather(blocks, text_in_block, Ghost(|block: JsonView| block_text(block)));
            let calls = select(blocks, call_in_block, Ghost(|block: JsonView| block_call(block)));
            let mut results = select(
                blocks,
                result_in_block,
                Ghost(|block: JsonView| block_result(block)),
            );
            let mut messages = no_items();
            if said.as_str().unicode_len() > 0 || calls.len() == 0 {
                messages.push(make_chat_message(role, said.as_str()));
            }
            if calls.len() > 0 {
                messages.push(
                    Json::Object(
                        Object::new().with("role", Json::string("assistant")).with(
                            "tool_calls",
                            Json::Array(calls),
                        ),
                    ),
                );
            }
            messages.append(&mut results);
            assert(json::json_views(messages@) =~= chat_messages(message@));
            messages
        },
        _ => no_items(),
    }
}

/// The chat form of an Anthropic tool.
pub open spec fn chat_tool(tool: JsonView) -> JsonView {
    JsonView::Object(
        map![
            "type"@ => JsonView::text("function"@),
            "function"@ => JsonView::Object(map![
                "name"@ => tool.field_or("name"@, JsonView::text(""@)),
                "description"@ => tool.field_or("description"@, JsonView::text(""@)),
                "parameters"@ => tool.field_or("input_schema"@, JsonView::Object(Map::empty())),
            ]),
        ],
    )
}

fn tool_to_chat(tool: &Json) -> (r: Json)
    ensures
        r@ == chat_tool(tool@),
{
    let function = Object::new().with("name", tool.field_or("name", Json::string(""))).with(
        "description",
        tool.field_or("description", Json::string("")),
    ).with("parameters", tool.field_or("input_schema", Json::empty_object()));
    Json::Object(
        Object::new().with("type", Json::string("function")).with(
            "function",
            Json::Object(function),
        ),
    )
}

/// The messages of the chat request that an Anthropic request stands for: its
/// system prompt, if any, then its messages.
pub open spec fn request_messages(body: JsonView) -> Seq<JsonView> {
    let head = match body.text_at("system"@) {
        Some(system) => seq![responses_chat::chat_message("system"@, system)],
        None => Seq::empty(),
    };
    head + responses_chat::messages_of(body).flat_map(
        |message: JsonView| chat_messages(message),
    )
}

/// The chat request that says what an Anthropic request says.
pub open spec fn chat_request(body: JsonView) -> Map<Seq<char>, JsonView> {
    let tools = responses_chat::tools_of(body).map_values(|tool: JsonView| chat_tool(tool));
    let r = json::carried(Map::empty(), "model"@, body.field("model"@));
    let r = json::carried(r, "max_tokens"@, body.field("max_tokens"@));
    let r = json::carried(r, "temperature"@, body.field("temperature"@));
    let r = json::carried(r, "top_p"@, body.field("top_p"@));
    let r = json::carried(r, "stream"@, body.field("stream"@));
    let r = r.insert("messages"@, JsonView::Array(request_messages(body)));
    if tools.len() > 0 {
        r.insert("tools"@, JsonView::Array(tools))
    } else {
        r
    }
}

/// Converts an Anthropic Messages request to a Chat Completions request.
pub fn request_anthropic_to_chat(body: &Json) -> (r: Result<Json, String>)
    ensures
        r is Ok,
        r->Ok_0@ == JsonView::Object(chat_request(body@)),
{
    let mut r = Object::new();
    r.carry("model", body, "model");
    r.carry("max_tokens", body, "max_tokens");
    r.carry("temperature", body, "temperature");
    r.carry("top_p", body, "top_p");
    r.carry("stream", body, "stream");
    let mut messages = no_items();
    match body.text_at("system") {
        Some(system) => messages.push(make_chat_message("system", system)),
        None => {},
    }
    let none = no_items();
    let source = match body.array_at("messages") {
        Some(messages) => messages,
        None => &none,
    };
    let mut converted = expand(
        source,
        anthropic_message_to_chat,
        Ghost(|message: JsonView| chat_messages(message)),
    );
    messages.append(&mut converted);
    assert(json::json_views(messages@) =~= request_messages(body@));
    r.set("messages", Json::Array(messages));
    let declared = match body.array_at("tools") {
        Some(tools) => tools,
        None => &none,
    };
    let tools = convert(declared, tool_to_chat, Ghost(|tool: JsonView| chat_tool(tool)));
    if tools.len() > 0 {
        r.set("tools", Json::Array(tools));
    }
    Ok(Json::Object(r))
}

// ── Non-streaming response conversions ─────────────────────────────────────

/// The usage that an Anthropic message reports, as a chat response reports it,
/// with the sum of its counts.
pub open spec fn summed_usage(message: JsonView) -> JsonView {
    let usage = message.field_or("usage"@, JsonView::Object(Map::empty()));
    JsonView::Object(
        map![
            "prompt_tokens"@ => usage.field_or("input_tokens"@, JsonView::integer(0)),
            "completion_tokens"@ => usage.field_or("output_tokens"@, JsonView::integer(0)),
            "total_tokens"@ => JsonView::integer(
                usage.count_at("input_tokens"@).wrapping_add(
                    usage.count_at("output_tokens"@),
                ) as int,
            ),
        ],
    )
}

fn make_summed_usage(message: &Json) -> (r: Json)
    ensures
        r@ == summed_usage(message@),
{
    let usage = message.field_or("usage", Json::empty_object());
    let total: u64 = usage.count_at("input_tokens").wrapping_add(usage.count_at("output_tokens"));
    Json::Object(
        Object::new().with("prompt_tokens", usage.field_or("input_tokens", Json::unsigned(0))).with(
            "completion_tokens",
            usage.field_or("output_tokens", Json::unsigned(0)),
        ).with("total_tokens", Json::unsigned(total)),
    )
}

/// The chat response that says what an Anthropic message says, under a given
/// identifier and a given time.
pub open spec fn chat_response(
    message: JsonView,
    client_model: Option<Seq<char>>,
    chat_id: Seq<char>,
    created: u64,
) -> JsonView {
    let blocks = responses_anthropic::blocks_of(message);
    let calls = blocks.filter_map(|block: JsonView| block_call(block));
    responses_chat::chat_completion(
        JsonView::text(chat_id),
        JsonView::integer(created as int),
        responses_chat::model_name(message, client_model),
        JsonView::text(blocks.flat_map(|block: JsonView| block_text(block))),
        calls,
        JsonView::text(
            if calls.len() > 0 {
                "tool_calls"@
            } else {
                "stop"@
            },
        ),
        summed_usage(message),
    )
}

/// Converts an Anthropic response to a Chat Completions response, under a given
/// identifier and a given time.
pub fn response_anthropic_to_chat_with(
    message: &Json,
    client_model: Option<&str>,
    chat_id: &str,
    created: u64,
) -> (r: Json)
    ensures
        r@ == chat_response(message@, json::text_of(client_model), chat_id@, created),
{
    let none = no_items();
    let blocks = match message.array_at("content") {
        Some(blocks) => blocks,
        None => &none,
    };
    let said = gather(blocks, text_in_block, Ghost(|block: JsonView| block_text(block)));
    let calls = select(blocks, call_in_block, Ghost(|block: JsonView| block_call(block)));
    let finish_reason = if calls.len() > 0 {
        "tool_calls"
    } else {
        "stop"
    };
    make_chat_completion(
        Json::string(chat_id),
        Json::unsigned(created),
        response_model(message, client_model),
        Json::String(said),
        calls,
        Json::string(finish_reason),
        make_summed_usage(message),
    )
}

/// Converts an Anthropic response to a Chat Completions response, under a fresh
/// identifier and the current time.
pub fn response_anthropic_to_chat(message: &Json, client_model: Option<&str>) -> (r: Option<Json>)
    ensures
        exists|chat_id: Seq<char>, created: u64|
            common::is_clock_reading(created) && common::is_id_for("chatcmpl"@, chat_id) && json::value_of(r) == Some(
                #[trigger] chat_response(
                    message@,
                    json::text_of(client_model),
                    chat_id,
                    created,
                ),
            ),
{
    let chat_id = make_id("chatcmpl");
    Some(response_anthropic_to_chat_with(message, client_model, chat_id.as_str(), now_secs()))
}

/// The Anthropic message that says what a chat response says, under a given
/// identifier. A chat response without a message in its first choice says
/// nothing.
pub open spec fn anthropic_response(
    chat: JsonView,
    client_model: Option<Seq<char>>,
    msg_id: Seq<char>,
) -> Option<JsonView> {
    let usage = chat.field_or("usage"@, JsonView::Object(Map::empty()));
    match responses_chat::first_message(chat) {
        Some(message) => Some(
            anthropic::completed_message(
                JsonView::text(msg_id),
                responses_chat::model_name(chat, client_model),
                message_blocks(message),
                if calls_of(message).len() > 0 {
                    "tool_use"@
                } else {
                    "end_turn"@
                },
                anthropic::token_counts(
                    usage.field_or("prompt_tokens"@, JsonView::integer(0)),
                    usage.field_or("completion_tokens"@, JsonView::integer(0)),
                ),
            ),
        ),
        None => None,
    }
}

/// Converts a Chat Completions response to an Anthropic response, under a given
/// identifier.
pub fn response_chat_to_anthropic_with(
    chat: &Json,
    client_model: Option<&str>,
    msg_id: &str,
) -> (r: Option<Json>)
    ensures
        json::value_of(r) == anthropic_response(chat@, json::text_of(client_model), msg_id@),
{
    match first_choice_message(chat) {
        Some(message) => {
            let has_tool_use = match message.array_at("tool_calls") {
                Some(calls) => calls.len() > 0,
                None => false,
            };
            let stop_reason = if has_tool_use {
                "tool_use"
            } else {
                "end_turn"
            };
            let usage = chat.field_or("usage", Json::empty_object());
            Some(
                make_completed_message(
                    Json::string(msg_id),
                    response_model(chat, client_model),
                    chat_message_to_blocks(message),
                    stop_reason,
                    make_token_counts(
                        usage.field_or("prompt_tokens", Json::unsigned(0)),
                        usage.field_or("completion_tokens", Json::unsigned(0)),
                    ),
                ),
            )
        },
        None => None,
    }
}

/// Converts a Chat Completions response to an Anthropic response, under a fresh
/// identifier.
pub fn response_chat_to_anthropic(chat: &Json, client_model: Option<&str>) -> (r: Option<Json>)
    ensures
        exists|msg_id: Seq<char>|
            common::is_id_for("msg"@, msg_id) && json::value_of(r)
                == #[trigger] anthropic_response(chat@, json::text_of(client_model), msg_id),
{
    let msg_id = make_id("msg");
    response_chat_to_anthropic_with(chat, client_model, msg_id.as_str())
}

} // verus!
