//! Bidirectional conversion between OpenAI Responses API and Anthropic Messages API.
//!
//! The streaming response directions are in `anthropic_to_responses_stream` and
//! `responses_to_anthropic_stream`.

use crate::json;
use crate::json::{
    convert, expand, gather, no_items, select, select_texts, Json, JsonView, Object,
};
use crate::text;
use crate::text::{join, same_text};
use crate::transform::anthropic;
use crate::transform::anthropic::{
    make_completed_message, make_role_content, make_text_block, make_token_counts,
    make_tool_of_function, make_tool_result_message, make_tool_use_block, print_block_arguments,
};
use crate::transform::common;
use crate::transform::common::{make_id, now_secs};
use crate::transform::responses_chat;
use crate::transform::responses_chat::{
    make_completed_response, make_input_message, make_output_message, make_output_text,
    response_model,
};
use vstd::prelude::*;

verus! {

broadcast use crate::json::group_json_views;

/// The text of a part of a Responses message, where it is a text.
pub open spec fn part_text(part: JsonView) -> Option<Seq<char>> {
    if part.text_at("type"@) == Some("input_text"@) || part.text_at("type"@) == Some(
        "output_text"@,
    ) {
        part.text_at("text"@)
    } else {
        None
    }
}

fn shown_part(part: &Json) -> (r: Option<String>)
    ensures
        json::string_of(r) == part_text(part@),
{
    if part.has_text("type", "input_text") || part.has_text("type", "output_text") {
        match part.text_at("text") {
            Some(s) => Some(s.to_string()),
            None => None,
        }
    } else {
        None
    }
}

/// The text of a Responses message.
pub open spec fn message_text(item: JsonView) -> Seq<char> {
    match item.field("content"@) {
        Some(JsonView::String(s)) => s,
        Some(JsonView::Array(parts)) => text::joined(
            parts.filter_map(|part: JsonView| part_text(part)),
            "\n"@,
        ),
        _ => Seq::empty(),
    }
}

/// The text of a Responses message.
pub fn extract_text_from_responses_content(item: &Json) -> (r: String)
    ensures
        r@ == message_text(item@),
{
    match item.get("content") {
        Some(Json::String(s)) => s.clone(),
        Some(Json::Array(parts)) => join(
            &select_texts(parts, shown_part, Ghost(|part: JsonView| part_text(part))),
            "\n",
        ),
        _ => String::new(),
    }
}

/// The Anthropic message that an item of a Responses input stands for. A
/// message without text stands for none.
pub open spec fn item_message(item: JsonView) -> Option<JsonView> {
    let kind = item.text_at("type"@);
    if kind == Some("message"@) {
        let role = if item.text_or("role"@, "user"@) == "assistant"@ {
            "assistant"@
        } else {
            "user"@
        };
        if message_text(item).len() > 0 {
            Some(anthropic::role_content(role, JsonView::text(message_text(item))))
        } else {
            None
        }
    } else if kind == Some("function_call"@) {
        Some(
            anthropic::role_content(
                "assistant"@,
                JsonView::Array(
                    seq![
                        anthropic::tool_use_block(
                            item.text_or("call_id"@, ""@),
                            item.text_or("name"@, ""@),
                            item.text_or("arguments"@, "{}"@),
                        ),
                    ],
                ),
            ),
        )
    } else if kind == Some("function_call_output"@) {
        Some(
            anthropic::tool_result_message(
                item.text_or("call_id"@, ""@),
                item.text_or("output"@, ""@),
            ),
        )
    } else {
        None
    }
}

/// The Anthropic message that an item of a Responses input stands for.
pub fn input_item_to_message(item: &Json) -> (r: Option<Json>)
    ensures
        json::value_of(r) == item_message(item@),
{
    if item.has_text("type", "message") {
        let content = extract_text_from_responses_content(item);
        let role = if same_text(item.text_or("role", "user"), "assistant") {
            "assistant"
        } else {
            "user"
        };
        if content.as_str().unicode_len() > 0 {
            Some(make_role_content(role, Json::String(content)))
        } else {
            None
        }
    } else if item.has_text("type", "function_call") {
        let block = make_tool_use_block(
            item.text_or("call_id", ""),
            item.text_or("name", ""),
            item.text_or("arguments", "{}"),
        );
        Some(make_role_content("assistant", Json::single(block)))
    } else if item.has_text("type", "function_call_output") {
        Some(
            make_tool_result_message(item.text_or("call_id", ""), item.text_or("output", "")),
        )
    } else {
        None
    }
}

/// The Anthropic messages that a Responses input stands for.
pub open spec fn input_messages(body: JsonView) -> Seq<JsonView> {
    match body.field("input"@) {
        Some(JsonView::String(s)) => seq![anthropic::role_content("user"@, JsonView::text(s))],
        Some(JsonView::Array(items)) => items.filter_map(|item: JsonView| item_message(item)),
        _ => Seq::empty(),
    }
}

fn read_input_messages(body: &Json) -> (r: Vec<Json>)
    ensures
        json::json_views(r@) == input_messages(body@),
{
    match body.get("input") {
        Some(Json::String(s)) => {
            let mut messages = no_items();
            messages.push(make_role_content("user", Json::string(s.as_str())));
            messages
        },
        Some(Json::Array(items)) => select(
            items,
            input_item_to_message,
            Ghost(|item: JsonView| item_message(item)),
        ),
        _ => no_items(),
    }
}

/// The Anthropic form of a Responses tool. Only functions have one.
pub open spec fn anthropic_tool(tool: JsonView) -> Option<JsonView> {
    if tool.text_at("type"@) == Some("function"@) {
        Some(anthropic::tool_of_function(tool))
    } else {
        None
    }
}

fn tool_to_anthropic(tool: &Json) -> (r: Option<Json>)
    ensures
        json::value_of(r) == anthropic_tool(tool@),
{
    if tool.has_text("type", "function") {
        Some(make_tool_of_function(tool))
    } else {
        None
    }
}

/// The number of tokens that a message may take where a request does not say.
pub const DEFAULT_MAX_TOKENS: u64 = 4096;

/// The Anthropic request that says what a Responses request says.
pub open spec fn anthropic_request(body: JsonView) -> Map<Seq<char>, JsonView> {
    let tools = responses_chat::tools_of(body).filter_map(|tool: JsonView| anthropic_tool(tool));
    let r = json::carried(Map::empty(), "model"@, body.field("model"@));
    let r = r.insert(
        "max_tokens"@,
        body.field_or("max_output_tokens"@, JsonView::integer(DEFAULT_MAX_TOKENS as int)),
    );
    let r = json::carried(r, "temperature"@, body.field("temperature"@));
    let r = json::carried(r, "top_p"@, body.field("top_p"@));
    let r = json::carried(r, "stream"@, body.field("stream"@));
    let r = match body.text_at("instructions"@) {
        Some(instructions) => r.insert("system"@, JsonView::text(instructions)),
        None => r,
    };
    let r = r.insert("messages"@, JsonView::Array(input_messages(body)));
    if tools.len() > 0 {
        r.insert("tools"@, JsonView::Array(tools))
    } else {
        r
    }
}

/// Converts a Responses API request to an Anthropic Messages request.
pub fn request_responses_to_anthropic(body: &Json) -> (r: Result<Json, String>)
    ensures
        r is Ok,
        r->Ok_0@ == JsonView::Object(anthropic_request(body@)),
{
    let mut r = Object::new();
    r.carry("model", body, "model");
    r.set("max_tokens", body.field_or("max_output_tokens", Json::unsigned(DEFAULT_MAX_TOKENS)));
    r.carry("temperature", body, "temperature");
    r.carry("top_p", body, "top_p");
    r.carry("stream", body, "stream");
    match body.text_at("instructions") {
        Some(instructions) => r.set("system", Json::string(instructions)),
        None => {},
    }
    r.set("messages", Json::Array(read_input_messages(body)));
    let tools = match body.array_at("tools") {
        Some(tools) => select(
            tools,
            tool_to_anthropic,
            Ghost(|tool: JsonView| anthropic_tool(tool)),
        ),
        None => no_items(),
    };
    if tools.len() > 0 {
        r.set("tools", Json::Array(tools));
    }
    Ok(Json::Object(r))
}

/// A text in a Responses input, which the assistant gave or was given.
pub open spec fn said_part(role: Seq<char>, s: Seq<char>) -> JsonView {
    JsonView::Object(
        map![
            "type"@ => JsonView::text(
                if role == "assistant"@ {
                    "output_text"@
                } else {
                    "input_text"@
                },
            ),
            "text"@ => JsonView::text(s),
        ],
    )
}

fn make_said_part(role: &str, s: &str) -> (r: Json)
    ensures
        r@ == said_part(role@, s@),
{
    let kind = if same_text(role, "assistant") {
        "output_text"
    } else {
        "input_text"
    };
    Json::Object(Object::new().with("type", Json::string(kind)).with("text", Json::string(s)))
}

/// The text of a block in a message of some role.
pub open spec fn block_part(role: Seq<char>, block: JsonView) -> Option<JsonView> {
    if block.text_at("type"@) == Some("text"@) {
        Some(said_part(role, block.text_or("text"@, ""@)))
    } else {
        None
    }
}

/// The tool call that a block makes.
pub open spec fn block_call(block: JsonView) -> Option<JsonView> {
    if block.text_at("type"@) == Some("tool_use"@) {
        Some(
            JsonView::Object(
                map![
                    "type"@ => JsonView::text("function_call"@),
                    "call_id"@ => JsonView::text(block.text_or("id"@, ""@)),
                    "name"@ => JsonView::text(block.text_or("name"@, ""@)),
                    "arguments"@ => JsonView::text(anthropic::block_arguments(block)),
                ],
            ),
        )
    } else {
        None
    }
}

/// The result of a tool call that a block gives.
pub open spec fn block_result(block: JsonView) -> Option<JsonView> {
    if block.text_at("type"@) == Some("tool_result"@) {
        Some(
            JsonView::Object(
                map![
                    "type"@ => JsonView::text("function_call_output"@),
                    "call_id"@ => JsonView::text(block.text_or("tool_use_id"@, ""@)),
                    "output"@ => JsonView::text(block.text_or("content"@, ""@)),
                ],
            ),
        )
    } else {
        None
    }
}

fn call_in_block(block: &Json) -> (r: Option<Json>)
    ensures
        json::value_of(r) == block_call(block@),
{
    if block.has_text("type", "tool_use") {
        Some(
            Json::Object(
                Object::new().with("type", Json::string("function_call")).with(
                    "call_id",
                    Json::string(block.text_or("id", "")),
                ).with("name", Json::string(block.text_or("name", ""))).with(
                    "arguments",
                    Json::String(print_block_arguments(block)),
                ),
            ),
        )
    } else {
        None
    }
}

fn result_in_block(block: &Json) -> (r: Option<Json>)
    ensures
        json::value_of(r) == block_result(block@),
{
    if block.has_text("type", "tool_result") {
        Some(
            Json::Object(
                Object::new().with("type", Json::string("function_call_output")).with(
                    "call_id",
                    Json::string(block.text_or("tool_use_id", "")),
                ).with("output", Json::string(block.text_or("content", ""))),
            ),
        )
    } else {
        None
    }
}

fn parts_in_blocks(role: &str, blocks: &Vec<Json>) -> (r: Vec<Json>)
    ensures
        json::json_views(r@) == json::json_views(blocks@).filter_map(
            |block: JsonView| block_part(role@, block),
        ),
{
    let pick = |block: &Json| -> (r: Option<Json>)
        ensures
            json::value_of(r) == block_part(role@, block@),
        {
            if block.has_text("type", "text") {
                Some(make_said_part(role, block.text_or("text", "")))
            } else {
                None
            }
        };
    select(blocks, pick, Ghost(|block: JsonView| block_part(role@, block)))
}

/// The items of a Responses input that an Anthropic message stands for: the
/// results of tool calls, the text, and the tool calls.
pub open spec fn message_items(message: JsonView) -> Seq<JsonView> {
    let role = message.text_or("role"@, "user"@);
    match message.field("content"@) {
        Some(JsonView::String(s)) => seq![
            responses_chat::input_message(role, JsonView::Array(seq![said_part(role, s)])),
        ],
        Some(JsonView::Array(blocks)) => {
            let results = blocks.filter_map(|block: JsonView| block_result(block));
            let parts = blocks.filter_map(|block: JsonView| block_part(role, block));
            let calls = blocks.filter_map(|block: JsonView| block_call(block));
            if parts.len() > 0 {
                results.push(responses_chat::input_message(role, JsonView::Array(parts))) + calls
            } else {
                results + calls
            }
        },
        _ => Seq::empty(),
    }
}

/// The items of a Responses input that an Anthropic message stands for.
pub fn anthropic_message_to_input_items(message: &Json) -> (r: Vec<Json>)
    ensures
        json::json_views(r@) == message_items(message@),
{
    let role = message.text_or("role", "user");
    match message.get("content") {
        Some(Json::String(s)) => {
            let mut items = no_items();
            let part = make_said_part(role, s.as_str());
            items.push(make_input_message(role, Json::single(part)));
            items
        },
        Some(Json::Array(blocks)) => {
            let mut items = select(
                blocks,
                result_in_block,
                Ghost(|block: JsonView| block_result(block)),
            );
            let parts = parts_in_blocks(role, blocks);
            if parts.len() > 0 {
                items.push(make_input_message(role, Json::Array(parts)));
            }
            let mut calls = select(
                blocks,
                call_in_block,
                Ghost(|block: JsonView| block_call(block)),
            );
            items.append(&mut calls);
            items
        },
        _ => no_items(),
    }
}

/// The Responses form of an Anthropic tool.
pub open spec fn responses_tool(tool: JsonView) -> JsonView {
    JsonView::Object(
        map![
            "type"@ => JsonView::text("function"@),
            "name"@ => tool.field_or("name"@, JsonView::text(""@)),
            "description"@ => tool.field_or("description"@, JsonView::text(""@)),
            "parameters"@ => tool.field_or("input_schema"@, JsonView::Object(Map::empty())),
        ],
    )
}

fn tool_to_responses(tool: &Json) -> (r: Json)
    ensures
        r@ == responses_tool(tool@),
{
    Json::Object(
        Object::new().with("type", Json::string("function")).with(
            "name",
            tool.field_or("name", Json::string("")),
        ).with("description", tool.field_or("description", Json::string(""))).with(
            "parameters",
            tool.field_or("input_schema", Json::empty_object()),
        ),
    )
}

/// The Responses request that says what an Anthropic request says.
pub open spec fn responses_request(body: JsonView) -> Map<Seq<char>, JsonView> {
    let tools = responses_chat::tools_of(body).map_values(|tool: JsonView| responses_tool(tool));
    let r = json::carried(Map::empty(), "model"@, body.field("model"@));
    let r = json::carried(r, "max_output_tokens"@, body.field("max_tokens"@));
    let r = json::carried(r, "temperature"@, body.field("temperature"@));
    let r = json::carried(r, "top_p"@, body.field("top_p"@));
    let r = json::carried(r, "stream"@, body.field("stream"@));
    let r = match body.text_at("system"@) {
        Some(system) => r.insert("instructions"@, JsonView::text(system)),
        None => r,
    };
    let r = r.insert(
        "input"@,
        JsonView::Array(
            responses_chat::messages_of(body).flat_map(
                |message: JsonView| message_items(message),
            ),
        ),
    );
    if tools.len() > 0 {
        r.insert("tools"@, JsonView::Array(tools))
    } else {
        r
    }
}

/// Converts an Anthropic Messages request to a Responses API request.
pub fn request_anthropic_to_responses(body: &Json) -> (r: Result<Json, String>)
    ensures
        r is Ok,
        r->Ok_0@ == JsonView::Object(responses_request(body@)),
{
    let mut r = Object::new();
    r.carry("model", body, "model");
    r.carry("max_output_tokens", body, "max_tokens");
    r.carry("temperature", body, "temperature");
    r.carry("top_p", body, "top_p");
    r.carry("stream", body, "stream");
    match body.text_at("system") {
        Some(system) => r.set("instructions", Json::string(system)),
        None => {},
    }
    let none = no_items();
    let messages = match body.array_at("messages") {
        Some(messages) => messages,
        None => &none,
    };
    let items = expand(
        messages,
        anthropic_message_to_input_items,
        Ghost(|message: JsonView| message_items(message)),
    );
    r.set("input", Json::Array(items));
    let declared = match body.array_at("tools") {
        Some(tools) => tools,
        None => &none,
    };
    let tools = convert(declared, tool_to_responses, Ghost(|tool: JsonView| responses_tool(tool)));
    if tools.len() > 0 {
        r.set("tools", Json::Array(tools));
    }
    Ok(Json::Object(r))
}

// ── Non-streaming response conversions ─────────────────────────────────────

/// The blocks of an Anthropic message.
pub open spec fn blocks_of(message: JsonView) -> Seq<JsonView> {
    match message.array_at("content"@) {
        Some(blocks) => blocks,
        None => Seq::empty(),
    }
}

/// A block of text as a part of a Responses message.
pub open spec fn block_output_text(block: JsonView) -> Option<JsonView> {
    if block.text_at("type"@) == Some("text"@) {
        Some(responses_chat::output_text(block.text_or("text"@, ""@)))
    } else {
        None
    }
}

fn output_text_in_block(block: &Json) -> (r: Option<Json>)
    ensures
        json::value_of(r) == block_output_text(block@),
{
    if block.has_text("type", "text") {
        Some(make_output_text(block.text_or("text", "")))
    } else {
        None
    }
}

/// The item of a Responses output for the tool call that a block makes.
pub open spec fn block_output_call(block: JsonView) -> Option<JsonView> {
    if block.text_at("type"@) == Some("tool_use"@) {
        Some(
            JsonView::Object(
                map![
                    "type"@ => JsonView::text("function_call"@),
                    "id"@ => JsonView::text(block.text_or("id"@, ""@)),
                    "call_id"@ => JsonView::text(block.text_or("id"@, ""@)),
                    "name"@ => JsonView::text(block.text_or("name"@, ""@)),
                    "arguments"@ => JsonView::text(anthropic::block_arguments(block)),
                ],
            ),
        )
    } else {
        None
    }
}

fn output_call_in_block(block: &Json) -> (r: Option<Json>)
    ensures
        json::value_of(r) == block_output_call(block@),
{
    if block.has_text("type", "tool_use") {
        let id = block.text_or("id", "");
        Some(
            Json::Object(
                Object::new().with("type", Json::string("function_call")).with(
                    "id",
                    Json::string(id),
                ).with("call_id", Json::string(id)).with(
                    "name",
                    Json::string(block.text_or("name", "")),
                ).with("arguments", Json::String(print_block_arguments(block))),
            ),
        )
    } else {
        None
    }
}

/// The output that the blocks of an Anthropic message stand for: a message with
/// their texts, if there are any, and the tool calls.
pub open spec fn blocks_output(blocks: Seq<JsonView>, msg_id: Seq<char>) -> Seq<JsonView> {
    let parts = blocks.filter_map(|block: JsonView| block_output_text(block));
    let calls = blocks.filter_map(|block: JsonView| block_output_call(block));
    if parts.len() > 0 {
        seq![responses_chat::output_message(msg_id, "completed"@, parts)] + calls
    } else {
        calls
    }
}

fn make_blocks_output(blocks: &Vec<Json>, msg_id: &str) -> (r: Vec<Json>)
    ensures
        json::json_views(r@) == blocks_output(json::json_views(blocks@), msg_id@),
{
    let parts = select(
        blocks,
        output_text_in_block,
        Ghost(|block: JsonView| block_output_text(block)),
    );
    let mut calls = select(
        blocks,
        output_call_in_block,
        Ghost(|block: JsonView| block_output_call(block)),
    );
    if parts.len() > 0 {
        let mut items = no_items();
        items.push(make_output_message(msg_id, "completed", parts));
        items.append(&mut calls);
        items
    } else {
        calls
    }
}

/// The usage that an Anthropic message reports, as a Responses object reports
/// it, with the sum of its counts.
pub open spec fn summed_usage(message: JsonView) -> JsonView {
    let usage = message.field_or("usage"@, JsonView::Object(Map::empty()));
    JsonView::Object(
        map![
            "input_tokens"@ => usage.field_or("input_tokens"@, JsonView::integer(0)),
            "output_tokens"@ => usage.field_or("output_tokens"@, JsonView::integer(0)),
            "total_tokens"@ => JsonView::integer(
                usage.count_at("input_tokens"@).wrapping_add(
                    usage.count_at("output_tokens"@),
                ) as int,
            ),
        ],
    )
}

fn make_summed_usage(message: &Json) -> (r: Json)
    ensures
        r@ == summed_usage(message@),
{
    let usage = message.field_or("usage", Json::empty_object());
    let total: u64 = usage.count_at("input_tokens").wrapping_add(usage.count_at("output_tokens"));
    Json::Object(
        Object::new().with("input_tokens", usage.field_or("input_tokens", Json::unsigned(0))).with(
            "output_tokens",
            usage.field_or("output_tokens", Json::unsigned(0)),
        ).with("total_tokens", Json::unsigned(total)),
    )
}

/// The Responses object that says what an Anthropic message says, under given
/// identifiers and a given time.
pub open spec fn responses_response(
    message: JsonView,
    client_model: Option<Seq<char>>,
    msg_id: Seq<char>,
    resp_id: Seq<char>,
    created: u64,
) -> JsonView {
    responses_chat::completed_response(
        resp_id,
        created,
        responses_chat::model_name(message, client_model),
        blocks_output(blocks_of(message), msg_id),
        summed_usage(message),
    )
}

/// Converts an Anthropic Messages response to a Responses API response, under
/// given identifiers and a given time.
pub fn response_anthropic_to_responses_with(
    message: &Json,
    client_model: Option<&str>,
    msg_id: &str,
    resp_id: &str,
    created: u64,
) -> (r: Json)
    ensures
        r@ == responses_response(
            message@,
            json::text_of(client_model),
            msg_id@,
            resp_id@,
            created,
        ),
{
    let none = no_items();
    let blocks = match message.array_at("content") {
        Some(blocks) => blocks,
        None => &none,
    };
    make_completed_response(
        resp_id,
        created,
        response_model(message, client_model),
        make_blocks_output(blocks, msg_id),
        make_summed_usage(message),
    )
}

/// Converts an Anthropic Messages response to a Responses API response, under
/// fresh identifiers and the current time.
pub fn response_anthropic_to_responses(
    message: &Json,
    client_model: Option<&str>,
) -> (r: Option<Json>)
    ensures
        exists|msg_id: Seq<char>, resp_id: Seq<char>, created: u64|
            common::is_clock_reading(created) && common::is_id_for("msg"@, msg_id)
                && common::is_id_for("resp"@, resp_id)
                && json::value_of(r) == Some(
                #[trigger] responses_response(
                    message@,
                    json::text_of(client_model),
                    msg_id,
                    resp_id,
                    created,
                ),
            ),
{
    let msg_id = make_id("msg");
    let resp_id = make_id("resp");
    Some(
        response_anthropic_to_responses_with(
            message,
            client_model,
            msg_id.as_str(),
            resp_id.as_str(),
            now_secs(),
        ),
    )
}

/// The items of the output of a Responses object.
pub open spec fn output_of(response: JsonView) -> Seq<JsonView> {
    match response.array_at("output"@) {
        Some(items) => items,
        None => Seq::empty(),
    }
}

/// The text of a message in a Responses output.
pub open spec fn output_message_text(item: JsonView) -> Seq<char> {
    match item.array_at("content"@) {
        Some(parts) => parts.flat_map(|part: JsonView| part.text_or("text"@, ""@)),
        None => Seq::empty(),
    }
}

fn text_in_part(part: &Json) -> (r: String)
    ensures
        r@ == part@.text_or("text"@, ""@),
{
    part.text_or("text", "").to_string()
}

/// The block that an item of a Responses output stands for. A message without
/// text stands for none.
pub open spec fn output_block(item: JsonView) -> Option<JsonView> {
    if item.text_at("type"@) == Some("message"@) {
        if output_message_text(item).len() > 0 {
            Some(anthropic::text_block(output_message_text(item)))
        } else {
            None
        }
    } else if is_call(item) {
        Some(
            anthropic::tool_use_block(
                item.text_or("call_id"@, ""@),
                item.text_or("name"@, ""@),
                item.text_or("arguments"@, "{}"@),
            ),
        )
    } else {
        None
    }
}

/// The block that an item of a Responses output stands for.
pub fn output_item_to_block(item: &Json) -> (r: Option<Json>)
    ensures
        json::value_of(r) == output_block(item@),
{
    if item.has_text("type", "message") {
        match item.array_at("content") {
            Some(parts) => {
                let said = gather(
                    parts,
                    text_in_part,
                    Ghost(|part: JsonView| part.text_or("text"@, ""@)),
                );
                if said.as_str().unicode_len() > 0 {
                    Some(make_text_block(said.as_str()))
                } else {
                    None
                }
            },
            None => None,
        }
    } else if item.has_text("type", "function_call") {
        Some(
            make_tool_use_block(
                item.text_or("call_id", ""),
                item.text_or("name", ""),
                item.text_or("arguments", "{}"),
            ),
        )
    } else {
        None
    }
}

pub open spec fn is_call(item: JsonView) -> bool {
    item.text_at("type"@) == Some("function_call"@)
}

/// Whether an output makes a tool call.
pub open spec fn has_call(items: Seq<JsonView>) -> bool {
    exists|i: int| 0 <= i < items.len() && is_call(#[trigger] items[i])
}

fn makes_call(items: &Vec<Json>) -> (r: bool)
    ensures
        r == has_call(json::json_views(items@)),
{
    for i in 0..items.len()
        invariant
            forall|j: int| 0 <= j < i ==> !is_call(#[trigger] json::json_views(items@)[j]),
    {
        if items[i].has_text("type", "function_call") {
            assert(is_call(json::json_views(items@)[i as int]));
            return true;
        }
    }
    false
}

/// The Anthropic message that says what a Responses object says. The identifier
/// is given for a Responses object that lacks one.
pub open spec fn anthropic_response(
    response: JsonView,
    client_model: Option<Seq<char>>,
    msg_id: Seq<char>,
) -> JsonView {
    let output = output_of(response);
    let usage = response.field_or("usage"@, JsonView::Object(Map::empty()));
    anthropic::completed_message(
        response.field_or("id"@, JsonView::text(msg_id)),
        responses_chat::model_name(response, client_model),
        output.filter_map(|item: JsonView| output_block(item)),
        if has_call(output) {
            "tool_use"@
        } else {
            "end_turn"@
        },
        anthropic::token_counts(
            usage.field_or("input_tokens"@, JsonView::integer(0)),
            usage.field_or("output_tokens"@, JsonView::integer(0)),
        ),
    )
}

/// Converts a Responses API response to an Anthropic Messages response. The
/// identifier is for a response that lacks one.
pub fn response_responses_to_anthropic_with(
    response: &Json,
    client_model: Option<&str>,
    msg_id: &str,
) -> (r: Json)
    ensures
        r@ == anthropic_response(response@, json::text_of(client_model), msg_id@),
{
    let none = no_items();
    let output = match response.array_at("output") {
        Some(items) => items,
        None => &none,
    };
    let usage = response.field_or("usage", Json::empty_object());
    let stop_reason = if makes_call(output) {
        "tool_use"
    } else {
        "end_turn"
    };
    make_completed_message(
        response.field_or("id", Json::string(msg_id)),
        response_model(response, client_model),
        select(output, output_item_to_block, Ghost(|item: JsonView| output_block(item))),
        stop_reason,
        make_token_counts(
            usage.field_or("input_tokens", Json::unsigned(0)),
            usage.field_or("output_tokens", Json::unsigned(0)),
        ),
    )
}

/// Converts a Responses API response to an Anthropic Messages response. One
/// that lacks an identifier gets a fresh one.
pub fn response_responses_to_anthropic(
    response: &Json,
    client_model: Option<&str>,
) -> (r: Option<Json>)
    ensures
        exists|msg_id: Seq<char>|
            common::is_id_for("msg"@, msg_id) && json::value_of(r) == Some(
                #[trigger] anthropic_response(response@, json::text_of(client_model), msg_id),
            ),
{
    let msg_id = make_id("msg");
    Some(response_responses_to_anthropic_with(response, client_model, msg_id.as_str()))
}

} // verus!
