//! Values of the Anthropic Messages protocol.

use crate::json;
use crate::json::{parse_json, print_json, Json, JsonView, Object, Parsed};
use crate::transform::common;
use crate::transform::common::{emit, SseEvent, SseEventView};
use vstd::prelude::*;

verus! {

broadcast use crate::json::group_json_views;

/// A block of text.
pub open spec fn text_block(s: Seq<char>) -> JsonView {
    JsonView::Object(map!["type"@ => JsonView::text("text"@), "text"@ => JsonView::text(s)])
}

pub fn make_text_block(s: &str) -> (r: Json)
    ensures
        r@ == text_block(s@),
{
    Json::Object(Object::new().with("type", Json::string("text")).with("text", Json::string(s)))
}

/// The input that the arguments of a tool call denote. Arguments that are no
/// JSON text denote the empty object.
pub open spec fn call_input(arguments: Seq<char>) -> JsonView {
    match json::json_parse(vstd::utf8::encode_utf8(arguments)) {
        Parsed::Value(v) => v,
        Parsed::Fault(_) => JsonView::Object(Map::empty()),
    }
}

pub fn parse_call_input(arguments: &str) -> (r: Json)
    ensures
        r@ == call_input(arguments@),
{
    match parse_json(arguments.as_bytes()) {
        Ok(input) => input,
        Err(_) => Json::empty_object(),
    }
}

/// A block that uses a tool.
pub open spec fn tool_use_block(
    id: Seq<char>,
    name: Seq<char>,
    arguments: Seq<char>,
) -> JsonView {
    JsonView::Object(
        map![
            "type"@ => JsonView::text("tool_use"@),
            "id"@ => JsonView::text(id),
            "name"@ => JsonView::text(name),
            "input"@ => call_input(arguments),
        ],
    )
}

pub fn make_tool_use_block(id: &str, name: &str, arguments: &str) -> (r: Json)
    ensures
        r@ == tool_use_block(id@, name@, arguments@),
{
    Json::Object(
        Object::new().with("type", Json::string("tool_use")).with("id", Json::string(id)).with(
            "name",
            Json::string(name),
        ).with("input", parse_call_input(arguments)),
    )
}

/// The arguments of the tool call that a block makes: its input as a JSON text.
pub open spec fn block_arguments(block: JsonView) -> Seq<char> {
    json::json_text(block.field_or("input"@, JsonView::Object(Map::empty())))
}

pub fn print_block_arguments(block: &Json) -> (r: String)
    ensures
        r@ == block_arguments(block@),
{
    print_json(&block.field_or("input", Json::empty_object()))
}

/// A message with a role and a content.
pub open spec fn role_content(role: Seq<char>, content: JsonView) -> JsonView {
    JsonView::Object(map!["role"@ => JsonView::text(role), "content"@ => content])
}

pub fn make_role_content(role: &str, content: Json) -> (r: Json)
    ensures
        r@ == role_content(role@, content@),
{
    Json::Object(Object::new().with("role", Json::string(role)).with("content", content))
}

/// The message that gives the result of a tool call.
pub open spec fn tool_result_message(id: Seq<char>, output: Seq<char>) -> JsonView {
    role_content(
        "user"@,
        JsonView::Array(
            seq![
                JsonView::Object(
                    map![
                        "type"@ => JsonView::text("tool_result"@),
                        "tool_use_id"@ => JsonView::text(id),
                        "content"@ => JsonView::text(output),
                    ],
                ),
            ],
        ),
    )
}

pub fn make_tool_result_message(id: &str, output: &str) -> (r: Json)
    ensures
        r@ == tool_result_message(id@, output@),
{
    let block = Object::new().with("type", Json::string("tool_result")).with(
        "tool_use_id",
        Json::string(id),
    ).with("content", Json::string(output));
    make_role_content("user", Json::single(Json::Object(block)))
}

/// The Anthropic form of the declaration of a function.
pub open spec fn tool_of_function(function: JsonView) -> JsonView {
    JsonView::Object(
        map![
            "name"@ => function.field_or("name"@, JsonView::text(""@)),
            "description"@ => function.field_or("description"@, JsonView::text(""@)),
            "input_schema"@ => function.field_or("parameters"@, JsonView::Object(Map::empty())),
        ],
    )
}

pub fn make_tool_of_function(function: &Json) -> (r: Json)
    ensures
        r@ == tool_of_function(function@),
{
    Json::Object(
        Object::new().with("name", function.field_or("name", Json::string(""))).with(
            "description",
            function.field_or("description", Json::string("")),
        ).with("input_schema", function.field_or("parameters", Json::empty_object())),
    )
}

/// A complete Anthropic message.
pub open spec fn completed_message(
    id: JsonView,
    model: Seq<char>,
    content: Seq<JsonView>,
    stop_reason: Seq<char>,
    usage: JsonView,
) -> JsonView {
    JsonView::Object(
        map![
            "id"@ => id,
            "type"@ => JsonView::text("message"@),
            "role"@ => JsonView::text("assistant"@),
            "model"@ => JsonView::text(model),
            "content"@ => JsonView::Array(content),
            "stop_reason"@ => JsonView::text(stop_reason),
            "usage"@ => usage,
        ],
    )
}

pub fn make_completed_message(
    id: Json,
    model: &str,
    content: Vec<Json>,
    stop_reason: &str,
    usage: Json,
) -> (r: Json)
    ensures
        r@ == completed_message(
            id@,
            model@,
            json::json_views(content@),
            stop_reason@,
            usage@,
        ),
{
    let mut r = Object::new();
    r.set("id", id);
    r.set("type", Json::string("message"));
    r.set("role", Json::string("assistant"));
    r.set("model", Json::string(model));
    r.set("content", Json::Array(content));
    r.set("stop_reason", Json::string(stop_reason));
    r.set("usage", usage);
    Json::Object(r)
}

/// Token counts as an Anthropic message reports them.
pub open spec fn token_counts(input: JsonView, output: JsonView) -> JsonView {
    JsonView::Object(map!["input_tokens"@ => input, "output_tokens"@ => output])
}

pub fn make_token_counts(input: Json, output: Json) -> (r: Json)
    ensures
        r@ == token_counts(input@, output@),
{
    Json::Object(Object::new().with("input_tokens", input).with("output_tokens", output))
}

/// The event that begins a message.
pub open spec fn message_start(id: Seq<char>, model: Seq<char>) -> JsonView {
    JsonView::Object(
        map![
            "type"@ => JsonView::text("message_start"@),
            "message"@ => JsonView::Object(map![
                "id"@ => JsonView::text(id),
                "type"@ => JsonView::text("message"@),
                "role"@ => JsonView::text("assistant"@),
                "model"@ => JsonView::text(model),
                "content"@ => JsonView::Array(Seq::empty()),
                "stop_reason"@ => JsonView::Null,
                "usage"@ => token_counts(JsonView::integer(0), JsonView::integer(0)),
            ]),
        ],
    )
}

pub fn make_message_start(id: &str, model: &str) -> (r: Json)
    ensures
        r@ == message_start(id@, model@),
{
    let mut message = Object::new();
    message.set("id", Json::string(id));
    message.set("type", Json::string("message"));
    message.set("role", Json::string("assistant"));
    message.set("model", Json::string(model));
    message.set("content", Json::empty_list());
    message.set("stop_reason", Json::Null);
    message.set("usage", make_token_counts(Json::unsigned(0), Json::unsigned(0)));
    Json::Object(
        Object::new().with("type", Json::string("message_start")).with(
            "message",
            Json::Object(message),
        ),
    )
}

/// The event that begins the block of text.
pub open spec fn block_start() -> JsonView {
    JsonView::Object(
        map![
            "type"@ => JsonView::text("content_block_start"@),
            "index"@ => JsonView::integer(0),
            "content_block"@ => text_block(""@),
        ],
    )
}

pub fn make_block_start() -> (r: Json)
    ensures
        r@ == block_start(),
{
    Json::Object(
        Object::new().with("type", Json::string("content_block_start")).with(
            "index",
            Json::unsigned(0),
        ).with("content_block", make_text_block("")),
    )
}

/// An event that adds to the block.
pub open spec fn block_delta(kind: Seq<char>, key: Seq<char>, delta: Seq<char>) -> JsonView {
    JsonView::Object(
        map![
            "type"@ => JsonView::text("content_block_delta"@),
            "index"@ => JsonView::integer(0),
            "delta"@ => JsonView::Object(map![
                "type"@ => JsonView::text(kind),
                key => JsonView::text(delta),
            ]),
        ],
    )
}

pub fn make_block_delta(kind: &str, key: &str, delta: &str) -> (r: Json)
    ensures
        r@ == block_delta(kind@, key@, delta@),
{
    let piece = Object::new().with("type", Json::string(kind)).with(key, Json::string(delta));
    Json::Object(
        Object::new().with("type", Json::string("content_block_delta")).with(
            "index",
            Json::unsigned(0),
        ).with("delta", Json::Object(piece)),
    )
}

/// The event that ends the block.
pub open spec fn block_stop() -> JsonView {
    JsonView::Object(
        map![
            "type"@ => JsonView::text("content_block_stop"@),
            "index"@ => JsonView::integer(0),
        ],
    )
}

pub fn make_block_stop() -> (r: Json)
    ensures
        r@ == block_stop(),
{
    Json::Object(
        Object::new().with("type", Json::string("content_block_stop")).with(
            "index",
            Json::unsigned(0),
        ),
    )
}

/// The events that end a message.
pub open spec fn message_end(stop_reason: Seq<char>, input: u64, output: u64) -> Seq<
    SseEventView,
> {
    seq![
        SseEventView::Data(
            JsonView::Object(
                map![
                    "type"@ => JsonView::text("message_delta"@),
                    "delta"@ => JsonView::Object(map![
                        "stop_reason"@ => JsonView::text(stop_reason),
                    ]),
                    "usage"@ => JsonView::Object(map![
                        "output_tokens"@ => JsonView::integer(output as int),
                    ]),
                ],
            ),
        ),
        SseEventView::Data(
            JsonView::Object(
                map![
                    "type"@ => JsonView::text("message_stop"@),
                    "usage"@ => token_counts(
                        JsonView::integer(input as int),
                        JsonView::integer(output as int),
                    ),
                ],
            ),
        ),
    ]
}

pub fn emit_message_end(stop_reason: &str, input: u64, output: u64, events: &mut Vec<SseEvent>)
    ensures
        common::event_views(final(events)@) == common::event_views(old(events)@) + message_end(
            stop_reason@,
            input,
            output,
        ),
{
    let ghost before = common::event_views(events@);
    let delta = Object::new().with("stop_reason", Json::string(stop_reason));
    let usage = Object::new().with("output_tokens", Json::unsigned(output));
    emit(
        events,
        Json::Object(
            Object::new().with("type", Json::string("message_delta")).with(
                "delta",
                Json::Object(delta),
            ).with("usage", Json::Object(usage)),
        ),
    );
    emit(
        events,
        Json::Object(
            Object::new().with("type", Json::string("message_stop")).with(
                "usage",
                make_token_counts(Json::unsigned(input), Json::unsigned(output)),
            ),
        ),
    );
    assert(common::event_views(events@) =~= before + message_end(stop_reason@, input, output));
}

} // verus!
