//! Bidirectional conversion between OpenAI Responses API and Chat Completions API.
//!
//! Request direction:
//! - responses → chat: `input` array → `messages` array, `instructions` → system message
//! - chat → responses: `messages` array → `input` array, system message → `instructions`
//!
//! Response direction (non-streaming):
//! - chat → responses: `choices[0].message` → `output` items with `response` envelope
//! - responses → chat: `output` items → `choices[0].message` with chat envelope
//!
//! The streaming response directions are in `chat_to_responses_stream` and
//! `responses_to_chat_stream`.

use crate::json;
use crate::json::{
    convert, gather, no_items, select, select_texts, Json, JsonView, Object,
};
use crate::lists;
use crate::text;
use crate::text::{join, same_text, starts_with};
use crate::transform::common;
use crate::transform::common::{make_id, now_secs};
use vstd::prelude::*;

verus! {

broadcast use crate::json::group_json_views;

// ── Request: Responses → Chat ──────────────────────────────────────────────

/// The items of an array that are strings.
pub open spec fn strings_in(items: Seq<JsonView>) -> Seq<Seq<char>> {
    items.filter_map(|item: JsonView| item.as_str())
}

/// The system prompt that `instructions` stand for: a string, or the strings of
/// an array on lines of their own.
pub open spec fn prompt_of(instructions: JsonView) -> Seq<char> {
    match instructions {
        JsonView::String(s) => s,
        JsonView::Array(items) => text::joined(strings_in(items), "\n"@),
        _ => Seq::empty(),
    }
}

fn string_item(item: &Json) -> (r: Option<String>)
    ensures
        json::string_of(r) == item@.as_str(),
{
    match item {
        Json::String(s) => Some(s.clone()),
        _ => None,
    }
}

/// The system prompt that `instructions` stand for.
pub fn instruction_text(instructions: &Json) -> (r: String)
    ensures
        r@ == prompt_of(instructions@),
{
    match instructions {
        Json::String(s) => s.clone(),
        Json::Array(items) => join(
            &select_texts(items, string_item, Ghost(|item: JsonView| item.as_str())),
            "\n",
        ),
        _ => String::new(),
    }
}

/// The text that a part of a message's content shows in a chat message.
pub open spec fn part_text(part: JsonView) -> Option<Seq<char>> {
    if part.text_at("type"@) == Some("input_image"@) {
        Some("[image]"@)
    } else {
        part.text_at("text"@)
    }
}

/// The content of a Responses message as the text of a chat message.
pub open spec fn chat_text(item: JsonView) -> Seq<char> {
    match item.field("content"@) {
        Some(JsonView::String(s)) => s,
        Some(JsonView::Array(parts)) => text::joined(
            parts.filter_map(|part: JsonView| part_text(part)),
            "\n"@,
        ),
        _ => Seq::empty(),
    }
}

fn shown_part(part: &Json) -> (r: Option<String>)
    ensures
        json::string_of(r) == part_text(part@),
{
    if part.has_text("type", "input_image") {
        Some("[image]".to_string())
    } else {
        match part.text_at("text") {
            Some(s) => Some(s.to_string()),
            None => None,
        }
    }
}

/// The content of a Responses message as the text of a chat message.
pub fn responses_content_to_chat_text(item: &Json) -> (r: String)
    ensures
        r@ == chat_text(item@),
{
    match item.get("content") {
        Some(Json::String(s)) => s.clone(),
        Some(Json::Array(parts)) => join(
            &select_texts(parts, shown_part, Ghost(|part: JsonView| part_text(part))),
            "\n",
        ),
        _ => String::new(),
    }
}

/// A chat message with a role and a text.
pub open spec fn chat_message(role: Seq<char>, content: Seq<char>) -> JsonView {
    JsonView::Object(
        map!["role"@ => JsonView::text(role), "content"@ => JsonView::text(content)],
    )
}

pub fn make_chat_message(role: &str, content: &str) -> (r: Json)
    ensures
        r@ == chat_message(role@, content@),
{
    Json::Object(
        Object::new().with("role", Json::string(role)).with("content", Json::string(content)),
    )
}

/// A chat tool call.
pub open spec fn chat_tool_call(
    id: Seq<char>,
    name: Seq<char>,
    arguments: Seq<char>,
) -> JsonView {
    JsonView::Object(
        map![
            "id"@ => JsonView::text(id),
            "type"@ => JsonView::text("function"@),
            "function"@ => JsonView::Object(map![
                "name"@ => JsonView::text(name),
                "arguments"@ => JsonView::text(arguments),
            ]),
        ],
    )
}

pub fn make_chat_tool_call(id: &str, name: &str, arguments: &str) -> (r: Json)
    ensures
        r@ == chat_tool_call(id@, name@, arguments@),
{
    let function = Object::new().with("name", Json::string(name)).with(
        "arguments",
        Json::string(arguments),
    );
    Json::Object(
        Object::new().with("id", Json::string(id)).with("type", Json::string("function")).with(
            "function",
            Json::Object(function),
        ),
    )
}

/// Chat messages, and the tool calls that the next assistant message will make.
pub struct Turns {
    pub messages: Seq<JsonView>,
    pub pending: Seq<JsonView>,
}

impl Turns {
    /// The pending tool calls, if any, made by an assistant message.
    pub open spec fn flushed(self) -> Turns {
        if self.pending.len() == 0 {
            self
        } else {
            Turns {
                messages: self.messages.push(
                    JsonView::Object(
                        map![
                            "role"@ => JsonView::text("assistant"@),
                            "tool_calls"@ => JsonView::Array(self.pending),
                        ],
                    ),
                ),
                pending: Seq::empty(),
            }
        }
    }

    pub open spec fn say(self, message: JsonView) -> Turns {
        Turns { messages: self.messages.push(message), pending: self.pending }
    }

    pub open spec fn call(self, tool_call: JsonView) -> Turns {
        Turns { messages: self.messages, pending: self.pending.push(tool_call) }
    }

    /// The turns after one item of a Responses input.
    pub open spec fn after(self, item: JsonView) -> Turns {
        let kind = item.text_at("type"@);
        if kind == Some("message"@) {
            self.flushed().say(role_message(item))
        } else if kind == Some("local_shell_call"@) || kind == Some("custom_tool_call"@) || kind
            == Some("function_call"@) {
            self.call(
                chat_tool_call(
                    item.text_or("call_id"@, ""@),
                    item.text_or("name"@, ""@),
                    item.text_or("arguments"@, "{}"@),
                ),
            )
        } else if kind == Some("function_call_output"@) {
            self.flushed().say(
                JsonView::Object(
                    map![
                        "role"@ => JsonView::text("tool"@),
                        "tool_call_id"@ => JsonView::text(item.text_or("call_id"@, ""@)),
                        "content"@ => JsonView::text(item.text_or("output"@, ""@)),
                    ],
                ),
            )
        } else if item.field("role"@) is Some {
            self.flushed().say(role_message(item))
        } else {
            match item.as_str() {
                Some(s) => self.say(chat_message("user"@, s)),
                None => self,
            }
        }
    }

    /// The turns after a Responses input: a string, a list of items, or one item.
    pub open spec fn after_input(self, input: JsonView) -> Turns {
        match input {
            JsonView::String(s) => self.say(chat_message("user"@, s)),
            JsonView::Array(items) => items.fold_left(
                self,
                |turns: Turns, item: JsonView| turns.after(item),
            ),
            JsonView::Object(_) => self.after(input),
            _ => self,
        }
    }
}

/// The chat message for an item with a role. The role `developer` is called
/// `system`, which more services accept.
pub open spec fn role_message(item: JsonView) -> JsonView {
    let role = item.text_or("role"@, "user"@);
    chat_message(
        if role == "developer"@ {
            "system"@
        } else {
            role
        },
        chat_text(item),
    )
}

fn make_role_message(item: &Json) -> (r: Json)
    ensures
        r@ == role_message(item@),
{
    let role = item.text_or("role", "user");
    let content = responses_content_to_chat_text(item);
    if same_text(role, "developer") {
        make_chat_message("system", content.as_str())
    } else {
        make_chat_message(role, content.as_str())
    }
}

pub open spec fn turns_of(messages: Seq<Json>, pending: Seq<Json>) -> Turns {
    Turns { messages: json::json_views(messages), pending: json::json_views(pending) }
}

/// Lets an assistant message make the pending tool calls, if there are any.
pub fn flush_pending_tool_calls(messages: &mut Vec<Json>, pending_tool_calls: &mut Vec<Json>)
    ensures
        turns_of(final(messages)@, final(pending_tool_calls)@) == turns_of(
            old(messages)@,
            old(pending_tool_calls)@,
        ).flushed(),
{
    if pending_tool_calls.len() == 0 {
        return;
    }
    let mut tool_calls: Vec<Json> = Vec::new();
    tool_calls.append(pending_tool_calls);
    assert(tool_calls@ =~= old(pending_tool_calls)@);
    assert(json::json_views(pending_tool_calls@) =~= Seq::empty());
    messages.push(
        Json::Object(
            Object::new().with("role", Json::string("assistant")).with(
                "tool_calls",
                Json::Array(tool_calls),
            ),
        ),
    );
}

/// Appends one item of a Responses input to chat messages.
pub fn append_responses_item_as_chat_message(
    item: &Json,
    messages: &mut Vec<Json>,
    pending_tool_calls: &mut Vec<Json>,
)
    ensures
        turns_of(final(messages)@, final(pending_tool_calls)@) == turns_of(
            old(messages)@,
            old(pending_tool_calls)@,
        ).after(item@),
{
    if item.has_text("type", "message") {
        flush_pending_tool_calls(messages, pending_tool_calls);
        messages.push(make_role_message(item));
    } else if item.has_text("type", "local_shell_call") || item.has_text(
        "type",
        "custom_tool_call",
    ) || item.has_text("type", "function_call") {
        pending_tool_calls.push(
            make_chat_tool_call(
                item.text_or("call_id", ""),
                item.text_or("name", ""),
                item.text_or("arguments", "{}"),
            ),
        );
    } else if item.has_text("type", "function_call_output") {
        flush_pending_tool_calls(messages, pending_tool_calls);
        messages.push(
            Json::Object(
                Object::new().with("role", Json::string("tool")).with(
                    "tool_call_id",
                    Json::string(item.text_or("call_id", "")),
                ).with("content", Json::string(item.text_or("output", ""))),
            ),
        );
    } else if item.get("role").is_some() {
        flush_pending_tool_calls(messages, pending_tool_calls);
        messages.push(make_role_message(item));
    } else {
        match item.as_str() {
            Some(s) => messages.push(make_chat_message("user", s)),
            None => {},
        }
    }
}

/// Appends a Responses input to chat messages.
pub fn append_responses_input_as_chat_messages(input: &Json, messages: &mut Vec<Json>)
    ensures
        json::json_views(final(messages)@) == (Turns {
            messages: json::json_views(old(messages)@),
            pending: Seq::empty(),
        }).after_input(input@).flushed().messages,
{
    let mut pending: Vec<Json> = Vec::new();
    let ghost start = turns_of(messages@, pending@);
    assert(start.pending =~= Seq::empty());
    match input {
        Json::String(s) => messages.push(make_chat_message("user", s.as_str())),
        Json::Array(items) => {
            let ghost views = json::json_views(items@);
            let ghost step = |turns: Turns, item: JsonView| turns.after(item);
            assert(views.take(0) =~= Seq::empty());
            for i in 0..items.len()
                invariant
                    views == json::json_views(items@),
                    step == (|turns: Turns, item: JsonView| turns.after(item)),
                    turns_of(messages@, pending@) == views.take(i as int).fold_left(start, step),
            {
                assert(views.take(i + 1).drop_last() =~= views.take(i as int));
                append_responses_item_as_chat_message(&items[i], messages, &mut pending);
            }
            assert(views.take(views.len() as int) =~= views);
        },
        Json::Object(_) => append_responses_item_as_chat_message(input, messages, &mut pending),
        _ => {},
    }
    flush_pending_tool_calls(messages, &mut pending);
}


pub open spec fn is_system(message: JsonView) -> bool {
    message.text_at("role"@) == Some("system"@)
}

/// The text of a system message.
pub open spec fn system_text(message: JsonView) -> Option<Seq<char>> {
    if is_system(message) {
        message.text_at("content"@)
    } else {
        None
    }
}

/// The index of the first system message, or the number of messages.
pub open spec fn first_system(messages: Seq<JsonView>) -> int {
    lists::first_where(messages, |message: JsonView| is_system(message))
}

/// Messages in which the first system message holds the texts of all of them,
/// and the others are gone.
pub open spec fn collapsed(messages: Seq<JsonView>) -> Seq<JsonView> {
    let first = first_system(messages);
    if first < messages.len() {
        messages.take(first).push(
            json::with_entry(
                messages[first],
                "content"@,
                JsonView::text(
                    text::joined(
                        messages.filter_map(|message: JsonView| system_text(message)),
                        "\n"@,
                    ),
                ),
            ),
        ) + messages.skip(first + 1).filter(|message: JsonView| !is_system(message))
    } else {
        messages
    }
}

/// Gathers the texts of all system messages in the first one.
pub fn collapse_system_messages_to_head(messages: Vec<Json>) -> (r: Vec<Json>)
    ensures
        json::json_views(r@) == collapsed(json::json_views(messages@)),
{
    let ghost views = json::json_views(messages@);
    let ghost pick = |message: JsonView| system_text(message);
    let mut system_texts: Vec<String> = Vec::new();
    let mut first: usize = messages.len();
    assert(text::texts(system_texts@) =~= views.take(0).filter_map(pick));
    for i in 0..messages.len()
        invariant
            views == json::json_views(messages@),
            pick == (|message: JsonView| system_text(message)),
            text::texts(system_texts@) == views.take(i as int).filter_map(pick),
            first < i || first == messages.len(),
            first < i ==> is_system(views[first as int]),
            forall|j: int| 0 <= j < i && j < first ==> !is_system(#[trigger] views[j]),
    {
        proof {
            views.lemma_filter_map_take_succ(pick, i as int);
        }
        let ghost before = system_texts@;
        if messages[i].has_text("role", "system") {
            if first == messages.len() {
                first = i;
            }
            match messages[i].text_at("content") {
                Some(s) => {
                    system_texts.push(s.to_string());
                    assert(text::texts(system_texts@) =~= text::texts(before).push(s@));
                },
                None => {},
            }
        }
    }
    proof {
        assert(views.take(views.len() as int) =~= views);
        lists::lemma_first_where(views, |message: JsonView| is_system(message), first as int);
    }
    if first == messages.len() {
        return messages;
    }
    let head = join(&system_texts, "\n");
    let ghost kept = |message: JsonView| !is_system(message);
    let ghost merged = json::with_entry(views[first as int], "content"@, JsonView::text(head@));
    let ghost source = messages@;
    let mut r: Vec<Json> = Vec::new();
    let total: usize = messages.len();
    let mut i: usize = 0;
    for message in it: messages
        invariant
            it.seq() == source,
            total == source.len(),
            views == json::json_views(source),
            i == it.index(),
            first < views.len(),
            kept == (|message: JsonView| !is_system(message)),
            forall|j: int| 0 <= j < first ==> !is_system(#[trigger] views[j]),
            is_system(views[first as int]),
            merged == json::with_entry(
                views[first as int],
                "content"@,
                JsonView::text(head@),
            ),
            i <= first ==> json::json_views(r@) =~= views.take(i as int),
            i > first ==> json::json_views(r@) =~= views.take(first as int).push(merged)
                + views.subrange(first + 1, i as int).filter(kept),
    {
        proof {
            reveal(Seq::filter);
            assert(message@ == views[i as int]);
            if i > first {
                assert(views.subrange(first + 1, i + 1).drop_last() =~= views.subrange(
                    first + 1,
                    i as int,
                ));
            } else if i == first {
                assert(views.subrange(first + 1, i + 1) =~= Seq::empty());
            }
        }
        if i == first {
            r.push(message.with_entry("content", Json::string(head.as_str())));
        } else if !message.has_text("role", "system") {
            r.push(message);
        }
        i = i + 1;
    }
    assert(views.subrange(first + 1, views.len() as int) =~= views.skip(first + 1));
    r
}

/// The chat form of a Responses tool. Only functions have one.
pub open spec fn chat_tool(tool: JsonView) -> Option<JsonView> {
    if tool.text_at("type"@) == Some("function"@) {
        Some(
            JsonView::Object(
                map![
                    "type"@ => JsonView::text("function"@),
                    "function"@ => JsonView::Object(map![
                        "name"@ => JsonView::text(tool.text_or("name"@, ""@)),
                        "description"@ => JsonView::text(tool.text_or("description"@, ""@)),
                        "parameters"@ => tool.field_or(
                            "parameters"@,
                            JsonView::Object(Map::empty()),
                        ),
                    ]),
                ],
            ),
        )
    } else {
        None
    }
}

/// The items of a list of tools, where there is one.
pub open spec fn tools_of(body: JsonView) -> Seq<JsonView> {
    match body.array_at("tools"@) {
        Some(tools) => tools,
        None => Seq::empty(),
    }
}

fn tool_to_chat(tool: &Json) -> (r: Option<Json>)
    ensures
        json::value_of(r) == chat_tool(tool@),
{
    if !tool.has_text("type", "function") {
        return None;
    }
    let function = Object::new().with("name", Json::string(tool.text_or("name", ""))).with(
        "description",
        Json::string(tool.text_or("description", "")),
    ).with("parameters", tool.field_or("parameters", Json::empty_object()));
    Some(
        Json::Object(
            Object::new().with("type", Json::string("function")).with(
                "function",
                Json::Object(function),
            ),
        ),
    )
}

/// The chat form of the tools of a Responses request.
pub fn responses_tools_to_chat_tools(body: &Json) -> (r: Vec<Json>)
    ensures
        json::json_views(r@) == tools_of(body@).filter_map(|tool: JsonView| chat_tool(tool)),
{
    match body.array_at("tools") {
        Some(tools) => select(tools, tool_to_chat, Ghost(|tool: JsonView| chat_tool(tool))),
        None => no_items(),
    }
}

/// The Responses form of a chat tool. Only functions have one.
pub open spec fn responses_tool(tool: JsonView) -> Option<JsonView> {
    let function = tool.field_or("function"@, JsonView::Object(Map::empty()));
    if tool.text_at("type"@) == Some("function"@) {
        Some(
            JsonView::Object(
                map![
                    "type"@ => JsonView::text("function"@),
                    "name"@ => function.field_or("name"@, JsonView::text(""@)),
                    "description"@ => function.field_or("description"@, JsonView::text(""@)),
                    "parameters"@ => function.field_or(
                        "parameters"@,
                        JsonView::Object(Map::empty()),
                    ),
                ],
            ),
        )
    } else {
        None
    }
}

fn tool_to_responses(tool: &Json) -> (r: Option<Json>)
    ensures
        json::value_of(r) == responses_tool(tool@),
{
    if !tool.has_text("type", "function") {
        return None;
    }
    let function = tool.field_or("function", Json::empty_object());
    Some(
        Json::Object(
            Object::new().with("type", Json::string("function")).with(
                "name",
                function.field_or("name", Json::string("")),
            ).with("description", function.field_or("description", Json::string(""))).with(
                "parameters",
                function.field_or("parameters", Json::empty_object()),
            ),
        ),
    )
}

/// The Responses form of the tools of a chat request.
pub fn chat_tools_to_responses_tools(body: &Json) -> (r: Vec<Json>)
    ensures
        json::json_views(r@) == tools_of(body@).filter_map(|tool: JsonView| responses_tool(tool)),
{
    match body.array_at("tools") {
        Some(tools) => select(
            tools,
            tool_to_responses,
            Ghost(|tool: JsonView| responses_tool(tool)),
        ),
        None => no_items(),
    }
}

/// The chat form of a Responses tool choice.
pub open spec fn chat_tool_choice(choice: JsonView) -> JsonView {
    match (choice, choice.text_at("name"@)) {
        (JsonView::String(s), _) => choice,
        (_, Some(name)) => JsonView::Object(
            map![
                "type"@ => JsonView::text("function"@),
                "function"@ => JsonView::Object(map!["name"@ => JsonView::text(name)]),
            ],
        ),
        _ => JsonView::text("auto"@),
    }
}

pub fn responses_tool_choice_to_chat(tool_choice: &Json) -> (r: Json)
    ensures
        r@ == chat_tool_choice(tool_choice@),
{
    match tool_choice {
        Json::String(s) => Json::String(s.clone()),
        _ => match tool_choice.text_at("name") {
            Some(name) => {
                let function = Object::new().with("name", Json::string(name));
                Json::Object(
                    Object::new().with("type", Json::string("function")).with(
                        "function",
                        Json::Object(function),
                    ),
                )
            },
            None => Json::string("auto"),
        },
    }
}

pub open spec fn is_o_series(model: Seq<char>) -> bool {
    text::has_prefix(model, "o1"@) || text::has_prefix(model, "o3"@) || text::has_prefix(
        model,
        "o4"@,
    )
}

/// Whether a model is one of OpenAI's reasoning models.
pub fn is_openai_o_series(model: &str) -> (r: bool)
    ensures
        r == is_o_series(model@),
{
    starts_with(model, "o1") || starts_with(model, "o3") || starts_with(model, "o4")
}


/// The chat messages of a Responses request: its instructions, if any, as a
/// system message, then its input.
pub open spec fn chat_messages(body: JsonView) -> Seq<JsonView> {
    let instructions = match body.field("instructions"@) {
        Some(v) => prompt_of(v),
        None => Seq::empty(),
    };
    let head = if instructions.len() > 0 {
        seq![chat_message("system"@, instructions)]
    } else {
        Seq::empty()
    };
    let turns = Turns { messages: head, pending: Seq::empty() };
    collapsed(
        match body.field("input"@) {
            Some(input) => turns.after_input(input).flushed().messages,
            None => head,
        },
    )
}

/// The reasoning effort that a Responses request asks for.
pub open spec fn effort_of(body: JsonView) -> Option<JsonView> {
    match body.field_or("reasoning"@, JsonView::Null).text_at("effort"@) {
        Some(effort) => Some(JsonView::text(effort)),
        None => None,
    }
}

/// The chat request that says what a Responses request says.
pub open spec fn chat_request(body: JsonView) -> Map<Seq<char>, JsonView> {
    let limit = if is_o_series(body.text_or("model"@, ""@)) {
        "max_completion_tokens"@
    } else {
        "max_tokens"@
    };
    let tools = tools_of(body).filter_map(|tool: JsonView| chat_tool(tool));
    let r = json::carried(Map::empty(), "model"@, body.field("model"@));
    let r = r.insert("messages"@, JsonView::Array(chat_messages(body)));
    let r = json::carried(r, limit, body.field("max_output_tokens"@));
    let r = json::carried(r, "max_tokens"@, body.field("max_tokens"@));
    let r = json::carried(r, "max_completion_tokens"@, body.field("max_completion_tokens"@));
    let r = json::carried(r, "temperature"@, body.field("temperature"@));
    let r = json::carried(r, "top_p"@, body.field("top_p"@));
    let r = json::carried(r, "stream"@, body.field("stream"@));
    let r = json::carried(r, "reasoning_effort"@, effort_of(body));
    let r = if tools.len() > 0 {
        json::carried(
            r.insert("tools"@, JsonView::Array(tools)),
            "tool_choice"@,
            match body.field("tool_choice"@) {
                Some(choice) => Some(chat_tool_choice(choice)),
                None => None,
            },
        )
    } else {
        r
    };
    let r = json::carried(r, "metadata"@, body.field("metadata"@));
    let r = json::carried(r, "stop"@, body.field("stop"@));
    let r = json::carried(r, "presence_penalty"@, body.field("presence_penalty"@));
    let r = json::carried(r, "frequency_penalty"@, body.field("frequency_penalty"@));
    let r = json::carried(r, "logit_bias"@, body.field("logit_bias"@));
    let r = json::carried(r, "seed"@, body.field("seed"@));
    let r = json::carried(r, "user"@, body.field("user"@));
    if body.field("stream"@) == Some(JsonView::Bool(true)) {
        r.insert(
            "stream_options"@,
            JsonView::Object(map!["include_usage"@ => JsonView::Bool(true)]),
        )
    } else {
        r
    }
}

/// Whether a request asks for a stream.
pub fn wants_stream(body: &Json) -> (r: bool)
    ensures
        r == (body@.field("stream"@) == Some(JsonView::Bool(true))),
{
    match body.get("stream") {
        Some(Json::Bool(b)) => *b,
        _ => false,
    }
}

/// Converts a Responses API request body to a Chat Completions request body.
pub fn request_responses_to_chat(body: &Json) -> (r: Result<Json, String>)
    ensures
        r is Ok,
        r->Ok_0@ == JsonView::Object(chat_request(body@)),
{
    let mut r = Object::new();
    r.carry("model", body, "model");

    let mut messages: Vec<Json> = Vec::new();
    match body.get("instructions") {
        Some(instructions) => {
            let prompt = instruction_text(instructions);
            if prompt.as_str().unicode_len() > 0 {
                messages.push(make_chat_message("system", prompt.as_str()));
            }
        },
        None => {},
    }
    proof {
        let ghost_head = json::json_views(messages@);
        if ghost_head.len() == 0 {
            assert(ghost_head =~= Seq::empty());
        } else {
            assert(ghost_head =~= seq![ghost_head[0]]);
        }
    }
    match body.get("input") {
        Some(input) => append_responses_input_as_chat_messages(input, &mut messages),
        None => {},
    }
    r.set("messages", Json::Array(collapse_system_messages_to_head(messages)));

    if is_openai_o_series(body.text_or("model", "")) {
        r.carry("max_completion_tokens", body, "max_output_tokens");
    } else {
        r.carry("max_tokens", body, "max_output_tokens");
    }
    r.carry("max_tokens", body, "max_tokens");
    r.carry("max_completion_tokens", body, "max_completion_tokens");
    r.carry("temperature", body, "temperature");
    r.carry("top_p", body, "top_p");
    r.carry("stream", body, "stream");
    match body.field_or("reasoning", Json::Null).text_at("effort") {
        Some(effort) => r.set("reasoning_effort", Json::string(effort)),
        None => {},
    }

    let tools = responses_tools_to_chat_tools(body);
    if tools.len() > 0 {
        r.set("tools", Json::Array(tools));
        match body.get("tool_choice") {
            Some(choice) => r.set("tool_choice", responses_tool_choice_to_chat(choice)),
            None => {},
        }
    }
    r.carry("metadata", body, "metadata");
    r.carry("stop", body, "stop");
    r.carry("presence_penalty", body, "presence_penalty");
    r.carry("frequency_penalty", body, "frequency_penalty");
    r.carry("logit_bias", body, "logit_bias");
    r.carry("seed", body, "seed");
    r.carry("user", body, "user");
    if wants_stream(body) {
        r.set(
            "stream_options",
            Json::Object(Object::new().with("include_usage", Json::Bool(true))),
        );
    }
    Ok(Json::Object(r))
}


/// The Responses form of the content of a chat message.
pub open spec fn responses_content(message: JsonView) -> JsonView {
    match message.field("content"@) {
        Some(JsonView::Array(parts)) => JsonView::Array(parts),
        Some(JsonView::String(s)) => JsonView::Array(seq![input_text(s)]),
        _ => JsonView::Array(seq![input_text(""@)]),
    }
}

pub open spec fn input_text(s: Seq<char>) -> JsonView {
    JsonView::Object(map!["type"@ => JsonView::text("input_text"@), "text"@ => JsonView::text(s)])
}

fn make_input_text(s: &str) -> (r: Json)
    ensures
        r@ == input_text(s@),
{
    Json::Object(
        Object::new().with("type", Json::string("input_text")).with("text", Json::string(s)),
    )
}

/// The Responses form of the content of a chat message.
pub fn msg_content_to_responses_content(message: &Json) -> (r: Json)
    ensures
        r@ == responses_content(message@),
{
    match message.get("content") {
        Some(Json::String(s)) => Json::single(make_input_text(s.as_str())),
        Some(content) => match content {
            Json::Array(_) => content.clone(),
            _ => Json::single(make_input_text("")),
        },
        None => Json::single(make_input_text("")),
    }
}

/// A message of a Responses input.
pub open spec fn input_message(role: Seq<char>, content: JsonView) -> JsonView {
    JsonView::Object(
        map![
            "type"@ => JsonView::text("message"@),
            "role"@ => JsonView::text(role),
            "content"@ => content,
        ],
    )
}

pub fn make_input_message(role: &str, content: Json) -> (r: Json)
    ensures
        r@ == input_message(role@, content@),
{
    Json::Object(
        Object::new().with("type", Json::string("message")).with("role", Json::string(role)).with(
            "content",
            content,
        ),
    )
}

/// A chat tool call as an item of a Responses input.
pub open spec fn input_call(call: JsonView) -> JsonView {
    let function = call.field_or("function"@, JsonView::Object(Map::empty()));
    JsonView::Object(
        map![
            "type"@ => JsonView::text("function_call"@),
            "id"@ => call.field_or("id"@, JsonView::text(""@)),
            "call_id"@ => call.field_or("id"@, JsonView::text(""@)),
            "name"@ => function.field_or("name"@, JsonView::text(""@)),
            "arguments"@ => function.field_or("arguments"@, JsonView::text("{}"@)),
        ],
    )
}

fn make_input_call(call: &Json) -> (r: Json)
    ensures
        r@ == input_call(call@),
{
    let function = call.field_or("function", Json::empty_object());
    Json::Object(
        Object::new().with("type", Json::string("function_call")).with(
            "id",
            call.field_or("id", Json::string("")),
        ).with("call_id", call.field_or("id", Json::string(""))).with(
            "name",
            function.field_or("name", Json::string("")),
        ).with("arguments", function.field_or("arguments", Json::string("{}"))),
    )
}

/// The items of a Responses input that a chat message stands for. A system
/// message stands for none.
pub open spec fn input_items(message: JsonView) -> Seq<JsonView> {
    let role = message.text_or("role"@, "user"@);
    if role == "user"@ {
        seq![input_message("user"@, responses_content(message))]
    } else if role == "assistant"@ {
        let calls = match message.array_at("tool_calls"@) {
            Some(calls) => calls.map_values(|call: JsonView| input_call(call)),
            None => Seq::empty(),
        };
        match message.text_at("content"@) {
            Some(s) => calls.push(
                input_message(
                    "assistant"@,
                    JsonView::Array(
                        seq![
                            JsonView::Object(
                                map![
                                    "type"@ => JsonView::text("output_text"@),
                                    "text"@ => JsonView::text(s),
                                ],
                            ),
                        ],
                    ),
                ),
            ),
            None => calls,
        }
    } else if role == "tool"@ {
        seq![
            JsonView::Object(
                map![
                    "type"@ => JsonView::text("function_call_output"@),
                    "call_id"@ => message.field_or("tool_call_id"@, JsonView::text(""@)),
                    "output"@ => message.field_or("content"@, JsonView::text(""@)),
                ],
            ),
        ]
    } else {
        Seq::empty()
    }
}

/// The items of a Responses input that a chat message stands for.
pub fn chat_message_to_input_items(message: &Json) -> (r: Vec<Json>)
    ensures
        json::json_views(r@) == input_items(message@),
{
    let mut items: Vec<Json> = Vec::new();
    assert(json::json_views(items@) =~= Seq::empty());
    let role = message.text_or("role", "user");
    if same_text(role, "user") {
        items.push(make_input_message("user", msg_content_to_responses_content(message)));
    } else if same_text(role, "assistant") {
        match message.array_at("tool_calls") {
            Some(calls) => {
                items = convert(calls, make_input_call, Ghost(|call: JsonView| input_call(call)));
            },
            None => {},
        }
        match message.text_at("content") {
            Some(s) => {
                let part = Json::Object(
                    Object::new().with("type", Json::string("output_text")).with(
                        "text",
                        Json::string(s),
                    ),
                );
                items.push(make_input_message("assistant", Json::single(part)));
            },
            None => {},
        }
    } else if same_text(role, "tool") {
        items.push(
            Json::Object(
                Object::new().with("type", Json::string("function_call_output")).with(
                    "call_id",
                    message.field_or("tool_call_id", Json::string("")),
                ).with("output", message.field_or("content", Json::string(""))),
            ),
        );
    }
    items
}

/// Instructions followed by the text of a message, if it is a system message,
/// on a line of its own.
pub open spec fn instructed(instructions: Seq<char>, message: JsonView) -> Seq<char> {
    if message.text_or("role"@, "user"@) == "system"@ {
        if instructions.len() > 0 {
            instructions + "\n"@ + message.text_or("content"@, ""@)
        } else {
            instructions + message.text_or("content"@, ""@)
        }
    } else {
        instructions
    }
}

/// The instructions that the system messages of a chat request give.
pub open spec fn instructions_of(messages: Seq<JsonView>) -> Seq<char> {
    messages.fold_left(
        Seq::empty(),
        |instructions: Seq<char>, message: JsonView| instructed(instructions, message),
    )
}

/// The messages of a chat request.
pub open spec fn messages_of(body: JsonView) -> Seq<JsonView> {
    match body.array_at("messages"@) {
        Some(messages) => messages,
        None => Seq::empty(),
    }
}

/// The Responses request that says what a chat request says.
pub open spec fn responses_request(body: JsonView) -> Map<Seq<char>, JsonView> {
    let messages = messages_of(body);
    let instructions = instructions_of(messages);
    let tools = tools_of(body).filter_map(|tool: JsonView| responses_tool(tool));
    let r = json::carried(Map::empty(), "model"@, body.field("model"@));
    let r = if instructions.len() > 0 {
        r.insert("instructions"@, JsonView::text(instructions))
    } else {
        r
    };
    let r = r.insert(
        "input"@,
        JsonView::Array(messages.flat_map(|message: JsonView| input_items(message))),
    );
    let r = json::carried(r, "max_output_tokens"@, body.field("max_tokens"@));
    let r = json::carried(r, "max_output_tokens"@, body.field("max_completion_tokens"@));
    let r = json::carried(r, "temperature"@, body.field("temperature"@));
    let r = json::carried(r, "top_p"@, body.field("top_p"@));
    let r = json::carried(r, "stream"@, body.field("stream"@));
    let r = match body.text_at("reasoning_effort"@) {
        Some(effort) => r.insert(
            "reasoning"@,
            JsonView::Object(
                map!["effort"@ => JsonView::text(effort), "summary"@ => JsonView::text("auto"@)],
            ),
        ),
        None => r,
    };
    let r = if tools.len() > 0 {
        r.insert("tools"@, JsonView::Array(tools))
    } else {
        r
    };
    let r = json::carried(r, "metadata"@, body.field("metadata"@));
    let r = json::carried(r, "stop"@, body.field("stop"@));
    let r = json::carried(r, "seed"@, body.field("seed"@));
    json::carried(r, "user"@, body.field("user"@))
}

/// The instructions and the input that chat messages stand for.
fn split_messages(messages: &Vec<Json>) -> (r: (String, Vec<Json>))
    ensures
        r.0@ == instructions_of(json::json_views(messages@)),
        json::json_views(r.1@) == json::json_views(messages@).flat_map(
            |message: JsonView| input_items(message),
        ),
{
    let mut instructions = String::new();
    let mut items: Vec<Json> = Vec::new();
    let ghost views = json::json_views(messages@);
    let ghost step = |said: Seq<char>, message: JsonView| instructed(said, message);
    let ghost expand = |message: JsonView| input_items(message);
    proof {
        assert(views.take(0) =~= Seq::empty());
        assert(json::json_views(items@) =~= views.take(0).flat_map(expand));
    }
    for i in 0..messages.len()
        invariant
            views == json::json_views(messages@),
            step == (|said: Seq<char>, message: JsonView| instructed(said, message)),
            expand == (|message: JsonView| input_items(message)),
            instructions@ == views.take(i as int).fold_left(Seq::empty(), step),
            json::json_views(items@) == views.take(i as int).flat_map(expand),
    {
        proof {
            assert(views.take(i + 1).drop_last() =~= views.take(i as int));
            views.lemma_flat_map_take_append(expand, i as int);
        }
        let message = &messages[i];
        if same_text(message.text_or("role", "user"), "system") {
            if instructions.as_str().unicode_len() > 0 {
                instructions.append("\n");
            }
            instructions.append(message.text_or("content", ""));
        }
        let mut more = chat_message_to_input_items(message);
        items.append(&mut more);
    }
    assert(views.take(views.len() as int) =~= views);
    (instructions, items)
}

/// Converts a Chat Completions request body to a Responses API request body.
pub fn request_chat_to_responses(body: &Json) -> (r: Result<Json, String>)
    ensures
        r is Ok,
        r->Ok_0@ == JsonView::Object(responses_request(body@)),
{
    let mut r = Object::new();
    r.carry("model", body, "model");

    let none: Vec<Json> = Vec::new();
    assert(json::json_views(none@) =~= Seq::empty());
    let (instructions, items) = match body.array_at("messages") {
        Some(messages) => split_messages(messages),
        None => split_messages(&none),
    };
    if instructions.as_str().unicode_len() > 0 {
        r.set("instructions", Json::String(instructions));
    }
    r.set("input", Json::Array(items));

    r.carry("max_output_tokens", body, "max_tokens");
    r.carry("max_output_tokens", body, "max_completion_tokens");
    r.carry("temperature", body, "temperature");
    r.carry("top_p", body, "top_p");
    r.carry("stream", body, "stream");
    match body.text_at("reasoning_effort") {
        Some(effort) => {
            let reasoning = Object::new().with("effort", Json::string(effort)).with(
                "summary",
                Json::string("auto"),
            );
            r.set("reasoning", Json::Object(reasoning));
        },
        None => {},
    }
    let tools = chat_tools_to_responses_tools(body);
    if tools.len() > 0 {
        r.set("tools", Json::Array(tools));
    }
    r.carry("metadata", body, "metadata");
    r.carry("stop", body, "stop");
    r.carry("seed", body, "seed");
    r.carry("user", body, "user");
    Ok(Json::Object(r))
}


/// The name of the model in a response: the one that the client asked for, or
/// else the one that the response names.
pub open spec fn model_name(response: JsonView, client_model: Option<Seq<char>>) -> Seq<char> {
    match client_model {
        Some(model) => model,
        None => response.text_or("model"@, ""@),
    }
}

/// The name of the model in a response.
pub fn response_model<'a>(response: &'a Json, client_model: Option<&'a str>) -> (r: &'a str)
    ensures
        r@ == model_name(response@, json::text_of(client_model)),
{
    match client_model {
        Some(model) => model,
        None => response.text_or("model", ""),
    }
}

/// A part of a Responses message: a text without annotations.
pub open spec fn output_text(s: Seq<char>) -> JsonView {
    JsonView::Object(
        map![
            "type"@ => JsonView::text("output_text"@),
            "text"@ => JsonView::text(s),
            "annotations"@ => JsonView::Array(Seq::empty()),
        ],
    )
}

pub fn make_output_text(s: &str) -> (r: Json)
    ensures
        r@ == output_text(s@),
{
    Json::Object(
        Object::new().with("type", Json::string("output_text")).with("text", Json::string(s)).with(
            "annotations",
            Json::empty_list(),
        ),
    )
}

/// An assistant's message in a Responses output.
pub open spec fn output_message(
    id: Seq<char>,
    status: Seq<char>,
    content: Seq<JsonView>,
) -> JsonView {
    JsonView::Object(
        map![
            "id"@ => JsonView::text(id),
            "type"@ => JsonView::text("message"@),
            "role"@ => JsonView::text("assistant"@),
            "status"@ => JsonView::text(status),
            "content"@ => JsonView::Array(content),
        ],
    )
}

pub fn make_output_message(id: &str, status: &str, content: Vec<Json>) -> (r: Json)
    ensures
        r@ == output_message(id@, status@, json::json_views(content@)),
{
    Json::Object(
        Object::new().with("id", Json::string(id)).with("type", Json::string("message")).with(
            "role",
            Json::string("assistant"),
        ).with("status", Json::string(status)).with("content", Json::Array(content)),
    )
}

/// A complete Responses object.
pub open spec fn completed_response(
    id: Seq<char>,
    created: u64,
    model: Seq<char>,
    output: Seq<JsonView>,
    usage: JsonView,
) -> JsonView {
    JsonView::Object(
        map![
            "id"@ => JsonView::text(id),
            "object"@ => JsonView::text("response"@),
            "created_at"@ => JsonView::integer(created as int),
            "status"@ => JsonView::text("completed"@),
            "model"@ => JsonView::text(model),
            "output"@ => JsonView::Array(output),
            "usage"@ => usage,
            "parallel_tool_calls"@ => JsonView::Bool(true),
            "previous_response_id"@ => JsonView::Null,
            "reasoning"@ => JsonView::Object(map![
                "effort"@ => JsonView::text("medium"@),
                "summary"@ => JsonView::text("auto"@),
            ]),
            "text"@ => JsonView::Object(map![
                "format"@ => JsonView::Object(map!["type"@ => JsonView::text("text"@)]),
            ]),
            "tools"@ => JsonView::Array(Seq::empty()),
            "truncation"@ => JsonView::text("disabled"@),
        ],
    )
}

pub fn make_completed_response(
    id: &str,
    created: u64,
    model: &str,
    output: Vec<Json>,
    usage: Json,
) -> (r: Json)
    ensures
        r@ == completed_response(id@, created, model@, json::json_views(output@), usage@),
{
    let mut r = Object::new();
    r.set("id", Json::string(id));
    r.set("object", Json::string("response"));
    r.set("created_at", Json::unsigned(created));
    r.set("status", Json::string("completed"));
    r.set("model", Json::string(model));
    r.set("output", Json::Array(output));
    r.set("usage", usage);
    r.set("parallel_tool_calls", Json::Bool(true));
    r.set("previous_response_id", Json::Null);
    let reasoning = Object::new().with("effort", Json::string("medium")).with(
        "summary",
        Json::string("auto"),
    );
    r.set("reasoning", Json::Object(reasoning));
    let format = Object::new().with("type", Json::string("text"));
    r.set("text", Json::Object(Object::new().with("format", Json::Object(format))));
    r.set("tools", Json::empty_list());
    r.set("truncation", Json::string("disabled"));
    Json::Object(r)
}

/// A chat tool call as a part of a Responses message.
pub open spec fn call_part(call: JsonView) -> JsonView {
    let function = call.field_or("function"@, JsonView::Object(Map::empty()));
    JsonView::Object(
        map![
            "type"@ => JsonView::text("function_call"@),
            "id"@ => JsonView::text(call.text_or("id"@, ""@)),
            "call_id"@ => JsonView::text(call.text_or("id"@, ""@)),
            "name"@ => function.field_or("name"@, JsonView::text(""@)),
            "arguments"@ => function.field_or("arguments"@, JsonView::text("{}"@)),
        ],
    )
}

fn make_call_part(call: &Json) -> (r: Json)
    ensures
        r@ == call_part(call@),
{
    let function = call.field_or("function", Json::empty_object());
    Json::Object(
        Object::new().with("type", Json::string("function_call")).with(
            "id",
            Json::string(call.text_or("id", "")),
        ).with("call_id", Json::string(call.text_or("id", ""))).with(
            "name",
            function.field_or("name", Json::string("")),
        ).with("arguments", function.field_or("arguments", Json::string("{}"))),
    )
}

/// The message of the first choice of a chat response.
pub open spec fn first_message(chat: JsonView) -> Option<JsonView> {
    match chat.array_at("choices"@) {
        Some(choices) => if choices.len() > 0 {
            choices[0].field("message"@)
        } else {
            None
        },
        None => None,
    }
}

/// The message of the first choice of a chat response.
pub fn first_choice_message(chat: &Json) -> (r: Option<&Json>)
    ensures
        json::view_of(r) == first_message(chat@),
{
    match chat.array_at("choices") {
        Some(choices) => if choices.len() > 0 {
            choices[0].get("message")
        } else {
            None
        },
        None => None,
    }
}

/// The parts of a Responses message that a chat message stands for: its text,
/// then its tool calls.
pub open spec fn message_parts(message: JsonView) -> Seq<JsonView> {
    let said = seq![output_text(message.text_or("content"@, ""@))];
    match message.array_at("tool_calls"@) {
        Some(calls) => said + calls.map_values(|call: JsonView| call_part(call)),
        None => said,
    }
}

fn make_message_parts(message: &Json) -> (r: Vec<Json>)
    ensures
        json::json_views(r@) == message_parts(message@),
{
    let mut parts: Vec<Json> = Vec::new();
    parts.push(make_output_text(message.text_or("content", "")));
    assert(json::json_views(parts@) =~= seq![output_text(message@.text_or("content"@, ""@))]);
    match message.array_at("tool_calls") {
        Some(calls) => {
            let mut more = convert(calls, make_call_part, Ghost(|call: JsonView| call_part(call)));
            parts.append(&mut more);
        },
        None => {},
    }
    parts
}

/// The usage that a chat response reports, as a Responses object reports it.
pub open spec fn responses_usage(chat: JsonView) -> JsonView {
    let usage = chat.field_or("usage"@, JsonView::Object(Map::empty()));
    JsonView::Object(
        map![
            "input_tokens"@ => usage.field_or("prompt_tokens"@, JsonView::integer(0)),
            "output_tokens"@ => usage.field_or("completion_tokens"@, JsonView::integer(0)),
            "total_tokens"@ => usage.field_or("total_tokens"@, JsonView::integer(0)),
        ],
    )
}

fn make_responses_usage(chat: &Json) -> (r: Json)
    ensures
        r@ == responses_usage(chat@),
{
    let usage = chat.field_or("usage", Json::empty_object());
    Json::Object(
        Object::new().with("input_tokens", usage.field_or("prompt_tokens", Json::unsigned(0))).with(
            "output_tokens",
            usage.field_or("completion_tokens", Json::unsigned(0)),
        ).with("total_tokens", usage.field_or("total_tokens", Json::unsigned(0))),
    )
}

/// The Responses object that says what a chat response says, under given
/// identifiers and a given time. A chat response without a message in its
/// first choice says nothing.
pub open spec fn responses_response(
    chat: JsonView,
    client_model: Option<Seq<char>>,
    msg_id: Seq<char>,
    resp_id: Seq<char>,
    created: u64,
) -> Option<JsonView> {
    match first_message(chat) {
        Some(message) => Some(
            completed_response(
                resp_id,
                created,
                model_name(chat, client_model),
                seq![output_message(msg_id, "completed"@, message_parts(message))],
                responses_usage(chat),
            ),
        ),
        None => None,
    }
}

/// Converts a Chat Completions response to a Responses API response, under
/// given identifiers and a given time.
pub fn response_chat_to_responses_with(
    chat: &Json,
    client_model: Option<&str>,
    msg_id: &str,
    resp_id: &str,
    created: u64,
) -> (r: Option<Json>)
    ensures
        json::value_of(r) == responses_response(
            chat@,
            json::text_of(client_model),
            msg_id@,
            resp_id@,
            created,
        ),
{
    match first_choice_message(chat) {
        Some(message) => {
            let item = make_output_message(msg_id, "completed", make_message_parts(message));
            let ghost view = item@;
            let mut output: Vec<Json> = Vec::new();
            output.push(item);
            assert(json::json_views(output@) =~= seq![view]);
            Some(
                make_completed_response(
                    resp_id,
                    created,
                    response_model(chat, client_model),
                    output,
                    make_responses_usage(chat),
                ),
            )
        },
        None => None,
    }
}

/// Converts a Chat Completions response to a Responses API response, under
/// fresh identifiers and the current time.
pub fn response_chat_to_responses(chat: &Json, client_model: Option<&str>) -> (r: Option<Json>)
    ensures
        exists|msg_id: Seq<char>, resp_id: Seq<char>, created: u64|
            common::is_clock_reading(created) && common::is_id_for("msg"@, msg_id)
                && common::is_id_for("resp"@, resp_id)
                && json::value_of(r) == #[trigger] responses_response(
                chat@,
                json::text_of(client_model),
                msg_id,
                resp_id,
                created,
            ),
{
    let msg_id = make_id("msg");
    let resp_id = make_id("resp");
    response_chat_to_responses_with(
        chat,
        client_model,
        msg_id.as_str(),
        resp_id.as_str(),
        now_secs(),
    )
}

/// The text of a part of a Responses message.
pub open spec fn output_part_text(part: JsonView) -> Seq<char> {
    if part.text_at("type"@) == Some("output_text"@) {
        part.text_or("text"@, ""@)
    } else {
        Seq::empty()
    }
}

/// The text of an item of a Responses output.
pub open spec fn output_item_text(item: JsonView) -> Seq<char> {
    match item.array_at("content"@) {
        Some(parts) => if item.text_at("type"@) == Some("message"@) {
            parts.flat_map(|part: JsonView| output_part_text(part))
        } else {
            Seq::empty()
        },
        None => Seq::empty(),
    }
}

/// The tool call that an item of a Responses output makes.
pub open spec fn output_item_call(item: JsonView) -> Option<JsonView> {
    if item.text_at("type"@) == Some("function_call"@) {
        Some(
            chat_tool_call(
                item.text_or("call_id"@, ""@),
                item.text_or("name"@, ""@),
                item.text_or("arguments"@, "{}"@),
            ),
        )
    } else {
        None
    }
}

fn shown_output_part(part: &Json) -> (r: String)
    ensures
        r@ == output_part_text(part@),
{
    if part.has_text("type", "output_text") {
        part.text_or("text", "").to_string()
    } else {
        String::new()
    }
}

fn shown_output_item(item: &Json) -> (r: String)
    ensures
        r@ == output_item_text(item@),
{
    match item.array_at("content") {
        Some(parts) => if item.has_text("type", "message") {
            gather(parts, shown_output_part, Ghost(|part: JsonView| output_part_text(part)))
        } else {
            String::new()
        },
        None => String::new(),
    }
}

fn called_output_item(item: &Json) -> (r: Option<Json>)
    ensures
        json::value_of(r) == output_item_call(item@),
{
    if item.has_text("type", "function_call") {
        Some(
            make_chat_tool_call(
                item.text_or("call_id", ""),
                item.text_or("name", ""),
                item.text_or("arguments", "{}"),
            ),
        )
    } else {
        None
    }
}

/// The text and the tool calls of a Responses output.
pub fn read_output(output: &Vec<Json>) -> (r: (String, Vec<Json>))
    ensures
        r.0@ == json::json_views(output@).flat_map(|item: JsonView| output_item_text(item)),
        json::json_views(r.1@) == json::json_views(output@).filter_map(
            |item: JsonView| output_item_call(item),
        ),
{
    let said = gather(output, shown_output_item, Ghost(|item: JsonView| output_item_text(item)));
    let calls = select(output, called_output_item, Ghost(|item: JsonView| output_item_call(item)));
    (said, calls)
}

/// A complete chat response.
pub open spec fn chat_completion(
    id: JsonView,
    created: JsonView,
    model: Seq<char>,
    content: JsonView,
    calls: Seq<JsonView>,
    finish_reason: JsonView,
    usage: JsonView,
) -> JsonView {
    let message = map![
        "role"@ => JsonView::text("assistant"@),
        "content"@ => content,
    ];
    JsonView::Object(
        map![
            "id"@ => id,
            "object"@ => JsonView::text("chat.completion"@),
            "created"@ => created,
            "model"@ => JsonView::text(model),
            "choices"@ => JsonView::Array(seq![
                JsonView::Object(map![
                    "index"@ => JsonView::integer(0),
                    "message"@ => JsonView::Object(
                        if calls.len() > 0 {
                            message.insert("tool_calls"@, JsonView::Array(calls))
                        } else {
                            message
                        },
                    ),
                    "finish_reason"@ => finish_reason,
                ]),
            ]),
            "usage"@ => usage,
        ],
    )
}

pub fn make_chat_completion(
    id: Json,
    created: Json,
    model: &str,
    content: Json,
    calls: Vec<Json>,
    finish_reason: Json,
    usage: Json,
) -> (r: Json)
    ensures
        r@ == chat_completion(
            id@,
            created@,
            model@,
            content@,
            json::json_views(calls@),
            finish_reason@,
            usage@,
        ),
{
    let mut message = Object::new().with("role", Json::string("assistant")).with(
        "content",
        content,
    );
    if calls.len() > 0 {
        message.set("tool_calls", Json::Array(calls));
    }
    let choice = Object::new().with("index", Json::unsigned(0)).with(
        "message",
        Json::Object(message),
    ).with("finish_reason", finish_reason);
    Json::Object(
        Object::new().with("id", id).with("object", Json::string("chat.completion")).with(
            "created",
            created,
        ).with("model", Json::string(model)).with(
            "choices",
            Json::single(Json::Object(choice)),
        ).with("usage", usage),
    )
}

/// The usage that a Responses object reports, as a chat response reports it.
pub open spec fn chat_usage(response: JsonView) -> JsonView {
    let usage = response.field_or("usage"@, JsonView::Object(Map::empty()));
    JsonView::Object(
        map![
            "prompt_tokens"@ => usage.field_or("input_tokens"@, JsonView::integer(0)),
            "completion_tokens"@ => usage.field_or("output_tokens"@, JsonView::integer(0)),
            "total_tokens"@ => usage.field_or("total_tokens"@, JsonView::integer(0)),
        ],
    )
}

fn make_chat_usage(response: &Json) -> (r: Json)
    ensures
        r@ == chat_usage(response@),
{
    let usage = response.field_or("usage", Json::empty_object());
    Json::Object(
        Object::new().with("prompt_tokens", usage.field_or("input_tokens", Json::unsigned(0))).with(
            "completion_tokens",
            usage.field_or("output_tokens", Json::unsigned(0)),
        ).with("total_tokens", usage.field_or("total_tokens", Json::unsigned(0))),
    )
}

/// The chat response that says what a Responses object says. The identifier
/// and the time are given for a Responses object that lacks them. One without
/// a list of output items says nothing.
pub open spec fn chat_response(
    response: JsonView,
    client_model: Option<Seq<char>>,
    chat_id: Seq<char>,
    created: u64,
) -> Option<JsonView> {
    match response.array_at("output"@) {
        Some(output) => {
            let calls = output.filter_map(|item: JsonView| output_item_call(item));
            Some(
                chat_completion(
                    response.field_or("id"@, JsonView::text(chat_id)),
                    response.field_or("created_at"@, JsonView::integer(created as int)),
                    model_name(response, client_model),
                    JsonView::text(output.flat_map(|item: JsonView| output_item_text(item))),
                    calls,
                    JsonView::text(
                        if calls.len() > 0 {
                            "tool_calls"@
                        } else {
                            "stop"@
                        },
                    ),
                    chat_usage(response),
                ),
            )
        },
        None => None,
    }
}

/// Converts a Responses API response to a Chat Completions response. The
/// identifier and the time are for a response that lacks them.
pub fn response_responses_to_chat_with(
    response: &Json,
    client_model: Option<&str>,
    chat_id: &str,
    created: u64,
) -> (r: Option<Json>)
    ensures
        json::value_of(r) == chat_response(
            response@,
            json::text_of(client_model),
            chat_id@,
            created,
        ),
{
    match response.array_at("output") {
        Some(output) => {
            let (said, calls) = read_output(output);
            let finish_reason = if calls.len() > 0 {
                "tool_calls"
            } else {
                "stop"
            };
            Some(
                make_chat_completion(
                    response.field_or("id", Json::string(chat_id)),
                    response.field_or("created_at", Json::unsigned(created)),
                    response_model(response, client_model),
                    Json::String(said),
                    calls,
                    Json::string(finish_reason),
                    make_chat_usage(response),
                ),
            )
        },
        None => None,
    }
}

/// Converts a Responses API response to a Chat Completions response. One that
/// lacks an identifier or a time gets a fresh identifier or the current time.
pub fn response_responses_to_chat(
    response: &Json,
    client_model: Option<&str>,
) -> (r: Option<Json>)
    ensures
        exists|chat_id: Seq<char>, created: u64|
            common::is_clock_reading(created) && common::is_id_for("chatcmpl"@, chat_id) && json::value_of(r)
                == #[trigger] chat_response(
                response@,
                json::text_of(client_model),
                chat_id,
                created,
            ),
{
    let chat_id = make_id("chatcmpl");
    response_responses_to_chat_with(response, client_model, chat_id.as_str(), now_secs())
}

} // verus!
