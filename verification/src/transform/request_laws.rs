//! What a converted request says, entry by entry: the conversation, the system
//! prompt, the tools and the options are those of the request that it was made
//! from.

use crate::json;
use crate::json::JsonView;
use crate::literals;
use crate::text;
use crate::transform::response_laws as told;
use crate::transform::responses_chat;
use vstd::prelude::*;

verus! {

// ── Lists and entries ──────────────────────────────────────────────────────

pub proof fn lemma_flat_map_add<A, B>(a: Seq<A>, b: Seq<A>, f: spec_fn(A) -> Seq<B>)
    ensures
        (a + b).flat_map(f) == a.flat_map(f) + b.flat_map(f),
    decreases b.len(),
{
    if b.len() == 0 {
        assert(a + b =~= a);
        assert(b.flat_map(f) =~= Seq::empty());
        assert(a.flat_map(f) + b.flat_map(f) =~= a.flat_map(f));
    } else {
        let before = b.drop_last();
        let last = b.last();
        lemma_flat_map_add(a, before, f);
        (a + before).lemma_flat_map_push(f, last);
        before.lemma_flat_map_push(f, last);
        assert((a + before).push(last) =~= a + b);
        assert(before.push(last) =~= b);
        assert((a + b).flat_map(f) =~= a.flat_map(f) + b.flat_map(f));
    }
}

pub proof fn lemma_filter_map_add<A, B>(a: Seq<A>, b: Seq<A>, f: spec_fn(A) -> Option<B>)
    ensures
        (a + b).filter_map(f) == a.filter_map(f) + b.filter_map(f),
    decreases b.len(),
{
    if b.len() == 0 {
        assert(a + b =~= a);
        assert(b.filter_map(f) =~= Seq::empty());
        assert(a.filter_map(f) + b.filter_map(f) =~= a.filter_map(f));
    } else {
        let n = b.len() - 1;
        let before = b.drop_last();
        lemma_filter_map_add(a, before, f);
        (a + b).lemma_filter_map_take_succ(f, a.len() + n);
        b.lemma_filter_map_take_succ(f, n);
        assert((a + b).take(a.len() + n + 1) =~= a + b);
        assert((a + b).take(a.len() + n) =~= a + before);
        assert(b.take(n + 1) =~= b);
        assert(b.take(n) =~= before);
        assert((a + b)[a.len() + n] == b[n]);
        assert((a + b).filter_map(f) =~= a.filter_map(f) + b.filter_map(f));
    }
}

pub proof fn lemma_filter_map_one<A, B>(a: A, f: spec_fn(A) -> Option<B>)
    ensures
        seq![a].filter_map(f) == match f(a) {
            Some(b) => seq![b],
            None => Seq::empty(),
        },
{
    Seq::lemma_filter_map_singleton(a, f);
}

/// The entry of a map under a key.
#[verifier::opaque]
pub open spec fn look(m: Map<Seq<char>, JsonView>, key: Seq<char>) -> Option<JsonView> {
    JsonView::Object(m).field(key)
}

pub proof fn lemma_look_carried(
    m: Map<Seq<char>, JsonView>,
    key: Seq<char>,
    value: Option<JsonView>,
    k: Seq<char>,
)
    ensures
        look(json::carried(m, key, value), k) == if k == key && value is Some {
            value
        } else {
            look(m, k)
        },
{
    reveal(look);
}

pub proof fn lemma_look_insert(
    m: Map<Seq<char>, JsonView>,
    key: Seq<char>,
    value: JsonView,
    k: Seq<char>,
)
    ensures
        look(m.insert(key, value), k) == if k == key {
            Some(value)
        } else {
            look(m, k)
        },
{
    reveal(look);
}

pub proof fn lemma_look(m: Map<Seq<char>, JsonView>, k: Seq<char>)
    ensures
        look(m, k) == JsonView::Object(m).field(k),
        look(Map::empty(), k) is None,
{
    reveal(look);
}

// ── Tools ──────────────────────────────────────────────────────────────────

pub proof fn lemma_tools_of(body: JsonView)
    ensures
        responses_chat::tools_of(body) == told::list(body, "tools"@),
        responses_chat::messages_of(body) == told::list(body, "messages"@),
{
    assert(responses_chat::tools_of(body) =~= told::list(body, "tools"@));
    assert(responses_chat::messages_of(body) =~= told::list(body, "messages"@));
}

// ── Responses to Chat: options and tools ───────────────────────────────────

/// Whether a model is one of OpenAI's reasoning models, which count their tokens
/// otherwise.
pub open spec fn is_reasoning_model(model: Seq<char>) -> bool {
    model.len() >= 2 && model[0] == 'o' && (model[1] == '1' || model[1] == '3' || model[1] == '4')
}

proof fn lemma_o_series(model: Seq<char>)
    ensures
        responses_chat::is_o_series(model) <==> is_reasoning_model(model),
{
    reveal_strlit("o1");
    reveal_strlit("o3");
    reveal_strlit("o4");
    if model.len() >= 2 {
        let two = model.take(2);
        assert(two[0] == model[0] && two[1] == model[1]);
        assert(model[0] == 'o' && model[1] == '1' ==> two =~= "o1"@);
        assert(model[0] == 'o' && model[1] == '3' ==> two =~= "o3"@);
        assert(model[0] == 'o' && model[1] == '4' ==> two =~= "o4"@);
    }
}

/// The entry of a chat request made from a Responses request, under a key.
spec fn chat_entry(body: JsonView, k: Seq<char>) -> Option<JsonView> {
    let tools = told::list(body, "tools"@).filter_map(
        |tool: JsonView| responses_chat::chat_tool(tool),
    );
    let limit = if is_reasoning_model(told::said(body, "model"@, ""@)) {
        "max_completion_tokens"@
    } else {
        "max_tokens"@
    };
    if k == "stream_options"@ && body.field("stream"@) == Some(JsonView::Bool(true)) {
        Some(JsonView::Object(map!["include_usage"@ => JsonView::Bool(true)]))
    } else if is_kept_option(k) && body.field(k) is Some {
        body.field(k)
    } else if k == "tool_choice"@ && tools.len() > 0 && body.field("tool_choice"@) is Some {
        Some(responses_chat::chat_tool_choice(told::at(body, "tool_choice"@)))
    } else if k == "tools"@ && tools.len() > 0 {
        Some(JsonView::Array(tools))
    } else if k == "reasoning_effort"@ && responses_chat::effort_of(body) is Some {
        responses_chat::effort_of(body)
    } else if k == limit && body.field("max_output_tokens"@) is Some {
        body.field("max_output_tokens"@)
    } else if k == "messages"@ {
        Some(JsonView::Array(responses_chat::chat_messages(body)))
    } else {
        None
    }
}

spec fn is_kept_option(k: Seq<char>) -> bool {
    ||| k == "model"@
    ||| k == "max_tokens"@
    ||| k == "max_completion_tokens"@
    ||| k == "temperature"@
    ||| k == "top_p"@
    ||| k == "stream"@
    ||| k == "metadata"@
    ||| k == "stop"@
    ||| k == "presence_penalty"@
    ||| k == "frequency_penalty"@
    ||| k == "logit_bias"@
    ||| k == "seed"@
    ||| k == "user"@
}

proof fn lemma_chat_entry(body: JsonView, k: Seq<char>)
    ensures
        JsonView::Object(responses_chat::chat_request(body)).field(k) == chat_entry(body, k),
{
    let limit = if responses_chat::is_o_series(body.text_or("model"@, ""@)) {
        "max_completion_tokens"@
    } else {
        "max_tokens"@
    };
    let tools = responses_chat::tools_of(body).filter_map(
        |tool: JsonView| responses_chat::chat_tool(tool),
    );
    let choice = match body.field("tool_choice"@) {
        Some(choice) => Some(responses_chat::chat_tool_choice(choice)),
        None => None,
    };
    lemma_tools_of(body);
    lemma_o_series(told::said(body, "model"@, ""@));
    let messages = JsonView::Array(responses_chat::chat_messages(body));
    let e = Map::<Seq<char>, JsonView>::empty();
    lemma_look(e, k);
    let r0 = json::carried(e, "model"@, body.field("model"@));
    lemma_look_carried(e, "model"@, body.field("model"@), k);
    let r1 = r0.insert("messages"@, messages);
    lemma_look_insert(r0, "messages"@, messages, k);
    let r2 = json::carried(r1, limit, body.field("max_output_tokens"@));
    lemma_look_carried(r1, limit, body.field("max_output_tokens"@), k);
    let r3 = json::carried(r2, "max_tokens"@, body.field("max_tokens"@));
    lemma_look_carried(r2, "max_tokens"@, body.field("max_tokens"@), k);
    let r4 = json::carried(r3, "max_completion_tokens"@, body.field("max_completion_tokens"@));
    lemma_look_carried(r3, "max_completion_tokens"@, body.field("max_completion_tokens"@), k);
    let r5 = json::carried(r4, "temperature"@, body.field("temperature"@));
    lemma_look_carried(r4, "temperature"@, body.field("temperature"@), k);
    let r6 = json::carried(r5, "top_p"@, body.field("top_p"@));
    lemma_look_carried(r5, "top_p"@, body.field("top_p"@), k);
    let r7 = json::carried(r6, "stream"@, body.field("stream"@));
    lemma_look_carried(r6, "stream"@, body.field("stream"@), k);
    let r8 = json::carried(r7, "reasoning_effort"@, responses_chat::effort_of(body));
    lemma_look_carried(r7, "reasoning_effort"@, responses_chat::effort_of(body), k);
    let with_tools = r8.insert("tools"@, JsonView::Array(tools));
    lemma_look_insert(r8, "tools"@, JsonView::Array(tools), k);
    lemma_look_carried(with_tools, "tool_choice"@, choice, k);
    let r9 = if tools.len() > 0 {
        json::carried(with_tools, "tool_choice"@, choice)
    } else {
        r8
    };
    let r10 = json::carried(r9, "metadata"@, body.field("metadata"@));
    lemma_look_carried(r9, "metadata"@, body.field("metadata"@), k);
    let r11 = json::carried(r10, "stop"@, body.field("stop"@));
    lemma_look_carried(r10, "stop"@, body.field("stop"@), k);
    let r12 = json::carried(r11, "presence_penalty"@, body.field("presence_penalty"@));
    lemma_look_carried(r11, "presence_penalty"@, body.field("presence_penalty"@), k);
    let r13 = json::carried(r12, "frequency_penalty"@, body.field("frequency_penalty"@));
    lemma_look_carried(r12, "frequency_penalty"@, body.field("frequency_penalty"@), k);
    let r14 = json::carried(r13, "logit_bias"@, body.field("logit_bias"@));
    lemma_look_carried(r13, "logit_bias"@, body.field("logit_bias"@), k);
    let r15 = json::carried(r14, "seed"@, body.field("seed"@));
    lemma_look_carried(r14, "seed"@, body.field("seed"@), k);
    let r16 = json::carried(r15, "user"@, body.field("user"@));
    lemma_look_carried(r15, "user"@, body.field("user"@), k);
    let options = JsonView::Object(map!["include_usage"@ => JsonView::Bool(true)]);
    lemma_look_insert(r16, "stream_options"@, options, k);
    lemma_look(responses_chat::chat_request(body), k);
    literals::lemma_literals();
}

/// The options that a chat request shares with the Responses request it was made
/// from.
pub proof fn lemma_responses_to_chat_options(body: JsonView)
    ensures
        ({
            let r = JsonView::Object(responses_chat::chat_request(body));
            &&& r.field("model"@) == body.field("model"@)
            &&& r.field("temperature"@) == body.field("temperature"@)
            &&& r.field("top_p"@) == body.field("top_p"@)
            &&& r.field("stream"@) == body.field("stream"@)
            &&& r.field("metadata"@) == body.field("metadata"@)
            &&& r.field("stop"@) == body.field("stop"@)
            &&& r.field("presence_penalty"@) == body.field("presence_penalty"@)
            &&& r.field("frequency_penalty"@) == body.field("frequency_penalty"@)
            &&& r.field("logit_bias"@) == body.field("logit_bias"@)
            &&& r.field("seed"@) == body.field("seed"@)
            &&& r.field("user"@) == body.field("user"@)
        }),
{
    lemma_chat_entry(body, "model"@);
    lemma_chat_entry(body, "temperature"@);
    lemma_chat_entry(body, "top_p"@);
    lemma_chat_entry(body, "stream"@);
    lemma_chat_entry(body, "metadata"@);
    lemma_chat_entry(body, "stop"@);
    lemma_chat_entry(body, "presence_penalty"@);
    lemma_chat_entry(body, "frequency_penalty"@);
    lemma_chat_entry(body, "logit_bias"@);
    lemma_chat_entry(body, "seed"@);
    lemma_chat_entry(body, "user"@);
    literals::lemma_literals();
}

/// The limits, the reasoning effort and the usage option of a chat request made
/// from a Responses request. Reasoning models take their limit under another name.
pub proof fn lemma_responses_to_chat_limits(body: JsonView)
    ensures
        ({
            let r = JsonView::Object(responses_chat::chat_request(body));
            let reasoning = is_reasoning_model(told::said(body, "model"@, ""@));
            &&& r.field("max_tokens"@) == if body.field("max_tokens"@) is Some || reasoning {
                body.field("max_tokens"@)
            } else {
                body.field("max_output_tokens"@)
            }
            &&& r.field("max_completion_tokens"@) == if body.field("max_completion_tokens"@) is Some
                || !reasoning {
                body.field("max_completion_tokens"@)
            } else {
                body.field("max_output_tokens"@)
            }
            &&& r.field("reasoning_effort"@) == match told::at(body, "reasoning"@).field("effort"@) {
                Some(JsonView::String(effort)) => Some(JsonView::String(effort)),
                _ => None,
            }
            &&& told::at(r, "stream_options"@).field("include_usage"@) == if body.field("stream"@) == Some(
                JsonView::Bool(true),
            ) {
                Some(JsonView::Bool(true))
            } else {
                None
            }
        }),
{
    lemma_chat_entry(body, "max_tokens"@);
    lemma_chat_entry(body, "max_completion_tokens"@);
    lemma_chat_entry(body, "reasoning_effort"@);
    lemma_chat_entry(body, "stream_options"@);
    literals::lemma_literals();
}

/// Whether a chat tool declares a function with a name, a description and
/// parameters.
pub open spec fn declares_chat(
    tool: JsonView,
    name: JsonView,
    description: JsonView,
    parameters: JsonView,
) -> bool {
    let function = told::at(tool, "function"@);
    &&& told::is_type(tool, "function"@)
    &&& function.field("name"@) == Some(name)
    &&& function.field("description"@) == Some(description)
    &&& function.field("parameters"@) == Some(parameters)
}

/// The tools of a chat request made from a Responses request: every function, with
/// its name, description and parameters; and the choice among them.
pub proof fn lemma_responses_to_chat_tools(body: JsonView)
    ensures
        ({
            let r = JsonView::Object(responses_chat::chat_request(body));
            let functions = told::typed(told::list(body, "tools"@), "function"@);
            let tools = told::list(r, "tools"@);
            let choice = told::at(body, "tool_choice"@);
            &&& tools.len() == functions.len()
            &&& functions.len() == 0 ==> r.field("tools"@) is None && r.field(
                "tool_choice"@,
            ) is None
            &&& forall|j: int|
                0 <= j < functions.len() ==> declares_chat(
                    tools[j],
                    JsonView::text(told::said(#[trigger] functions[j], "name"@, ""@)),
                    JsonView::text(told::said(functions[j], "description"@, ""@)),
                    functions[j].field_or("parameters"@, told::empty_object()),
                )
            &&& functions.len() > 0 && body.field("tool_choice"@) is Some ==> {
                let chosen = told::at(r, "tool_choice"@);
                &&& choice is String ==> chosen == choice
                &&& choice.field("name"@) matches Some(JsonView::String(name)) ==> told::is_type(
                    chosen,
                    "function"@,
                ) && told::says(told::at(chosen, "function"@), "name"@, name)
                &&& !(choice is String) && !(choice.field("name"@) is Some && choice.field(
                    "name"@,
                )->0 is String) ==> chosen == JsonView::text("auto"@)
            }
        }),
{
    lemma_chat_entry(body, "tools"@);
    lemma_chat_entry(body, "tool_choice"@);
    literals::lemma_literals();
    let declared = told::list(body, "tools"@);
    let wanted = |tool: JsonView| told::is_type(tool, "function"@);
    let pick = |tool: JsonView| responses_chat::chat_tool(tool);
    let image = |tool: JsonView| responses_chat::chat_tool(tool)->0;
    told::lemma_filter_map_as_filter(declared, pick, wanted, image);
    let functions = declared.filter(wanted);
    let r = JsonView::Object(responses_chat::chat_request(body));
    let tools = told::list(r, "tools"@);
    assert(tools =~= functions.map_values(image));
    assert forall|j: int| 0 <= j < functions.len() implies declares_chat(
        tools[j],
        JsonView::text(told::said(#[trigger] functions[j], "name"@, ""@)),
        JsonView::text(told::said(functions[j], "description"@, ""@)),
        functions[j].field_or("parameters"@, told::empty_object()),
    ) by {
        declared.lemma_filter_pred(wanted, j);
    }
}

// ── Responses to Chat: the conversation ────────────────────────────────────

/// The items of a Responses input: a list, or one item or text.
pub open spec fn input_of(body: JsonView) -> Seq<JsonView> {
    match body.field("input"@) {
        Some(JsonView::Array(items)) => items,
        Some(JsonView::Object(entries)) => seq![JsonView::Object(entries)],
        Some(JsonView::String(s)) => seq![JsonView::String(s)],
        _ => Seq::empty(),
    }
}

/// Whether an item of a Responses input is a tool call.
pub open spec fn is_call_item(item: JsonView) -> bool {
    told::is_type(item, "function_call"@) || told::is_type(item, "custom_tool_call"@)
        || told::is_type(item, "local_shell_call"@)
}

/// Whether an item of a Responses input is the result of a tool call.
pub open spec fn is_result_item(item: JsonView) -> bool {
    told::is_type(item, "function_call_output"@)
}

/// Whether an item of a Responses input is a message.
pub open spec fn is_message_item(item: JsonView) -> bool {
    told::is_type(item, "message"@) || (!is_call_item(item) && !is_result_item(item) && item.field(
        "role"@,
    ) is Some)
}

/// The role under which a message is told in a chat request.
pub open spec fn told_role(item: JsonView) -> Seq<char> {
    let role = told::said(item, "role"@, "user"@);
    if role == "developer"@ {
        "system"@
    } else {
        role
    }
}

/// What a part of a message shows: its text, or that it is an image.
pub open spec fn shown_part(part: JsonView) -> Option<Seq<char>> {
    if told::is_type(part, "input_image"@) {
        Some("[image]"@)
    } else {
        match part.field("text"@) {
            Some(JsonView::String(s)) => Some(s),
            _ => None,
        }
    }
}

/// The text of a message of a Responses input, its parts on lines of their own.
pub open spec fn told_text(item: JsonView) -> Seq<char> {
    match item.field("content"@) {
        Some(JsonView::String(s)) => s,
        Some(JsonView::Array(parts)) => text::joined(
            parts.filter_map(|part: JsonView| shown_part(part)),
            "\n"@,
        ),
        _ => Seq::empty(),
    }
}

/// What an item of a Responses input says, and who says it. The system is left
/// out.
pub open spec fn item_speech(item: JsonView) -> Seq<(Seq<char>, Seq<char>)> {
    if is_message_item(item) {
        if told_role(item) == "system"@ {
            Seq::empty()
        } else {
            seq![(told_role(item), told_text(item))]
        }
    } else {
        match item {
            JsonView::String(s) => seq![("user"@, s)],
            _ => Seq::empty(),
        }
    }
}

/// What a chat message says, and who says it. The system, tool calls and their
/// results are left out.
pub open spec fn message_speech(message: JsonView) -> Seq<(Seq<char>, Seq<char>)> {
    if told::says(message, "role"@, "system"@) || message.field("tool_calls"@) is Some
        || message.field("tool_call_id"@) is Some {
        Seq::empty()
    } else {
        seq![(told::said(message, "role"@, ""@), told::said(message, "content"@, ""@))]
    }
}

/// The result of a tool call that an item of a Responses input gives.
pub open spec fn item_result(item: JsonView) -> Seq<(Seq<char>, Seq<char>)> {
    if is_result_item(item) {
        seq![(told::said(item, "call_id"@, ""@), told::said(item, "output"@, ""@))]
    } else {
        Seq::empty()
    }
}

/// The result of a tool call that a chat message gives.
pub open spec fn message_result(message: JsonView) -> Seq<(Seq<char>, Seq<char>)> {
    if message.field("tool_call_id"@) is Some && told::says(message, "role"@, "tool"@) {
        seq![(told::said(message, "tool_call_id"@, ""@), told::said(message, "content"@, ""@))]
    } else {
        Seq::empty()
    }
}

/// A tool call: its identifier, its name and its arguments.
pub struct CallTold {
    pub id: Seq<char>,
    pub name: Seq<char>,
    pub arguments: Seq<char>,
}

/// The tool call that an item of a Responses input makes.
pub open spec fn item_call(item: JsonView) -> Seq<CallTold> {
    if is_call_item(item) {
        seq![
            CallTold {
                id: told::said(item, "call_id"@, ""@),
                name: told::said(item, "name"@, ""@),
                arguments: told::said(item, "arguments"@, "{}"@),
            },
        ]
    } else {
        Seq::empty()
    }
}

/// A tool call of a chat message.
pub open spec fn chat_call(call: JsonView) -> CallTold {
    let function = told::at(call, "function"@);
    CallTold {
        id: told::said(call, "id"@, ""@),
        name: told::said(function, "name"@, ""@),
        arguments: told::said(function, "arguments"@, ""@),
    }
}

/// The tool calls that a chat message makes. The system makes none.
pub open spec fn message_calls(message: JsonView) -> Seq<CallTold> {
    if told::says(message, "role"@, "system"@) {
        Seq::empty()
    } else {
        told::list(message, "tool_calls"@).map_values(|call: JsonView| chat_call(call))
    }
}

/// What the system says in an item of a Responses input.
pub open spec fn item_system(item: JsonView) -> Seq<Seq<char>> {
    if is_message_item(item) && told_role(item) == "system"@ {
        seq![told_text(item)]
    } else {
        Seq::empty()
    }
}

/// What the system says in a chat message.
pub open spec fn message_system(message: JsonView) -> Seq<Seq<char>> {
    match message.field("content"@) {
        Some(JsonView::String(s)) if told::says(message, "role"@, "system"@) => seq![s],
        _ => Seq::empty(),
    }
}

/// The message that an item of a Responses input becomes, if it becomes one.
spec fn produced(item: JsonView) -> Seq<JsonView> {
    if is_message_item(item) {
        seq![responses_chat::role_message(item)]
    } else if is_call_item(item) {
        Seq::empty()
    } else if is_result_item(item) {
        seq![
            JsonView::Object(
                map![
                    "role"@ => JsonView::text("tool"@),
                    "tool_call_id"@ => JsonView::text(item.text_or("call_id"@, ""@)),
                    "content"@ => JsonView::text(item.text_or("output"@, ""@)),
                ],
            ),
        ]
    } else {
        match item {
            JsonView::String(s) => seq![responses_chat::chat_message("user"@, s)],
            _ => Seq::empty(),
        }
    }
}

/// The message that makes tool calls.
spec fn call_message(calls: Seq<JsonView>) -> JsonView {
    JsonView::Object(
        map![
            "role"@ => JsonView::text("assistant"@),
            "tool_calls"@ => JsonView::Array(calls),
        ],
    )
}

proof fn lemma_turns_after<T>(
    t: responses_chat::Turns,
    item: JsonView,
    f: spec_fn(JsonView) -> Seq<T>,
)
    requires
        forall|calls: Seq<JsonView>| f(#[trigger] call_message(calls)).len() == 0,
    ensures
        t.flushed().messages.flat_map(f) == t.messages.flat_map(f),
        t.after(item).messages.flat_map(f) == t.messages.flat_map(f) + produced(item).flat_map(f),
{
    literals::lemma_literals();
    let flushed = t.flushed();
    if t.pending.len() > 0 {
        t.messages.lemma_flat_map_push(f, call_message(t.pending));
        assert(f(call_message(t.pending)).len() == 0);
        assert(flushed.messages == t.messages.push(call_message(t.pending)));
        assert(flushed.messages.flat_map(f) =~= t.messages.flat_map(f));
    }
    let made = produced(item);
    if made.len() > 0 {
        made.lemma_flat_map_singleton(f);
        flushed.messages.lemma_flat_map_push(f, made[0]);
        t.messages.lemma_flat_map_push(f, made[0]);
        assert(t.after(item).messages =~= flushed.messages.push(made[0]) || t.after(item).messages
            =~= t.messages.push(made[0]));
    } else {
        assert(made.flat_map(f) =~= Seq::empty());
        assert(t.messages.flat_map(f) + made.flat_map(f) =~= t.messages.flat_map(f));
        assert(t.after(item).messages == t.messages);
    }
}

proof fn lemma_turns_fold<T>(
    t: responses_chat::Turns,
    items: Seq<JsonView>,
    f: spec_fn(JsonView) -> Seq<T>,
    e: spec_fn(JsonView) -> Seq<T>,
)
    requires
        forall|calls: Seq<JsonView>| f(#[trigger] call_message(calls)).len() == 0,
        forall|item: JsonView| #[trigger] e(item) == produced(item).flat_map(f),
    ensures
        items.fold_left(
            t,
            |turns: responses_chat::Turns, item: JsonView| turns.after(item),
        ).messages.flat_map(f) == t.messages.flat_map(f) + items.flat_map(e),
    decreases items.len(),
{
    let step = |turns: responses_chat::Turns, item: JsonView| turns.after(item);
    if items.len() == 0 {
        assert(items.flat_map(e) =~= Seq::empty());
        assert(t.messages.flat_map(f) + items.flat_map(e) =~= t.messages.flat_map(f));
    } else {
        let before = items.drop_last();
        let last = items.last();
        lemma_turns_fold(t, before, f, e);
        lemma_turns_after(before.fold_left(t, step), last, f);
        before.lemma_flat_map_push(e, last);
        assert(before.push(last) =~= items);
        assert(e(last) == produced(last).flat_map(f));
        assert(items.fold_left(t, step).messages.flat_map(f) =~= t.messages.flat_map(f)
            + items.flat_map(e));
    }
}

/// The system message that a chat request begins with, and the state before its
/// input.
spec fn head_of(body: JsonView) -> Seq<JsonView> {
    let instructions = match body.field("instructions"@) {
        Some(v) => responses_chat::prompt_of(v),
        None => Seq::empty(),
    };
    if instructions.len() > 0 {
        seq![responses_chat::chat_message("system"@, instructions)]
    } else {
        Seq::empty()
    }
}

/// The messages of a chat request before the system messages are gathered.
spec fn gathered(body: JsonView) -> Seq<JsonView> {
    let turns = responses_chat::Turns { messages: head_of(body), pending: Seq::empty() };
    match body.field("input"@) {
        Some(input) => turns.after_input(input).flushed().messages,
        None => head_of(body),
    }
}

proof fn lemma_gathered(body: JsonView)
    ensures
        ({
            let start = responses_chat::Turns { messages: head_of(body), pending: Seq::empty() };
            let end = input_of(body).fold_left(
                start,
                |turns: responses_chat::Turns, item: JsonView| turns.after(item),
            );
            &&& gathered(body) == end.flushed().messages
            &&& responses_chat::chat_messages(body) == responses_chat::collapsed(gathered(body))
        }),
{
    let start = responses_chat::Turns { messages: head_of(body), pending: Seq::empty() };
    let step = |turns: responses_chat::Turns, item: JsonView| turns.after(item);
    let items = input_of(body);
    if items.len() == 1 {
        assert(items.drop_last() =~= Seq::empty());
        assert(items.drop_last().fold_left(start, step) == start);
        assert(items.fold_left(start, step) == start.after(items[0]));
    }
    match body.field("input"@) {
        Some(JsonView::String(s)) => {
            assert(start.after(JsonView::String(s)) == start.after_input(JsonView::String(s)));
        },
        _ => {},
    }
}

proof fn lemma_gathered_shows<T>(
    body: JsonView,
    f: spec_fn(JsonView) -> Seq<T>,
    e: spec_fn(JsonView) -> Seq<T>,
)
    requires
        forall|calls: Seq<JsonView>| f(#[trigger] call_message(calls)).len() == 0,
        forall|item: JsonView| #[trigger] e(item) == produced(item).flat_map(f),
    ensures
        gathered(body).flat_map(f) == head_of(body).flat_map(f) + input_of(body).flat_map(e),
{
    let start = responses_chat::Turns { messages: head_of(body), pending: Seq::empty() };
    let step = |turns: responses_chat::Turns, item: JsonView| turns.after(item);
    let end = input_of(body).fold_left(start, step);
    lemma_gathered(body);
    lemma_turns_fold(start, input_of(body), f, e);
    lemma_turns_after(end, JsonView::Null, f);
}

/// To gather the system messages changes nothing that others say.
proof fn lemma_collapsed_shows<T>(messages: Seq<JsonView>, f: spec_fn(JsonView) -> Seq<T>)
    requires
        forall|m: JsonView| responses_chat::is_system(m) ==> (#[trigger] f(m)).len() == 0,
    ensures
        responses_chat::collapsed(messages).flat_map(f) == messages.flat_map(f),
{
    literals::lemma_literals();
    let is_system = |message: JsonView| responses_chat::is_system(message);
    let no_system = |message: JsonView| !responses_chat::is_system(message);
    let first = responses_chat::first_system(messages);
    crate::lists::lemma_first_where_found(messages, is_system);
    if first < messages.len() {
        let head = messages.take(first);
        let rest = messages.skip(first + 1);
        let merged = responses_chat::collapsed(messages)[first];
        assert(is_system(messages[first]));
        assert(responses_chat::is_system(merged));
        assert(responses_chat::collapsed(messages) == head.push(merged) + rest.filter(no_system));
        assert(messages =~= head.push(messages[first]) + rest);
        lemma_flat_map_add(head.push(merged), rest.filter(no_system), f);
        lemma_flat_map_add(head.push(messages[first]), rest, f);
        head.lemma_flat_map_push(f, merged);
        head.lemma_flat_map_push(f, messages[first]);
        lemma_filter_flat_map(rest, no_system, f);
        assert(head.push(merged).flat_map(f) =~= head.push(messages[first]).flat_map(f));
    }
}

proof fn lemma_filter_flat_map<A, B>(
    items: Seq<A>,
    wanted: spec_fn(A) -> bool,
    f: spec_fn(A) -> Seq<B>,
)
    requires
        forall|a: A| !wanted(a) ==> (#[trigger] f(a)).len() == 0,
    ensures
        items.filter(wanted).flat_map(f) == items.flat_map(f),
    decreases items.len(),
{
    reveal(Seq::filter);
    if items.len() == 0 {
        assert(items.filter(wanted) =~= items);
    } else {
        let before = items.drop_last();
        let last = items.last();
        lemma_filter_flat_map(before, wanted, f);
        assert(before.push(last) =~= items);
        before.lemma_flat_map_push(f, last);
        before.filter(wanted).lemma_flat_map_push(f, last);
        before.lemma_filter_push(last, wanted);
        assert(items.filter(wanted).flat_map(f) =~= items.flat_map(f));
    }
}

proof fn lemma_told_text(item: JsonView)
    ensures
        responses_chat::chat_text(item) == told_text(item),
{
    match item.field("content"@) {
        Some(JsonView::Array(parts)) => {
            lemma_same_filter_map(
                parts,
                |part: JsonView| responses_chat::part_text(part),
                |part: JsonView| shown_part(part),
            );
        },
        _ => {},
    }
}

pub proof fn lemma_same_filter_map<A, B>(
    items: Seq<A>,
    f: spec_fn(A) -> Option<B>,
    g: spec_fn(A) -> Option<B>,
)
    requires
        forall|a: A| #[trigger] f(a) == g(a),
    ensures
        items.filter_map(f) == items.filter_map(g),
    decreases items.len(),
{
    if items.len() > 0 {
        let n = items.len() - 1;
        items.lemma_filter_map_take_succ(f, n);
        items.lemma_filter_map_take_succ(g, n);
        assert(items.take(n + 1) =~= items);
        lemma_same_filter_map(items.take(n), f, g);
        assert(f(items[n]) == g(items[n]));
        assert(items.filter_map(f) =~= items.filter_map(g));
    } else {
        assert(items.filter_map(f) =~= items.filter_map(g));
    }
}

proof fn lemma_produced(item: JsonView)
    ensures
        produced(item).flat_map(|m: JsonView| message_speech(m)) == item_speech(item),
        produced(item).flat_map(|m: JsonView| message_result(m)) == item_result(item),
        produced(item).flat_map(|m: JsonView| message_system(m)) == item_system(item),
{
    literals::lemma_literals();
    lemma_told_text(item);
    let made = produced(item);
    let speech = |m: JsonView| message_speech(m);
    let result = |m: JsonView| message_result(m);
    let system = |m: JsonView| message_system(m);
    if made.len() > 0 {
        made.lemma_flat_map_singleton(speech);
        made.lemma_flat_map_singleton(result);
        made.lemma_flat_map_singleton(system);
    } else {
        assert(made.flat_map(speech) =~= Seq::empty());
        assert(made.flat_map(result) =~= Seq::empty());
        assert(made.flat_map(system) =~= Seq::empty());
    }
}

/// The conversation of a Responses request is that of the chat request made from
/// it: who says what, in the same order, and the results of tool calls, each under
/// the identifier of its call.
pub proof fn lemma_responses_to_chat_conversation(body: JsonView)
    ensures
        ({
            let messages = told::list(
                JsonView::Object(responses_chat::chat_request(body)),
                "messages"@,
            );
            &&& messages.flat_map(|m: JsonView| message_speech(m)) == input_of(body).flat_map(
                |item: JsonView| item_speech(item),
            )
            &&& messages.flat_map(|m: JsonView| message_result(m)) == input_of(body).flat_map(
                |item: JsonView| item_result(item),
            )
        }),
{
    literals::lemma_literals();
    lemma_chat_entry(body, "messages"@);
    lemma_gathered(body);
    let speech = |m: JsonView| message_speech(m);
    let result = |m: JsonView| message_result(m);
    let item_says = |item: JsonView| item_speech(item);
    let item_gives = |item: JsonView| item_result(item);
    assert forall|item: JsonView| #[trigger] item_says(item) == produced(item).flat_map(speech) by {
        lemma_produced(item);
    }
    assert forall|item: JsonView| #[trigger] item_gives(item) == produced(item).flat_map(
        result,
    ) by {
        lemma_produced(item);
    }
    lemma_gathered_shows(body, speech, item_says);
    lemma_gathered_shows(body, result, item_gives);
    lemma_collapsed_shows(gathered(body), speech);
    lemma_collapsed_shows(gathered(body), result);
    let head = head_of(body);
    if head.len() > 0 {
        head.lemma_flat_map_singleton(speech);
        head.lemma_flat_map_singleton(result);
    }
    assert(head.flat_map(speech) =~= Seq::empty());
    assert(head.flat_map(result) =~= Seq::empty());
    assert(head.flat_map(speech) + input_of(body).flat_map(item_says) =~= input_of(body).flat_map(
        item_says,
    ));
    assert(head.flat_map(result) + input_of(body).flat_map(item_gives) =~= input_of(
        body,
    ).flat_map(item_gives));
}

/// The tool calls that messages and pending calls make.
spec fn turn_calls(t: responses_chat::Turns) -> Seq<CallTold> {
    t.messages.flat_map(|m: JsonView| message_calls(m)) + t.pending.map_values(
        |call: JsonView| chat_call(call),
    )
}

proof fn lemma_turn_calls(t: responses_chat::Turns, item: JsonView)
    ensures
        turn_calls(t.flushed()) == turn_calls(t),
        turn_calls(t.after(item)) == turn_calls(t) + item_call(item),
{
    literals::lemma_literals();
    let f = |m: JsonView| message_calls(m);
    let g = |call: JsonView| chat_call(call);
    let flushed = t.flushed();
    if t.pending.len() > 0 {
        t.messages.lemma_flat_map_push(f, call_message(t.pending));
        assert(f(call_message(t.pending)) == t.pending.map_values(g));
        assert(flushed.messages == t.messages.push(call_message(t.pending)));
        assert(turn_calls(flushed) =~= turn_calls(t));
    }
    let made = produced(item);
    let after = t.after(item);
    if made.len() > 0 {
        assert(f(made[0]) =~= Seq::empty());
        flushed.messages.lemma_flat_map_push(f, made[0]);
        t.messages.lemma_flat_map_push(f, made[0]);
        assert(item_call(item) =~= Seq::empty());
        assert(after.messages =~= flushed.messages.push(made[0]) || after.messages
            =~= t.messages.push(made[0]));
        assert(turn_calls(after) =~= turn_calls(t) + item_call(item));
    } else if is_call_item(item) {
        let call = after.pending.last();
        assert(after.pending =~= t.pending.push(call));
        assert(seq![chat_call(call)] =~= item_call(item));
        assert(turn_calls(after) =~= turn_calls(t) + item_call(item));
    } else {
        assert(turn_calls(after) =~= turn_calls(t) + item_call(item));
    }
}

proof fn lemma_fold_calls(t: responses_chat::Turns, items: Seq<JsonView>)
    ensures
        turn_calls(
            items.fold_left(
                t,
                |turns: responses_chat::Turns, item: JsonView| turns.after(item),
            ),
        ) == turn_calls(t) + items.flat_map(|item: JsonView| item_call(item)),
    decreases items.len(),
{
    let step = |turns: responses_chat::Turns, item: JsonView| turns.after(item);
    let e = |item: JsonView| item_call(item);
    if items.len() == 0 {
        assert(items.flat_map(e) =~= Seq::empty());
        assert(turn_calls(t) + items.flat_map(e) =~= turn_calls(t));
    } else {
        let before = items.drop_last();
        let last = items.last();
        lemma_fold_calls(t, before);
        lemma_turn_calls(before.fold_left(t, step), last);
        before.lemma_flat_map_push(e, last);
        assert(before.push(last) =~= items);
        assert(turn_calls(items.fold_left(t, step)) =~= turn_calls(t) + items.flat_map(e));
    }
}

/// Every tool call of a Responses request is made in the chat request made from
/// it, with its own identifier, name and arguments, in the same order.
pub proof fn lemma_responses_to_chat_calls(body: JsonView)
    ensures
        told::list(
            JsonView::Object(responses_chat::chat_request(body)),
            "messages"@,
        ).flat_map(|m: JsonView| message_calls(m)) == input_of(body).flat_map(
            |item: JsonView| item_call(item),
        ),
{
    literals::lemma_literals();
    lemma_chat_entry(body, "messages"@);
    lemma_gathered(body);
    let f = |m: JsonView| message_calls(m);
    let e = |item: JsonView| item_call(item);
    let start = responses_chat::Turns { messages: head_of(body), pending: Seq::empty() };
    let step = |turns: responses_chat::Turns, item: JsonView| turns.after(item);
    let end = input_of(body).fold_left(start, step);
    let head = head_of(body);
    if head.len() > 0 {
        head.lemma_flat_map_singleton(f);
        assert(f(head[0]) =~= Seq::empty());
    }
    assert(head.flat_map(f) =~= Seq::empty());
    assert(turn_calls(start) =~= Seq::empty());
    lemma_fold_calls(start, input_of(body));
    lemma_turn_calls(end, JsonView::Null);
    assert(turn_calls(end.flushed()) =~= end.flushed().messages.flat_map(f));
    lemma_collapsed_shows(gathered(body), f);
    assert(turn_calls(start) + input_of(body).flat_map(e) =~= input_of(body).flat_map(e));
}

/// One act of a conversation.
pub enum Act {
    /// Someone says a text.
    Said(Seq<char>, Seq<char>),
    /// A tool is called.
    Called(CallTold),
    /// The call of an identifier has a result.
    Gave(Seq<char>, Seq<char>),
}

/// The acts of an item of a Responses input. The system is left out.
pub open spec fn item_acts(item: JsonView) -> Seq<Act> {
    item_speech(item).map_values(|s: (Seq<char>, Seq<char>)| Act::Said(s.0, s.1))
        + item_call(item).map_values(|c: CallTold| Act::Called(c)) + item_result(item).map_values(
        |s: (Seq<char>, Seq<char>)| Act::Gave(s.0, s.1),
    )
}

/// The acts of a chat message. The system is left out.
pub open spec fn message_acts(message: JsonView) -> Seq<Act> {
    message_speech(message).map_values(|s: (Seq<char>, Seq<char>)| Act::Said(s.0, s.1))
        + message_calls(message).map_values(|c: CallTold| Act::Called(c)) + message_result(
        message,
    ).map_values(|s: (Seq<char>, Seq<char>)| Act::Gave(s.0, s.1))
}

spec fn turn_acts(t: responses_chat::Turns) -> Seq<Act> {
    t.messages.flat_map(|m: JsonView| message_acts(m)) + t.pending.map_values(
        |call: JsonView| Act::Called(chat_call(call)),
    )
}

proof fn lemma_turn_acts(t: responses_chat::Turns, item: JsonView)
    ensures
        turn_acts(t.flushed()) == turn_acts(t),
        !(item is String) ==> turn_acts(t.after(item)) == turn_acts(t) + item_acts(item),
{
    literals::lemma_literals();
    let f = |m: JsonView| message_acts(m);
    let g = |call: JsonView| Act::Called(chat_call(call));
    let flushed = t.flushed();
    if t.pending.len() > 0 {
        t.messages.lemma_flat_map_push(f, call_message(t.pending));
        assert(f(call_message(t.pending)) =~= t.pending.map_values(g));
        assert(flushed.messages == t.messages.push(call_message(t.pending)));
        assert(turn_acts(flushed) =~= turn_acts(t));
    }
    if !(item is String) {
        let made = produced(item);
        let after = t.after(item);
        if made.len() > 0 {
            lemma_produced(item);
            made.lemma_flat_map_singleton(|m: JsonView| message_speech(m));
            made.lemma_flat_map_singleton(|m: JsonView| message_result(m));
            assert(message_calls(made[0]) =~= Seq::empty());
            assert(f(made[0]) =~= item_acts(item));
            flushed.messages.lemma_flat_map_push(f, made[0]);
            assert(after.messages =~= flushed.messages.push(made[0]));
            assert(turn_acts(after) =~= turn_acts(t) + item_acts(item));
        } else if is_call_item(item) {
            let call = after.pending.last();
            assert(after.pending =~= t.pending.push(call));
            assert(chat_call(call) == item_call(item)[0]);
            assert(item_acts(item) =~= seq![Act::Called(chat_call(call))]);
            assert(turn_acts(after) =~= turn_acts(t) + item_acts(item));
        } else {
            assert(item_acts(item) =~= Seq::empty());
            assert(turn_acts(after) =~= turn_acts(t) + item_acts(item));
        }
    }
}

proof fn lemma_fold_acts(t: responses_chat::Turns, items: Seq<JsonView>)
    requires
        forall|i: int| 0 <= i < items.len() ==> !(#[trigger] items[i] is String),
    ensures
        turn_acts(
            items.fold_left(
                t,
                |turns: responses_chat::Turns, item: JsonView| turns.after(item),
            ),
        ) == turn_acts(t) + items.flat_map(|item: JsonView| item_acts(item)),
    decreases items.len(),
{
    let step = |turns: responses_chat::Turns, item: JsonView| turns.after(item);
    let e = |item: JsonView| item_acts(item);
    if items.len() == 0 {
        assert(items.flat_map(e) =~= Seq::empty());
        assert(turn_acts(t) + items.flat_map(e) =~= turn_acts(t));
    } else {
        let before = items.drop_last();
        let last = items.last();
        lemma_fold_acts(t, before);
        lemma_turn_acts(before.fold_left(t, step), last);
        before.lemma_flat_map_push(e, last);
        assert(before.push(last) =~= items);
        assert(turn_acts(items.fold_left(t, step)) =~= turn_acts(t) + items.flat_map(e));
    }
}

/// What is said, called and given back in a Responses request happens in the
/// same order in the chat request made from it. A bare text between calls and
/// their results is said before the calls, and left out here.
pub proof fn lemma_responses_to_chat_order(body: JsonView)
    requires
        forall|i: int| 0 <= i < input_of(body).len() ==> !(#[trigger] input_of(body)[i] is String),
    ensures
        told::list(
            JsonView::Object(responses_chat::chat_request(body)),
            "messages"@,
        ).flat_map(|m: JsonView| message_acts(m)) == input_of(body).flat_map(
            |item: JsonView| item_acts(item),
        ),
{
    literals::lemma_literals();
    lemma_chat_entry(body, "messages"@);
    lemma_gathered(body);
    let f = |m: JsonView| message_acts(m);
    let e = |item: JsonView| item_acts(item);
    let start = responses_chat::Turns { messages: head_of(body), pending: Seq::empty() };
    let step = |turns: responses_chat::Turns, item: JsonView| turns.after(item);
    let end = input_of(body).fold_left(start, step);
    let head = head_of(body);
    if head.len() > 0 {
        head.lemma_flat_map_singleton(f);
        assert(f(head[0]) =~= Seq::empty());
    }
    assert(head.flat_map(f) =~= Seq::empty());
    assert(turn_acts(start) =~= Seq::empty());
    lemma_fold_acts(start, input_of(body));
    lemma_turn_acts(end, JsonView::Null);
    assert(turn_acts(end.flushed()) =~= end.flushed().messages.flat_map(f));
    lemma_collapsed_shows(gathered(body), f);
    assert(turn_acts(start) + input_of(body).flat_map(e) =~= input_of(body).flat_map(e));
}

proof fn lemma_system_texts(messages: Seq<JsonView>)
    ensures
        messages.filter_map(|m: JsonView| responses_chat::system_text(m)) == messages.flat_map(
            |m: JsonView| message_system(m),
        ),
    decreases messages.len(),
{
    let f = |m: JsonView| responses_chat::system_text(m);
    let g = |m: JsonView| message_system(m);
    if messages.len() > 0 {
        let n = messages.len() - 1;
        messages.lemma_filter_map_take_succ(f, n);
        assert(messages.take(n + 1) =~= messages);
        lemma_system_texts(messages.take(n));
        messages.take(n).lemma_flat_map_push(g, messages[n]);
        assert(messages.take(n).push(messages[n]) =~= messages);
        assert(messages.filter_map(f) =~= messages.flat_map(g));
    } else {
        assert(messages.filter_map(f) =~= Seq::empty());
        assert(messages.flat_map(g) =~= Seq::empty());
    }
}

pub proof fn lemma_no_flat_map<A, B>(items: Seq<A>, f: spec_fn(A) -> Seq<B>)
    requires
        forall|i: int| 0 <= i < items.len() ==> f(#[trigger] items[i]).len() == 0,
    ensures
        items.flat_map(f) == Seq::<B>::empty(),
    decreases items.len(),
{
    if items.len() > 0 {
        let before = items.drop_last();
        assert forall|i: int| 0 <= i < before.len() implies f(#[trigger] before[i]).len() == 0 by {
            assert(before[i] == items[i]);
        }
        lemma_no_flat_map(before, f);
        before.lemma_flat_map_push(f, items.last());
        assert(before.push(items.last()) =~= items);
        assert(f(items[items.len() - 1]).len() == 0);
    }
    assert(items.flat_map(f) =~= Seq::<B>::empty());
}

proof fn lemma_collapsed_system(messages: Seq<JsonView>)
    ensures
        ({
            let texts = messages.flat_map(|m: JsonView| message_system(m));
            let first = responses_chat::first_system(messages);
            responses_chat::collapsed(messages).flat_map(|m: JsonView| message_system(m))
                == if first < messages.len() {
                seq![text::joined(texts, "\n"@)]
            } else {
                Seq::empty()
            }
        }),
        responses_chat::first_system(messages) >= messages.len() ==> messages.flat_map(
            |m: JsonView| message_system(m),
        ).len() == 0,
{
    literals::lemma_literals();
    let f = |m: JsonView| message_system(m);
    let is_system = |message: JsonView| responses_chat::is_system(message);
    let no_system = |message: JsonView| !responses_chat::is_system(message);
    let first = responses_chat::first_system(messages);
    crate::lists::lemma_first_where_found(messages, is_system);
    lemma_system_texts(messages);
    if first < messages.len() {
        let head = messages.take(first);
        let rest = messages.skip(first + 1).filter(no_system);
        let merged = responses_chat::collapsed(messages)[first];
        assert(is_system(messages[first]));
        assert(responses_chat::collapsed(messages) =~= head.push(merged) + rest);
        lemma_flat_map_add(head.push(merged), rest, f);
        head.lemma_flat_map_push(f, merged);
        assert forall|i: int| 0 <= i < head.len() implies f(#[trigger] head[i]).len() == 0 by {
            assert(head[i] == messages[i]);
            assert(!is_system(messages[i]));
        }
        lemma_no_flat_map(head, f);
        assert forall|i: int| 0 <= i < rest.len() implies f(#[trigger] rest[i]).len() == 0 by {
            messages.skip(first + 1).lemma_filter_pred(no_system, i);
            assert(no_system(rest[i]));
        }
        lemma_no_flat_map(rest, f);
        assert(f(merged) =~= seq![text::joined(messages.flat_map(f), "\n"@)]);
        assert(responses_chat::collapsed(messages).flat_map(f) =~= seq![
            text::joined(messages.flat_map(f), "\n"@),
        ]);
    } else {
        assert forall|i: int| 0 <= i < messages.len() implies f(#[trigger] messages[i]).len()
            == 0 by {
            assert(!is_system(messages[i]));
        }
        lemma_no_flat_map(messages, f);
    }
}

proof fn lemma_system_content(body: JsonView, i: int)
    requires
        0 <= i < gathered(body).len(),
        responses_chat::is_system(gathered(body)[i]),
    ensures
        gathered(body).flat_map(|m: JsonView| message_system(m)).len() > 0,
{
    let f = |m: JsonView| message_system(m);
    let all = gathered(body);
    let start = responses_chat::Turns { messages: head_of(body), pending: Seq::empty() };
    let step = |turns: responses_chat::Turns, item: JsonView| turns.after(item);
    lemma_gathered(body);
    literals::lemma_literals();
    assert(told_alike(start.messages));
    lemma_told_alike(start, input_of(body));
    assert(told_alike(all));
    assert(f(all[i]).len() > 0);
    lemma_flat_map_add(all.take(i), all.skip(i), f);
    assert(all.take(i) + all.skip(i) =~= all);
    lemma_flat_map_add(seq![all[i]], all.skip(i + 1), f);
    assert(seq![all[i]] + all.skip(i + 1) =~= all.skip(i));
    seq![all[i]].lemma_flat_map_singleton(f);
}

/// Messages of the system say something.
spec fn told_alike(messages: Seq<JsonView>) -> bool {
    forall|i: int|
        0 <= i < messages.len() && responses_chat::is_system(#[trigger] messages[i])
            ==> message_system(messages[i]).len() > 0
}

proof fn lemma_told_alike(t: responses_chat::Turns, items: Seq<JsonView>)
    requires
        told_alike(t.messages),
    ensures
        told_alike(
            items.fold_left(
                t,
                |turns: responses_chat::Turns, item: JsonView| turns.after(item),
            ).flushed().messages,
        ),
        told_alike(
            items.fold_left(
                t,
                |turns: responses_chat::Turns, item: JsonView| turns.after(item),
            ).messages,
        ),
    decreases items.len(),
{
    literals::lemma_literals();
    if items.len() > 0 {
        lemma_told_alike(t, items.drop_last());
    }
}

/// The instructions of a Responses request, each on a line of its own.
pub open spec fn instructions_told(body: JsonView) -> Seq<char> {
    match body.field("instructions"@) {
        Some(JsonView::String(s)) => s,
        Some(JsonView::Array(items)) => text::joined(
            items.filter_map(
                |item: JsonView|
                    match item {
                        JsonView::String(s) => Some(s),
                        _ => None,
                    },
            ),
            "\n"@,
        ),
        _ => Seq::empty(),
    }
}

/// Everything that the system says in a Responses request, the instructions first,
/// is said by one system message of the chat request made from it, line by line.
pub proof fn lemma_responses_to_chat_system(body: JsonView)
    ensures
        ({
            let messages = told::list(
                JsonView::Object(responses_chat::chat_request(body)),
                "messages"@,
            );
            let instructions = instructions_told(body);
            let texts = (if instructions.len() > 0 {
                seq![instructions]
            } else {
                Seq::empty()
            }) + input_of(body).flat_map(|item: JsonView| item_system(item));
            messages.flat_map(|m: JsonView| message_system(m)) == if texts.len() > 0 {
                seq![text::joined(texts, "\n"@)]
            } else {
                Seq::empty()
            }
        }),
{
    literals::lemma_literals();
    lemma_chat_entry(body, "messages"@);
    lemma_gathered(body);
    let f = |m: JsonView| message_system(m);
    let e = |item: JsonView| item_system(item);
    assert forall|item: JsonView| #[trigger] e(item) == produced(item).flat_map(f) by {
        lemma_produced(item);
    }
    lemma_gathered_shows(body, f, e);
    let instructions = instructions_told(body);
    match body.field("instructions"@) {
        Some(JsonView::Array(items)) => {
            lemma_same_filter_map(
                items,
                |item: JsonView| item.as_str(),
                |item: JsonView|
                    match item {
                        JsonView::String(s) => Some(s),
                        _ => None,
                    },
            );
        },
        _ => {},
    }
    let head = head_of(body);
    if head.len() > 0 {
        head.lemma_flat_map_singleton(f);
        assert(head.flat_map(f) =~= seq![instructions]);
    } else {
        assert(head.flat_map(f) =~= Seq::empty());
    }
    lemma_collapsed_system(gathered(body));
    let first = responses_chat::first_system(gathered(body));
    let is_system = |message: JsonView| responses_chat::is_system(message);
    crate::lists::lemma_first_where_found(gathered(body), is_system);
    if first < gathered(body).len() {
        assert(is_system(gathered(body)[first]));
        lemma_system_content(body, first);
    }
}

/// A chat request made from a Responses request says nothing else.
pub proof fn lemma_responses_to_chat_nothing_else(body: JsonView, key: Seq<char>)
    ensures
        JsonView::Object(responses_chat::chat_request(body)).field(key) is Some ==> key == "model"@ || key == "messages"@ || key == "max_tokens"@
            || key == "max_completion_tokens"@ || key == "temperature"@ || key == "top_p"@
            || key == "stream"@ || key == "stream_options"@ || key == "reasoning_effort"@
            || key == "tools"@ || key == "tool_choice"@ || key == "metadata"@ || key == "stop"@
            || key == "presence_penalty"@ || key == "frequency_penalty"@ || key == "logit_bias"@
            || key == "seed"@ || key == "user"@,
{
    lemma_chat_entry(body, key);
    literals::lemma_literals();
}

proof fn lemma_calls_pend(t: responses_chat::Turns, calls: Seq<JsonView>)
    requires
        forall|i: int| 0 <= i < calls.len() ==> is_call_item(#[trigger] calls[i]),
    ensures
        calls.fold_left(
            t,
            |turns: responses_chat::Turns, item: JsonView| turns.after(item),
        ).messages == t.messages,
    decreases calls.len(),
{
    literals::lemma_literals();
    if calls.len() > 0 {
        let before = calls.drop_last();
        assert forall|i: int| 0 <= i < before.len() implies is_call_item(#[trigger] before[i]) by {
            assert(before[i] == calls[i]);
        }
        lemma_calls_pend(t, before);
        assert(is_call_item(calls[calls.len() - 1]));
    }
}

proof fn lemma_turns_split(t: responses_chat::Turns, a: Seq<JsonView>, b: Seq<JsonView>)
    ensures
        (a + b).fold_left(
            t,
            |turns: responses_chat::Turns, item: JsonView| turns.after(item),
        ) == b.fold_left(
            a.fold_left(t, |turns: responses_chat::Turns, item: JsonView| turns.after(item)),
            |turns: responses_chat::Turns, item: JsonView| turns.after(item),
        ),
    decreases b.len(),
{
    if b.len() == 0 {
        assert(a + b =~= a);
    } else {
        assert((a + b).drop_last() =~= a + b.drop_last());
        lemma_turns_split(t, a, b.drop_last());
    }
}

/// A bare text that follows calls is said before them: the calls wait for the next
/// message.
pub proof fn lemma_bare_text_before_calls(
    body: JsonView,
    before: Seq<JsonView>,
    calls: Seq<JsonView>,
    s: Seq<char>,
)
    requires
        body.field("input"@) == Some(
            JsonView::Array(before + calls + seq![JsonView::String(s)]),
        ),
        forall|i: int| 0 <= i < before.len() ==> !(#[trigger] before[i] is String),
        before.len() == 0 || is_message_item(before.last()) || is_result_item(before.last()),
        forall|i: int| 0 <= i < calls.len() ==> is_call_item(#[trigger] calls[i]),
    ensures
        told::list(
            JsonView::Object(responses_chat::chat_request(body)),
            "messages"@,
        ).flat_map(|m: JsonView| message_acts(m)) == before.flat_map(
            |item: JsonView| item_acts(item),
        ) + seq![Act::Said("user"@, s)] + calls.flat_map(|item: JsonView| item_acts(item)),
{
    literals::lemma_literals();
    lemma_chat_entry(body, "messages"@);
    lemma_gathered(body);
    let f = |m: JsonView| message_acts(m);
    let e = |item: JsonView| item_acts(item);
    let step = |turns: responses_chat::Turns, item: JsonView| turns.after(item);
    let start = responses_chat::Turns { messages: head_of(body), pending: Seq::empty() };
    let head = head_of(body);
    if head.len() > 0 {
        head.lemma_flat_map_singleton(f);
        assert(f(head[0]) =~= Seq::empty());
    }
    assert(head.flat_map(f) =~= Seq::empty());
    assert(turn_acts(start) =~= Seq::empty());
    let a = before.fold_left(start, step);
    lemma_fold_acts(start, before);
    if before.len() > 0 {
        assert(a == before.drop_last().fold_left(start, step).after(before.last()));
    }
    assert(a.pending.len() == 0);
    assert(turn_acts(a) =~= before.flat_map(e));
    assert(a.messages.flat_map(f) =~= before.flat_map(e));
    let b = calls.fold_left(a, step);
    lemma_calls_pend(a, calls);
    assert forall|i: int| 0 <= i < calls.len() implies !(#[trigger] calls[i] is String) by {
        assert(is_call_item(calls[i]));
    }
    lemma_fold_acts(a, calls);
    let bare = JsonView::String(s);
    let said = responses_chat::chat_message("user"@, s);
    let end = b.after(bare);
    assert(end.messages == a.messages.push(said) && end.pending == b.pending);
    a.messages.lemma_flat_map_push(f, said);
    assert(f(said) =~= seq![Act::Said("user"@, s)]);
    let g = |call: JsonView| Act::Called(chat_call(call));
    assert(turn_acts(b) == a.messages.flat_map(f) + b.pending.map_values(g));
    assert(turn_acts(b) == turn_acts(a) + calls.flat_map(e));
    assert(b.pending.map_values(g) =~= calls.flat_map(e)) by {
        let n = turn_acts(a).len();
        assert(turn_acts(b).skip(n as int) =~= b.pending.map_values(g));
        assert(turn_acts(b).skip(n as int) =~= calls.flat_map(e));
    }
    assert(turn_acts(end) =~= before.flat_map(e) + seq![Act::Said("user"@, s)] + calls.flat_map(
        e,
    ));
    lemma_turns_split(start, before, calls);
    lemma_turns_split(start, before + calls, seq![bare]);
    assert(seq![bare].drop_last() =~= Seq::empty());
    assert(seq![bare].drop_last().fold_left(b, step) == b);
    assert(seq![bare].fold_left(b, step) == end);
    assert(input_of(body).fold_left(start, step) == end);
    lemma_turn_acts(end, JsonView::Null);
    assert(turn_acts(end.flushed()) =~= end.flushed().messages.flat_map(f));
    lemma_collapsed_shows(gathered(body), f);
}

} // verus!
