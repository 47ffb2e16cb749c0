//! What comes back when a response is converted to another protocol and back.

use crate::json;
use crate::json::JsonView;
use crate::transform::anthropic;
use crate::transform::chat_anthropic;
use crate::transform::responses_anthropic;
use crate::transform::responses_chat;
use vstd::prelude::*;

verus! {

/// The keys and the kinds that tell the parts of a response apart are different.
proof fn lemma_keys()
    ensures
        "output"@ != "usage"@,
        "output"@ != "parallel_tool_calls"@,
        "output"@ != "previous_response_id"@,
        "output"@ != "reasoning"@,
        "output"@ != "text"@,
        "output"@ != "tools"@,
        "output"@ != "truncation"@,
        "type"@ != "role"@,
        "type"@ != "status"@,
        "type"@ != "content"@,
        "type"@ != "text"@,
        "type"@ != "annotations"@,
        "type"@ != "id"@,
        "type"@ != "call_id"@,
        "type"@ != "name"@,
        "type"@ != "arguments"@,
        "type"@ != "input"@,
        "text"@ != "annotations"@,
        "choices"@ != "usage"@,
        "message"@ != "finish_reason"@,
        "content"@ != "tool_calls"@,
        "content"@ != "stop_reason"@,
        "content"@ != "usage"@,
        "id"@ != "name"@,
        "id"@ != "input"@,
        "name"@ != "input"@,
        "output_text"@ != "function_call"@,
        "text"@ != "tool_use"@,
{
    reveal_strlit("output");
    reveal_strlit("usage");
    reveal_strlit("parallel_tool_calls");
    reveal_strlit("previous_response_id");
    reveal_strlit("reasoning");
    reveal_strlit("text");
    reveal_strlit("tools");
    reveal_strlit("truncation");
    reveal_strlit("type");
    reveal_strlit("role");
    reveal_strlit("status");
    reveal_strlit("content");
    reveal_strlit("annotations");
    reveal_strlit("id");
    reveal_strlit("call_id");
    reveal_strlit("name");
    reveal_strlit("arguments");
    reveal_strlit("input");
    reveal_strlit("choices");
    reveal_strlit("message");
    reveal_strlit("finish_reason");
    reveal_strlit("tool_calls");
    reveal_strlit("stop_reason");
    reveal_strlit("output_text");
    reveal_strlit("function_call");
    reveal_strlit("tool_use");
    assert("output"@.len() == 6 && "usage"@.len() == 5 && "reasoning"@.len() == 9);
    assert("parallel_tool_calls"@.len() == 19 && "previous_response_id"@.len() == 20);
    assert("text"@.len() == 4 && "tools"@.len() == 5 && "truncation"@.len() == 10);
    assert("type"@.len() == 4 && "type"@[1] == 'y' && "text"@[1] == 'e');
    assert("role"@[0] == 'r' && "type"@[0] == 't' && "name"@[0] == 'n');
    assert("status"@.len() == 6 && "content"@.len() == 7 && "annotations"@.len() == 11);
    assert("id"@.len() == 2 && "call_id"@.len() == 7 && "name"@.len() == 4);
    assert("arguments"@.len() == 9 && "input"@.len() == 5);
    assert("choices"@.len() == 7 && "message"@.len() == 7 && "finish_reason"@.len() == 13);
    assert("tool_calls"@.len() == 10 && "stop_reason"@.len() == 11);
    assert("output_text"@.len() == 11 && "function_call"@.len() == 13 && "tool_use"@.len() == 8);
}

/// Items that give nothing add nothing.
proof fn lemma_flat_map_rest<A, B>(head: Seq<A>, rest: Seq<A>, f: spec_fn(A) -> Seq<B>)
    requires
        forall|i: int| 0 <= i < rest.len() ==> f(#[trigger] rest[i]).len() == 0,
    ensures
        (head + rest).flat_map(f) == head.flat_map(f),
    decreases rest.len(),
{
    if rest.len() == 0 {
        assert(head + rest =~= head);
    } else {
        let before = head + rest.drop_last();
        assert(head + rest =~= before.push(rest.last()));
        before.lemma_flat_map_push(f, rest.last());
        assert(f(rest[rest.len() - 1]).len() == 0);
        assert(before.flat_map(f) + f(rest.last()) =~= before.flat_map(f));
        lemma_flat_map_rest(head, rest.drop_last(), f);
    }
}

/// Where a function gives something for each item, nothing is left out.
proof fn lemma_filter_map_all<A, B>(
    head: Seq<A>,
    rest: Seq<A>,
    pick: spec_fn(A) -> Option<B>,
    image: spec_fn(A) -> B,
)
    requires
        forall|i: int| 0 <= i < head.len() ==> pick(#[trigger] head[i]) is None,
        forall|i: int| 0 <= i < rest.len() ==> pick(#[trigger] rest[i]) == Some(image(rest[i])),
    ensures
        (head + rest).filter_map(pick) == rest.map_values(image),
    decreases head.len() + rest.len(),
{
    let all = head + rest;
    if rest.len() > 0 {
        let n = all.len() - 1;
        all.lemma_filter_map_take_succ(pick, n);
        assert(all.take(n + 1) =~= all);
        assert(all.take(n) =~= head + rest.drop_last());
        assert(pick(rest[rest.len() - 1]) == Some(image(rest[rest.len() - 1])));
        lemma_filter_map_all(head, rest.drop_last(), pick, image);
        assert(rest.map_values(image) =~= rest.drop_last().map_values(image) + seq![
            image(rest.last()),
        ]);
    } else if head.len() > 0 {
        let n = all.len() - 1;
        all.lemma_filter_map_take_succ(pick, n);
        assert(all.take(n + 1) =~= all);
        assert(all.take(n) =~= head.drop_last() + rest);
        assert(pick(head[head.len() - 1]) is None);
        lemma_filter_map_all(head.drop_last(), rest, pick, image);
        assert(all.filter_map(pick) =~= rest.map_values(image));
    } else {
        assert(all =~= Seq::empty());
        assert(rest.map_values(image) =~= Seq::empty());
    }
}

/// The text of a chat response.
pub open spec fn chat_text(chat: JsonView) -> Option<Seq<char>> {
    match responses_chat::first_message(chat) {
        Some(message) => message.text_at("content"@),
        None => None,
    }
}

proof fn lemma_completion_text(
    id: JsonView,
    created: JsonView,
    model: Seq<char>,
    said: Seq<char>,
    calls: Seq<JsonView>,
    finish_reason: JsonView,
    usage: JsonView,
)
    ensures
        chat_text(
            responses_chat::chat_completion(
                id,
                created,
                model,
                JsonView::text(said),
                calls,
                finish_reason,
                usage,
            ),
        ) == Some(said),
        calls.len() > 0 ==> responses_chat::first_message(
            responses_chat::chat_completion(
                id,
                created,
                model,
                JsonView::text(said),
                calls,
                finish_reason,
                usage,
            ),
        )->0.array_at("tool_calls"@) == Some(calls),
{
    lemma_keys();
    let chat = responses_chat::chat_completion(
        id,
        created,
        model,
        JsonView::text(said),
        calls,
        finish_reason,
        usage,
    );
    let choices = chat.array_at("choices"@)->0;
    assert(choices.len() == 1);
    let message = choices[0].field("message"@)->0;
    assert(message.field("content"@) == Some(JsonView::text(said)));
}

proof fn lemma_completed_output(
    id: Seq<char>,
    created: u64,
    model: Seq<char>,
    output: Seq<JsonView>,
    usage: JsonView,
)
    ensures
        responses_chat::completed_response(id, created, model, output, usage).array_at(
            "output"@,
        ) == Some(output),
{
    lemma_keys();
}

proof fn lemma_message_text(id: Seq<char>, message: JsonView)
    ensures
        responses_chat::output_item_text(
            responses_chat::output_message(
                id,
                "completed"@,
                responses_chat::message_parts(message),
            ),
        ) == message.text_or("content"@, ""@),
{
    lemma_keys();
    let said = message.text_or("content"@, ""@);
    let parts = responses_chat::message_parts(message);
    let item = responses_chat::output_message(id, "completed"@, parts);
    let f = |part: JsonView| responses_chat::output_part_text(part);
    let head = seq![responses_chat::output_text(said)];
    let calls = match message.array_at("tool_calls"@) {
        Some(calls) => calls.map_values(|call: JsonView| responses_chat::call_part(call)),
        None => Seq::empty(),
    };
    assert(item.array_at("content"@) == Some(parts));
    assert(item.text_at("type"@) == Some("message"@));
    assert(parts =~= head + calls);
    assert(f(head[0]) == said);
    head.lemma_flat_map_singleton(f);
    assert forall|i: int| 0 <= i < calls.len() implies f(#[trigger] calls[i]).len() == 0 by {
        assert(calls[i].text_at("type"@) == Some("function_call"@));
    }
    lemma_flat_map_rest(head, calls, f);
}

/// The text of a chat response survives the way to the Responses API and back.
pub proof fn lemma_chat_text_through_responses(
    chat: JsonView,
    model: Option<Seq<char>>,
    msg_id: Seq<char>,
    resp_id: Seq<char>,
    created: u64,
    chat_id: Seq<char>,
)
    requires
        responses_chat::first_message(chat) is Some,
    ensures
        ({
            let there = responses_chat::responses_response(chat, model, msg_id, resp_id, created);
            let back = responses_chat::chat_response(there->0, model, chat_id, created);
            there is Some && back is Some && chat_text(back->0) == Some(
                responses_chat::first_message(chat)->0.text_or("content"@, ""@),
            )
        }),
{
    let message = responses_chat::first_message(chat)->0;
    let item = responses_chat::output_message(
        msg_id,
        "completed"@,
        responses_chat::message_parts(message),
    );
    let there = responses_chat::responses_response(chat, model, msg_id, resp_id, created)->0;
    let output = seq![item];
    lemma_completed_output(
        resp_id,
        created,
        responses_chat::model_name(chat, model),
        output,
        responses_chat::responses_usage(chat),
    );
    lemma_message_text(msg_id, message);
    let words = |item: JsonView| responses_chat::output_item_text(item);
    output.lemma_flat_map_singleton(words);
    let calls = output.filter_map(|item: JsonView| responses_chat::output_item_call(item));
    lemma_completion_text(
        there.field_or("id"@, JsonView::text(chat_id)),
        there.field_or("created_at"@, JsonView::integer(created as int)),
        responses_chat::model_name(there, model),
        output.flat_map(words),
        calls,
        JsonView::text(
            if calls.len() > 0 {
                "tool_calls"@
            } else {
                "stop"@
            },
        ),
        responses_chat::chat_usage(there),
    );
}

/// A chat tool call as it comes back: its arguments are the JSON text of what
/// they denote.
pub open spec fn returned_call(call: JsonView) -> JsonView {
    let function = call.field_or("function"@, JsonView::Object(Map::empty()));
    responses_chat::chat_tool_call(
        call.text_or("id"@, ""@),
        function.text_or("name"@, ""@),
        json::json_text(anthropic::call_input(function.text_or("arguments"@, "{}"@))),
    )
}

proof fn lemma_call_block(call: JsonView)
    ensures
        chat_anthropic::block_text(chat_anthropic::call_block(call)).len() == 0,
        chat_anthropic::block_call(chat_anthropic::call_block(call)) == Some(returned_call(call)),
{
    lemma_keys();
}

proof fn lemma_text_block(s: Seq<char>)
    ensures
        chat_anthropic::block_text(anthropic::text_block(s)) == s,
        chat_anthropic::block_call(anthropic::text_block(s)) is None,
{
    lemma_keys();
}

proof fn lemma_blocks(message: JsonView)
    ensures
        chat_anthropic::message_blocks(message).flat_map(
            |block: JsonView| chat_anthropic::block_text(block),
        ) == message.text_or("content"@, ""@),
        chat_anthropic::message_blocks(message).filter_map(
            |block: JsonView| chat_anthropic::block_call(block),
        ) == chat_anthropic::calls_of(message).map_values(|call: JsonView| returned_call(call)),
{
    let said = message.text_or("content"@, ""@);
    let calls = chat_anthropic::calls_of(message);
    let blocks = calls.map_values(|call: JsonView| chat_anthropic::call_block(call));
    let words = |block: JsonView| chat_anthropic::block_text(block);
    let pick = |block: JsonView| chat_anthropic::block_call(block);
    let image = |block: JsonView| chat_anthropic::block_call(block)->0;
    let head = if said.len() > 0 {
        seq![anthropic::text_block(said)]
    } else {
        Seq::empty()
    };
    assert(chat_anthropic::message_blocks(message) =~= head + blocks);
    assert forall|i: int| 0 <= i < blocks.len() implies words(#[trigger] blocks[i]).len() == 0
        && pick(blocks[i]) == Some(image(blocks[i])) by {
        lemma_call_block(calls[i]);
    }
    if said.len() > 0 {
        lemma_text_block(said);
        head.lemma_flat_map_singleton(words);
    } else {
        assert(head.flat_map(words) =~= Seq::empty());
        assert(said =~= Seq::empty());
    }
    lemma_flat_map_rest(head, blocks, words);
    assert forall|i: int| 0 <= i < head.len() implies pick(#[trigger] head[i]) is None by {
        lemma_text_block(said);
    }
    lemma_filter_map_all(head, blocks, pick, image);
    assert(blocks.map_values(image) =~= calls.map_values(|call: JsonView| returned_call(call)))
        by {
        assert forall|i: int| 0 <= i < calls.len() implies #[trigger] blocks.map_values(image)[i]
            == returned_call(calls[i]) by {
            lemma_call_block(calls[i]);
        }
    }
}

/// The text and the tool calls of a chat response survive the way to Anthropic
/// Messages and back. The arguments of the calls come back as the JSON text of
/// what they denote.
pub proof fn lemma_chat_through_anthropic(
    chat: JsonView,
    model: Option<Seq<char>>,
    msg_id: Seq<char>,
    chat_id: Seq<char>,
    created: u64,
)
    requires
        responses_chat::first_message(chat) is Some,
    ensures
        ({
            let message = responses_chat::first_message(chat)->0;
            let there = chat_anthropic::anthropic_response(chat, model, msg_id);
            let back = chat_anthropic::chat_response(there->0, model, chat_id, created);
            let calls = chat_anthropic::calls_of(message);
            &&& there is Some
            &&& chat_text(back) == Some(message.text_or("content"@, ""@))
            &&& calls.len() > 0 ==> responses_chat::first_message(back)->0.array_at(
                "tool_calls"@,
            ) == Some(calls.map_values(|call: JsonView| returned_call(call)))
        }),
{
    let message = responses_chat::first_message(chat)->0;
    let there = chat_anthropic::anthropic_response(chat, model, msg_id)->0;
    let blocks = responses_anthropic::blocks_of(there);
    assert(blocks == chat_anthropic::message_blocks(message)) by {
        lemma_keys();
    }
    lemma_blocks(message);
    let calls = blocks.filter_map(|block: JsonView| chat_anthropic::block_call(block));
    lemma_completion_text(
        JsonView::text(chat_id),
        JsonView::integer(created as int),
        responses_chat::model_name(there, model),
        blocks.flat_map(|block: JsonView| chat_anthropic::block_text(block)),
        calls,
        JsonView::text(
            if calls.len() > 0 {
                "tool_calls"@
            } else {
                "stop"@
            },
        ),
        chat_anthropic::summed_usage(there),
    );
}

/// The declaration of a function, with what it leaves out filled in.
pub open spec fn full_function(function: JsonView) -> JsonView {
    JsonView::Object(
        map![
            "name"@ => function.field_or("name"@, JsonView::text(""@)),
            "description"@ => function.field_or("description"@, JsonView::text(""@)),
            "parameters"@ => function.field_or("parameters"@, JsonView::Object(Map::empty())),
        ],
    )
}

/// The declaration of a chat tool survives the way to Anthropic Messages and
/// back.
pub proof fn lemma_tool_through_anthropic(tool: JsonView)
    requires
        tool.text_at("type"@) == Some("function"@),
    ensures
        chat_anthropic::anthropic_tool(tool) is Some,
        chat_anthropic::chat_tool(chat_anthropic::anthropic_tool(tool)->0) == JsonView::Object(
            map![
                "type"@ => JsonView::text("function"@),
                "function"@ => full_function(tool.field_or("function"@, JsonView::Null)),
            ],
        ),
{
    reveal_strlit("name");
    reveal_strlit("description");
    reveal_strlit("input_schema");
    assert("name"@.len() == 4 && "description"@.len() == 11 && "input_schema"@.len() == 12);
}

} // verus!
