//! The names that the protocols use are different. Each literal is told from the
//! others by its length and a few of its characters.

use vstd::prelude::*;

verus! {

proof fn lemma_length_0()
    ensures
        ""@.len() == 0,
{
    reveal_strlit("");
}

proof fn lemma_length_2()
    ensures
        "id"@.len() == 2,
        "id"@[1] == 'd',
        "o1"@.len() == 2,
        "o1"@[1] == '1',
        "o3"@.len() == 2,
        "o3"@[1] == '3',
        "o4"@.len() == 2,
        "o4"@[1] == '4',
        "{}"@.len() == 2,
        "{}"@[1] == '}',
{
    reveal_strlit("id");
    reveal_strlit("o1");
    reveal_strlit("o3");
    reveal_strlit("o4");
    reveal_strlit("{}");
}

proof fn lemma_length_3()
    ensures
        "msg"@.len() == 3,
{
    reveal_strlit("msg");
}

proof fn lemma_length_4()
    ensures
        "auto"@.len() == 4,
        "auto"@[0] == 'a',
        "auto"@[1] == 'u',
        "item"@.len() == 4,
        "item"@[0] == 'i',
        "item"@[1] == 't',
        "name"@.len() == 4,
        "name"@[0] == 'n',
        "name"@[1] == 'a',
        "part"@.len() == 4,
        "part"@[0] == 'p',
        "part"@[1] == 'a',
        "resp"@.len() == 4,
        "resp"@[0] == 'r',
        "resp"@[1] == 'e',
        "role"@.len() == 4,
        "role"@[0] == 'r',
        "role"@[1] == 'o',
        "seed"@.len() == 4,
        "seed"@[0] == 's',
        "seed"@[1] == 'e',
        "stop"@.len() == 4,
        "stop"@[0] == 's',
        "stop"@[1] == 't',
        "text"@.len() == 4,
        "text"@[0] == 't',
        "text"@[1] == 'e',
        "tool"@.len() == 4,
        "tool"@[0] == 't',
        "tool"@[1] == 'o',
        "type"@.len() == 4,
        "type"@[0] == 't',
        "type"@[1] == 'y',
        "user"@.len() == 4,
        "user"@[0] == 'u',
        "user"@[1] == 's',
{
    reveal_strlit("auto");
    reveal_strlit("item");
    reveal_strlit("name");
    reveal_strlit("part");
    reveal_strlit("resp");
    reveal_strlit("role");
    reveal_strlit("seed");
    reveal_strlit("stop");
    reveal_strlit("text");
    reveal_strlit("tool");
    reveal_strlit("type");
    reveal_strlit("user");
}

proof fn lemma_length_5()
    ensures
        "delta"@.len() == 5,
        "delta"@[4] == 'a',
        "index"@.len() == 5,
        "index"@[4] == 'x',
        "input"@.len() == 5,
        "input"@[4] == 't',
        "model"@.len() == 5,
        "model"@[4] == 'l',
        "tools"@.len() == 5,
        "tools"@[4] == 's',
        "top_p"@.len() == 5,
        "top_p"@[4] == 'p',
        "usage"@.len() == 5,
        "usage"@[4] == 'e',
{
    reveal_strlit("delta");
    reveal_strlit("index");
    reveal_strlit("input");
    reveal_strlit("model");
    reveal_strlit("tools");
    reveal_strlit("top_p");
    reveal_strlit("usage");
}

proof fn lemma_length_6()
    ensures
        "[DONE]"@.len() == 6,
        "[DONE]"@[0] == '[',
        "[DONE]"@[2] == 'O',
        "data: "@.len() == 6,
        "data: "@[0] == 'd',
        "data: "@[2] == 't',
        "effort"@.len() == 6,
        "effort"@[0] == 'e',
        "effort"@[2] == 'f',
        "format"@.len() == 6,
        "format"@[0] == 'f',
        "format"@[2] == 'r',
        "medium"@.len() == 6,
        "medium"@[0] == 'm',
        "medium"@[2] == 'd',
        "object"@.len() == 6,
        "object"@[0] == 'o',
        "object"@[2] == 'j',
        "output"@.len() == 6,
        "output"@[0] == 'o',
        "output"@[2] == 't',
        "status"@.len() == 6,
        "status"@[0] == 's',
        "status"@[2] == 'a',
        "stream"@.len() == 6,
        "stream"@[0] == 's',
        "stream"@[2] == 'r',
        "system"@.len() == 6,
        "system"@[0] == 's',
        "system"@[2] == 's',
{
    reveal_strlit("[DONE]");
    reveal_strlit("data: ");
    reveal_strlit("effort");
    reveal_strlit("format");
    reveal_strlit("medium");
    reveal_strlit("object");
    reveal_strlit("output");
    reveal_strlit("status");
    reveal_strlit("stream");
    reveal_strlit("system");
}

proof fn lemma_length_7()
    ensures
        "[image]"@.len() == 7,
        "[image]"@[1] == 'i',
        "call_id"@.len() == 7,
        "call_id"@[1] == 'a',
        "choices"@.len() == 7,
        "choices"@[1] == 'h',
        "content"@.len() == 7,
        "content"@[1] == 'o',
        "created"@.len() == 7,
        "created"@[1] == 'r',
        "item_id"@.len() == 7,
        "item_id"@[1] == 't',
        "message"@.len() == 7,
        "message"@[1] == 'e',
        "summary"@.len() == 7,
        "summary"@[1] == 'u',
{
    reveal_strlit("[image]");
    reveal_strlit("call_id");
    reveal_strlit("choices");
    reveal_strlit("content");
    reveal_strlit("created");
    reveal_strlit("item_id");
    reveal_strlit("message");
    reveal_strlit("summary");
}

proof fn lemma_length_8()
    ensures
        "chatcmpl"@.len() == 8,
        "chatcmpl"@[0] == 'c',
        "chatcmpl"@[2] == 'a',
        "disabled"@.len() == 8,
        "disabled"@[0] == 'd',
        "disabled"@[2] == 's',
        "end_turn"@.len() == 8,
        "end_turn"@[0] == 'e',
        "end_turn"@[2] == 'd',
        "function"@.len() == 8,
        "function"@[0] == 'f',
        "function"@[2] == 'n',
        "messages"@.len() == 8,
        "messages"@[0] == 'm',
        "messages"@[2] == 's',
        "metadata"@.len() == 8,
        "metadata"@[0] == 'm',
        "metadata"@[2] == 't',
        "response"@.len() == 8,
        "response"@[0] == 'r',
        "response"@[2] == 's',
        "thinking"@.len() == 8,
        "thinking"@[0] == 't',
        "thinking"@[2] == 'i',
        "tool_use"@.len() == 8,
        "tool_use"@[0] == 't',
        "tool_use"@[2] == 'o',
{
    reveal_strlit("chatcmpl");
    reveal_strlit("disabled");
    reveal_strlit("end_turn");
    reveal_strlit("function");
    reveal_strlit("messages");
    reveal_strlit("metadata");
    reveal_strlit("response");
    reveal_strlit("thinking");
    reveal_strlit("tool_use");
}

proof fn lemma_length_9()
    ensures
        "arguments"@.len() == 9,
        "arguments"@[2] == 'g',
        "assistant"@.len() == 9,
        "assistant"@[2] == 's',
        "completed"@.len() == 9,
        "completed"@[2] == 'm',
        "developer"@.len() == 9,
        "developer"@[2] == 'v',
        "reasoning"@.len() == 9,
        "reasoning"@[2] == 'a',
{
    reveal_strlit("arguments");
    reveal_strlit("assistant");
    reveal_strlit("completed");
    reveal_strlit("developer");
    reveal_strlit("reasoning");
}

proof fn lemma_length_10()
    ensures
        "created_at"@.len() == 10,
        "created_at"@[0] == 'c',
        "created_at"@[1] == 'r',
        "input_text"@.len() == 10,
        "input_text"@[0] == 'i',
        "input_text"@[1] == 'n',
        "logit_bias"@.len() == 10,
        "logit_bias"@[0] == 'l',
        "logit_bias"@[1] == 'o',
        "max_tokens"@.len() == 10,
        "max_tokens"@[0] == 'm',
        "max_tokens"@[1] == 'a',
        "parameters"@.len() == 10,
        "parameters"@[0] == 'p',
        "parameters"@[1] == 'a',
        "text_delta"@.len() == 10,
        "text_delta"@[0] == 't',
        "text_delta"@[1] == 'e',
        "tool_calls"@.len() == 10,
        "tool_calls"@[0] == 't',
        "tool_calls"@[1] == 'o',
        "truncation"@.len() == 10,
        "truncation"@[0] == 't',
        "truncation"@[1] == 'r',
{
    reveal_strlit("created_at");
    reveal_strlit("input_text");
    reveal_strlit("logit_bias");
    reveal_strlit("max_tokens");
    reveal_strlit("parameters");
    reveal_strlit("text_delta");
    reveal_strlit("tool_calls");
    reveal_strlit("truncation");
}

proof fn lemma_length_11()
    ensures
        "annotations"@.len() == 11,
        "annotations"@[0] == 'a',
        "annotations"@[6] == 't',
        "description"@.len() == 11,
        "description"@[0] == 'd',
        "description"@[6] == 'p',
        "in_progress"@.len() == 11,
        "in_progress"@[0] == 'i',
        "in_progress"@[6] == 'g',
        "input_image"@.len() == 11,
        "input_image"@[0] == 'i',
        "input_image"@[6] == 'i',
        "output_text"@.len() == 11,
        "output_text"@[0] == 'o',
        "output_text"@[6] == '_',
        "stop_reason"@.len() == 11,
        "stop_reason"@[0] == 's',
        "stop_reason"@[6] == 'e',
        "temperature"@.len() == 11,
        "temperature"@[0] == 't',
        "temperature"@[6] == 'a',
        "tool_choice"@.len() == 11,
        "tool_choice"@[0] == 't',
        "tool_choice"@[6] == 'h',
        "tool_result"@.len() == 11,
        "tool_result"@[0] == 't',
        "tool_result"@[6] == 'e',
        "tool_use_id"@.len() == 11,
        "tool_use_id"@[0] == 't',
        "tool_use_id"@[6] == 's',
{
    reveal_strlit("annotations");
    reveal_strlit("description");
    reveal_strlit("in_progress");
    reveal_strlit("input_image");
    reveal_strlit("output_text");
    reveal_strlit("stop_reason");
    reveal_strlit("temperature");
    reveal_strlit("tool_choice");
    reveal_strlit("tool_result");
    reveal_strlit("tool_use_id");
}

proof fn lemma_length_12()
    ensures
        "input_schema"@.len() == 12,
        "input_schema"@[0] == 'i',
        "input_schema"@[6] == 's',
        "input_tokens"@.len() == 12,
        "input_tokens"@[0] == 'i',
        "input_tokens"@[6] == 't',
        "instructions"@.len() == 12,
        "instructions"@[0] == 'i',
        "instructions"@[6] == 'c',
        "message_stop"@.len() == 12,
        "message_stop"@[0] == 'm',
        "message_stop"@[6] == 'e',
        "output_index"@.len() == 12,
        "output_index"@[0] == 'o',
        "output_index"@[6] == '_',
        "tool_call_id"@.len() == 12,
        "tool_call_id"@[0] == 't',
        "tool_call_id"@[6] == 'a',
        "total_tokens"@.len() == 12,
        "total_tokens"@[0] == 't',
        "total_tokens"@[6] == 't',
{
    reveal_strlit("input_schema");
    reveal_strlit("input_tokens");
    reveal_strlit("instructions");
    reveal_strlit("message_stop");
    reveal_strlit("output_index");
    reveal_strlit("tool_call_id");
    reveal_strlit("total_tokens");
}

proof fn lemma_length_13()
    ensures
        "content_block"@.len() == 13,
        "content_block"@[0] == 'c',
        "content_block"@[8] == 'b',
        "content_index"@.len() == 13,
        "content_index"@[0] == 'c',
        "content_index"@[8] == 'i',
        "finish_reason"@.len() == 13,
        "finish_reason"@[0] == 'f',
        "finish_reason"@[8] == 'e',
        "function_call"@.len() == 13,
        "function_call"@[0] == 'f',
        "function_call"@[8] == '_',
        "include_usage"@.len() == 13,
        "include_usage"@[0] == 'i',
        "include_usage"@[8] == 'u',
        "message_delta"@.len() == 13,
        "message_delta"@[0] == 'm',
        "message_delta"@[8] == 'd',
        "message_start"@.len() == 13,
        "message_start"@[0] == 'm',
        "message_start"@[8] == 's',
        "output_tokens"@.len() == 13,
        "output_tokens"@[0] == 'o',
        "output_tokens"@[8] == 'o',
        "prompt_tokens"@.len() == 13,
        "prompt_tokens"@[0] == 'p',
        "prompt_tokens"@[8] == 'o',
{
    reveal_strlit("content_block");
    reveal_strlit("content_index");
    reveal_strlit("finish_reason");
    reveal_strlit("function_call");
    reveal_strlit("include_usage");
    reveal_strlit("message_delta");
    reveal_strlit("message_start");
    reveal_strlit("output_tokens");
    reveal_strlit("prompt_tokens");
}

proof fn lemma_length_14()
    ensures
        "stream_options"@.len() == 14,
        "stream_options"@[0] == 's',
        "thinking_delta"@.len() == 14,
        "thinking_delta"@[0] == 't',
{
    reveal_strlit("stream_options");
    reveal_strlit("thinking_delta");
}

proof fn lemma_length_15()
    ensures
        "chat.completion"@.len() == 15,
{
    reveal_strlit("chat.completion");
}

proof fn lemma_length_16()
    ensures
        "custom_tool_call"@.len() == 16,
        "custom_tool_call"@[8] == 'o',
        "local_shell_call"@.len() == 16,
        "local_shell_call"@[8] == 'e',
        "presence_penalty"@.len() == 16,
        "presence_penalty"@[8] == '_',
        "reasoning_effort"@.len() == 16,
        "reasoning_effort"@[8] == 'g',
        "response.created"@.len() == 16,
        "response.created"@[8] == '.',
{
    reveal_strlit("custom_tool_call");
    reveal_strlit("local_shell_call");
    reveal_strlit("presence_penalty");
    reveal_strlit("reasoning_effort");
    reveal_strlit("response.created");
}

proof fn lemma_length_17()
    ensures
        "completion_tokens"@.len() == 17,
        "completion_tokens"@[0] == 'c',
        "frequency_penalty"@.len() == 17,
        "frequency_penalty"@[0] == 'f',
        "max_output_tokens"@.len() == 17,
        "max_output_tokens"@[0] == 'm',
        "reasoning_content"@.len() == 17,
        "reasoning_content"@[0] == 'r',
{
    reveal_strlit("completion_tokens");
    reveal_strlit("frequency_penalty");
    reveal_strlit("max_output_tokens");
    reveal_strlit("reasoning_content");
}

proof fn lemma_length_18()
    ensures
        "content_block_stop"@.len() == 18,
        "content_block_stop"@[0] == 'c',
        "response.completed"@.len() == 18,
        "response.completed"@[0] == 'r',
{
    reveal_strlit("content_block_stop");
    reveal_strlit("response.completed");
}

proof fn lemma_length_19()
    ensures
        "content_block_delta"@.len() == 19,
        "content_block_delta"@[14] == 'd',
        "content_block_start"@.len() == 19,
        "content_block_start"@[14] == 's',
        "parallel_tool_calls"@.len() == 19,
        "parallel_tool_calls"@[14] == 'c',
{
    reveal_strlit("content_block_delta");
    reveal_strlit("content_block_start");
    reveal_strlit("parallel_tool_calls");
}

proof fn lemma_length_20()
    ensures
        "function_call_output"@.len() == 20,
        "function_call_output"@[0] == 'f',
        "previous_response_id"@.len() == 20,
        "previous_response_id"@[0] == 'p',
        "response.in_progress"@.len() == 20,
        "response.in_progress"@[0] == 'r',
{
    reveal_strlit("function_call_output");
    reveal_strlit("previous_response_id");
    reveal_strlit("response.in_progress");
}

proof fn lemma_length_21()
    ensures
        "chat.completion.chunk"@.len() == 21,
        "chat.completion.chunk"@[0] == 'c',
        "max_completion_tokens"@.len() == 21,
        "max_completion_tokens"@[0] == 'm',
{
    reveal_strlit("chat.completion.chunk");
    reveal_strlit("max_completion_tokens");
}

proof fn lemma_length_25()
    ensures
        "response.output_item.done"@.len() == 25,
{
    reveal_strlit("response.output_item.done");
}

proof fn lemma_length_26()
    ensures
        "response.content_part.done"@.len() == 26,
        "response.content_part.done"@[16] == '_',
        "response.output_item.added"@.len() == 26,
        "response.output_item.added"@[16] == 'i',
        "response.output_text.delta"@.len() == 26,
        "response.output_text.delta"@[16] == 't',
{
    reveal_strlit("response.content_part.done");
    reveal_strlit("response.output_item.added");
    reveal_strlit("response.output_text.delta");
}

proof fn lemma_length_27()
    ensures
        "response.content_part.added"@.len() == 27,
{
    reveal_strlit("response.content_part.added");
}

proof fn lemma_length_29()
    ensures
        "response.reasoning_text.delta"@.len() == 29,
{
    reveal_strlit("response.reasoning_text.delta");
}

proof fn lemma_length_37()
    ensures
        "response.function_call_arguments.done"@.len() == 37,
{
    reveal_strlit("response.function_call_arguments.done");
}

proof fn lemma_length_38()
    ensures
        "response.function_call_arguments.delta"@.len() == 38,
{
    reveal_strlit("response.function_call_arguments.delta");
}

/// What tells the names apart.
pub proof fn lemma_literals()
    ensures
        ""@.len() == 0,
        "id"@.len() == 2,
        "id"@[1] == 'd',
        "o1"@.len() == 2,
        "o1"@[1] == '1',
        "o3"@.len() == 2,
        "o3"@[1] == '3',
        "o4"@.len() == 2,
        "o4"@[1] == '4',
        "{}"@.len() == 2,
        "{}"@[1] == '}',
        "msg"@.len() == 3,
        "auto"@.len() == 4,
        "auto"@[0] == 'a',
        "auto"@[1] == 'u',
        "item"@.len() == 4,
        "item"@[0] == 'i',
        "item"@[1] == 't',
        "name"@.len() == 4,
        "name"@[0] == 'n',
        "name"@[1] == 'a',
        "part"@.len() == 4,
        "part"@[0] == 'p',
        "part"@[1] == 'a',
        "resp"@.len() == 4,
        "resp"@[0] == 'r',
        "resp"@[1] == 'e',
        "role"@.len() == 4,
        "role"@[0] == 'r',
        "role"@[1] == 'o',
        "seed"@.len() == 4,
        "seed"@[0] == 's',
        "seed"@[1] == 'e',
        "stop"@.len() == 4,
        "stop"@[0] == 's',
        "stop"@[1] == 't',
        "text"@.len() == 4,
        "text"@[0] == 't',
        "text"@[1] == 'e',
        "tool"@.len() == 4,
        "tool"@[0] == 't',
        "tool"@[1] == 'o',
        "type"@.len() == 4,
        "type"@[0] == 't',
        "type"@[1] == 'y',
        "user"@.len() == 4,
        "user"@[0] == 'u',
        "user"@[1] == 's',
        "delta"@.len() == 5,
        "delta"@[4] == 'a',
        "index"@.len() == 5,
        "index"@[4] == 'x',
        "input"@.len() == 5,
        "input"@[4] == 't',
        "model"@.len() == 5,
        "model"@[4] == 'l',
        "tools"@.len() == 5,
        "tools"@[4] == 's',
        "top_p"@.len() == 5,
        "top_p"@[4] == 'p',
        "usage"@.len() == 5,
        "usage"@[4] == 'e',
        "[DONE]"@.len() == 6,
        "[DONE]"@[0] == '[',
        "[DONE]"@[2] == 'O',
        "data: "@.len() == 6,
        "data: "@[0] == 'd',
        "data: "@[2] == 't',
        "effort"@.len() == 6,
        "effort"@[0] == 'e',
        "effort"@[2] == 'f',
        "format"@.len() == 6,
        "format"@[0] == 'f',
        "format"@[2] == 'r',
        "medium"@.len() == 6,
        "medium"@[0] == 'm',
        "medium"@[2] == 'd',
        "object"@.len() == 6,
        "object"@[0] == 'o',
        "object"@[2] == 'j',
        "output"@.len() == 6,
        "output"@[0] == 'o',
        "output"@[2] == 't',
        "status"@.len() == 6,
        "status"@[0] == 's',
        "status"@[2] == 'a',
        "stream"@.len() == 6,
        "stream"@[0] == 's',
        "stream"@[2] == 'r',
        "system"@.len() == 6,
        "system"@[0] == 's',
        "system"@[2] == 's',
        "[image]"@.len() == 7,
        "[image]"@[1] == 'i',
        "call_id"@.len() == 7,
        "call_id"@[1] == 'a',
        "choices"@.len() == 7,
        "choices"@[1] == 'h',
        "content"@.len() == 7,
        "content"@[1] == 'o',
        "created"@.len() == 7,
        "created"@[1] == 'r',
        "item_id"@.len() == 7,
        "item_id"@[1] == 't',
        "message"@.len() == 7,
        "message"@[1] == 'e',
        "summary"@.len() == 7,
        "summary"@[1] == 'u',
        "chatcmpl"@.len() == 8,
        "chatcmpl"@[0] == 'c',
        "chatcmpl"@[2] == 'a',
        "disabled"@.len() == 8,
        "disabled"@[0] == 'd',
        "disabled"@[2] == 's',
        "end_turn"@.len() == 8,
        "end_turn"@[0] == 'e',
        "end_turn"@[2] == 'd',
        "function"@.len() == 8,
        "function"@[0] == 'f',
        "function"@[2] == 'n',
        "messages"@.len() == 8,
        "messages"@[0] == 'm',
        "messages"@[2] == 's',
        "metadata"@.len() == 8,
        "metadata"@[0] == 'm',
        "metadata"@[2] == 't',
        "response"@.len() == 8,
        "response"@[0] == 'r',
        "response"@[2] == 's',
        "thinking"@.len() == 8,
        "thinking"@[0] == 't',
        "thinking"@[2] == 'i',
        "tool_use"@.len() == 8,
        "tool_use"@[0] == 't',
        "tool_use"@[2] == 'o',
        "arguments"@.len() == 9,
        "arguments"@[2] == 'g',
        "assistant"@.len() == 9,
        "assistant"@[2] == 's',
        "completed"@.len() == 9,
        "completed"@[2] == 'm',
        "developer"@.len() == 9,
        "developer"@[2] == 'v',
        "reasoning"@.len() == 9,
        "reasoning"@[2] == 'a',
        "created_at"@.len() == 10,
        "created_at"@[0] == 'c',
        "created_at"@[1] == 'r',
        "input_text"@.len() == 10,
        "input_text"@[0] == 'i',
        "input_text"@[1] == 'n',
        "logit_bias"@.len() == 10,
        "logit_bias"@[0] == 'l',
        "logit_bias"@[1] == 'o',
        "max_tokens"@.len() == 10,
        "max_tokens"@[0] == 'm',
        "max_tokens"@[1] == 'a',
        "parameters"@.len() == 10,
        "parameters"@[0] == 'p',
        "parameters"@[1] == 'a',
        "text_delta"@.len() == 10,
        "text_delta"@[0] == 't',
        "text_delta"@[1] == 'e',
        "tool_calls"@.len() == 10,
        "tool_calls"@[0] == 't',
        "tool_calls"@[1] == 'o',
        "truncation"@.len() == 10,
        "truncation"@[0] == 't',
        "truncation"@[1] == 'r',
        "annotations"@.len() == 11,
        "annotations"@[0] == 'a',
        "annotations"@[6] == 't',
        "description"@.len() == 11,
        "description"@[0] == 'd',
        "description"@[6] == 'p',
        "in_progress"@.len() == 11,
        "in_progress"@[0] == 'i',
        "in_progress"@[6] == 'g',
        "input_image"@.len() == 11,
        "input_image"@[0] == 'i',
        "input_image"@[6] == 'i',
        "output_text"@.len() == 11,
        "output_text"@[0] == 'o',
        "output_text"@[6] == '_',
        "stop_reason"@.len() == 11,
        "stop_reason"@[0] == 's',
        "stop_reason"@[6] == 'e',
        "temperature"@.len() == 11,
        "temperature"@[0] == 't',
        "temperature"@[6] == 'a',
        "tool_choice"@.len() == 11,
        "tool_choice"@[0] == 't',
        "tool_choice"@[6] == 'h',
        "tool_result"@.len() == 11,
        "tool_result"@[0] == 't',
        "tool_result"@[6] == 'e',
        "tool_use_id"@.len() == 11,
        "tool_use_id"@[0] == 't',
        "tool_use_id"@[6] == 's',
        "input_schema"@.len() == 12,
        "input_schema"@[0] == 'i',
        "input_schema"@[6] == 's',
        "input_tokens"@.len() == 12,
        "input_tokens"@[0] == 'i',
        "input_tokens"@[6] == 't',
        "instructions"@.len() == 12,
        "instructions"@[0] == 'i',
        "instructions"@[6] == 'c',
        "message_stop"@.len() == 12,
        "message_stop"@[0] == 'm',
        "message_stop"@[6] == 'e',
        "output_index"@.len() == 12,
        "output_index"@[0] == 'o',
        "output_index"@[6] == '_',
        "tool_call_id"@.len() == 12,
        "tool_call_id"@[0] == 't',
        "tool_call_id"@[6] == 'a',
        "total_tokens"@.len() == 12,
        "total_tokens"@[0] == 't',
        "total_tokens"@[6] == 't',
        "content_block"@.len() == 13,
        "content_block"@[0] == 'c',
        "content_block"@[8] == 'b',
        "content_index"@.len() == 13,
        "content_index"@[0] == 'c',
        "content_index"@[8] == 'i',
        "finish_reason"@.len() == 13,
        "finish_reason"@[0] == 'f',
        "finish_reason"@[8] == 'e',
        "function_call"@.len() == 13,
        "function_call"@[0] == 'f',
        "function_call"@[8] == '_',
        "include_usage"@.len() == 13,
        "include_usage"@[0] == 'i',
        "include_usage"@[8] == 'u',
        "message_delta"@.len() == 13,
        "message_delta"@[0] == 'm',
        "message_delta"@[8] == 'd',
        "message_start"@.len() == 13,
        "message_start"@[0] == 'm',
        "message_start"@[8] == 's',
        "output_tokens"@.len() == 13,
        "output_tokens"@[0] == 'o',
        "output_tokens"@[8] == 'o',
        "prompt_tokens"@.len() == 13,
        "prompt_tokens"@[0] == 'p',
        "prompt_tokens"@[8] == 'o',
        "stream_options"@.len() == 14,
        "stream_options"@[0] == 's',
        "thinking_delta"@.len() == 14,
        "thinking_delta"@[0] == 't',
        "chat.completion"@.len() == 15,
        "custom_tool_call"@.len() == 16,
        "custom_tool_call"@[8] == 'o',
        "local_shell_call"@.len() == 16,
        "local_shell_call"@[8] == 'e',
        "presence_penalty"@.len() == 16,
        "presence_penalty"@[8] == '_',
        "reasoning_effort"@.len() == 16,
        "reasoning_effort"@[8] == 'g',
        "response.created"@.len() == 16,
        "response.created"@[8] == '.',
        "completion_tokens"@.len() == 17,
        "completion_tokens"@[0] == 'c',
        "frequency_penalty"@.len() == 17,
        "frequency_penalty"@[0] == 'f',
        "max_output_tokens"@.len() == 17,
        "max_output_tokens"@[0] == 'm',
        "reasoning_content"@.len() == 17,
        "reasoning_content"@[0] == 'r',
        "content_block_stop"@.len() == 18,
        "content_block_stop"@[0] == 'c',
        "response.completed"@.len() == 18,
        "response.completed"@[0] == 'r',
        "content_block_delta"@.len() == 19,
        "content_block_delta"@[14] == 'd',
        "content_block_start"@.len() == 19,
        "content_block_start"@[14] == 's',
        "parallel_tool_calls"@.len() == 19,
        "parallel_tool_calls"@[14] == 'c',
        "function_call_output"@.len() == 20,
        "function_call_output"@[0] == 'f',
        "previous_response_id"@.len() == 20,
        "previous_response_id"@[0] == 'p',
        "response.in_progress"@.len() == 20,
        "response.in_progress"@[0] == 'r',
        "chat.completion.chunk"@.len() == 21,
        "chat.completion.chunk"@[0] == 'c',
        "max_completion_tokens"@.len() == 21,
        "max_completion_tokens"@[0] == 'm',
        "response.output_item.done"@.len() == 25,
        "response.content_part.done"@.len() == 26,
        "response.content_part.done"@[16] == '_',
        "response.output_item.added"@.len() == 26,
        "response.output_item.added"@[16] == 'i',
        "response.output_text.delta"@.len() == 26,
        "response.output_text.delta"@[16] == 't',
        "response.content_part.added"@.len() == 27,
        "response.reasoning_text.delta"@.len() == 29,
        "response.function_call_arguments.done"@.len() == 37,
        "response.function_call_arguments.delta"@.len() == 38,
{
    lemma_length_0();
    lemma_length_2();
    lemma_length_3();
    lemma_length_4();
    lemma_length_5();
    lemma_length_6();
    lemma_length_7();
    lemma_length_8();
    lemma_length_9();
    lemma_length_10();
    lemma_length_11();
    lemma_length_12();
    lemma_length_13();
    lemma_length_14();
    lemma_length_15();
    lemma_length_16();
    lemma_length_17();
    lemma_length_18();
    lemma_length_19();
    lemma_length_20();
    lemma_length_21();
    lemma_length_25();
    lemma_length_26();
    lemma_length_27();
    lemma_length_29();
    lemma_length_37();
    lemma_length_38();
}

} // verus!
