use llm_proxy::format::Protocol;
use llm_proxy::transform::anthropic_to_chat_stream::{
    anthropic_sse_to_chat_sse, flush_anthropic_to_chat, AnthropicToChatStreamState,
};
use llm_proxy::transform::anthropic_to_responses_stream::{
    anthropic_sse_to_responses_sse, AnthropicToResponsesStreamState,
};
use llm_proxy::transform::chat_to_anthropic_stream::{
    chat_sse_to_anthropic_sse, flush_chat_to_anthropic, ChatToAnthropicStreamState,
};
use llm_proxy::transform::chat_to_responses_stream::{
    chat_sse_to_responses_sse, flush_stream_completion, ChatToResponsesStreamState,
};
use llm_proxy::transform::responses_to_anthropic_stream::{
    responses_sse_to_anthropic_sse, ResponsesToAnthropicStreamState,
};
use llm_proxy::transform::responses_to_chat_stream::{
    responses_sse_to_chat_sse, ResponsesToChatStreamState,
};
use llm_proxy::transform::StreamTransformer;
use serde_json::Value;

fn value(text: &str) -> Value {
    serde_json::from_str(text).unwrap()
}

/// The events of an output. The line that ends a stream stands for a string.
fn events(output: Option<String>) -> Vec<Value> {
    let output = output.unwrap_or_default();
    let mut list = Vec::new();
    for event in output.split("\n\n") {
        if event.is_empty() {
            continue;
        }
        let data = event.strip_prefix("data: ").unwrap();
        if data == "[DONE]" {
            list.push(Value::from("[DONE]"));
        } else {
            list.push(value(data));
        }
    }
    list
}

fn kinds(list: &[Value]) -> Vec<String> {
    list.iter()
        .map(|event| match &event["type"] {
            Value::String(kind) => kind.clone(),
            _ => event.as_str().unwrap_or("chunk").to_string(),
        })
        .collect()
}

#[test]
fn chat_stream_to_responses() {
    let mut state = ChatToResponsesStreamState::new("mine");
    state.msg_id = "msg".to_string();
    state.resp_id = "resp".to_string();
    state.created = 5;

    let first = events(chat_sse_to_responses_sse(
        "data: {\"choices\":[{\"delta\":{\"role\":\"assistant\"}}]}\n",
        &mut state,
    ));
    assert_eq!(
        first,
        vec![
            value(r#"{"type":"response.created","response":{"id":"resp","object":"response","created_at":5,"status":"in_progress","model":"mine","output":[],"usage":null}}"#),
            value(r#"{"type":"response.in_progress","response":{"id":"resp","object":"response","created_at":5,"status":"in_progress","model":"mine","output":[],"usage":null}}"#),
            value(r#"{"type":"response.output_item.added","output_index":0,"item":{"id":"msg","type":"message","role":"assistant","status":"in_progress","content":[]}}"#),
            value(r#"{"type":"response.content_part.added","output_index":0,"content_index":0,"part":{"type":"output_text","text":"","annotations":[]}}"#),
        ]
    );

    let second = events(chat_sse_to_responses_sse(
        r#"data: {"choices":[{"delta":{"reasoning_content":"hm","content":"He"}}]}"#,
        &mut state,
    ));
    assert_eq!(
        second,
        vec![
            value(r#"{"type":"response.reasoning_text.delta","item_id":"msg","output_index":0,"content_index":0,"delta":"hm"}"#),
            value(r#"{"type":"response.output_text.delta","item_id":"msg","output_index":0,"content_index":0,"delta":"He"}"#),
        ]
    );
    assert!(chat_sse_to_responses_sse(
        r#"data: {"choices":[{"delta":{"content":""}}]}"#,
        &mut state
    )
    .is_none());
    assert!(chat_sse_to_responses_sse("event: x", &mut state).is_none());
    assert_eq!(state.full_text, "He");

    let call = events(chat_sse_to_responses_sse(
        r#"data: {"choices":[{"delta":{"tool_calls":[{"index":1,"id":"c","function":{"name":"f","arguments":"{"}},{"index":1,"function":{"arguments":"}"}}]}}]}"#,
        &mut state,
    ));
    assert_eq!(
        call,
        vec![
            value(r#"{"type":"response.content_part.done","output_index":0,"content_index":0,"part":{"type":"output_text","text":"He","annotations":[]}}"#),
            value(r#"{"type":"response.output_item.done","output_index":0,"item":{"id":"msg","type":"message","role":"assistant","status":"completed","content":[{"type":"output_text","text":"He","annotations":[]}]}}"#),
            value(r#"{"type":"response.output_item.added","output_index":2,"item":{"id":"c","type":"function_call","call_id":"c","name":"f","arguments":"","status":"in_progress"}}"#),
            value(r#"{"type":"response.function_call_arguments.delta","item_id":"c","output_index":2,"delta":"}"}"#),
        ]
    );

    let done = events(chat_sse_to_responses_sse(
        r#"data: {"choices":[{"finish_reason":"tool_calls"}],"usage":{"prompt_tokens":3,"completion_tokens":4}}"#,
        &mut state,
    ));
    assert_eq!(
        done,
        vec![
            value(r#"{"type":"response.function_call_arguments.done","item_id":"c","output_index":2,"arguments":"{}"}"#),
            value(r#"{"type":"response.output_item.done","output_index":2,"item":{"id":"c","type":"function_call","call_id":"c","name":"f","arguments":"{}","status":"completed"}}"#),
        ]
    );
    assert!(state.active_tool_calls.is_empty());
    assert_eq!(state.completed_tool_calls.len(), 1);

    let end = events(chat_sse_to_responses_sse("data: [DONE]\n", &mut state));
    assert_eq!(
        end,
        vec![
            value(
                r#"{"type":"response.completed","response":{"id":"resp","object":"response","created_at":5,"status":"completed","model":"mine","output":[
                {"id":"msg","type":"message","role":"assistant","status":"completed","content":[{"type":"output_text","text":"He","annotations":[]}]},
                {"id":"c","type":"function_call","call_id":"c","name":"f","arguments":"{}","status":"completed"}],
                "usage":{"input_tokens":3,"output_tokens":4,"total_tokens":7},
                "parallel_tool_calls":true,"previous_response_id":null,"reasoning":{"effort":"medium","summary":"auto"},
                "text":{"format":{"type":"text"}},"tools":[],"truncation":"disabled"}}"#
            ),
            Value::from("[DONE]"),
        ]
    );
    assert!(chat_sse_to_responses_sse("data: [DONE]", &mut state).is_none());
    assert!(flush_stream_completion(&mut state).is_none());
}

#[test]
fn open_calls_are_completed_at_the_end() {
    let mut state = ChatToResponsesStreamState::new("m");
    chat_sse_to_responses_sse(
        r#"data: {"choices":[{"delta":{"tool_calls":[{"id":"a","function":{"name":"f","arguments":"1"}}]}}]}"#,
        &mut state,
    );
    let list = events(flush_stream_completion(&mut state));
    assert_eq!(
        kinds(&list),
        vec![
            "response.function_call_arguments.done",
            "response.output_item.done",
            "response.completed",
            "[DONE]"
        ]
    );
    assert_eq!(
        list[2]["response"]["output"].as_array().unwrap().len(),
        1
    );
    assert!(state.completed);
}

#[test]
fn usage_alone_shows_nothing() {
    let mut state = ChatToResponsesStreamState::new("m");
    state.headers_emitted = true;
    assert!(chat_sse_to_responses_sse(
        r#"data: {"choices":[],"usage":{"prompt_tokens":8,"completion_tokens":9}}"#,
        &mut state
    )
    .is_none());
    assert_eq!((state.total_input, state.total_output), (8, 9));
}

#[test]
fn responses_stream_to_chat() {
    let mut state = ResponsesToChatStreamState::new("mine");
    state.chat_id = "id".to_string();
    state.created = 5;
    let chunk = |delta: &str| {
        value(&format!(
            r#"{{"id":"id","object":"chat.completion.chunk","created":5,"model":"mine","choices":[{{"index":0,"delta":{},"finish_reason":null}}]}}"#,
            delta
        ))
    };
    assert_eq!(
        events(responses_sse_to_chat_sse(
            r#"data: {"type":"response.created"}"#,
            &mut state
        )),
        vec![chunk(r#"{"role":"assistant"}"#)]
    );
    assert_eq!(
        events(responses_sse_to_chat_sse(
            r#"data: {"type":"response.output_text.delta","delta":"Hi"}"#,
            &mut state
        )),
        vec![chunk(r#"{"content":"Hi"}"#)]
    );
    assert_eq!(
        events(responses_sse_to_chat_sse(
            r#"data: {"type":"response.reasoning_text.delta","delta":"hm"}"#,
            &mut state
        )),
        vec![chunk(r#"{"reasoning_content":"hm"}"#)]
    );
    assert_eq!(
        events(responses_sse_to_chat_sse(
            r#"data: {"type":"response.output_item.added","item":{"type":"function_call","id":"i","call_id":"c","name":"f"}}"#,
            &mut state
        )),
        vec![chunk(
            r#"{"tool_calls":[{"index":0,"id":"c","type":"function","function":{"name":"f","arguments":""}}]}"#
        )]
    );
    assert_eq!(
        events(responses_sse_to_chat_sse(
            r#"data: {"type":"response.function_call_arguments.delta","item_id":"i","delta":"{}"}"#,
            &mut state
        )),
        vec![chunk(
            r#"{"tool_calls":[{"index":0,"function":{"arguments":"{}"}}]}"#
        )]
    );
    for line in [
        r#"data: {"type":"response.function_call_arguments.delta","item_id":"?","delta":"x"}"#,
        r#"data: {"type":"response.output_item.added","item":{"type":"message"}}"#,
        r#"data: {"type":"response.output_text.delta","delta":""}"#,
        "data: [DONE]",
        "data: {",
    ] {
        assert!(responses_sse_to_chat_sse(line, &mut state).is_none());
    }
    assert_eq!(state.full_text, "Hi");
    assert_eq!(state.active_tool_calls[0].arguments, "{}");
    assert_eq!(
        events(responses_sse_to_chat_sse(
            r#"data: {"type":"response.completed","response":{"usage":{"input_tokens":1,"output_tokens":2}}}"#,
            &mut state
        )),
        vec![
            value(
                r#"{"id":"id","object":"chat.completion.chunk","created":5,"model":"mine","choices":[{"index":0,"delta":{},"finish_reason":"tool_calls"}],
                "usage":{"prompt_tokens":1,"completion_tokens":2,"total_tokens":3}}"#
            ),
            Value::from("[DONE]")
        ]
    );
    assert!(state.completed);
}

#[test]
fn anthropic_stream_to_responses() {
    let mut state = AnthropicToResponsesStreamState::new("mine");
    state.msg_id = "msg".to_string();
    state.resp_id = "resp".to_string();
    state.created = 5;
    let first = events(anthropic_sse_to_responses_sse(
        r#"data: {"type":"message_start","message":{"usage":{"input_tokens":3}}}"#,
        &mut state,
    ));
    assert_eq!(
        kinds(&first),
        vec![
            "response.created",
            "response.in_progress",
            "response.output_item.added",
            "response.content_part.added"
        ]
    );
    assert_eq!(
        events(anthropic_sse_to_responses_sse(
            r#"data: {"type":"content_block_delta","delta":{"type":"text_delta","text":"Hi"}}"#,
            &mut state
        )),
        vec![value(
            r#"{"type":"response.output_text.delta","item_id":"msg","output_index":0,"content_index":0,"delta":"Hi"}"#
        )]
    );
    assert_eq!(
        events(anthropic_sse_to_responses_sse(
            r#"data: {"type":"content_block_delta","delta":{"type":"thinking_delta","thinking":"hm"}}"#,
            &mut state
        )),
        vec![value(
            r#"{"type":"response.reasoning_text.delta","item_id":"msg","output_index":0,"content_index":0,"delta":"hm"}"#
        )]
    );
    assert!(anthropic_sse_to_responses_sse(
        r#"data: {"type":"message_delta","usage":{"output_tokens":4}}"#,
        &mut state
    )
    .is_none());
    assert!(anthropic_sse_to_responses_sse("data: [DONE]", &mut state).is_none());
    let end = events(anthropic_sse_to_responses_sse(
        r#"data: {"type":"message_stop"}"#,
        &mut state,
    ));
    assert_eq!(
        kinds(&end),
        vec![
            "response.content_part.done",
            "response.output_item.done",
            "response.completed",
            "[DONE]"
        ]
    );
    assert_eq!(
        end[2]["response"]["usage"],
        value(r#"{"input_tokens":3,"output_tokens":4,"total_tokens":7}"#)
    );
    assert_eq!(end[2]["response"]["output"][0]["content"][0]["text"], "Hi");
    assert!(state.completed && state.msg_closed);
}

#[test]
fn responses_stream_to_anthropic() {
    let mut state = ResponsesToAnthropicStreamState::new("mine");
    state.msg_id = "msg".to_string();
    assert_eq!(
        events(responses_sse_to_anthropic_sse(
            r#"data: {"type":"response.output_text.delta","delta":"Hi"}"#,
            &mut state
        )),
        vec![
            value(
                r#"{"type":"message_start","message":{"id":"msg","type":"message","role":"assistant","model":"mine","content":[],"stop_reason":null,"usage":{"input_tokens":0,"output_tokens":0}}}"#
            ),
            value(
                r#"{"type":"content_block_start","index":0,"content_block":{"type":"text","text":""}}"#
            ),
            value(
                r#"{"type":"content_block_delta","index":0,"delta":{"type":"text_delta","text":"Hi"}}"#
            ),
        ]
    );
    assert_eq!(
        events(responses_sse_to_anthropic_sse(
            r#"data: {"type":"response.reasoning_text.delta","delta":"hm"}"#,
            &mut state
        )),
        vec![value(
            r#"{"type":"content_block_delta","index":0,"delta":{"type":"thinking_delta","thinking":"hm"}}"#
        )]
    );
    assert!(responses_sse_to_anthropic_sse("data: [DONE]", &mut state).is_none());
    assert_eq!(
        events(responses_sse_to_anthropic_sse(
            r#"data: {"type":"response.completed","response":{"usage":{"input_tokens":1,"output_tokens":2}}}"#,
            &mut state
        )),
        vec![
            value(r#"{"type":"content_block_stop","index":0}"#),
            value(
                r#"{"type":"message_delta","delta":{"stop_reason":"end_turn"},"usage":{"output_tokens":2}}"#
            ),
            value(r#"{"type":"message_stop","usage":{"input_tokens":1,"output_tokens":2}}"#),
        ]
    );
    assert_eq!(state.full_text, "Hi");
}

#[test]
fn anthropic_stream_to_chat() {
    let mut state = AnthropicToChatStreamState::new("mine");
    state.chat_id = "id".to_string();
    state.created = 5;
    let chunk = |delta: &str| {
        value(&format!(
            r#"{{"id":"id","object":"chat.completion.chunk","created":5,"model":"mine","choices":[{{"index":0,"delta":{},"finish_reason":null}}]}}"#,
            delta
        ))
    };
    assert_eq!(
        events(anthropic_sse_to_chat_sse(
            r#"data: {"type":"message_start","message":{"usage":{"input_tokens":3}}}"#,
            &mut state
        )),
        vec![chunk(r#"{"role":"assistant"}"#)]
    );
    assert_eq!(
        events(anthropic_sse_to_chat_sse(
            r#"data: {"type":"content_block_delta","delta":{"type":"text_delta","text":"Hi"}}"#,
            &mut state
        )),
        vec![chunk(r#"{"content":"Hi"}"#)]
    );
    assert_eq!(
        events(anthropic_sse_to_chat_sse(
            r#"data: {"type":"content_block_delta","delta":{"type":"thinking_delta","thinking":"hm"}}"#,
            &mut state
        )),
        vec![chunk(r#"{"reasoning_content":"hm"}"#)]
    );
    assert_eq!(
        events(anthropic_sse_to_chat_sse(
            r#"data: {"type":"message_delta","delta":{"stop_reason":"tool_use"},"usage":{"output_tokens":4}}"#,
            &mut state
        )),
        vec![
            value(
                r#"{"id":"id","object":"chat.completion.chunk","created":5,"model":"mine","choices":[{"index":0,"delta":{},"finish_reason":"tool_calls"}],
                "usage":{"prompt_tokens":3,"completion_tokens":4,"total_tokens":7}}"#
            ),
            Value::from("[DONE]")
        ]
    );
    assert!(anthropic_sse_to_chat_sse(r#"data: {"type":"message_stop"}"#, &mut state).is_none());
    assert!(flush_anthropic_to_chat(&mut state).is_none());

    let mut stopped = AnthropicToChatStreamState::new("m");
    stopped.headers_emitted = true;
    assert_eq!(
        kinds(&events(anthropic_sse_to_chat_sse(
            r#"data: {"type":"message_stop"}"#,
            &mut stopped
        ))),
        vec!["chunk", "[DONE]"]
    );

    let mut broken = AnthropicToChatStreamState::new("m");
    let flushed = events(flush_anthropic_to_chat(&mut broken));
    assert_eq!(kinds(&flushed), vec!["chunk", "chunk", "[DONE]"]);
    assert_eq!(flushed[1]["choices"][0]["finish_reason"], "stop");
    assert!(flush_anthropic_to_chat(&mut broken).is_none());
}

#[test]
fn chat_stream_to_anthropic() {
    let mut state = ChatToAnthropicStreamState::new("mine");
    state.msg_id = "msg".to_string();
    assert_eq!(
        kinds(&events(chat_sse_to_anthropic_sse(
            r#"data: {"choices":[{"delta":{"role":"assistant"}}]}"#,
            &mut state
        ))),
        vec!["message_start"]
    );
    assert_eq!(
        events(chat_sse_to_anthropic_sse(
            r#"data: {"choices":[{"delta":{"content":"Hi","reasoning_content":"hm"}}]}"#,
            &mut state
        )),
        vec![
            value(
                r#"{"type":"content_block_start","index":0,"content_block":{"type":"text","text":""}}"#
            ),
            value(
                r#"{"type":"content_block_delta","index":0,"delta":{"type":"text_delta","text":"Hi"}}"#
            ),
            value(
                r#"{"type":"content_block_delta","index":0,"delta":{"type":"thinking_delta","thinking":"hm"}}"#
            ),
        ]
    );
    assert_eq!(
        events(chat_sse_to_anthropic_sse(
            r#"data: {"choices":[{"finish_reason":"tool_calls"}]}"#,
            &mut state
        )),
        vec![
            value(r#"{"type":"content_block_stop","index":0}"#),
            value(
                r#"{"type":"message_delta","delta":{"stop_reason":"tool_use"},"usage":{"output_tokens":0}}"#
            ),
            value(r#"{"type":"message_stop","usage":{"input_tokens":0,"output_tokens":0}}"#),
        ]
    );
    assert!(chat_sse_to_anthropic_sse("data: [DONE]", &mut state).is_none());
    assert!(flush_chat_to_anthropic(&mut state).is_none());

    let mut ended = ChatToAnthropicStreamState::new("m");
    assert_eq!(
        kinds(&events(chat_sse_to_anthropic_sse(
            "data: [DONE]",
            &mut ended
        ))),
        vec!["message_delta", "message_stop"]
    );
    let mut broken = ChatToAnthropicStreamState::new("m");
    assert_eq!(
        kinds(&events(flush_chat_to_anthropic(&mut broken))),
        vec!["message_start", "message_delta", "message_stop"]
    );
}

#[test]
fn transformers_for_every_direction() {
    let all = [Protocol::Responses, Protocol::Chat, Protocol::Anthropic];
    for from in all {
        for to in all {
            let mut transformer = StreamTransformer::new(from, to, Some("mine"));
            assert_eq!(transformer.is_passthrough(), from == to);
            let line = "event: ping\n";
            let output = transformer.transform_sse_line(line);
            if from == to {
                assert_eq!(output.as_deref(), Some(line));
            } else {
                assert!(output.is_none());
                let shown = transformer
                    .transform_sse_line("data: {\"type\":\"x\"}\n")
                    .unwrap();
                assert!(shown.contains("mine"));
            }
            let flushed = transformer.flush_if_incomplete();
            assert_eq!(flushed.is_some(), from != to);
            assert!(transformer.flush_if_incomplete().is_none());
        }
    }
    let mut plain = StreamTransformer::new(Protocol::Chat, Protocol::Chat, Some("mine"));
    assert_eq!(
        plain
            .transform_sse_line("data: {\"model\":\"theirs\"}\n")
            .as_deref(),
        Some("data: {\"model\":\"mine\"}\n\n")
    );
}

/// A line that adds the text "Hi" in some protocol.
fn text_line(protocol: Protocol) -> &'static str {
    match protocol {
        Protocol::Responses => "data: {\"type\":\"response.output_text.delta\",\"delta\":\"Hi\"}\n",
        Protocol::Chat => "data: {\"choices\":[{\"delta\":{\"content\":\"Hi\"}}]}\n",
        Protocol::Anthropic => {
            "data: {\"type\":\"content_block_delta\",\"delta\":{\"type\":\"text_delta\",\"text\":\"Hi\"}}\n"
        }
    }
}

fn assert_ended(to: Protocol, list: &[Value]) {
    match to {
        Protocol::Responses => {
            assert_eq!(list[list.len() - 2]["type"], "response.completed");
            assert_eq!(
                list[list.len() - 2]["response"]["output"][0]["content"][0]["text"],
                "Hi"
            );
            assert_eq!(list[list.len() - 1], "[DONE]");
        }
        Protocol::Chat => {
            assert_eq!(list[list.len() - 2]["choices"][0]["finish_reason"], "stop");
            assert_eq!(list[list.len() - 1], "[DONE]");
        }
        Protocol::Anthropic => {
            let kinds = kinds(list);
            assert_eq!(
                &kinds[kinds.len() - 3..],
                ["content_block_stop", "message_delta", "message_stop"]
            );
        }
    }
}

#[test]
fn the_end_marker_flushes_every_conversion() {
    let all = [Protocol::Responses, Protocol::Chat, Protocol::Anthropic];
    for from in all {
        for to in all {
            if from == to {
                continue;
            }
            let mut marked = StreamTransformer::new(from, to, Some("m"));
            assert!(marked.transform_sse_line(text_line(from)).is_some());
            assert_ended(to, &events(marked.transform_sse_line("data: [DONE]\n")));
            assert!(marked.transform_sse_line("data: [DONE]\n").is_none());
            assert!(marked.flush_if_incomplete().is_none());

            let mut broken = StreamTransformer::new(from, to, Some("m"));
            assert!(broken.transform_sse_line(text_line(from)).is_some());
            assert_ended(to, &events(broken.flush_if_incomplete()));
            assert!(broken.transform_sse_line("data: [DONE]\n").is_none());
        }
    }
}

#[test]
fn a_complete_response_is_not_ended_twice() {
    let mut t = StreamTransformer::new(Protocol::Responses, Protocol::Chat, Some("m"));
    assert!(t
        .transform_sse_line("data: {\"type\":\"response.completed\"}\n")
        .is_some());
    assert!(t.transform_sse_line("data: [DONE]\n").is_none());
    assert!(t.flush_if_incomplete().is_none());
}

#[test]
fn a_whole_chat_stream_is_in_order() {
    let mut state = ChatToResponsesStreamState::new("m");
    let mut all = Vec::new();
    for line in [
        r#"data: {"choices":[{"delta":{"content":"a"}}]}"#,
        r#"data: {"choices":[]}"#,
        r#"data: {"choices":[{"delta":{"content":"","reasoning_content":"hm"}}]}"#,
        r#"data: {"choices":[{"delta":{"content":"bc"}}]}"#,
        r#"data: {"choices":[{"delta":{"tool_calls":[{"index":0,"id":"x"},{"index":1,"id":"y"}]}}]}"#,
        r#"data: {"choices":[{"finish_reason":"tool_calls"}]}"#,
    ] {
        all.extend(events(chat_sse_to_responses_sse(line, &mut state)));
    }
    let kinds = kinds(&all);
    let places = |wanted: &dyn Fn(&Value) -> bool| -> Vec<usize> {
        (0..all.len()).filter(|i| wanted(&all[*i])).collect()
    };
    assert_eq!(places(&|e| e["type"] == "response.created"), [0]);
    let texts: Vec<&str> = all
        .iter()
        .filter(|e| e["type"] == "response.output_text.delta")
        .map(|e| e["delta"].as_str().unwrap())
        .collect();
    assert_eq!(texts, ["a", "bc"]);
    assert_eq!(state.full_text, "abc");
    let closed = places(&|e| {
        e["type"] == "response.output_item.done" && e["item"]["type"] == "message"
    });
    assert_eq!(closed.len(), 1, "{:?}", kinds);
    let added = places(&|e| {
        e["type"] == "response.output_item.added" && e["item"]["type"] == "function_call"
    });
    assert_eq!(added.len(), 2);
    assert!(added.iter().all(|i| *i > closed[0]));
}

#[test]
fn a_whole_anthropic_stream_reports_all() {
    let mut state = AnthropicToResponsesStreamState::new("m");
    let mut all = Vec::new();
    for line in [
        "event: message_start",
        r#"data: {"type":"message_start","message":{"usage":{"input_tokens":11}}}"#,
        r#"data: {"type":"content_block_delta","delta":{"type":"thinking_delta","thinking":"hm"}}"#,
        r#"data: {"type":"content_block_delta","delta":{"type":"text_delta","text":"a"}}"#,
        r#"data: {"type":"message_delta","usage":{"output_tokens":3}}"#,
        r#"data: {"type":"content_block_delta","delta":{"type":"text_delta","text":"bc"}}"#,
        r#"data: {"type":"message_delta","usage":{"output_tokens":7}}"#,
        r#"data: {"type":"message_delta"}"#,
        r#"data: {"type":"message_stop"}"#,
    ] {
        all.extend(events(anthropic_sse_to_responses_sse(line, &mut state)));
    }
    let completed: Vec<usize> = (0..all.len())
        .filter(|i| all[*i]["type"] == "response.completed")
        .collect();
    assert_eq!(completed, [all.len() - 2]);
    assert_eq!(all[all.len() - 1], "[DONE]");
    let response = &all[all.len() - 2]["response"];
    assert_eq!(response["output"][0]["content"][0]["text"], "abc");
    assert_eq!(response["usage"]["total_tokens"], 18);
}
