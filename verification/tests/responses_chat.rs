use llm_proxy::json::{parse_json, print_json, Json};
use llm_proxy::transform::responses_chat::{
    collapse_system_messages_to_head, instruction_text, is_openai_o_series,
    request_chat_to_responses, request_responses_to_chat, response_chat_to_responses,
    response_chat_to_responses_with, response_responses_to_chat, response_responses_to_chat_with,
    responses_content_to_chat_text, responses_tool_choice_to_chat,
};
use serde_json::Value;

fn json(text: &str) -> Json {
    parse_json(text.as_bytes()).unwrap()
}

fn shown(value: &Json) -> Value {
    serde_json::from_str(&print_json(value)).unwrap()
}

fn value(text: &str) -> Value {
    serde_json::from_str(text).unwrap()
}

fn to_chat(text: &str) -> Value {
    shown(&request_responses_to_chat(&json(text)).unwrap())
}

fn to_responses(text: &str) -> Value {
    shown(&request_chat_to_responses(&json(text)).unwrap())
}

#[test]
fn test_request_responses_to_chat_simple() {
    let result = to_chat(
        r#"{
            "model": "gpt-4",
            "instructions": "You are helpful.",
            "input": "Hello"
        }"#,
    );
    assert_eq!(result["model"], "gpt-4");
    let msgs = result["messages"].as_array().unwrap();
    assert_eq!(msgs.len(), 2);
    assert_eq!(msgs[0]["role"], "system");
    assert_eq!(msgs[1]["role"], "user");
}

#[test]
fn test_request_responses_to_chat_with_tools() {
    let result = to_chat(
        r#"{
            "model": "gpt-4",
            "input": [
                {"role": "user", "content": "What is the weather?"},
                {"type": "function_call", "call_id": "call_1", "name": "get_weather", "arguments": "{\"city\":\"Tokyo\"}"},
                {"type": "function_call_output", "call_id": "call_1", "output": "Sunny, 20C"}
            ]
        }"#,
    );
    let msgs = result["messages"].as_array().unwrap();
    assert_eq!(msgs.len(), 3);
    assert_eq!(msgs[1]["role"], "assistant");
    assert_eq!(msgs[2]["role"], "tool");
}

#[test]
fn test_request_chat_to_responses_simple() {
    let result = to_responses(
        r#"{
            "model": "gpt-4",
            "messages": [
                {"role": "system", "content": "You are helpful."},
                {"role": "user", "content": "Hello"}
            ]
        }"#,
    );
    assert_eq!(result["model"], "gpt-4");
    assert_eq!(result["instructions"], "You are helpful.");
    let input = result["input"].as_array().unwrap();
    assert_eq!(input.len(), 1);
}

#[test]
fn test_response_chat_to_responses() {
    let chat = json(
        r#"{
            "model": "test",
            "choices": [{"message": {"role": "assistant", "content": "Hello!"}}],
            "usage": {"prompt_tokens": 10, "completion_tokens": 5, "total_tokens": 15}
        }"#,
    );
    let result = shown(&response_chat_to_responses(&chat, None).unwrap());
    assert_eq!(result["object"], "response");
    assert_eq!(result["status"], "completed");
}

#[test]
fn test_response_responses_to_chat() {
    let resp = json(
        r#"{
            "model": "test",
            "output": [{
                "type": "message",
                "role": "assistant",
                "content": [{"type": "output_text", "text": "Hi there!"}]
            }],
            "usage": {"input_tokens": 10, "output_tokens": 5, "total_tokens": 15}
        }"#,
    );
    let result = shown(&response_responses_to_chat(&resp, None).unwrap());
    assert_eq!(result["object"], "chat.completion");
    let choices = result["choices"].as_array().unwrap();
    assert_eq!(choices[0]["message"]["content"], "Hi there!");
}

#[test]
fn every_kind_of_input_item_is_converted() {
    let result = to_chat(
        r#"{"input": [
            "bare",
            {"type":"message","role":"developer","content":[
                {"type":"input_text","text":"one"},{"type":"input_image"},{"type":"x","text":"two"},{"type":"x"}]},
            {"type":"local_shell_call","call_id":"1"},
            {"type":"custom_tool_call","name":"n","arguments":"[]"},
            {"type":"reasoning","text":"skipped"},
            {"role":7,"content":"typeless"},
            {"type":"function_call_output"},
            5
        ]}"#,
    );
    assert_eq!(
        result["messages"],
        value(
            r#"[
            {"role":"user","content":"bare"},
            {"role":"system","content":"one\n[image]\ntwo"},
            {"role":"assistant","tool_calls":[
                {"id":"1","type":"function","function":{"name":"","arguments":"{}"}},
                {"id":"","type":"function","function":{"name":"n","arguments":"[]"}}]},
            {"role":"user","content":"typeless"},
            {"role":"tool","tool_call_id":"","content":""}
        ]"#
        )
    );
}

#[test]
fn pending_calls_are_made_at_the_end() {
    let result = to_chat(r#"{"input": {"type":"function_call","call_id":"c","name":"f"}}"#);
    assert_eq!(
        result["messages"],
        value(
            r#"[{"role":"assistant","tool_calls":[
                {"id":"c","type":"function","function":{"name":"f","arguments":"{}"}}]}]"#
        )
    );
    assert_eq!(to_chat(r#"{"input": 5}"#)["messages"], value("[]"));
    assert_eq!(to_chat("{}"), value(r#"{"messages":[]}"#));
}

#[test]
fn system_messages_are_gathered_in_the_first() {
    let result = to_chat(
        r#"{"instructions":["a","b",3],"input":[
            {"role":"user","content":"u"},
            {"role":"system","content":"c"},
            {"role":"developer","content":"d"}
        ]}"#,
    );
    assert_eq!(
        result["messages"],
        value(r#"[{"role":"system","content":"a\nb\nc\nd"},{"role":"user","content":"u"}]"#)
    );
    let messages = vec![
        json(r#"{"role":"user","content":"x"}"#),
        json(r#"{"role":"system","content":5,"more":true}"#),
        json(r#"{"role":"system","content":"t"}"#),
    ];
    let merged = collapse_system_messages_to_head(messages);
    assert_eq!(merged.len(), 2);
    assert_eq!(
        shown(&merged[1]),
        value(r#"{"role":"system","content":"t","more":true}"#)
    );
}

#[test]
fn limits_tools_and_options_are_carried() {
    let result = to_chat(
        r#"{"model":"o3-mini","max_output_tokens":5,"temperature":0.5,"top_p":1,"stream":true,
            "reasoning":{"effort":"high"},
            "tools":[{"type":"function","name":"f","parameters":{"a":1}},{"type":"web_search"}],
            "tool_choice":{"type":"function","name":"f"},
            "metadata":{"k":"v"},"stop":["x"],"presence_penalty":1,"frequency_penalty":2,
            "logit_bias":{},"seed":3,"user":"me","other":1}"#,
    );
    assert_eq!(
        result,
        value(
            r#"{"model":"o3-mini","messages":[],"max_completion_tokens":5,"temperature":0.5,"top_p":1,
            "stream":true,"reasoning_effort":"high",
            "tools":[{"type":"function","function":{"name":"f","description":"","parameters":{"a":1}}}],
            "tool_choice":{"type":"function","function":{"name":"f"}},
            "metadata":{"k":"v"},"stop":["x"],"presence_penalty":1,"frequency_penalty":2,
            "logit_bias":{},"seed":3,"user":"me","stream_options":{"include_usage":true}}"#
        )
    );
    let plain = to_chat(
        r#"{"model":"gpt","max_output_tokens":5,"max_tokens":6,"stream":false,"tool_choice":"auto"}"#,
    );
    assert_eq!(
        plain,
        value(r#"{"model":"gpt","messages":[],"max_tokens":6,"stream":false}"#)
    );
}

#[test]
fn tool_choices() {
    let converted = |text: &str| shown(&responses_tool_choice_to_chat(&json(text)));
    assert_eq!(converted("\"required\""), "required");
    assert_eq!(converted("{\"type\":\"x\"}"), "auto");
    assert_eq!(converted("7"), "auto");
}

#[test]
fn o_series_models() {
    for model in ["o1", "o3-mini", "o4"] {
        assert!(is_openai_o_series(model));
    }
    for model in ["", "o", "o2", "gpt-o1"] {
        assert!(!is_openai_o_series(model));
    }
}

#[test]
fn texts_of_instructions_and_contents() {
    assert_eq!(instruction_text(&json("\"a\"")), "a");
    assert_eq!(instruction_text(&json("[\"a\",1,\"b\"]")), "a\nb");
    assert_eq!(instruction_text(&json("{}")), "");
    assert_eq!(
        responses_content_to_chat_text(&json(r#"{"content":"x"}"#)),
        "x"
    );
    assert_eq!(responses_content_to_chat_text(&json("{}")), "");
}

#[test]
fn chat_messages_become_input_items() {
    let result = to_responses(
        r#"{"model":"m","messages":[
            {"role":"system","content":"a"},
            {"role":"system"},
            {"role":"system","content":"b"},
            {"content":[{"type":"input_image"}]},
            {"role":"assistant","content":"said","tool_calls":[{"id":"c","function":{"name":"f"}},{}]},
            {"role":"tool","tool_call_id":"c","content":"out"},
            {"role":"other","content":"dropped"},
            {"role":"user"}
        ],
        "max_tokens":1,"max_completion_tokens":2,"reasoning_effort":"low",
        "tools":[{"type":"function","function":{"name":"f"}},{"type":"x"}],"stream":true,"user":"u"}"#,
    );
    assert_eq!(
        result,
        value(
            r#"{"model":"m","instructions":"a\n\nb","input":[
            {"type":"message","role":"user","content":[{"type":"input_image"}]},
            {"type":"function_call","id":"c","call_id":"c","name":"f","arguments":"{}"},
            {"type":"function_call","id":"","call_id":"","name":"","arguments":"{}"},
            {"type":"message","role":"assistant","content":[{"type":"output_text","text":"said"}]},
            {"type":"function_call_output","call_id":"c","output":"out"},
            {"type":"message","role":"user","content":[{"type":"input_text","text":""}]}
        ],
        "max_output_tokens":2,"stream":true,"reasoning":{"effort":"low","summary":"auto"},
        "tools":[{"type":"function","name":"f","description":"","parameters":{}}],"user":"u"}"#
        )
    );
    assert_eq!(to_responses("{}"), value(r#"{"input":[]}"#));
}

#[test]
fn chat_response_to_responses_exactly() {
    let chat = json(
        r#"{"model":"up","choices":[{"message":{"content":"hi","tool_calls":[
            {"id":"c1","function":{"name":"f","arguments":"{}"}}]}}],
            "usage":{"prompt_tokens":1,"total_tokens":3}}"#,
    );
    let result = response_chat_to_responses_with(&chat, Some("mine"), "msg_1", "resp_1", 7).unwrap();
    assert_eq!(
        shown(&result),
        value(
            r#"{"id":"resp_1","object":"response","created_at":7,"status":"completed","model":"mine",
            "output":[{"id":"msg_1","type":"message","role":"assistant","status":"completed","content":[
                {"type":"output_text","text":"hi","annotations":[]},
                {"type":"function_call","id":"c1","call_id":"c1","name":"f","arguments":"{}"}]}],
            "usage":{"input_tokens":1,"output_tokens":0,"total_tokens":3},
            "parallel_tool_calls":true,"previous_response_id":null,
            "reasoning":{"effort":"medium","summary":"auto"},
            "text":{"format":{"type":"text"}},"tools":[],"truncation":"disabled"}"#
        )
    );
    for text in ["{}", r#"{"choices":[]}"#, r#"{"choices":[{}]}"#, r#"{"choices":{}}"#] {
        assert!(response_chat_to_responses(&json(text), None).is_none());
    }
}

#[test]
fn fresh_identifiers_have_their_prefixes() {
    let chat = json(r#"{"model":"up","choices":[{"message":{}}]}"#);
    let result = shown(&response_chat_to_responses(&chat, None).unwrap());
    assert!(result["id"].as_str().unwrap().starts_with("resp_"));
    assert!(result["output"][0]["id"].as_str().unwrap().starts_with("msg_"));
    assert_eq!(result["model"], "up");
    let chat = shown(&response_responses_to_chat(&json(r#"{"output":[]}"#), None).unwrap());
    assert!(chat["id"].as_str().unwrap().starts_with("chatcmpl_"));
    assert!(chat["created"].as_u64().unwrap() > 1_577_836_800);
}

#[test]
fn responses_object_to_chat_exactly() {
    let resp = json(
        r#"{"id":"r","created_at":5,"model":"up","output":[
            {"type":"message","content":[{"type":"output_text","text":"a"},{"type":"x","text":"no"},{"type":"output_text","text":"b"}]},
            {"type":"reasoning"},
            {"type":"function_call","call_id":"c","name":"f","arguments":"[1]"}
        ],"usage":{"input_tokens":4}}"#,
    );
    let result = response_responses_to_chat_with(&resp, None, "unused", 9).unwrap();
    assert_eq!(
        shown(&result),
        value(
            r#"{"id":"r","object":"chat.completion","created":5,"model":"up","choices":[{"index":0,
            "message":{"role":"assistant","content":"ab","tool_calls":[
                {"id":"c","type":"function","function":{"name":"f","arguments":"[1]"}}]},
            "finish_reason":"tool_calls"}],
            "usage":{"prompt_tokens":4,"completion_tokens":0,"total_tokens":0}}"#
        )
    );
    let bare = response_responses_to_chat_with(&json(r#"{"output":[]}"#), Some("m"), "id", 9).unwrap();
    assert_eq!(
        shown(&bare),
        value(
            r#"{"id":"id","object":"chat.completion","created":9,"model":"m","choices":[{"index":0,
            "message":{"role":"assistant","content":""},"finish_reason":"stop"}],
            "usage":{"prompt_tokens":0,"completion_tokens":0,"total_tokens":0}}"#
        )
    );
    assert!(response_responses_to_chat(&json("{}"), None).is_none());
}

#[test]
fn chat_text_comes_back() {
    let chat = json(r#"{"choices":[{"message":{"content":"round and back"}}]}"#);
    let there = response_chat_to_responses(&chat, None).unwrap();
    let back = shown(&response_responses_to_chat(&there, None).unwrap());
    assert_eq!(back["choices"][0]["message"]["content"], "round and back");
}
