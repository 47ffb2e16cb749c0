use llm_proxy::json::{parse_json, print_json, Json};
use llm_proxy::transform::responses_anthropic::{
    request_anthropic_to_responses, request_responses_to_anthropic,
    response_anthropic_to_responses, response_anthropic_to_responses_with,
    response_responses_to_anthropic, response_responses_to_anthropic_with,
};
use serde_json::Value;

fn json(text: &str) -> Json {
    parse_json(text.as_bytes()).unwrap()
}

fn shown(value: &Json) -> Value {
    serde_json::from_str(&print_json(value)).unwrap()
}

fn value(text: &str) -> Value {
    serde_json::from_str(text).unwrap()
}

#[test]
fn test_request_responses_to_anthropic_simple() {
    let body = json(
        r#"{"model": "messages-3", "instructions": "Be helpful", "input": "Hello", "max_output_tokens": 1024}"#,
    );
    let result = shown(&request_responses_to_anthropic(&body).unwrap());
    assert_eq!(result["model"], "messages-3");
    assert_eq!(result["system"], "Be helpful");
    assert_eq!(result["max_tokens"], 1024);
    let msgs = result["messages"].as_array().unwrap();
    assert_eq!(msgs[0]["role"], "user");
}

#[test]
fn test_request_anthropic_to_responses_simple() {
    let body = json(
        r#"{
            "model": "messages-3", "system": "Be helpful", "max_tokens": 1024,
            "messages": [{"role": "user", "content": "Hello"}]
        }"#,
    );
    let result = shown(&request_anthropic_to_responses(&body).unwrap());
    assert_eq!(result["model"], "messages-3");
    assert_eq!(result["instructions"], "Be helpful");
    let input = result["input"].as_array().unwrap();
    assert_eq!(input.len(), 1);
}

#[test]
fn test_response_anthropic_to_responses() {
    let anthro = json(
        r#"{
            "model": "messages-3",
            "content": [{"type": "text", "text": "Hello!"}],
            "usage": {"input_tokens": 10, "output_tokens": 5},
            "stop_reason": "end_turn"
        }"#,
    );
    let result = shown(&response_anthropic_to_responses(&anthro, None).unwrap());
    assert_eq!(result["object"], "response");
    assert_eq!(result["status"], "completed");
}

#[test]
fn test_response_responses_to_anthropic() {
    let resp = json(
        r#"{
            "model": "messages-3",
            "output": [{"type": "message", "role": "assistant", "content": [{"type": "output_text", "text": "Hi!"}]}],
            "usage": {"input_tokens": 10, "output_tokens": 5}
        }"#,
    );
    let result = shown(&response_responses_to_anthropic(&resp, None).unwrap());
    assert_eq!(result["type"], "message");
    assert_eq!(result["role"], "assistant");
    assert_eq!(result["stop_reason"], "end_turn");
}

#[test]
fn responses_request_to_anthropic_exactly() {
    let body = json(
        r#"{"model":"m","temperature":1,"top_p":0.5,"stream":true,"instructions":["no text"],"input":[
            {"type":"message","role":"assistant","content":[{"type":"output_text","text":"a"},{"type":"x","text":"b"},{"type":"input_text","text":"c"}]},
            {"type":"message","role":"developer","content":"sys"},
            {"type":"message","content":[]},
            {"type":"function_call","call_id":"c","name":"f","arguments":"{\"k\":1}"},
            {"type":"function_call","arguments":"broken"},
            {"type":"function_call_output","call_id":"c","output":"out"},
            {"role":"user","content":"typeless"}
        ],"tools":[{"type":"function","name":"f","parameters":{"t":1}},{"type":"x"}]}"#,
    );
    assert_eq!(
        shown(&request_responses_to_anthropic(&body).unwrap()),
        value(
            r#"{"model":"m","max_tokens":4096,"temperature":1,"top_p":0.5,"stream":true,"messages":[
            {"role":"assistant","content":"a\nc"},
            {"role":"user","content":"sys"},
            {"role":"assistant","content":[{"type":"tool_use","id":"c","name":"f","input":{"k":1}}]},
            {"role":"assistant","content":[{"type":"tool_use","id":"","name":"","input":{}}]},
            {"role":"user","content":[{"type":"tool_result","tool_use_id":"c","content":"out"}]}
        ],"tools":[{"name":"f","description":"","input_schema":{"t":1}}]}"#
        )
    );
}

#[test]
fn anthropic_request_to_responses_exactly() {
    let body = json(
        r#"{"model":"m","system":[],"max_tokens":3,"messages":[
            {"role":"assistant","content":"said"},
            {"content":[
                {"type":"text","text":"t"},
                {"type":"tool_use","id":"c","name":"f","input":{"k":1}},
                {"type":"tool_result","tool_use_id":"d","content":"r"},
                {"type":"image"}]},
            {"role":"user","content":5},
            {"role":"user"}
        ],"tools":[{"name":"f","input_schema":{"s":1}}]}"#,
    );
    assert_eq!(
        shown(&request_anthropic_to_responses(&body).unwrap()),
        value(
            r#"{"model":"m","max_output_tokens":3,"input":[
            {"type":"message","role":"assistant","content":[{"type":"output_text","text":"said"}]},
            {"type":"function_call_output","call_id":"d","output":"r"},
            {"type":"message","role":"user","content":[{"type":"input_text","text":"t"}]},
            {"type":"function_call","call_id":"c","name":"f","arguments":"{\"k\":1}"}
        ],"tools":[{"type":"function","name":"f","description":"","parameters":{"s":1}}]}"#
        )
    );
}

#[test]
fn anthropic_response_to_responses_exactly() {
    let message = json(
        r#"{"model":"up","content":[
            {"type":"tool_use","id":"c","name":"f","input":[1]},
            {"type":"text","text":"a"},{"type":"text"}],
            "usage":{"input_tokens":2,"output_tokens":"x"}}"#,
    );
    assert_eq!(
        shown(&response_anthropic_to_responses_with(&message, Some("mine"), "msg", "resp", 3)),
        value(
            r#"{"id":"resp","object":"response","created_at":3,"status":"completed","model":"mine","output":[
            {"id":"msg","type":"message","role":"assistant","status":"completed","content":[
                {"type":"output_text","text":"a","annotations":[]},
                {"type":"output_text","text":"","annotations":[]}]},
            {"type":"function_call","id":"c","call_id":"c","name":"f","arguments":"[1]"}],
            "usage":{"input_tokens":2,"output_tokens":"x","total_tokens":2},
            "parallel_tool_calls":true,"previous_response_id":null,
            "reasoning":{"effort":"medium","summary":"auto"},
            "text":{"format":{"type":"text"}},"tools":[],"truncation":"disabled"}"#
        )
    );
    let empty = shown(&response_anthropic_to_responses(&json("{}"), None).unwrap());
    assert_eq!(empty["output"], value("[]"));
    assert!(empty["id"].as_str().unwrap().starts_with("resp_"));
}

#[test]
fn responses_object_to_anthropic_exactly() {
    let response = json(
        r#"{"id":"r","model":"up","output":[
            {"type":"message","content":[{"text":"a"},{"type":"x","text":"b"},{}]},
            {"type":"message","content":[]},
            {"type":"function_call","call_id":"c","name":"f","arguments":"{\"k\":2}"}],
            "usage":{"output_tokens":4}}"#,
    );
    assert_eq!(
        shown(&response_responses_to_anthropic_with(&response, Some("mine"), "unused")),
        value(
            r#"{"id":"r","type":"message","role":"assistant","model":"mine","content":[
            {"type":"text","text":"ab"},
            {"type":"tool_use","id":"c","name":"f","input":{"k":2}}],
            "stop_reason":"tool_use","usage":{"input_tokens":0,"output_tokens":4}}"#
        )
    );
    let bare = shown(&response_responses_to_anthropic(&json("{}"), None).unwrap());
    assert_eq!(bare["stop_reason"], "end_turn");
    assert_eq!(bare["content"], value("[]"));
    assert!(bare["id"].as_str().unwrap().starts_with("msg_"));
}
