use llm_proxy::json::{parse_json, print_json, Json};
use llm_proxy::transform::history::{CachedCall, ToolCallHistoryStore, MAX_CACHED_RESPONSES};
use serde_json::Value;

fn json(text: &str) -> Json {
    parse_json(text.as_bytes()).unwrap()
}

fn shown(value: &Json) -> Value {
    serde_json::from_str(&print_json(value)).unwrap()
}

fn value(text: &str) -> Value {
    serde_json::from_str(text).unwrap()
}

fn response(id: &str, call_id: &str, name: &str) -> Json {
    json(&format!(
        r#"{{"id":"{}","output":[{{"type":"function_call","call_id":"{}","name":"{}","arguments":"{{}}"}}]}}"#,
        id, call_id, name
    ))
}

#[test]
fn test_record_and_enrich() {
    let mut store = ToolCallHistoryStore::default();

    // Simulate a response with a function_call
    let response = json(
        r#"{
            "id": "resp_123",
            "output": [{
                "type": "function_call",
                "call_id": "call_1",
                "name": "get_weather",
                "arguments": "{\"city\":\"Tokyo\"}"
            }]
        }"#,
    );
    store.record_response(&response);

    // Now simulate a follow-up request with previous_response_id + tool output
    let mut request = json(
        r#"{
            "model": "test",
            "previous_response_id": "resp_123",
            "input": [
                {"type": "function_call_output", "call_id": "call_1", "output": "Sunny, 20C"}
            ]
        }"#,
    );

    let restored = store.enrich_request(&mut request);
    assert_eq!(restored, 1);

    let request = shown(&request);
    let input = request["input"].as_array().unwrap();
    // Should have function_call restored before function_call_output
    assert_eq!(input.len(), 2);
    assert_eq!(input[0]["type"], "function_call");
    assert_eq!(input[0]["call_id"], "call_1");
    assert_eq!(input[0]["name"], "get_weather");
    assert_eq!(input[1]["type"], "function_call_output");
}

#[test]
fn test_no_enrichment_without_previous_response_id() {
    let mut store = ToolCallHistoryStore::default();
    let response = json(
        r#"{
            "id": "resp_456",
            "output": [{
                "type": "function_call",
                "call_id": "call_2",
                "name": "get_time",
                "arguments": "{}"
            }]
        }"#,
    );
    store.record_response(&response);

    let mut request = json(
        r#"{
            "model": "test",
            "input": [
                {"type": "function_call_output", "call_id": "call_2", "output": "12:00"}
            ]
        }"#,
    );

    let restored = store.enrich_request(&mut request);
    assert_eq!(restored, 1);
    let request = shown(&request);
    let input = request["input"].as_array().unwrap();
    assert_eq!(input.len(), 2);
    assert_eq!(input[0]["type"], "function_call");
    assert_eq!(input[1]["type"], "function_call_output");
}

#[test]
fn empty_history_restores_nothing() {
    let store = ToolCallHistoryStore::new();
    let text = r#"{"input":[{"type":"function_call_output","call_id":"c","output":""}]}"#;
    let mut request = json(text);
    assert_eq!(store.enrich_request(&mut request), 0);
    assert_eq!(shown(&request), value(text));
    let mut plain = json(r#"{"input":"hello"}"#);
    assert_eq!(store.enrich_request(&mut plain), 0);
    let mut none = json(r#"{"model":"m"}"#);
    assert_eq!(store.enrich_request(&mut none), 0);
}

#[test]
fn calls_come_in_the_order_of_their_response() {
    let mut store = ToolCallHistoryStore::new();
    store.record_response(&json(
        r#"{"id":"r","output":[
            {"type":"message"},
            {"type":"function_call","call_id":"a","name":"first","arguments":"1"},
            {"type":"function_call","call_id":"","name":"nameless"},
            {"type":"function_call","call_id":"b","name":"second","arguments":"2"},
            {"type":"function_call","call_id":"a","name":"replaced","arguments":"3"}
        ]}"#,
    ));
    let mut request = json(
        r#"{"previous_response_id":"r","input":[
            {"role":"user","content":"go on"},
            {"type":"function_call_output","call_id":"b","output":"B"},
            {"type":"function_call_output","call_id":"a","output":"A"}
        ]}"#,
    );
    assert_eq!(store.enrich_request(&mut request), 2);
    assert_eq!(
        shown(&request)["input"],
        value(
            r#"[
            {"role":"user","content":"go on"},
            {"type":"function_call","call_id":"a","name":"replaced","arguments":"3"},
            {"type":"function_call","call_id":"b","name":"second","arguments":"2"},
            {"type":"function_call_output","call_id":"b","output":"B"},
            {"type":"function_call_output","call_id":"a","output":"A"}
        ]"#
        )
    );
}

#[test]
fn existing_calls_are_filled_in_and_not_repeated() {
    let mut store = ToolCallHistoryStore::new();
    store.record_response(&response("r", "a", "known"));
    store.record_response(&response("s", "b", "other"));
    let mut request = json(
        r#"{"previous_response_id":"r","input":[
            {"type":"function_call","call_id":"a"},
            {"type":"function_call_output","call_id":"a","output":"A"},
            {"type":"function_call_output","call_id":"b","output":"B"}
        ]}"#,
    );
    assert_eq!(store.enrich_request(&mut request), 1);
    let input = shown(&request)["input"].clone();
    assert_eq!(input.as_array().unwrap().len(), 4);
    assert_eq!(input[0]["name"], "known");
    assert_eq!(input[0]["arguments"], "{}");
    assert_eq!(input[2]["name"], "other");
    assert_eq!(input[3]["call_id"], "b");
}

#[test]
fn a_single_item_is_an_input_too() {
    let mut store = ToolCallHistoryStore::new();
    store.record_response(&response("r", "a", "f"));
    let mut request = json(
        r#"{"input":{"type":"function_call_output","call_id":"a","output":"A"}}"#,
    );
    assert_eq!(store.enrich_request(&mut request), 1);
    assert_eq!(shown(&request)["input"].as_array().unwrap().len(), 2);
}

#[test]
fn the_first_response_to_make_a_call_counts() {
    let mut store = ToolCallHistoryStore::new();
    store.record_response(&response("old", "x", "from_old"));
    store.record_response(&response("new", "y", "from_new"));
    store.record_response(&response("new", "z", "z"));
    store.record_response(&response("late", "x", "from_late"));
    let text = r#"{"input":[{"type":"function_call_output","call_id":"x","output":""}]}"#;
    let mut request = json(text);
    assert_eq!(store.enrich_request(&mut request), 1);
    assert_eq!(shown(&request)["input"][0]["name"], "from_old");
    let mut follow = json(
        r#"{"previous_response_id":"late","input":[{"type":"function_call_output","call_id":"x","output":""}]}"#,
    );
    assert_eq!(store.enrich_request(&mut follow), 1);
    assert_eq!(shown(&follow)["input"][0]["name"], "from_late");
}

#[test]
fn the_oldest_response_is_forgotten() {
    let mut store = ToolCallHistoryStore::new();
    for i in 0..=MAX_CACHED_RESPONSES {
        store.record_response(&response(&format!("r{}", i), &format!("c{}", i), "f"));
    }
    let asks = |call: &str| {
        json(&format!(
            r#"{{"input":[{{"type":"function_call_output","call_id":"{}","output":""}}]}}"#,
            call
        ))
    };
    assert_eq!(store.enrich_request(&mut asks("c0")), 0);
    assert_eq!(store.enrich_request(&mut asks("c1")), 1);
    assert_eq!(
        store.enrich_request(&mut asks(&format!("c{}", MAX_CACHED_RESPONSES))),
        1
    );
    // A response that is known already pushes nothing out.
    store.record_response(&response("r1", "again", "f"));
    assert_eq!(store.enrich_request(&mut asks("c1")), 1);
}

#[test]
fn responses_without_id_or_calls_are_not_kept() {
    let mut store = ToolCallHistoryStore::new();
    store.record_response(&json(
        r#"{"output":[{"type":"function_call","call_id":"a"}]}"#,
    ));
    store.record_response(&response("", "a", "f"));
    store.record_response(&json(r#"{"id":"r","output":[{"type":"message"}]}"#));
    store.record_response(&json(r#"{"id":"r"}"#));
    let mut request = json(
        r#"{"input":[{"type":"function_call_output","call_id":"a","output":""}]}"#,
    );
    assert_eq!(store.enrich_request(&mut request), 0);
}

#[test]
fn enriching_twice_is_enriching_once() {
    let mut store = ToolCallHistoryStore::new();
    store.record_response(&response("r", "a", "f"));
    store.record_response(&response("s", "b", "g"));
    let mut request = json(
        r#"{"previous_response_id":"r","input":[
            {"type":"function_call_output","call_id":"a","output":"A"},
            {"type":"function_call_output","call_id":"b","output":"B"},
            {"type":"function_call","call_id":"b"},
            {"type":"function_call_output","call_id":"unknown","output":"?"}
        ]}"#,
    );
    assert_eq!(store.enrich_request(&mut request), 2);
    let once = shown(&request);
    let kinds: Vec<&str> = once["input"]
        .as_array()
        .unwrap()
        .iter()
        .map(|item| item["type"].as_str().unwrap())
        .collect();
    assert_eq!(
        kinds,
        [
            "function_call",
            "function_call_output",
            "function_call",
            "function_call_output",
            "function_call",
            "function_call_output"
        ]
    );
    assert_eq!(store.enrich_request(&mut request), 0);
    assert_eq!(shown(&request), once);
}

#[test]
fn inserted_calls_push_out_the_oldest_response_only() {
    let mut store = ToolCallHistoryStore::new();
    let call = |id: &str| {
        vec![CachedCall {
            call_id: id.to_string(),
            item: json(&format!(r#"{{"type":"function_call","call_id":"{}"}}"#, id)),
        }]
    };
    for i in 0..MAX_CACHED_RESPONSES {
        store.insert_calls(&format!("r{}", i), call(&format!("c{}", i)));
    }
    let restored = |store: &ToolCallHistoryStore, id: &str| {
        store.enrich_request(&mut json(&format!(
            r#"{{"input":[{{"type":"function_call_output","call_id":"{}"}}]}}"#,
            id
        )))
    };
    // A known response takes more calls, and nothing leaves.
    store.insert_calls("r0", call("more"));
    assert_eq!(restored(&store, "c0"), 1);
    assert_eq!(restored(&store, "more"), 1);
    // A new response takes the place of the oldest.
    store.insert_calls("new", call("n"));
    assert_eq!(restored(&store, "c0"), 0);
    assert_eq!(restored(&store, "more"), 0);
    assert_eq!(restored(&store, "c1"), 1);
    assert_eq!(restored(&store, "n"), 1);
}
