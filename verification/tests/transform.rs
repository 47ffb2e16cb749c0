use llm_proxy::format::Protocol;
use llm_proxy::transform::{
    transform_request, transform_response_body, transform_response_body_with, Fresh,
};
use serde_json::Value;

fn value(bytes: &[u8]) -> Value {
    serde_json::from_slice(bytes).unwrap()
}

const ALL: [Protocol; 3] = [Protocol::Responses, Protocol::Chat, Protocol::Anthropic];

fn fresh() -> Fresh {
    Fresh {
        msg_id: "msg".to_string(),
        resp_id: "resp".to_string(),
        chat_id: "chat".to_string(),
        created: 5,
    }
}

#[test]
fn requests_keep_model_and_stream() {
    let body = br#"{"model":"m","stream":true,"input":"q","messages":[{"role":"user","content":"q"}]}"#;
    for from in ALL {
        for to in ALL {
            let request = transform_request(from, to, body).unwrap();
            assert_eq!(request.upstream_path, to.api_path());
            let converted = value(&request.body);
            assert_eq!(converted["model"], "m");
            assert_eq!(converted["stream"], true);
            if from == to {
                assert_eq!(request.body, body);
            }
            assert_eq!(
                converted.get("stream_options").is_some(),
                from == Protocol::Responses && to == Protocol::Chat
            );
        }
    }
}

#[test]
fn broken_requests_are_reported_only_where_converted() {
    let message = serde_json::from_slice::<Value>(b"{").unwrap_err().to_string();
    for from in ALL {
        for to in ALL {
            match transform_request(from, to, b"{") {
                Ok(request) => {
                    assert_eq!(from, to);
                    assert_eq!(request.body, b"{");
                }
                Err(fault) => {
                    assert_ne!(from, to);
                    assert_eq!(
                        fault,
                        format!("failed to parse request body as JSON: {}", message)
                    );
                }
            }
        }
    }
}

#[test]
fn responses_name_the_client_model() {
    let body = br#"{"model":"theirs","output":[],"content":[],"choices":[{"message":{"content":"x"}}]}"#;
    for from in ALL {
        for to in ALL {
            let out = transform_response_body(from, to, body, Some("mine")).unwrap();
            assert_eq!(value(&out)["model"], "mine");
            let out = transform_response_body(from, to, body, None).unwrap();
            assert_eq!(value(&out)["model"], "theirs");
        }
    }
}

#[test]
fn responses_that_say_nothing_are_reported() {
    let fault = |from, to| {
        transform_response_body_with(from, to, b"{}", None, &fresh())
            .err()
            .unwrap_or_default()
    };
    assert_eq!(
        fault(Protocol::Chat, Protocol::Responses),
        "response conversion chat→responses produced None"
    );
    assert_eq!(
        fault(Protocol::Chat, Protocol::Anthropic),
        "response conversion chat→anthropic produced None"
    );
    assert_eq!(
        fault(Protocol::Responses, Protocol::Chat),
        "response conversion responses→chat produced None"
    );
    assert_eq!(fault(Protocol::Anthropic, Protocol::Chat), "");
    assert_eq!(fault(Protocol::Responses, Protocol::Anthropic), "");
    let message = serde_json::from_slice::<Value>(b"?").unwrap_err().to_string();
    assert_eq!(
        transform_response_body(Protocol::Chat, Protocol::Responses, b"?", None)
            .err()
            .unwrap(),
        format!("failed to parse response body: {}", message)
    );
    assert_eq!(
        transform_response_body(Protocol::Chat, Protocol::Chat, b"?", Some("m")).unwrap(),
        b"?"
    );
}

#[test]
fn given_identifiers_are_used() {
    let out = transform_response_body_with(
        Protocol::Anthropic,
        Protocol::Responses,
        br#"{"content":[{"type":"text","text":"x"}]}"#,
        None,
        &fresh(),
    )
    .unwrap();
    let out = value(&out);
    assert_eq!(out["id"], "resp");
    assert_eq!(out["output"][0]["id"], "msg");
    assert_eq!(out["created_at"], 5);
    assert!(Fresh::new().chat_id.starts_with("chatcmpl_"));
}

#[test]
fn fresh_times_are_readings_of_the_clock() {
    let before = llm_proxy::transform::common::now_secs();
    let fresh = Fresh::new();
    let after = llm_proxy::transform::common::now_secs();
    assert!(before <= fresh.created && fresh.created <= after);
    let out = transform_response_body(Protocol::Anthropic, Protocol::Chat, b"{}", None).unwrap();
    assert!(value(&out)["created"].as_u64().unwrap() >= before);
}
