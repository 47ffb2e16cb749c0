use llm_proxy::format::Protocol;
use llm_proxy::relay::{relay_body, relay_body_with, StreamRelay};
use llm_proxy::transform::Fresh;
use serde_json::Value;

const CHAT: &[u8] = br#"{"model":"theirs","choices":[{"message":{"content":"x"}}]}"#;

fn value(bytes: &[u8]) -> Value {
    serde_json::from_slice(bytes).unwrap()
}

#[test]
fn only_successes_are_converted() {
    let out = relay_body(
        true,
        Protocol::Chat,
        Protocol::Anthropic,
        CHAT,
        Some("mine"),
    );
    assert_eq!(value(&out)["type"], "message");
    assert_eq!(value(&out)["model"], "mine");
    let out = relay_body(
        false,
        Protocol::Chat,
        Protocol::Anthropic,
        CHAT,
        Some("mine"),
    );
    assert_eq!(value(&out)["choices"][0]["message"]["content"], "x");
    assert_eq!(value(&out)["model"], "mine");
    let out = relay_body(true, Protocol::Chat, Protocol::Chat, CHAT, None);
    assert_eq!(out, CHAT);
}

#[test]
fn what_cannot_be_converted_goes_as_it_is() {
    for body in ["{\"model\":\"theirs\"}", "oops"] {
        let out = relay_body_with(
            true,
            Protocol::Chat,
            Protocol::Responses,
            body.as_bytes(),
            Some("mine"),
            &Fresh::new(),
        );
        assert_eq!(out, body.as_bytes());
    }
}

#[test]
fn lines_are_put_together() {
    let mut relay = StreamRelay::new(true, Protocol::Chat, Protocol::Chat, Some("mine"));
    assert!(relay.push(b"data: {\"mod").is_empty());
    assert_eq!(
        relay.push(b"el\":\"theirs\"}\n\nevent: x\nda"),
        vec!["data: {\"model\":\"mine\"}\n\n", "\n", "event: x\n"]
    );
    assert_eq!(relay.finish(), vec!["da"]);
    assert!(relay.finish().is_empty());
}

#[test]
fn the_cut_of_a_stream_does_not_matter() {
    let text = "data: {\"choices\":[{\"delta\":{\"content\":\"a\"}}]}\n\ndata: {\"choices\":[{\"delta\":{\"content\":\"b\"}}]}\n\n";
    let texts = |pieces: Vec<&str>| {
        let mut relay = StreamRelay::new(true, Protocol::Chat, Protocol::Anthropic, Some("m"));
        let mut out = String::new();
        for piece in pieces {
            for sent in relay.push(piece.as_bytes()) {
                out.push_str(&sent);
            }
        }
        out.split("\n\n")
            .filter(|event| event.contains("text_delta"))
            .map(|event| event.to_string())
            .collect::<Vec<_>>()
    };
    let whole = texts(vec![text]);
    assert_eq!(whole.len(), 2);
    for at in 0..text.len() {
        assert_eq!(texts(vec![&text[..at], &text[at..]]), whole);
    }
}

#[test]
fn a_broken_stream_is_ended_properly() {
    let mut relay = StreamRelay::new(true, Protocol::Chat, Protocol::Responses, Some("m"));
    relay.push(b"data: {\"choices\":[{\"delta\":{\"content\":\"a\"}}]}\n");
    let end = relay.finish();
    assert_eq!(end.len(), 1);
    assert!(end[0].contains("response.completed"));
    assert!(end[0].ends_with("data: [DONE]\n\n"));
    assert!(relay.finish().is_empty());
}

#[test]
fn failures_are_streamed_as_they_are() {
    let mut relay = StreamRelay::new(false, Protocol::Chat, Protocol::Responses, Some("m"));
    assert_eq!(relay.push(b"data: {\"error\":1}\n"), vec!["data: {\"error\":1}\n"]);
    assert!(relay.finish().is_empty());
}

#[test]
fn bytes_that_are_no_text_are_replaced() {
    let mut relay = StreamRelay::new(true, Protocol::Chat, Protocol::Chat, None);
    assert_eq!(relay.push(&[b'a', 0xff, b'\n']), vec!["a\u{fffd}\n"]);
    assert_eq!(relay.push("ä\n".as_bytes()), vec!["ä\n"]);
}
