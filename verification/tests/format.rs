use llm_proxy::format::{conversion_direction, Protocol, UpstreamFormats};

#[test]
fn test_from_path() {
    assert_eq!(
        Protocol::from_path("/v1/responses"),
        Some(Protocol::Responses)
    );
    assert_eq!(
        Protocol::from_path("/v1/chat/completions"),
        Some(Protocol::Chat)
    );
    assert_eq!(
        Protocol::from_path("/v1/messages"),
        Some(Protocol::Anthropic)
    );
    // With route prefix
    assert_eq!(
        Protocol::from_path("/tkehub/v1/responses"),
        Some(Protocol::Responses)
    );
    assert_eq!(
        Protocol::from_path("/default/v1/chat/completions"),
        Some(Protocol::Chat)
    );
    // Unknown
    assert_eq!(Protocol::from_path("/v1/models"), None);
    assert_eq!(Protocol::from_path("/healthz"), None);
}

#[test]
fn test_select_target_passthrough() {
    let uf = UpstreamFormats(vec![Protocol::Responses]);
    assert_eq!(uf.select_target(Protocol::Responses), Protocol::Responses);
}

#[test]
fn test_select_target_convert() {
    let uf = UpstreamFormats(vec![Protocol::Chat, Protocol::Anthropic]);
    // Inbound responses not in list → pick first (chat)
    assert_eq!(uf.select_target(Protocol::Responses), Protocol::Chat);
}

#[test]
fn test_select_target_match_not_first() {
    let uf = UpstreamFormats(vec![Protocol::Chat, Protocol::Anthropic]);
    // Inbound anthropic is in list → passthrough (match priority)
    assert_eq!(uf.select_target(Protocol::Anthropic), Protocol::Anthropic);
}

#[test]
fn test_select_target_empty_passthrough() {
    let uf = UpstreamFormats(vec![]);
    // Empty list → passthrough anything
    assert_eq!(uf.select_target(Protocol::Responses), Protocol::Responses);
    assert_eq!(uf.select_target(Protocol::Chat), Protocol::Chat);
}

#[test]
fn test_conversion_direction() {
    let uf = UpstreamFormats(vec![Protocol::Chat]);
    assert_eq!(conversion_direction(Protocol::Chat, &uf), None); // passthrough
    assert_eq!(
        conversion_direction(Protocol::Responses, &uf),
        Some((Protocol::Responses, Protocol::Chat))
    );
}

#[test]
fn parses_names_in_any_case() {
    assert_eq!(Protocol::parse_from_str("chat"), Some(Protocol::Chat));
    assert_eq!(
        Protocol::parse_from_str("Chat-Completions"),
        Some(Protocol::Chat)
    );
    assert_eq!(
        Protocol::parse_from_str("CHAT_COMPLETIONS"),
        Some(Protocol::Chat)
    );
    assert_eq!(
        Protocol::parse_from_str("RESPONSES"),
        Some(Protocol::Responses)
    );
    assert_eq!(
        Protocol::parse_from_str("response"),
        Some(Protocol::Responses)
    );
    assert_eq!(
        Protocol::parse_from_str("Messages"),
        Some(Protocol::Anthropic)
    );
    assert_eq!(
        Protocol::parse_from_str("aNthropic"),
        Some(Protocol::Anthropic)
    );
    assert_eq!(Protocol::parse_from_str("completions"), None);
    assert_eq!(Protocol::parse_from_str(""), None);
}

#[test]
fn names_and_paths_lead_back() {
    for protocol in [Protocol::Responses, Protocol::Chat, Protocol::Anthropic] {
        assert_eq!(Protocol::parse_from_str(protocol.name()), Some(protocol));
        let path = format!("/any/route{}", protocol.api_path());
        assert_eq!(Protocol::from_path(&path), Some(protocol));
    }
    assert_eq!(Protocol::Anthropic.name(), "anthropic");
    assert_eq!(Protocol::Chat.api_path(), "/v1/chat/completions");
}

#[test]
fn short_paths_are_detected_too() {
    assert_eq!(
        Protocol::from_path("/responses"),
        Some(Protocol::Responses)
    );
    assert_eq!(
        Protocol::from_path("/x/chat/completions"),
        Some(Protocol::Chat)
    );
    assert_eq!(Protocol::from_path("/messages"), Some(Protocol::Anthropic));
    assert_eq!(Protocol::from_path("responses"), None);
    assert_eq!(Protocol::from_path("/v1/messages/"), None);
}

#[test]
fn target_is_always_accepted() {
    let all = [Protocol::Responses, Protocol::Chat, Protocol::Anthropic];
    let lists = vec![
        vec![],
        vec![Protocol::Chat],
        vec![Protocol::Anthropic, Protocol::Responses],
    ];
    for list in lists {
        let formats = UpstreamFormats(list);
        for inbound in all {
            let target = formats.select_target(inbound);
            assert!(formats.supports(target));
            assert_eq!(
                conversion_direction(inbound, &formats).is_none(),
                formats.supports(inbound)
            );
        }
    }
    assert!(UpstreamFormats::default().is_empty());
    assert!(!UpstreamFormats(vec![Protocol::Chat]).is_empty());
}
