use llm_proxy::config::{Config, Defaults, ModelConfig, Route};
use llm_proxy::format::{Protocol, UpstreamFormats};
use llm_proxy::log::extract_model;
use llm_proxy::proxy::{
    classify, error_response, handle_models, keys_settle_within, match_route, plan_request,
    rewrite_model_in_body, route_request, Plan, Reply, Request, RouteMatch,
};
use serde_json::Value;

fn value(bytes: &[u8]) -> Value {
    serde_json::from_slice(bytes).unwrap()
}

fn model(target: Option<&str>, formats: Vec<Protocol>, upstream: Option<&str>) -> ModelConfig {
    ModelConfig {
        target: target.map(|s| s.to_string()),
        upstream_formats: UpstreamFormats(formats),
        api_key: Some("${KEY}".to_string()),
        upstream_model: upstream.map(|s| s.to_string()),
        max_retries: None,
        base_delay_ms: None,
        max_delay_ms: None,
        max_total_wait_ms: None,
        connect_timeout_secs: None,
        retry_status_codes: None,
    }
}

fn route(target: Option<&str>, models: Vec<(&str, ModelConfig)>) -> Route {
    Route {
        target: target.map(|s| s.to_string()),
        upstream_formats: UpstreamFormats::default(),
        api_key: None,
        upstream_model: None,
        models: models
            .into_iter()
            .map(|(name, model)| (name.to_string(), model))
            .collect(),
        max_retries: None,
        base_delay_ms: None,
        max_delay_ms: None,
        max_total_wait_ms: None,
        connect_timeout_secs: None,
        retry_status_codes: None,
    }
}

fn config(with_default: bool) -> Config {
    let mut routes = vec![(
        "hub".to_string(),
        route(Some("http://hub.example/api//"), vec![]),
    )];
    if with_default {
        routes.push((
            "default".to_string(),
            route(
                None,
                vec![
                    (
                        "my-glm",
                        model(
                            Some("http://glm.example"),
                            vec![Protocol::Chat],
                            Some("real-glm"),
                        ),
                    ),
                    (
                        "my-messages",
                        model(Some("http://m.example/"), vec![Protocol::Anthropic], None),
                    ),
                    ("bare", model(None, vec![], None)),
                ],
            ),
        ));
    }
    Config {
        log_level: "info".to_string(),
        defaults: Defaults::default(),
        routes,
    }
}

fn env() -> Vec<(String, String)> {
    vec![("KEY".to_string(), "k-1".to_string())]
}

fn plan(config: &Config, path: &str, anthropic: Option<&str>, body: &str) -> Result<Plan, Reply> {
    let routed = route_request(path, config, &env())?;
    plan_request(routed, anthropic, body.as_bytes(), &env())
}

#[test]
fn requests_are_classified() {
    assert_eq!(classify(true, "/healthz"), Request::Health);
    assert_eq!(classify(false, "/metrics"), Request::Metrics);
    assert_eq!(classify(true, "/v1/models"), Request::Models);
    assert_eq!(classify(true, "/any/models"), Request::Models);
    assert_eq!(classify(false, "/v1/models"), Request::Forward);
    assert_eq!(classify(true, "/healthz/"), Request::Forward);
}

#[test]
fn named_routes_come_first() {
    let c = config(true);
    match match_route("/hub/v1/chat/completions", &c) {
        RouteMatch::Named { name, rest } => {
            assert_eq!(name, "hub");
            assert_eq!(rest, "v1/chat/completions");
        }
        other => panic!("{:?}", other),
    }
    for (path, expected) in [
        ("/v1/responses", "v1/responses"),
        ("v1/responses", "v1/responses"),
        ("/hub", "hub"),
        ("//hub/x", "/hub/x"),
        ("", ""),
    ] {
        match match_route(path, &c) {
            RouteMatch::Default { rest } => assert_eq!(rest, expected),
            other => panic!("{:?}", other),
        }
    }
    assert!(matches!(
        match_route("/v1/responses", &config(false)),
        RouteMatch::NotFound
    ));
    assert!(matches!(
        match_route("/default/v1/responses", &c),
        RouteMatch::Named { .. }
    ));
}

#[test]
fn unknown_routes_are_answered() {
    let reply = match route_request("/v1/responses", &config(false), &env()) {
        Err(reply) => reply,
        Ok(_) => panic!("routed"),
    };
    assert_eq!(reply.status, 404);
    assert_eq!(
        value(reply.body.as_bytes()),
        value(br#"{"error":{"message":"no route matched \"/v1/responses\". Available: hub","type":"unknown_route"}}"#)
    );
}

#[test]
fn error_bodies_are_exact() {
    let reply = error_response(502, "it \"failed\"", "upstream_failed");
    assert_eq!(reply.status, 502);
    assert_eq!(
        reply.body,
        "{\"error\":{\"message\":\"it \\\"failed\\\"\",\"type\":\"upstream_failed\"}}"
    );
}

#[test]
fn models_are_listed() {
    let reply = handle_models(&config(true));
    assert_eq!(reply.status, 200);
    assert_eq!(
        value(reply.body.as_bytes()),
        value(
            br#"{"object":"list","data":[
            {"id":"bare","object":"model","owned_by":"llm-proxy"},
            {"id":"my-glm","object":"model","owned_by":"llm-proxy"},
            {"id":"my-messages","object":"model","owned_by":"llm-proxy"}]}"#
        )
    );
}

#[test]
fn request_models_are_rewritten() {
    let out = rewrite_model_in_body(br#"{"model":"a","x":1}"#, "b");
    assert_eq!(value(&out), value(br#"{"model":"b","x":1}"#));
    assert_eq!(extract_model(&out).as_deref(), Some("b"));
    let out = rewrite_model_in_body(br#"{"x":1}"#, "b");
    assert_eq!(extract_model(&out).as_deref(), Some("b"));
    assert_eq!(rewrite_model_in_body(b"[1]", "b"), b"[1]");
    assert_eq!(rewrite_model_in_body(b"nope", "b"), b"nope");
}

#[test]
fn a_named_route_passes_through() {
    let body = r#"{"model":"m","messages":[]}"#;
    let p = plan(&config(true), "/hub/v1/chat/completions", None, body).unwrap();
    assert_eq!(p.upstream_url, "http://hub.example/api/v1/chat/completions");
    assert_eq!(p.tag, "[hub|m]");
    assert_eq!(p.body, body.as_bytes());
    assert_eq!((p.inbound, p.upstream), (Protocol::Chat, Protocol::Chat));
    assert!(p.fault.is_none());
    assert!(p.route.api_key.is_none());
    let p = plan(&config(true), "/hub/else", None, "").unwrap();
    assert_eq!(p.upstream_url, "http://hub.example/api/v1/chat/completions");
    assert_eq!(p.tag, "[hub]");
    assert!(p.client_model.is_none());
}

#[test]
fn the_model_decides_on_the_default_route() {
    let p = plan(
        &config(true),
        "/v1/responses",
        None,
        r#"{"model":"my-glm","input":"hi"}"#,
    )
    .unwrap();
    assert_eq!(p.upstream_url, "http://glm.example/v1/chat/completions");
    assert_eq!(
        (p.inbound, p.upstream),
        (Protocol::Responses, Protocol::Chat)
    );
    assert_eq!(p.client_model.as_deref(), Some("my-glm"));
    assert_eq!(p.route.api_key.as_deref(), Some("k-1"));
    let body = value(&p.body);
    assert_eq!(body["model"], "real-glm");
    assert_eq!(body["messages"][0]["content"], "hi");

    let p = plan(
        &config(true),
        "/v1/chat/completions",
        Some("http://elsewhere"),
        r#"{"model":"my-messages","messages":[]}"#,
    )
    .unwrap();
    assert_eq!(p.upstream_url, "http://elsewhere/v1/messages");
    assert_eq!(value(&p.body)["max_tokens"], 4096);
    let p = plan(
        &config(true),
        "/v1/messages",
        None,
        r#"{"model":"my-messages","messages":[]}"#,
    )
    .unwrap();
    assert_eq!(p.upstream_url, "http://m.example/v1/messages");
}

#[test]
fn missing_models_and_targets_are_answered() {
    let kind = |reply: Reply| {
        assert_eq!(reply.status, 400);
        value(reply.body.as_bytes())["error"]["type"]
            .as_str()
            .unwrap()
            .to_string()
    };
    for body in ["{}", "", r#"{"model":"bare"}"#, r#"{"model":"unknown"}"#] {
        let reply = plan(&config(true), "/v1/responses", None, body)
            .err()
            .unwrap();
        assert_eq!(kind(reply), "missing_model");
    }
    let mut open = config(true);
    open.routes.push(("open".to_string(), route(None, vec![])));
    let reply = plan(&open, "/open/v1/responses", None, "{}").err().unwrap();
    assert_eq!(kind(reply), "no_target");
}

#[test]
fn a_body_that_cannot_be_converted_goes_as_it_is() {
    let mut c = config(true);
    c.routes[0].1.upstream_formats = UpstreamFormats(vec![Protocol::Anthropic]);
    let p = plan(&c, "/hub/v1/responses", None, "not json").unwrap();
    assert_eq!(p.body, b"not json");
    assert!(p
        .fault
        .unwrap()
        .starts_with("failed to parse request body as JSON: "));
}

#[test]
fn keys_that_never_settle_are_found() {
    assert!(keys_settle_within(&config(true), &env(), 10));
    assert!(!keys_settle_within(&config(true), &env(), 0));
    let circular = vec![("KEY".to_string(), "${KEY}".to_string())];
    assert!(!keys_settle_within(&config(true), &circular, 1000));
    assert!(keys_settle_within(&config(false), &circular, 0));
}
