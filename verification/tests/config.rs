use llm_proxy::config::{Config, Defaults, ModelConfig, Route};
use llm_proxy::environment::{expand_env_vars, expand_env_vars_within};
use llm_proxy::format::{Protocol, UpstreamFormats};

fn env(pairs: &[(&str, &str)]) -> Vec<(String, String)> {
    pairs
        .iter()
        .map(|(k, v)| (k.to_string(), v.to_string()))
        .collect()
}

fn no_model() -> ModelConfig {
    ModelConfig {
        target: None,
        upstream_formats: UpstreamFormats::default(),
        api_key: None,
        upstream_model: None,
        max_retries: None,
        base_delay_ms: None,
        max_delay_ms: None,
        max_total_wait_ms: None,
        connect_timeout_secs: None,
        retry_status_codes: None,
    }
}

fn no_route() -> Route {
    Route {
        target: None,
        upstream_formats: UpstreamFormats::default(),
        api_key: None,
        upstream_model: None,
        models: Vec::new(),
        max_retries: None,
        base_delay_ms: None,
        max_delay_ms: None,
        max_total_wait_ms: None,
        connect_timeout_secs: None,
        retry_status_codes: None,
    }
}

fn config(routes: Vec<(&str, Route)>) -> Config {
    Config {
        log_level: "info".to_string(),
        defaults: Defaults {
            max_retries: 9999,
            base_delay_ms: 1000,
            max_delay_ms: 60000,
            ..Defaults::default()
        },
        routes: routes
            .into_iter()
            .map(|(name, route)| (name.to_string(), route))
            .collect(),
    }
}

fn fault(config: &Config) -> String {
    config.validate().unwrap_err().0
}

#[test]
fn test_expand_env_vars() {
    let vars = env(&[("TEST_API_KEY", "secret123")]);
    assert_eq!(expand_env_vars("${TEST_API_KEY}", &vars), "secret123");
    assert_eq!(
        expand_env_vars("Bearer ${TEST_API_KEY}", &vars),
        "Bearer secret123"
    );
}

#[test]
fn test_expand_env_vars_unset() {
    assert_eq!(
        expand_env_vars("${NONEXISTENT_VAR}", &env(&[])),
        "${NONEXISTENT_VAR}"
    );
}

#[test]
fn test_config_default_route_no_target() {
    let mut model = no_model();
    model.target = Some("http://localhost:8080".to_string());
    model.upstream_formats = UpstreamFormats(vec![Protocol::Chat]);
    model.api_key = Some("test-key".to_string());
    let mut route = no_route();
    route.models.push(("test-model".to_string(), model));
    let config = config(vec![("default", route)]);
    assert!(config.validate().is_ok());
    let rc = config.resolve_default_route(&env(&[])).unwrap();
    assert!(rc.target.is_none()); // default route has no route-level target
}

#[test]
fn test_config_named_route_must_have_target() {
    let config = config(vec![("myroute", no_route())]);
    assert!(config.validate().is_err());
}

#[test]
fn unset_references_do_not_stop_later_ones() {
    let vars = env(&[("A", "1"), ("B", "2")]);
    assert_eq!(expand_env_vars("${X}-${A}-${Y}-${B}", &vars), "${X}-1-${Y}-2");
    assert_eq!(expand_env_vars("$A {A} ${A", &vars), "$A {A} ${A");
    assert_eq!(expand_env_vars("${}", &vars), "${}");
    assert_eq!(expand_env_vars("${A${B}}", &vars), "${A${B}}");
}

#[test]
fn references_in_values_are_expanded() {
    let vars = env(&[("A", "<${B}>"), ("B", "b")]);
    assert_eq!(expand_env_vars("${A}${A}", &vars), "<b><b>");
    assert_eq!(
        expand_env_vars_within("${A}${A}", &vars, 4),
        Some("<b><b>".to_string())
    );
    assert_eq!(expand_env_vars_within("${A}${A}", &vars, 3), None);
    let circular = env(&[("A", "${A}")]);
    assert_eq!(expand_env_vars_within("${A}", &circular, 1000), None);
    assert_eq!(
        expand_env_vars_within("plain", &circular, 0),
        Some("plain".to_string())
    );
}

#[test]
fn an_expanded_text_stays() {
    let vars = env(&[("KEY", "k"), ("KEY", "later")]);
    let once = expand_env_vars("a${KEY}b${NO}", &vars);
    assert_eq!(once, "akb${NO}");
    assert_eq!(expand_env_vars(&once, &vars), once);
}

#[test]
fn defaults_are_exact() {
    let d = Defaults::default();
    assert_eq!(d.max_retries, 9999);
    assert_eq!(d.base_delay_ms, 1000);
    assert_eq!(d.max_delay_ms, 60000);
    assert_eq!(d.max_total_wait_ms, 0);
    assert_eq!(d.connect_timeout_secs, 30);
    assert_eq!(
        d.retry_status_codes,
        vec![429, 500, 502, 503, 504, 408, 529]
    );
    assert_eq!(llm_proxy::config::default_log_level(), "info");
}

#[test]
fn every_fault_has_its_message() {
    assert_eq!(fault(&config(vec![])), "no routes defined");
    assert_eq!(
        fault(&config(vec![("a/b", no_route())])),
        "route name 'a/b' must not contain '/'"
    );
    assert_eq!(
        fault(&config(vec![("r", no_route())])),
        "route 'r' (non-default) must have a target"
    );
    let mut empty = no_route();
    empty.target = Some(String::new());
    assert_eq!(
        fault(&config(vec![("r", empty)])),
        "route 'r' has empty target"
    );
    let mut bad = no_route();
    bad.target = Some("http://a b".to_string());
    let message = "http://a b".parse::<http::Uri>().unwrap_err().to_string();
    assert_eq!(
        fault(&config(vec![("r", bad)])),
        format!("route 'r' target 'http://a b' is not a valid URL: {}", message)
    );
    let mut nameless = no_route();
    nameless.models.push((String::new(), no_model()));
    assert_eq!(
        fault(&config(vec![("default", nameless)])),
        "route 'default' has a model entry with empty name"
    );
    let mut model = no_model();
    model.target = Some(String::new());
    let mut route = no_route();
    route.models.push(("m".to_string(), model));
    assert_eq!(
        fault(&config(vec![("default", route)])),
        "route 'default' model 'm' has empty target"
    );
    let mut model = no_model();
    model.target = Some("http://a b".to_string());
    let mut route = no_route();
    route.models.push(("m".to_string(), model));
    assert_eq!(
        fault(&config(vec![("default", route)])),
        format!(
            "route 'default' model 'm' target 'http://a b' is not a valid URL: {}",
            message
        )
    );
}

#[test]
fn zero_defaults_are_refused() {
    let mut c = config(vec![("default", no_route())]);
    assert!(c.validate().is_ok());
    c.defaults.max_delay_ms = 0;
    assert_eq!(fault(&c), "defaults.max_delay_ms must be > 0");
    c.defaults.base_delay_ms = 0;
    assert_eq!(fault(&c), "defaults.base_delay_ms must be > 0");
    c.defaults.max_retries = 0;
    assert_eq!(fault(&c), "defaults.max_retries must be > 0");
}

#[test]
fn routes_override_defaults_and_models_override_routes() {
    let mut model = no_model();
    model.target = Some("http://model".to_string());
    model.api_key = Some("${MODEL_KEY}".to_string());
    model.upstream_model = Some("real".to_string());
    model.upstream_formats = UpstreamFormats(vec![Protocol::Anthropic]);
    model.max_retries = Some(3);
    model.base_delay_ms = Some(4);
    model.max_delay_ms = Some(5);
    model.max_total_wait_ms = Some(6);
    model.connect_timeout_secs = Some(7);
    model.retry_status_codes = Some(vec![418]);
    let mut route = no_route();
    route.target = Some("http://route".to_string());
    route.api_key = Some("${ROUTE_KEY}".to_string());
    route.max_retries = Some(1);
    route.connect_timeout_secs = Some(2);
    route.models.push(("m".to_string(), model));
    route.models.push(("bare".to_string(), no_model()));
    let config = config(vec![("r", route)]);
    let vars = env(&[("ROUTE_KEY", "rk"), ("MODEL_KEY", "mk")]);

    assert!(config.resolve_route("other", &vars).is_none());
    assert!(config.resolve_default_route(&vars).is_none());
    let rc = config.resolve_route("r", &vars).unwrap();
    assert_eq!(rc.target.as_deref(), Some("http://route"));
    assert_eq!(rc.api_key.as_deref(), Some("rk"));
    assert_eq!(rc.max_retries, 1);
    assert_eq!(rc.base_delay_ms, 1000);
    assert_eq!(rc.connect_timeout_secs, 2);
    assert_eq!(rc.retry_status_codes.len(), 7);
    assert_eq!(rc.model_names(), vec!["m", "bare"]);
    assert_eq!(config.route_names(), vec!["r"]);

    let m = rc.resolve_model("m", &vars);
    assert_eq!(m.target.as_deref(), Some("http://model"));
    assert_eq!(m.api_key.as_deref(), Some("mk"));
    assert_eq!(m.upstream_model.as_deref(), Some("real"));
    assert_eq!(m.upstream_formats.0, vec![Protocol::Anthropic]);
    assert_eq!(
        (m.max_retries, m.base_delay_ms, m.max_delay_ms),
        (3, 4, 5)
    );
    assert_eq!((m.max_total_wait_ms, m.connect_timeout_secs), (6, 7));
    assert_eq!(m.retry_status_codes, vec![418]);

    for name in ["bare", "unknown"] {
        let same = rc.resolve_model(name, &vars);
        assert_eq!(same.target.as_deref(), Some("http://route"));
        assert_eq!(same.api_key.as_deref(), Some("rk"));
        assert_eq!(same.max_retries, 1);
        assert!(same.upstream_formats.is_empty());
    }
}

#[test]
fn model_names_are_sorted_and_distinct() {
    let mut a = no_route();
    for name in ["zeta", "alpha", "Beta"] {
        a.models.push((name.to_string(), no_model()));
    }
    let mut b = no_route();
    for name in ["alpha", "ä", "alphabet"] {
        b.models.push((name.to_string(), no_model()));
    }
    let names = config(vec![("a", a), ("b", b)]).all_model_names();
    let mut expected = vec!["zeta", "alpha", "Beta", "alpha", "ä", "alphabet"];
    expected.sort();
    expected.dedup();
    assert_eq!(names, expected);
}

#[test]
fn copies_are_complete() {
    let mut model = no_model();
    model.retry_status_codes = Some(vec![1, 2]);
    let mut route = no_route();
    route.target = Some("http://x".to_string());
    route.models.push(("m".to_string(), model));
    let original = config(vec![("r", route)]);
    assert_eq!(format!("{:?}", original.clone()), format!("{:?}", original));
    let resolved = original.resolve_route("r", &env(&[])).unwrap();
    assert_eq!(format!("{:?}", resolved.clone()), format!("{:?}", resolved));
}
