//! What the proxy decides about a request: where it goes, in which form, and
//! how it is answered where it goes nowhere.

use crate::config;
use crate::config::{Config, ConfigView, ResolvedRouteConfig, ResolvedView, DEFAULT_ROUTE};
use crate::environment;
use crate::environment::expand_env_vars_within;
use crate::format::{conversion_direction, Protocol};
use crate::json;
use crate::json::{no_items, parse_json, print_json, Json, JsonView, Object, Parsed};
use crate::lists;
use crate::log;
use crate::log::extract_model;
use crate::text;
use crate::text::{concat, ends_with, find_char, join, same_text, strip_prefix, trim_end_char};
use crate::transform;
use crate::transform::common;
use crate::transform::common::set_model;
use crate::transform::transform_request;
use vstd::prelude::*;
use vstd::slice::slice_to_vec;

verus! {

broadcast use crate::json::group_json_views;

// ── Answers of the proxy itself ────────────────────────────────────────────

/// An answer that the proxy gives itself: a status and a JSON text.
#[derive(Debug)]
pub struct Reply {
    pub status: u16,
    pub body: String,
}

pub struct ReplyView {
    pub status: u16,
    pub body: Seq<char>,
}

impl View for Reply {
    type V = ReplyView;

    open spec fn view(&self) -> ReplyView {
        ReplyView { status: self.status, body: self.body@ }
    }
}

/// The answer that tells of an error.
pub open spec fn error_reply(status: u16, message: Seq<char>, kind: Seq<char>) -> ReplyView {
    ReplyView {
        status,
        body: json::json_text(
            JsonView::Object(
                map![
                    "error"@ => JsonView::Object(map![
                        "message"@ => JsonView::text(message),
                        "type"@ => JsonView::text(kind),
                    ]),
                ],
            ),
        ),
    }
}

/// The answer that tells of an error.
pub fn error_response(status: u16, message: &str, error_type: &str) -> (r: Reply)
    ensures
        r@ == error_reply(status, message@, error_type@),
{
    let error = Object::new().with("message", Json::string(message)).with(
        "type",
        Json::string(error_type),
    );
    let body = Json::Object(Object::new().with("error", Json::Object(error)));
    Reply { status, body: print_json(&body) }
}

/// A list of models, as the API gives it.
pub open spec fn model_list(names: Seq<Seq<char>>) -> JsonView {
    JsonView::Object(
        map![
            "object"@ => JsonView::text("list"@),
            "data"@ => JsonView::Array(names.map_values(|name: Seq<char>| model_item(name))),
        ],
    )
}

pub open spec fn model_item(name: Seq<char>) -> JsonView {
    JsonView::Object(
        map![
            "id"@ => JsonView::text(name),
            "object"@ => JsonView::text("model"@),
            "owned_by"@ => JsonView::text("llm-proxy"@),
        ],
    )
}

/// A list of models, as the API gives it.
pub fn print_models(names: &Vec<String>) -> (r: String)
    ensures
        r@ == json::json_text(model_list(text::texts(names@))),
{
    let mut items = no_items();
    let ghost views = text::texts(names@);
    for i in 0..names.len()
        invariant
            views == text::texts(names@),
            json::json_views(items@) =~= views.take(i as int).map_values(
                |name: Seq<char>| model_item(name),
            ),
    {
        let item = Object::new().with("id", Json::string(names[i].as_str())).with(
            "object",
            Json::string("model"),
        ).with("owned_by", Json::string("llm-proxy"));
        items.push(Json::Object(item));
    }
    assert(views.take(views.len() as int) =~= views);
    print_json(
        &Json::Object(
            Object::new().with("object", Json::string("list")).with("data", Json::Array(items)),
        ),
    )
}

/// Whether these are the names of all configured models, in order.
pub open spec fn are_model_names(config: ConfigView, names: Seq<Seq<char>>) -> bool {
    text::is_sorted(names) && forall|name: Seq<char>| #[trigger]
        names.contains(name) <==> config.has_model(name)
}

/// Handles GET /v1/models — returns all configured model names.
pub fn handle_models(config: &Config) -> (r: Reply)
    ensures
        exists|names: Seq<Seq<char>>| #[trigger]
            are_model_names(config@, names) && r@ == (ReplyView {
                status: 200,
                body: json::json_text(model_list(names)),
            }),
{
    let names = config.all_model_names();
    assert(are_model_names(config@, text::texts(names@)));
    Reply { status: 200, body: print_models(&names) }
}

/// There is one list of the names of all configured models.
pub proof fn lemma_model_names_unique(
    config: ConfigView,
    names: Seq<Seq<char>>,
    others: Seq<Seq<char>>,
)
    requires
        are_model_names(config, names),
        are_model_names(config, others),
    ensures
        names == others,
{
    assert forall|name: Seq<char>| names.contains(name) <==> others.contains(name) by {}
    text::lemma_sorted_unique(names, others);
}

// ── Paths ──────────────────────────────────────────────────────────────────

/// What a request asks for.
#[derive(Debug, Clone, Copy, PartialEq, Eq, Structural)]
pub enum Request {
    /// The state of the proxy.
    Health,
    /// The counters of the proxy.
    Metrics,
    /// The configured models.
    Models,
    /// Something of an upstream.
    Forward,
}

pub open spec fn request_kind(is_get: bool, path: Seq<char>) -> Request {
    if path == "/healthz"@ {
        Request::Health
    } else if path == "/metrics"@ {
        Request::Metrics
    } else if is_get && text::has_suffix(path, "/models"@) {
        Request::Models
    } else {
        Request::Forward
    }
}

/// What a request asks for.
pub fn classify(is_get: bool, path: &str) -> (r: Request)
    ensures
        r == request_kind(is_get, path@),
{
    if same_text(path, "/healthz") {
        Request::Health
    } else if same_text(path, "/metrics") {
        Request::Metrics
    } else if is_get && ends_with(path, "/models") {
        Request::Models
    } else {
        Request::Forward
    }
}

/// Route match result: either a named route or the default route.
#[derive(Debug)]
pub enum RouteMatch {
    Named { name: String, rest: String },
    Default { rest: String },
    NotFound,
}

pub enum RouteMatchView {
    Named(Seq<char>, Seq<char>),
    Default(Seq<char>),
    NotFound,
}

impl View for RouteMatch {
    type V = RouteMatchView;

    open spec fn view(&self) -> RouteMatchView {
        match *self {
            RouteMatch::Named { name, rest } => RouteMatchView::Named(name@, rest@),
            RouteMatch::Default { rest } => RouteMatchView::Default(rest@),
            RouteMatch::NotFound => RouteMatchView::NotFound,
        }
    }
}

/// A path without its leading slash.
pub open spec fn relative(path: Seq<char>) -> Seq<char> {
    if path.len() > 0 && path[0] == '/' {
        path.skip(1)
    } else {
        path
    }
}

/// Where the first segment of a path ends, or the path's length where no slash
/// follows it.
pub open spec fn segment_end(path: Seq<char>) -> int {
    lists::first_where(path, |c: char| c == '/')
}

/// The route that a path leads to. A path of a named route begins with its name;
/// any other path leads to the default route, where there is one.
pub open spec fn matched_route(path: Seq<char>, config: ConfigView) -> RouteMatchView {
    let p = relative(path);
    let end = segment_end(p);
    if end < p.len() && lists::entry(config.routes, p.take(end)) is Some {
        RouteMatchView::Named(p.take(end), p.skip(end + 1))
    } else if lists::entry(config.routes, DEFAULT_ROUTE@) is Some {
        RouteMatchView::Default(p)
    } else {
        RouteMatchView::NotFound
    }
}

/// Matches the URL path against configured routes.
/// Named routes take priority; if no named route matches, try default route.
pub fn match_route(path: &str, config: &Config) -> (r: RouteMatch)
    ensures
        r@ == matched_route(path@, config@),
{
    proof {
        reveal_strlit("/");
        if path@.len() > 0 {
            assert(path@.take(1) =~= seq![path@[0]]);
            assert("/"@ =~= seq!['/']);
            assert(path@.take(1)[0] == path@[0]);
        }
    }
    let p = match strip_prefix(path, "/") {
        Some(rest) => rest,
        None => path,
    };
    assert(p@ == relative(path@));
    let end: usize = find_char(p, '/');
    proof {
        lists::lemma_first_where(p@, |c: char| c == '/', end as int);
    }
    let len: usize = p.unicode_len();
    if end < len {
        let name = p.substring_char(0, end);
        assert(name@ =~= p@.take(end as int));
        if config.has_route(name) {
            let rest = p.substring_char(end + 1, len);
            assert(rest@ =~= p@.skip(end + 1));
            return RouteMatch::Named { name: name.to_string(), rest: rest.to_string() };
        }
    }
    if config.has_route(DEFAULT_ROUTE) {
        RouteMatch::Default { rest: p.to_string() }
    } else {
        RouteMatch::NotFound
    }
}

/// A path under the name of a configured route leads to that route, with what
/// follows the name, whether there is a default route or not.
pub proof fn lemma_named_route_first(config: ConfigView, name: Seq<char>, rest: Seq<char>)
    requires
        lists::entry(config.routes, name) is Some,
        !name.contains('/'),
    ensures
        matched_route("/"@ + name + "/"@ + rest, config) == RouteMatchView::Named(name, rest),
{
    reveal_strlit("/");
    let path = "/"@ + name + "/"@ + rest;
    let p = path.skip(1);
    assert(p =~= name + "/"@ + rest);
    assert forall|i: int| 0 <= i < name.len() implies p[i] != '/' by {
        assert(p[i] == name[i]);
    }
    lists::lemma_first_where(p, |c: char| c == '/', name.len() as int);
    assert(p.take(name.len() as int) =~= name);
    let end = name.len() as int;
    assert(p.skip(end + 1) =~= rest);
}

/// A path leads nowhere exactly where it names no route and there is no default
/// route.
pub proof fn lemma_default_route_catches(config: ConfigView, path: Seq<char>)
    requires
        lists::entry(config.routes, DEFAULT_ROUTE@) is Some,
    ensures
        !(matched_route(path, config) is NotFound),
{
}

// ── Bodies ─────────────────────────────────────────────────────────────────

/// A request body with another model. Only a JSON object changes.
pub open spec fn body_with_model(body: Seq<u8>, model: Seq<char>) -> Seq<u8> {
    match json::json_parse(body) {
        Parsed::Value(v) => if v is Object {
            transform::json_bytes(common::with_model(v, model))
        } else {
            body
        },
        Parsed::Fault(_) => body,
    }
}

/// Rewrites the `model` field in a JSON request body. What was an object is one
/// that names the new model.
pub fn rewrite_model_in_body(body: &[u8], new_model: &str) -> (r: Vec<u8>)
    ensures
        r@ == body_with_model(body@, new_model@),
        json::json_parse(body@) matches Parsed::Value(v) ==> v is Object ==> json::json_parse(r@)
            == Parsed::Value(common::with_model(v, new_model@)),
        json::json_parse(body@) matches Parsed::Value(v) && v is Object ==> common::model_in(r@)
            == Some(new_model@),
{
    match parse_json(body) {
        Ok(value) => match value {
            Json::Object(_) => {
                proof {
                    common::lemma_nested_with_model(value@, new_model@);
                }
                print_json(&set_model(value, new_model)).as_str().as_bytes_vec()
            },
            _ => slice_to_vec(body),
        },
        Err(_) => slice_to_vec(body),
    }
}

// ── Routing ────────────────────────────────────────────────────────────────

/// A request that has found its route.
pub struct Routed {
    pub route_name: String,
    /// The path without the name of the route.
    pub rest: String,
    pub route: ResolvedRouteConfig,
}

pub struct RoutedView {
    pub route_name: Seq<char>,
    pub rest: Seq<char>,
    pub route: ResolvedView,
}

impl View for Routed {
    type V = RoutedView;

    open spec fn view(&self) -> RoutedView {
        RoutedView { route_name: self.route_name@, rest: self.rest@, route: self.route@ }
    }
}

/// Whether every key of a configuration can be expanded.
pub open spec fn keys_settle(config: ConfigView, env: Seq<(Seq<char>, Seq<char>)>) -> bool {
    forall|i: int|
        0 <= i < config.routes.len() ==> route_keys_settle(#[trigger] config.routes[i].1, env)
}

pub open spec fn route_keys_settle(
    route: config::RouteView,
    env: Seq<(Seq<char>, Seq<char>)>,
) -> bool {
    config::key_settles(route.api_key, env) && model_keys_settle(route.models, env)
}

pub open spec fn model_keys_settle(
    models: Seq<(Seq<char>, config::ModelView)>,
    env: Seq<(Seq<char>, Seq<char>)>,
) -> bool {
    forall|j: int|
        0 <= j < models.len() ==> config::key_settles((#[trigger] models[j]).1.api_key, env)
}

/// The names of the routes.
pub open spec fn route_names(config: ConfigView) -> Seq<Seq<char>> {
    config.routes.map_values(|entry: (Seq<char>, config::RouteView)| entry.0)
}

/// The route of a request, or the answer that there is none.
pub open spec fn route_outcome(
    path: Seq<char>,
    config: ConfigView,
    env: Seq<(Seq<char>, Seq<char>)>,
) -> Result<RoutedView, ReplyView> {
    match matched_route(path, config) {
        RouteMatchView::Named(name, rest) => Ok(
            RoutedView { route_name: name, rest, route: config.resolved(name, env)->0 },
        ),
        RouteMatchView::Default(rest) => Ok(
            RoutedView {
                route_name: DEFAULT_ROUTE@,
                rest,
                route: config.resolved(DEFAULT_ROUTE@, env)->0,
            },
        ),
        RouteMatchView::NotFound => Err(no_route_reply(path, config)),
    }
}

/// The answer that a path leads nowhere.
pub open spec fn no_route_reply(path: Seq<char>, config: ConfigView) -> ReplyView {
    error_reply(
        404,
        "no route matched \""@ + path + "\". Available: "@ + text::joined(
            route_names(config),
            ", "@,
        ),
        "unknown_route"@,
    )
}

/// Where every key of a configuration can be expanded, so can those of each
/// route and its models.
pub proof fn lemma_resolved_keys_settle(
    config: ConfigView,
    name: Seq<char>,
    env: Seq<(Seq<char>, Seq<char>)>,
)
    requires
        keys_settle(config, env),
    ensures
        config.key_settles(name, env),
        config.resolved(name, env) matches Some(route) ==> model_keys_settle(route.models, env),
{
    lists::lemma_entry(config.routes, name);
    match lists::entry(config.routes, name) {
        Some(route) => {
            let at = choose|i: int|
                0 <= i < config.routes.len() && config.routes[i] == (name, route);
            assert(route_keys_settle(config.routes[at].1, env));
        },
        None => {},
    }
}

/// Where every key of a route's models can be expanded, so can that of each
/// model.
pub proof fn lemma_model_key_settles(
    route: ResolvedView,
    model: Seq<char>,
    env: Seq<(Seq<char>, Seq<char>)>,
)
    requires
        model_keys_settle(route.models, env),
    ensures
        route.model_key_settles(model, env),
{
    lists::lemma_entry(route.models, model);
    match lists::entry(route.models, model) {
        Some(m) => {
            let at = choose|i: int| 0 <= i < route.models.len() && route.models[i] == (model, m);
            assert(config::key_settles(route.models[at].1.api_key, env));
        },
        None => {},
    }
}

fn owned_names(config: &Config) -> (r: Vec<String>)
    ensures
        text::texts(r@) == route_names(config@),
{
    let mut r: Vec<String> = Vec::new();
    for i in 0..config.routes.len()
        invariant
            r@.len() == i,
            forall|j: int| 0 <= j < i ==> (#[trigger] r@[j])@ == config.routes@[j].0@,
    {
        r.push(config.routes[i].0.clone());
    }
    assert(text::texts(r@) =~= route_names(config@));
    r
}

fn no_route(path: &str, config: &Config) -> (r: Reply)
    ensures
        r@ == no_route_reply(path@, config@),
{
    let mut message = concat("no route matched \"", path);
    message.append("\". Available: ");
    message.append(join(&owned_names(config), ", ").as_str());
    error_response(404, message.as_str(), "unknown_route")
}

/// Whether the key of a route or a model can be expanded in at most so many
/// steps.
fn key_settles_within(key: &Option<String>, env: &Vec<(String, String)>, steps: usize) -> (r: bool)
    ensures
        r ==> config::key_settles(json::string_of(*key), environment::variables(env@)),
        r == (json::string_of(*key) matches Some(k) ==> environment::expanded(
            k,
            environment::variables(env@),
            steps as nat,
        ) is Some),
{
    match key {
        Some(k) => expand_env_vars_within(k.as_str(), env, steps).is_some(),
        None => true,
    }
}

/// Whether a key, where there is one, expands in at most so many steps.
pub open spec fn key_expands(
    key: Option<Seq<char>>,
    env: Seq<(Seq<char>, Seq<char>)>,
    steps: nat,
) -> bool {
    key matches Some(k) ==> environment::expanded(k, env, steps) is Some
}

pub open spec fn model_keys_expand(
    models: Seq<(Seq<char>, config::ModelView)>,
    env: Seq<(Seq<char>, Seq<char>)>,
    steps: nat,
) -> bool {
    forall|j: int| 0 <= j < models.len() ==> key_expands((#[trigger] models[j]).1.api_key, env, steps)
}

pub open spec fn route_keys_expand(
    route: config::RouteView,
    env: Seq<(Seq<char>, Seq<char>)>,
    steps: nat,
) -> bool {
    key_expands(route.api_key, env, steps) && model_keys_expand(route.models, env, steps)
}

fn model_keys_settle_within(
    models: &Vec<(String, config::ModelConfig)>,
    env: &Vec<(String, String)>,
    steps: usize,
) -> (r: bool)
    ensures
        r ==> model_keys_settle(config::model_views(models@), environment::variables(env@)),
        r == model_keys_expand(
            config::model_views(models@),
            environment::variables(env@),
            steps as nat,
        ),
{
    let ghost vars = environment::variables(env@);
    let ghost views = config::model_views(models@);
    for i in 0..models.len()
        invariant
            vars == environment::variables(env@),
            views == config::model_views(models@),
            forall|j: int|
                0 <= j < i ==> config::key_settles((#[trigger] views[j]).1.api_key, vars)
                    && key_expands(views[j].1.api_key, vars, steps as nat),
    {
        assert(views[i as int].1 == models@[i as int].1@);
        if !key_settles_within(&models[i].1.api_key, env, steps) {
            assert(!key_expands(views[i as int].1.api_key, vars, steps as nat));
            return false;
        }
    }
    true
}

/// Whether every key of a configuration can be expanded in at most so many
/// steps.
pub fn keys_settle_within(config: &Config, env: &Vec<(String, String)>, steps: usize) -> (r: bool)
    ensures
        r ==> keys_settle(config@, environment::variables(env@)),
        r == forall|i: int|
            0 <= i < config@.routes.len() ==> route_keys_expand(
                #[trigger] config@.routes[i].1,
                environment::variables(env@),
                steps as nat,
            ),
{
    let ghost vars = environment::variables(env@);
    let ghost routes = config@.routes;
    for i in 0..config.routes.len()
        invariant
            vars == environment::variables(env@),
            routes == config::route_views(config.routes@),
            routes == config@.routes,
            forall|j: int|
                0 <= j < i ==> route_keys_settle(#[trigger] routes[j].1, vars)
                    && route_keys_expand(routes[j].1, vars, steps as nat),
    {
        let route = &config.routes[i].1;
        assert(routes[i as int].1 == route@);
        if !key_settles_within(&route.api_key, env, steps) || !model_keys_settle_within(
            &route.models,
            env,
            steps,
        ) {
            assert(!route_keys_expand(routes[i as int].1, vars, steps as nat));
            return false;
        }
    }
    true
}

/// Finds the route of a request.
pub fn route_request(path: &str, config: &Config, env: &Vec<(String, String)>) -> (r: Result<
    Routed,
    Reply,
>)
    requires
        keys_settle(config@, environment::variables(env@)),
    ensures
        match r {
            Ok(routed) => route_outcome(path@, config@, environment::variables(env@)) == Ok::<
                RoutedView,
                ReplyView,
            >(routed@) && model_keys_settle(
                routed.route@.models,
                environment::variables(env@),
            ),
            Err(reply) => route_outcome(path@, config@, environment::variables(env@)) == Err::<
                RoutedView,
                ReplyView,
            >(reply@),
        },
{
    let ghost vars = environment::variables(env@);
    match match_route(path, config) {
        RouteMatch::Named { name, rest } => {
            proof {
                lemma_resolved_keys_settle(config@, name@, vars);
            }
            match config.resolve_route(name.as_str(), env) {
                Some(route) => Ok(Routed { route_name: name, rest, route }),
                None => Err(no_route(path, config)),
            }
        },
        RouteMatch::Default { rest } => {
            proof {
                lemma_resolved_keys_settle(config@, DEFAULT_ROUTE@, vars);
            }
            match config.resolve_default_route(env) {
                Some(route) => Ok(
                    Routed { route_name: DEFAULT_ROUTE.to_string(), rest, route },
                ),
                None => Err(no_route(path, config)),
            }
        },
        RouteMatch::NotFound => Err(no_route(path, config)),
    }
}

// ── Planning ───────────────────────────────────────────────────────────────

/// What is sent to the upstream for a request, and what is needed to answer it.
pub struct Plan {
    pub route_name: String,
    /// The name by which the client calls the model.
    pub client_model: Option<String>,
    /// The client's protocol.
    pub inbound: Protocol,
    /// The upstream's protocol.
    pub upstream: Protocol,
    pub upstream_url: String,
    /// How log lines speak of the request.
    pub tag: String,
    pub body: Vec<u8>,
    /// Why the body goes out unconverted, where it should have been converted.
    pub fault: Option<String>,
    pub route: ResolvedRouteConfig,
}

pub struct PlanView {
    pub route_name: Seq<char>,
    pub client_model: Option<Seq<char>>,
    pub inbound: Protocol,
    pub upstream: Protocol,
    pub upstream_url: Seq<char>,
    pub tag: Seq<char>,
    pub body: Seq<u8>,
    pub fault: Option<Seq<char>>,
    pub route: ResolvedView,
}

impl View for Plan {
    type V = PlanView;

    open spec fn view(&self) -> PlanView {
        PlanView {
            route_name: self.route_name@,
            client_model: json::string_of(self.client_model),
            inbound: self.inbound,
            upstream: self.upstream,
            upstream_url: self.upstream_url@,
            tag: self.tag@,
            body: self.body@,
            fault: json::string_of(self.fault),
            route: self.route@,
        }
    }
}

/// The route of a request with the settings of its model.
pub open spec fn route_for(
    route: ResolvedView,
    client_model: Option<Seq<char>>,
    env: Seq<(Seq<char>, Seq<char>)>,
) -> ResolvedView {
    match client_model {
        Some(model) => route.for_model(model, env),
        None => route,
    }
}

/// The protocol of a request: that of its path, or else Chat Completions.
pub open spec fn inbound_protocol(rest: Seq<char>) -> Protocol {
    match crate::format::protocol_of_path(rest) {
        Some(protocol) => protocol,
        None => Protocol::Chat,
    }
}

/// The base URL to which a request goes.
pub open spec fn target_for(
    upstream: Protocol,
    target: Option<Seq<char>>,
    anthropic_target: Option<Seq<char>>,
) -> Option<Seq<char>> {
    if upstream == Protocol::Anthropic && anthropic_target is Some {
        anthropic_target
    } else {
        target
    }
}

/// The URL to which a request goes: the path of the upstream's API under the
/// base URL.
pub open spec fn url_for(target: Seq<char>, upstream: Protocol) -> Seq<char> {
    text::without_trailing(target, '/') + upstream.spec_api_path()
}

/// How log lines speak of a request.
pub open spec fn tag_for(route_name: Seq<char>, client_model: Option<Seq<char>>) -> Seq<char> {
    match client_model {
        Some(model) => if model.len() > 0 {
            "["@ + route_name + "|"@ + model + "]"@
        } else {
            "["@ + route_name + "]"@
        },
        None => "["@ + route_name + "]"@,
    }
}

/// The request body under the name by which the upstream calls the model.
pub open spec fn upstream_body(
    body: Seq<u8>,
    client_model: Option<Seq<char>>,
    upstream_model: Option<Seq<char>>,
) -> Seq<u8> {
    let asked = match client_model {
        Some(model) => model,
        None => ""@,
    };
    match upstream_model {
        Some(model) => if model != asked {
            body_with_model(body, model)
        } else {
            body
        },
        None => body,
    }
}

/// The body that goes to the upstream. One that cannot be converted goes as it
/// is.
pub open spec fn sent_body(from: Protocol, to: Protocol, body: Seq<u8>) -> Seq<u8> {
    match transform::request_outcome(from, to, body) {
        Ok(converted) => converted,
        Err(_) => body,
    }
}

pub open spec fn sent_fault(from: Protocol, to: Protocol, body: Seq<u8>) -> Option<Seq<char>> {
    match transform::request_outcome(from, to, body) {
        Ok(_) => None,
        Err(message) => Some(message),
    }
}

/// What is done for a request, or the answer that nothing can be done.
pub open spec fn plan_outcome(
    routed: RoutedView,
    anthropic_target: Option<Seq<char>>,
    body: Seq<u8>,
    env: Seq<(Seq<char>, Seq<char>)>,
) -> Result<PlanView, ReplyView> {
    let client_model = log::requested_model(body);
    let route = route_for(routed.route, client_model, env);
    let inbound = inbound_protocol(routed.rest);
    let upstream = crate::format::target(route.upstream_formats, inbound);
    let named_body = upstream_body(body, client_model, route.upstream_model);
    if routed.route_name == DEFAULT_ROUTE@ && route.target is None {
        Err(
            error_reply(
                400,
                "default route requires a model field in the request body to determine the upstream target"@,
                "missing_model"@,
            ),
        )
    } else {
        match target_for(upstream, route.target, anthropic_target) {
            Some(target) => Ok(
                PlanView {
                    route_name: routed.route_name,
                    client_model,
                    inbound,
                    upstream,
                    upstream_url: url_for(target, upstream),
                    tag: tag_for(routed.route_name, client_model),
                    body: sent_body(inbound, upstream, named_body),
                    fault: sent_fault(inbound, upstream, named_body),
                    route,
                },
            ),
            None => Err(
                error_reply(400, "no target configured for this route/model"@, "no_target"@),
            ),
        }
    }
}

fn make_tag(route_name: &str, model: &str) -> (r: String)
    ensures
        r@ == tag_for(route_name@, Some(model@)),
        model@.len() == 0 ==> r@ == tag_for(route_name@, None),
{
    let mut tag = concat("[", route_name);
    if model.unicode_len() > 0 {
        tag.append("|");
        tag.append(model);
    }
    tag.append("]");
    tag
}

/// The body that goes to the upstream, and why it goes unconverted, where it
/// should have been converted.
fn prepare_body(
    from: Protocol,
    to: Protocol,
    conversion: Option<(Protocol, Protocol)>,
    body: Vec<u8>,
) -> (r: (Vec<u8>, Option<String>))
    requires
        conversion == (if from == to {
            None
        } else {
            Some((from, to))
        }),
    ensures
        r.0@ == sent_body(from, to, body@),
        json::string_of(r.1) == sent_fault(from, to, body@),
        from != to && json::json_parse(body@) is Value ==> transform::is_text_of(
            transform::converted_request(from, to, json::json_parse(body@)->Value_0),
            r.0@,
        ),
{
    match conversion {
        Some((from, to)) => match transform_request(from, to, body.as_slice()) {
            Ok(request) => (request.body, None),
            Err(message) => (body, Some(message)),
        },
        None => (body, None),
    }
}

/// Whether the body of a plan names the model by the name that the upstream
/// knows, where one is configured. A converted body does unless it nests too
/// deep to be read.
pub open spec fn names_upstream_model(plan: PlanView, body: Seq<u8>) -> bool {
    match (plan.route.upstream_model, json::json_parse(body)) {
        (Some(model), Parsed::Value(v)) => v is Object && model.len() > 0 && (plan.inbound
            == plan.upstream
            || json::nested_within(
            transform::converted_request(
                plan.inbound,
                plan.upstream,
                common::with_model(v, model),
            ),
            json::MAX_NESTING as nat,
        )) ==> common::model_in(plan.body) == Some(model),
        _ => true,
    }
}

/// To name the model that a request names changes nothing.
proof fn lemma_same_model(v: JsonView, model: Seq<char>)
    requires
        v.text_at("model"@) == Some(model),
    ensures
        common::with_model(v, model) == v,
{
    match v {
        JsonView::Object(m) => {
            assert(m.insert("model"@, JsonView::String(model)) =~= m);
        },
        _ => {},
    }
}

/// Plans what is done for a request that has found its route.
///
/// `anthropic_target` is the base URL for upstreams that take Anthropic Messages
/// elsewhere.
pub fn plan_request(
    routed: Routed,
    anthropic_target: Option<&str>,
    body: &[u8],
    env: &Vec<(String, String)>,
) -> (r: Result<Plan, Reply>)
    requires
        model_keys_settle(routed.route@.models, environment::variables(env@)),
    ensures
        match r {
            Ok(plan) => plan_outcome(
                routed@,
                json::text_of(anthropic_target),
                body@,
                environment::variables(env@),
            ) == Ok::<PlanView, ReplyView>(plan@) && names_upstream_model(plan@, body@),
            Err(reply) => plan_outcome(
                routed@,
                json::text_of(anthropic_target),
                body@,
                environment::variables(env@),
            ) == Err::<PlanView, ReplyView>(reply@),
        },
{
    let ghost vars = environment::variables(env@);
    let client_model = extract_model(body);
    proof {
        reveal_strlit("");
        match json::string_of(client_model) {
            Some(model) => {
                lemma_model_key_settles(routed.route@, model, vars);
            },
            None => {},
        }
    }
    let route = match &client_model {
        Some(model) => routed.route.resolve_model(model.as_str(), env),
        None => routed.route,
    };
    if same_text(routed.route_name.as_str(), DEFAULT_ROUTE) && route.target.is_none() {
        return Err(
            error_response(
                400,
                "default route requires a model field in the request body to determine the upstream target",
                "missing_model",
            ),
        );
    }
    let inbound = match Protocol::from_path(routed.rest.as_str()) {
        Some(protocol) => protocol,
        None => Protocol::Chat,
    };
    let conversion = conversion_direction(inbound, &route.upstream_formats);
    let upstream = match conversion {
        Some((_, to)) => to,
        None => inbound,
    };
    let own_target = match &route.target {
        Some(target) => Some(target.as_str()),
        None => None,
    };
    let chosen = if upstream == Protocol::Anthropic && anthropic_target.is_some() {
        anthropic_target
    } else {
        own_target
    };
    let target = match chosen {
        Some(target) => target,
        None => return Err(
            error_response(400, "no target configured for this route/model", "no_target"),
        ),
    };
    let upstream_url = concat(trim_end_char(target, '/'), upstream.api_path());
    let model_str = match &client_model {
        Some(model) => model.as_str(),
        None => "",
    };
    let named_body = match &route.upstream_model {
        Some(model) => if !same_text(model.as_str(), model_str) {
            rewrite_model_in_body(body, model.as_str())
        } else {
            slice_to_vec(body)
        },
        None => slice_to_vec(body),
    };
    let tag = make_tag(routed.route_name.as_str(), model_str);
    let (sent, fault) = prepare_body(inbound, upstream, conversion, named_body);
    proof {
        match (route@.upstream_model, json::json_parse(body@)) {
            (Some(model), Parsed::Value(v)) => {
                if v is Object {
                    if v.text_at("model"@) == Some(model) {
                        lemma_same_model(v, model);
                    }
                    transform::laws::lemma_request_keeps_model_and_stream(
                        inbound,
                        upstream,
                        common::with_model(v, model),
                    );
                }
            },
            _ => {},
        }
    }
    Ok(
        Plan {
            route_name: routed.route_name,
            client_model,
            inbound,
            upstream,
            upstream_url,
            tag,
            body: sent,
            fault,
            route,
        },
    )
}

/// A plan sends a request in a format that the upstream accepts, to the URL of
/// that format's API.
pub proof fn lemma_plan_accepted(
    routed: RoutedView,
    anthropic_target: Option<Seq<char>>,
    body: Seq<u8>,
    env: Seq<(Seq<char>, Seq<char>)>,
)
    ensures
        plan_outcome(routed, anthropic_target, body, env) matches Ok(plan) ==> {
            &&& crate::format::accepts(plan.route.upstream_formats, plan.upstream)
            &&& text::has_suffix(plan.upstream_url, plan.upstream.spec_api_path())
        },
{
    match plan_outcome(routed, anthropic_target, body, env) {
        Ok(plan) => {
            crate::format::lemma_target_accepted(plan.route.upstream_formats, plan.inbound);
            let path = plan.upstream.spec_api_path();
            let url = plan.upstream_url;
            assert(url.skip(url.len() - path.len()) =~= path);
        },
        Err(_) => {},
    }
}

/// Where the upstream accepts the client's format and no other name of the model
/// is configured, the request goes as it came.
pub proof fn lemma_passthrough_unchanged(
    routed: RoutedView,
    anthropic_target: Option<Seq<char>>,
    body: Seq<u8>,
    env: Seq<(Seq<char>, Seq<char>)>,
)
    ensures
        plan_outcome(routed, anthropic_target, body, env) matches Ok(plan)
            ==> crate::format::accepts(plan.route.upstream_formats, plan.inbound)
            && plan.route.upstream_model is None ==> plan.body == body && plan.upstream
            == plan.inbound && plan.fault is None,
{
}

/// Whether a value tells of an error in the way that clients know.
pub open spec fn is_error(v: JsonView, message: Seq<char>, kind: Seq<char>) -> bool {
    v.field("error"@) matches Some(error) && error.field("message"@) == Some(
        JsonView::String(message),
    ) && error.field("type"@) == Some(JsonView::String(kind))
}

/// Whether an answer has a status and tells of an error.
pub open spec fn tells_error(
    reply: ReplyView,
    status: u16,
    message: Seq<char>,
    kind: Seq<char>,
) -> bool {
    reply.status == status && exists|v: JsonView|
        reply.body == json::json_text(v) && #[trigger] is_error(v, message, kind)
}

/// An error is answered with its status, and with its message and its kind in the
/// body.
pub proof fn lemma_error_reply(status: u16, message: Seq<char>, kind: Seq<char>)
    ensures
        tells_error(error_reply(status, message, kind), status, message, kind),
{
    reveal_strlit("message");
    reveal_strlit("type");
    assert("message"@.len() != "type"@.len());
    let error = JsonView::Object(
        map!["message"@ => JsonView::text(message), "type"@ => JsonView::text(kind)],
    );
    let v = JsonView::Object(map!["error"@ => error]);
    assert(is_error(v, message, kind));
}

/// The list of models names each model, in order, under the keys that clients
/// read.
pub proof fn lemma_model_list(names: Seq<Seq<char>>)
    ensures
        ({
            let list = model_list(names);
            &&& list.field("object"@) == Some(JsonView::String("list"@))
            &&& list.field("data"@) matches Some(JsonView::Array(items)) && items.len()
                == names.len() && forall|i: int|
                0 <= i < names.len() ==> {
                    &&& (#[trigger] items[i]).field("id"@) == Some(JsonView::String(names[i]))
                    &&& items[i].field("object"@) == Some(JsonView::String("model"@))
                    &&& items[i].field("owned_by"@) == Some(JsonView::String("llm-proxy"@))
                }
        }),
{
    reveal_strlit("object");
    reveal_strlit("data");
    reveal_strlit("id");
    reveal_strlit("owned_by");
    assert("object"@.len() != "data"@.len());
    assert("object"@.len() != "id"@.len());
    assert("object"@.len() != "owned_by"@.len());
    assert("id"@.len() != "owned_by"@.len());
}

/// What answers, matches and plans are: what they say.
pub proof fn lemma_plan_views(reply: Reply, routed: Routed, plan: Plan, name: String, rest: String)
    ensures
        reply@.status == reply.status,
        reply@.body == reply.body@,
        (RouteMatch::Named { name, rest })@ == RouteMatchView::Named(name@, rest@),
        (RouteMatch::Default { rest })@ == RouteMatchView::Default(rest@),
        RouteMatch::NotFound@ == RouteMatchView::NotFound,
        routed@.route_name == routed.route_name@,
        routed@.rest == routed.rest@,
        routed@.route == routed.route@,
        plan@.route_name == plan.route_name@,
        plan.client_model matches Some(model) ==> plan@.client_model == Some(model@),
        plan.client_model is None ==> plan@.client_model is None,
        plan@.inbound == plan.inbound,
        plan@.upstream == plan.upstream,
        plan@.upstream_url == plan.upstream_url@,
        plan@.tag == plan.tag@,
        plan@.body == plan.body@,
        plan.fault matches Some(fault) ==> plan@.fault == Some(fault@),
        plan.fault is None ==> plan@.fault is None,
        plan@.route == plan.route@,
{
}

/// Where every key of a configuration is expanded in some number of steps, every key
/// can be expanded.
pub proof fn lemma_keys_expand(
    config: ConfigView,
    env: Seq<(Seq<char>, Seq<char>)>,
    steps: nat,
    key: Seq<char>,
)
    ensures
        key_expands(None, env, steps),
        key_expands(Some(key), env, steps) <==> environment::expanded(key, env, steps) is Some,
        (forall|i: int|
            0 <= i < config.routes.len() ==> route_keys_expand(
                #[trigger] config.routes[i].1,
                env,
                steps,
            )) ==> keys_settle(config, env),
{
    if forall|i: int|
        0 <= i < config.routes.len() ==> route_keys_expand(
            #[trigger] config.routes[i].1,
            env,
            steps,
        ) {
        assert forall|i: int| 0 <= i < config.routes.len() implies route_keys_settle(
            #[trigger] config.routes[i].1,
            env,
        ) by {
            let route = config.routes[i].1;
            assert(route_keys_expand(route, env, steps));
            assert forall|j: int| 0 <= j < route.models.len() implies config::key_settles(
                (#[trigger] route.models[j]).1.api_key,
                env,
            ) by {
                assert(key_expands(route.models[j].1.api_key, env, steps));
            }
        }
    }
}

/// The keys of a configuration can be expanded exactly where those of every route
/// and of every model can.
pub proof fn lemma_keys_settle(config: ConfigView, env: Seq<(Seq<char>, Seq<char>)>)
    ensures
        keys_settle(config, env) <==> forall|i: int|
            #![trigger config.routes[i]]
            0 <= i < config.routes.len() ==> {
                let route = config.routes[i].1;
                &&& config::key_settles(route.api_key, env)
                &&& forall|j: int|
                    0 <= j < route.models.len() ==> config::key_settles(
                        (#[trigger] route.models[j]).1.api_key,
                        env,
                    )
            },
{
    if keys_settle(config, env) {
        assert forall|i: int| #![trigger config.routes[i]] 0 <= i < config.routes.len() implies {
            let route = config.routes[i].1;
            &&& config::key_settles(route.api_key, env)
            &&& forall|j: int|
                0 <= j < route.models.len() ==> config::key_settles(
                    (#[trigger] route.models[j]).1.api_key,
                    env,
                )
        } by {
            assert(route_keys_settle(config.routes[i].1, env));
        }
    }
}

} // verus!
