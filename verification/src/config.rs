//! Configuration: routes, models, and how their settings are merged.

use crate::environment;
use crate::environment::expand_env_vars;
use crate::format::{Protocol, UpstreamFormats};
use crate::json;
use crate::lists;
use crate::text;
use crate::text::{concat, find_char, insert_sorted, same_text};
use vstd::prelude::*;

verus! {

/// Special route name for the default route.
/// Requests without a route name in the URL path hit this route.
pub const DEFAULT_ROUTE: &'static str = "default";

/// A configuration. No two routes have one name.
#[derive(Debug)]
pub struct Config {
    /// Log level (error, warn, info, debug, trace). Hot-reloadable.
    pub log_level: String,
    pub defaults: Defaults,
    pub routes: Vec<(String, Route)>,
}

/// Settings for routes that do not say otherwise.
#[derive(Debug)]
pub struct Defaults {
    pub max_retries: u32,
    pub base_delay_ms: u64,
    pub max_delay_ms: u64,
    pub max_total_wait_ms: u64,
    pub connect_timeout_secs: u64,
    pub retry_status_codes: Vec<u16>,
}

/// Model-level override configuration.
///
/// All fields are optional — only specified fields override the route-level config.
#[derive(Debug)]
pub struct ModelConfig {
    pub target: Option<String>,
    /// Upstream-supported protocol formats, ordered by preference.
    /// Empty (unset) means "accept anything, passthrough".
    pub upstream_formats: UpstreamFormats,
    /// API key for the upstream (supports `${ENV_VAR}` expansion).
    pub api_key: Option<String>,
    /// Rewrite the `model` field in the request body before forwarding upstream.
    pub upstream_model: Option<String>,
    pub max_retries: Option<u32>,
    pub base_delay_ms: Option<u64>,
    pub max_delay_ms: Option<u64>,
    pub max_total_wait_ms: Option<u64>,
    pub connect_timeout_secs: Option<u64>,
    pub retry_status_codes: Option<Vec<u16>>,
}

/// A route to an upstream. No two models have one name.
#[derive(Debug)]
pub struct Route {
    /// Upstream base URL. Optional for default route (each model has its own target).
    pub target: Option<String>,
    /// Upstream-supported protocol formats, ordered by preference.
    pub upstream_formats: UpstreamFormats,
    /// API key for the upstream (supports `${ENV_VAR}` expansion).
    pub api_key: Option<String>,
    /// Rewrite the `model` field in the request body before forwarding upstream.
    pub upstream_model: Option<String>,
    /// Model-level overrides: keyed by the model name extracted from the request body.
    pub models: Vec<(String, ModelConfig)>,
    pub max_retries: Option<u32>,
    pub base_delay_ms: Option<u64>,
    pub max_delay_ms: Option<u64>,
    pub max_total_wait_ms: Option<u64>,
    pub connect_timeout_secs: Option<u64>,
    pub retry_status_codes: Option<Vec<u16>>,
}

/// Resolved route config: route-level overrides merged with defaults.
/// Call `resolve_model()` to further apply model-level overrides.
#[derive(Debug)]
pub struct ResolvedRouteConfig {
    pub target: Option<String>,
    pub upstream_formats: UpstreamFormats,
    pub api_key: Option<String>,
    pub upstream_model: Option<String>,
    pub models: Vec<(String, ModelConfig)>,
    pub max_retries: u32,
    pub base_delay_ms: u64,
    pub max_delay_ms: u64,
    pub max_total_wait_ms: u64,
    pub connect_timeout_secs: u64,
    pub retry_status_codes: Vec<u16>,
}

/// What is wrong with a configuration.
#[derive(Debug)]
pub struct ConfigError(pub String);

// ── What these are ─────────────────────────────────────────────────────────

pub struct DefaultsView {
    pub max_retries: u32,
    pub base_delay_ms: u64,
    pub max_delay_ms: u64,
    pub max_total_wait_ms: u64,
    pub connect_timeout_secs: u64,
    pub retry_status_codes: Seq<u16>,
}

pub struct ModelView {
    pub target: Option<Seq<char>>,
    pub upstream_formats: Seq<Protocol>,
    pub api_key: Option<Seq<char>>,
    pub upstream_model: Option<Seq<char>>,
    pub max_retries: Option<u32>,
    pub base_delay_ms: Option<u64>,
    pub max_delay_ms: Option<u64>,
    pub max_total_wait_ms: Option<u64>,
    pub connect_timeout_secs: Option<u64>,
    pub retry_status_codes: Option<Seq<u16>>,
}

pub struct RouteView {
    pub target: Option<Seq<char>>,
    pub upstream_formats: Seq<Protocol>,
    pub api_key: Option<Seq<char>>,
    pub upstream_model: Option<Seq<char>>,
    pub models: Seq<(Seq<char>, ModelView)>,
    pub max_retries: Option<u32>,
    pub base_delay_ms: Option<u64>,
    pub max_delay_ms: Option<u64>,
    pub max_total_wait_ms: Option<u64>,
    pub connect_timeout_secs: Option<u64>,
    pub retry_status_codes: Option<Seq<u16>>,
}

pub struct ResolvedView {
    pub target: Option<Seq<char>>,
    pub upstream_formats: Seq<Protocol>,
    pub api_key: Option<Seq<char>>,
    pub upstream_model: Option<Seq<char>>,
    pub models: Seq<(Seq<char>, ModelView)>,
    pub max_retries: u32,
    pub base_delay_ms: u64,
    pub max_delay_ms: u64,
    pub max_total_wait_ms: u64,
    pub connect_timeout_secs: u64,
    pub retry_status_codes: Seq<u16>,
}

pub struct ConfigView {
    pub log_level: Seq<char>,
    pub defaults: DefaultsView,
    pub routes: Seq<(Seq<char>, RouteView)>,
}

pub open spec fn codes_of(codes: Option<Vec<u16>>) -> Option<Seq<u16>> {
    match codes {
        Some(list) => Some(list@),
        None => None,
    }
}

impl View for Defaults {
    type V = DefaultsView;

    open spec fn view(&self) -> DefaultsView {
        DefaultsView {
            max_retries: self.max_retries,
            base_delay_ms: self.base_delay_ms,
            max_delay_ms: self.max_delay_ms,
            max_total_wait_ms: self.max_total_wait_ms,
            connect_timeout_secs: self.connect_timeout_secs,
            retry_status_codes: self.retry_status_codes@,
        }
    }
}

impl View for ModelConfig {
    type V = ModelView;

    open spec fn view(&self) -> ModelView {
        ModelView {
            target: json::string_of(self.target),
            upstream_formats: self.upstream_formats.0@,
            api_key: json::string_of(self.api_key),
            upstream_model: json::string_of(self.upstream_model),
            max_retries: self.max_retries,
            base_delay_ms: self.base_delay_ms,
            max_delay_ms: self.max_delay_ms,
            max_total_wait_ms: self.max_total_wait_ms,
            connect_timeout_secs: self.connect_timeout_secs,
            retry_status_codes: codes_of(self.retry_status_codes),
        }
    }
}

pub open spec fn model_views(models: Seq<(String, ModelConfig)>) -> Seq<(Seq<char>, ModelView)> {
    models.map_values(|entry: (String, ModelConfig)| (entry.0@, entry.1@))
}

impl View for Route {
    type V = RouteView;

    open spec fn view(&self) -> RouteView {
        RouteView {
            target: json::string_of(self.target),
            upstream_formats: self.upstream_formats.0@,
            api_key: json::string_of(self.api_key),
            upstream_model: json::string_of(self.upstream_model),
            models: model_views(self.models@),
            max_retries: self.max_retries,
            base_delay_ms: self.base_delay_ms,
            max_delay_ms: self.max_delay_ms,
            max_total_wait_ms: self.max_total_wait_ms,
            connect_timeout_secs: self.connect_timeout_secs,
            retry_status_codes: codes_of(self.retry_status_codes),
        }
    }
}

impl View for ResolvedRouteConfig {
    type V = ResolvedView;

    open spec fn view(&self) -> ResolvedView {
        ResolvedView {
            target: json::string_of(self.target),
            upstream_formats: self.upstream_formats.0@,
            api_key: json::string_of(self.api_key),
            upstream_model: json::string_of(self.upstream_model),
            models: model_views(self.models@),
            max_retries: self.max_retries,
            base_delay_ms: self.base_delay_ms,
            max_delay_ms: self.max_delay_ms,
            max_total_wait_ms: self.max_total_wait_ms,
            connect_timeout_secs: self.connect_timeout_secs,
            retry_status_codes: self.retry_status_codes@,
        }
    }
}

pub open spec fn route_views(routes: Seq<(String, Route)>) -> Seq<(Seq<char>, RouteView)> {
    routes.map_values(|entry: (String, Route)| (entry.0@, entry.1@))
}

impl View for Config {
    type V = ConfigView;

    open spec fn view(&self) -> ConfigView {
        ConfigView {
            log_level: self.log_level@,
            defaults: self.defaults@,
            routes: route_views(self.routes@),
        }
    }
}

// ── Copies ─────────────────────────────────────────────────────────────────

fn copy_text(s: &Option<String>) -> (r: Option<String>)
    ensures
        json::string_of(r) == json::string_of(*s),
{
    match s {
        Some(t) => Some(t.clone()),
        None => None,
    }
}

fn copy_codes(codes: &Vec<u16>) -> (r: Vec<u16>)
    ensures
        r@ == codes@,
{
    let r = codes.clone();
    assert(r@ =~= codes@);
    r
}

impl Clone for ModelConfig {
    fn clone(&self) -> (r: ModelConfig)
        ensures
            r@ == self@,
    {
        ModelConfig {
            target: copy_text(&self.target),
            upstream_formats: self.upstream_formats.clone(),
            api_key: copy_text(&self.api_key),
            upstream_model: copy_text(&self.upstream_model),
            max_retries: self.max_retries,
            base_delay_ms: self.base_delay_ms,
            max_delay_ms: self.max_delay_ms,
            max_total_wait_ms: self.max_total_wait_ms,
            connect_timeout_secs: self.connect_timeout_secs,
            retry_status_codes: copy_optional_codes(&self.retry_status_codes),
        }
    }
}

fn copy_models(models: &Vec<(String, ModelConfig)>) -> (r: Vec<(String, ModelConfig)>)
    ensures
        model_views(r@) == model_views(models@),
{
    let mut r: Vec<(String, ModelConfig)> = Vec::new();
    for i in 0..models.len()
        invariant
            r@.len() == i,
            forall|j: int|
                0 <= j < i ==> (#[trigger] r@[j]).0@ == models@[j].0@ && r@[j].1@ == models@[j].1@,
    {
        r.push((models[i].0.clone(), models[i].1.clone()));
    }
    assert(model_views(r@) =~= model_views(models@));
    r
}

fn copy_optional_codes(codes: &Option<Vec<u16>>) -> (r: Option<Vec<u16>>)
    ensures
        codes_of(r) == codes_of(*codes),
{
    match codes {
        Some(list) => Some(copy_codes(list)),
        None => None,
    }
}

impl Clone for Defaults {
    fn clone(&self) -> (r: Defaults)
        ensures
            r@ == self@,
    {
        Defaults {
            max_retries: self.max_retries,
            base_delay_ms: self.base_delay_ms,
            max_delay_ms: self.max_delay_ms,
            max_total_wait_ms: self.max_total_wait_ms,
            connect_timeout_secs: self.connect_timeout_secs,
            retry_status_codes: copy_codes(&self.retry_status_codes),
        }
    }
}

impl Clone for Route {
    fn clone(&self) -> (r: Route)
        ensures
            r@ == self@,
    {
        Route {
            target: copy_text(&self.target),
            upstream_formats: self.upstream_formats.clone(),
            api_key: copy_text(&self.api_key),
            upstream_model: copy_text(&self.upstream_model),
            models: copy_models(&self.models),
            max_retries: self.max_retries,
            base_delay_ms: self.base_delay_ms,
            max_delay_ms: self.max_delay_ms,
            max_total_wait_ms: self.max_total_wait_ms,
            connect_timeout_secs: self.connect_timeout_secs,
            retry_status_codes: copy_optional_codes(&self.retry_status_codes),
        }
    }
}

impl Clone for Config {
    fn clone(&self) -> (r: Config)
        ensures
            r@ == self@,
    {
        let mut routes: Vec<(String, Route)> = Vec::new();
        for i in 0..self.routes.len()
            invariant
                routes@.len() == i,
                forall|j: int|
                    0 <= j < i ==> (#[trigger] routes@[j]).0@ == self.routes@[j].0@ && routes@[j].1@
                        == self.routes@[j].1@,
        {
            routes.push((self.routes[i].0.clone(), self.routes[i].1.clone()));
        }
        assert(route_views(routes@) =~= route_views(self.routes@));
        Config { log_level: self.log_level.clone(), defaults: self.defaults.clone(), routes }
    }
}

impl Clone for ResolvedRouteConfig {
    fn clone(&self) -> (r: ResolvedRouteConfig)
        ensures
            r@ == self@,
    {
        ResolvedRouteConfig {
            target: copy_text(&self.target),
            upstream_formats: self.upstream_formats.clone(),
            api_key: copy_text(&self.api_key),
            upstream_model: copy_text(&self.upstream_model),
            models: copy_models(&self.models),
            max_retries: self.max_retries,
            base_delay_ms: self.base_delay_ms,
            max_delay_ms: self.max_delay_ms,
            max_total_wait_ms: self.max_total_wait_ms,
            connect_timeout_secs: self.connect_timeout_secs,
            retry_status_codes: copy_codes(&self.retry_status_codes),
        }
    }
}

// ── Defaults ───────────────────────────────────────────────────────────────

pub fn default_log_level() -> (r: String)
    ensures
        r@ == "info"@,
{
    "info".to_string()
}

pub fn default_max_retries() -> (r: u32)
    ensures
        r == 9999,
{
    9999
}

pub fn default_base_delay_ms() -> (r: u64)
    ensures
        r == 1000,
{
    1000
}

pub fn default_max_delay_ms() -> (r: u64)
    ensures
        r == 60000,
{
    60000
}

pub fn default_connect_timeout_secs() -> (r: u64)
    ensures
        r == 30,
{
    30
}

pub fn default_retry_status_codes() -> (r: Vec<u16>)
    ensures
        r@ == seq![429u16, 500u16, 502u16, 503u16, 504u16, 408u16, 529u16],
{
    let r: Vec<u16> = vec![429, 500, 502, 503, 504, 408, 529];
    assert(r@ =~= seq![429u16, 500u16, 502u16, 503u16, 504u16, 408u16, 529u16]);
    r
}

impl Default for Defaults {
    fn default() -> (r: Defaults)
        ensures
            r@ == (DefaultsView {
                max_retries: 9999,
                base_delay_ms: 1000,
                max_delay_ms: 60000,
                max_total_wait_ms: 0,
                connect_timeout_secs: 30,
                retry_status_codes: seq![429u16, 500u16, 502u16, 503u16, 504u16, 408u16, 529u16],
            }),
    {
        Defaults {
            max_retries: default_max_retries(),
            base_delay_ms: default_base_delay_ms(),
            max_delay_ms: default_max_delay_ms(),
            max_total_wait_ms: 0,
            connect_timeout_secs: default_connect_timeout_secs(),
            retry_status_codes: default_retry_status_codes(),
        }
    }
}

// ── Validation ─────────────────────────────────────────────────────────────

/// What `http::Uri` says against a text that is no URI.
pub uninterp spec fn uri_error(s: Seq<char>) -> Option<Seq<char>>;

/// Parses a text as an `http::Uri` with `str::parse`, and gives the message of
/// the error, where there is one.
#[verifier::external_body]
fn parse_uri(s: &str) -> (r: Option<String>)
    ensures
        json::string_of(r) == uri_error(s@),
{
    s.parse::<http::Uri>().err().map(|e| e.to_string())
}

/// What is wrong with a target, where there is one.
pub open spec fn target_fault(place: Seq<char>, target: Option<Seq<char>>) -> Option<Seq<char>> {
    match target {
        Some(url) => if url.len() == 0 {
            Some(place + " has empty target"@)
        } else {
            match uri_error(url) {
                Some(message) => Some(
                    place + " target '"@ + url + "' is not a valid URL: "@ + message,
                ),
                None => None,
            }
        },
        None => None,
    }
}

fn check_target(place: &str, target: &Option<String>) -> (r: Option<String>)
    ensures
        json::string_of(r) == target_fault(place@, json::string_of(*target)),
{
    match target {
        Some(url) => {
            if url.as_str().unicode_len() == 0 {
                return Some(concat(place, " has empty target"));
            }
            match parse_uri(url.as_str()) {
                Some(message) => {
                    let mut fault = concat(place, " target '");
                    fault.append(url.as_str());
                    fault.append("' is not a valid URL: ");
                    fault.append(message.as_str());
                    Some(fault)
                },
                None => None,
            }
        },
        None => None,
    }
}

/// How messages speak of a route.
pub open spec fn route_place(name: Seq<char>) -> Seq<char> {
    "route '"@ + name + "'"@
}

fn make_route_place(name: &str) -> (r: String)
    ensures
        r@ == route_place(name@),
{
    let mut r = concat("route '", name);
    r.append("'");
    r
}

/// What is wrong with the settings of a model.
pub open spec fn model_fault(route: Seq<char>, entry: (Seq<char>, ModelView)) -> Option<Seq<char>> {
    if entry.0.len() == 0 {
        Some(route_place(route) + " has a model entry with empty name"@)
    } else {
        target_fault(route_place(route) + " model '"@ + entry.0 + "'"@, entry.1.target)
    }
}

fn check_model(route: &str, name: &str, model: &ModelConfig) -> (r: Option<String>)
    ensures
        json::string_of(r) == model_fault(route@, (name@, model@)),
{
    let mut place = make_route_place(route);
    if name.unicode_len() == 0 {
        place.append(" has a model entry with empty name");
        return Some(place);
    }
    place.append(" model '");
    place.append(name);
    place.append("'");
    check_target(place.as_str(), &model.target)
}

fn check_models(route: &str, models: &Vec<(String, ModelConfig)>) -> (r: Option<String>)
    ensures
        json::string_of(r) == lists::first_some(
            model_views(models@),
            |model: (Seq<char>, ModelView)| model_fault(route@, model),
        ),
{
    let ghost views = model_views(models@);
    let ghost pick = |model: (Seq<char>, ModelView)| model_fault(route@, model);
    for i in 0..models.len()
        invariant
            views == model_views(models@),
            pick == (|model: (Seq<char>, ModelView)| model_fault(route@, model)),
            forall|j: int| 0 <= j < i ==> pick(#[trigger] views[j]) is None,
    {
        let fault = check_model(route, models[i].0.as_str(), &models[i].1);
        if fault.is_some() {
            proof {
                assert(pick(views[i as int]) is Some);
                lists::lemma_first_some(views, pick, i as int);
            }
            return fault;
        }
        assert(pick(views[i as int]) is None);
    }
    proof {
        lists::lemma_first_some(views, pick, views.len() as int);
    }
    None
}

/// What is wrong with a route. Named routes (non-default) must have a target.
/// The default route may omit it, as each model has its own.
pub open spec fn route_fault(entry: (Seq<char>, RouteView)) -> Option<Seq<char>> {
    let name = entry.0;
    if name.contains('/') {
        Some("route name '"@ + name + "' must not contain '/'"@)
    } else if name != DEFAULT_ROUTE@ && entry.1.target is None {
        Some(route_place(name) + " (non-default) must have a target"@)
    } else {
        match target_fault(route_place(name), entry.1.target) {
            Some(fault) => Some(fault),
            None => lists::first_some(
                entry.1.models,
                |model: (Seq<char>, ModelView)| model_fault(name, model),
            ),
        }
    }
}

fn check_route(name: &str, route: &Route) -> (r: Option<String>)
    ensures
        json::string_of(r) == route_fault((name@, route@)),
{
    let slash: usize = find_char(name, '/');
    proof {
        if slash < name@.len() {
            assert(name@[slash as int] == '/');
        }
    }
    if slash < name.unicode_len() {
        let mut fault = concat("route name '", name);
        fault.append("' must not contain '/'");
        return Some(fault);
    }
    let mut place = make_route_place(name);
    if !same_text(name, DEFAULT_ROUTE) && route.target.is_none() {
        place.append(" (non-default) must have a target");
        return Some(place);
    }
    let fault = check_target(place.as_str(), &route.target);
    if fault.is_some() {
        return fault;
    }
    check_models(name, &route.models)
}

impl ConfigView {
    /// No two routes have one name, and no two models of a route have one name.
    pub open spec fn wf(self) -> bool {
        &&& lists::distinct_keys(self.routes)
        &&& forall|i: int|
            0 <= i < self.routes.len() ==> lists::distinct_keys((#[trigger] self.routes[i]).1.models)
    }

    /// What is wrong with a configuration: the first fault of its routes, or
    /// else of its defaults.
    pub open spec fn fault(self) -> Option<Seq<char>> {
        if self.routes.len() == 0 {
            Some("no routes defined"@)
        } else {
            match lists::first_some(
                self.routes,
                |entry: (Seq<char>, RouteView)| route_fault(entry),
            ) {
                Some(fault) => Some(fault),
                None => if self.defaults.max_retries == 0 {
                    Some("defaults.max_retries must be > 0"@)
                } else if self.defaults.base_delay_ms == 0 {
                    Some("defaults.base_delay_ms must be > 0"@)
                } else if self.defaults.max_delay_ms == 0 {
                    Some("defaults.max_delay_ms must be > 0"@)
                } else {
                    None
                },
            }
        }
    }

    /// Whether some route has a model of a name.
    pub open spec fn has_model(self, name: Seq<char>) -> bool {
        exists|i: int| 0 <= i < self.routes.len() && names_model(#[trigger] self.routes[i].1, name)
    }

    /// A route, merged with the defaults.
    pub open spec fn resolved(
        self,
        name: Seq<char>,
        env: Seq<(Seq<char>, Seq<char>)>,
    ) -> Option<ResolvedView> {
        match lists::entry(self.routes, name) {
            Some(route) => Some(
                ResolvedView {
                    target: route.target,
                    upstream_formats: route.upstream_formats,
                    api_key: expanded_key(route.api_key, env),
                    upstream_model: route.upstream_model,
                    models: route.models,
                    max_retries: set_or(route.max_retries, self.defaults.max_retries),
                    base_delay_ms: set_or(route.base_delay_ms, self.defaults.base_delay_ms),
                    max_delay_ms: set_or(route.max_delay_ms, self.defaults.max_delay_ms),
                    max_total_wait_ms: set_or(
                        route.max_total_wait_ms,
                        self.defaults.max_total_wait_ms,
                    ),
                    connect_timeout_secs: set_or(
                        route.connect_timeout_secs,
                        self.defaults.connect_timeout_secs,
                    ),
                    retry_status_codes: set_or(
                        route.retry_status_codes,
                        self.defaults.retry_status_codes,
                    ),
                },
            ),
            None => None,
        }
    }

    /// Whether the key of a route can be expanded.
    pub open spec fn key_settles(
        self,
        name: Seq<char>,
        env: Seq<(Seq<char>, Seq<char>)>,
    ) -> bool {
        match lists::entry(self.routes, name) {
            Some(route) => key_settles(route.api_key, env),
            None => true,
        }
    }
}

pub open spec fn set_or<T>(setting: Option<T>, default: T) -> T {
    match setting {
        Some(value) => value,
        None => default,
    }
}

/// Whether a key, where there is one, can be expanded.
pub open spec fn key_settles(key: Option<Seq<char>>, env: Seq<(Seq<char>, Seq<char>)>) -> bool {
    match key {
        Some(k) => environment::settles(k, env),
        None => true,
    }
}

/// A key with its references to environment variables expanded.
pub open spec fn expanded_key(
    key: Option<Seq<char>>,
    env: Seq<(Seq<char>, Seq<char>)>,
) -> Option<Seq<char>> {
    match key {
        Some(k) => Some(environment::expansion(k, env)),
        None => None,
    }
}

fn expand_key(key: &Option<String>, env: &Vec<(String, String)>) -> (r: Option<String>)
    requires
        key_settles(json::string_of(*key), environment::variables(env@)),
    ensures
        json::string_of(r) == expanded_key(
            json::string_of(*key),
            environment::variables(env@),
        ),
{
    match key {
        Some(k) => Some(expand_env_vars(k.as_str(), env)),
        None => None,
    }
}

pub open spec fn names_model(route: RouteView, name: Seq<char>) -> bool {
    exists|j: int| 0 <= j < route.models.len() && (#[trigger] route.models[j]).0 == name
}

impl Config {
    /// Checks a configuration.
    pub fn validate(&self) -> (r: Result<(), ConfigError>)
        ensures
            match r {
                Ok(_) => self@.fault() is None,
                Err(error) => self@.fault() == Some(error.0@),
            },
    {
        if self.routes.len() == 0 {
            return Err(ConfigError("no routes defined".to_string()));
        }
        let ghost routes = self@.routes;
        let ghost pick = |entry: (Seq<char>, RouteView)| route_fault(entry);
        for i in 0..self.routes.len()
            invariant
                routes == route_views(self.routes@),
                routes == self@.routes,
                routes.len() > 0,
                pick == (|entry: (Seq<char>, RouteView)| route_fault(entry)),
                forall|j: int| 0 <= j < i ==> pick(#[trigger] routes[j]) is None,
        {
            match check_route(self.routes[i].0.as_str(), &self.routes[i].1) {
                Some(fault) => {
                    proof {
                        assert(pick(routes[i as int]) is Some);
                        lists::lemma_first_some(routes, pick, i as int);
                    }
                    return Err(ConfigError(fault));
                },
                None => {
                    assert(pick(routes[i as int]) is None);
                },
            }
        }
        proof {
            lists::lemma_first_some(routes, pick, routes.len() as int);
        }
        if self.defaults.max_retries == 0 {
            return Err(ConfigError("defaults.max_retries must be > 0".to_string()));
        }
        if self.defaults.base_delay_ms == 0 {
            return Err(ConfigError("defaults.base_delay_ms must be > 0".to_string()));
        }
        if self.defaults.max_delay_ms == 0 {
            return Err(ConfigError("defaults.max_delay_ms must be > 0".to_string()));
        }
        Ok(())
    }

    /// The route with a name.
    fn route(&self, name: &str) -> (r: Option<&Route>)
        ensures
            match r {
                Some(route) => lists::entry(self@.routes, name@) == Some(route@),
                None => lists::entry(self@.routes, name@) is None,
            },
    {
        let ghost routes = self@.routes;
        let ghost wanted = lists::keyed::<RouteView>(name@);
        for i in 0..self.routes.len()
            invariant
                routes == route_views(self.routes@),
                wanted == lists::keyed::<RouteView>(name@),
                forall|j: int| 0 <= j < i ==> !wanted(#[trigger] routes[j]),
        {
            if same_text(self.routes[i].0.as_str(), name) {
                proof {
                    lists::lemma_first_where(routes, wanted, i as int);
                }
                return Some(&self.routes[i].1);
            }
        }
        proof {
            lists::lemma_first_where(routes, wanted, routes.len() as int);
        }
        None
    }

    /// Whether there is a route with a name.
    pub fn has_route(&self, name: &str) -> (r: bool)
        ensures
            r == (lists::entry(self@.routes, name@) is Some),
    {
        self.route(name).is_some()
    }

    /// Resolves a named route by name, merging route-level config with defaults.
    /// The key of the route is expanded with the given environment variables.
    pub fn resolve_route(&self, name: &str, env: &Vec<(String, String)>) -> (r: Option<
        ResolvedRouteConfig,
    >)
        requires
            self@.key_settles(name@, environment::variables(env@)),
        ensures
            resolved_view(r) == self@.resolved(name@, environment::variables(env@)),
    {
        match self.route(name) {
            Some(route) => {
                let d = &self.defaults;
                Some(
                    ResolvedRouteConfig {
                        target: copy_text(&route.target),
                        upstream_formats: route.upstream_formats.clone(),
                        api_key: expand_key(&route.api_key, env),
                        upstream_model: copy_text(&route.upstream_model),
                        models: copy_models(&route.models),
                        max_retries: route.max_retries.unwrap_or(d.max_retries),
                        base_delay_ms: route.base_delay_ms.unwrap_or(d.base_delay_ms),
                        max_delay_ms: route.max_delay_ms.unwrap_or(d.max_delay_ms),
                        max_total_wait_ms: route.max_total_wait_ms.unwrap_or(d.max_total_wait_ms),
                        connect_timeout_secs: route.connect_timeout_secs.unwrap_or(
                            d.connect_timeout_secs,
                        ),
                        retry_status_codes: match &route.retry_status_codes {
                            Some(codes) => copy_codes(codes),
                            None => copy_codes(&d.retry_status_codes),
                        },
                    },
                )
            },
            None => None,
        }
    }

    /// Gets the default route config, if configured.
    pub fn resolve_default_route(&self, env: &Vec<(String, String)>) -> (r: Option<
        ResolvedRouteConfig,
    >)
        requires
            self@.key_settles(DEFAULT_ROUTE@, environment::variables(env@)),
        ensures
            resolved_view(r) == self@.resolved(DEFAULT_ROUTE@, environment::variables(env@)),
    {
        self.resolve_route(DEFAULT_ROUTE, env)
    }

    /// The names of the routes.
    pub fn route_names(&self) -> (r: Vec<&str>)
        ensures
            r@.map_values(|s: &str| s@) == self@.routes.map_values(
                |entry: (Seq<char>, RouteView)| entry.0,
            ),
    {
        let mut r: Vec<&str> = Vec::new();
        for i in 0..self.routes.len()
            invariant
                r@.len() == i,
                forall|j: int| 0 <= j < i ==> (#[trigger] r@[j])@ == self.routes@[j].0@,
        {
            r.push(self.routes[i].0.as_str());
        }
        assert(r@.map_values(|s: &str| s@) =~= self@.routes.map_values(
            |entry: (Seq<char>, RouteView)| entry.0,
        ));
        r
    }

    /// Collects all model names from all routes (for GET /v1/models), in order
    /// and each once.
    pub fn all_model_names(&self) -> (r: Vec<String>)
        ensures
            text::is_sorted(text::texts(r@)),
            forall|name: Seq<char>| #[trigger]
                text::texts(r@).contains(name) <==> self@.has_model(name),
    {
        let mut names: Vec<String> = Vec::new();
        let ghost routes = self@.routes;
        for i in 0..self.routes.len()
            invariant
                routes == route_views(self.routes@),
                text::is_sorted(text::texts(names@)),
                forall|name: Seq<char>| #[trigger]
                    text::texts(names@).contains(name) <==> exists|a: int|
                        0 <= a < i && names_model(#[trigger] routes[a].1, name),
        {
            let ghost before = text::texts(names@);
            let ghost models = routes[i as int].1.models;
            let models_here = &self.routes[i].1.models;
            assert(models == model_views(models_here@));
            for j in 0..models_here.len()
                invariant
                    models == model_views(models_here@),
                    text::is_sorted(text::texts(names@)),
                    forall|name: Seq<char>| #[trigger]
                        text::texts(names@).contains(name) <==> before.contains(name)
                            || exists|b: int| 0 <= b < j && (#[trigger] models[b]).0 == name,
            {
                let ghost done = text::texts(names@);
                insert_sorted(&mut names, models_here[j].0.as_str());
                proof {
                    assert(models[j as int].0 == models_here@[j as int].0@);
                    assert forall|name: Seq<char>| #[trigger]
                        text::texts(names@).contains(name) <==> before.contains(name) || exists|
                        b: int,
                    |
                        0 <= b < j + 1 && (#[trigger] models[b]).0 == name by {
                        if done.contains(name) && !before.contains(name) {
                            let b = choose|b: int| 0 <= b < j && (#[trigger] models[b]).0 == name;
                            assert(0 <= b < j + 1 && models[b].0 == name);
                        }
                    }
                }
            }
            proof {
                assert forall|name: Seq<char>| #[trigger]
                    text::texts(names@).contains(name) <==> exists|a: int|
                        0 <= a < i + 1 && names_model(#[trigger] routes[a].1, name) by {
                    if text::texts(names@).contains(name) {
                        if before.contains(name) {
                            let a = choose|a: int|
                                0 <= a < i && names_model(#[trigger] routes[a].1, name);
                            assert(0 <= a < i + 1 && names_model(routes[a].1, name));
                        } else {
                            assert(names_model(routes[i as int].1, name));
                        }
                    }
                    if exists|a: int| 0 <= a < i + 1 && names_model(#[trigger] routes[a].1, name) {
                        let a = choose|a: int|
                            0 <= a < i + 1 && names_model(#[trigger] routes[a].1, name);
                        if a < i {
                            assert(before.contains(name));
                        } else {
                            let b = choose|b: int|
                                0 <= b < models.len() && (#[trigger] models[b]).0 == name;
                            assert(0 <= b < models_here@.len());
                        }
                    }
                }
            }
        }
        names
    }
}

pub open spec fn resolved_view(r: Option<ResolvedRouteConfig>) -> Option<ResolvedView> {
    match r {
        Some(route) => Some(route@),
        None => None,
    }
}

impl ResolvedView {
    /// A route with the settings of a model put over its own. An unknown model
    /// changes nothing.
    pub open spec fn for_model(
        self,
        model: Seq<char>,
        env: Seq<(Seq<char>, Seq<char>)>,
    ) -> ResolvedView {
        match lists::entry(self.models, model) {
            Some(m) => ResolvedView {
                target: if m.target is Some {
                    m.target
                } else {
                    self.target
                },
                upstream_formats: if m.upstream_formats.len() > 0 {
                    m.upstream_formats
                } else {
                    self.upstream_formats
                },
                api_key: if m.api_key is Some {
                    expanded_key(m.api_key, env)
                } else {
                    self.api_key
                },
                upstream_model: if m.upstream_model is Some {
                    m.upstream_model
                } else {
                    self.upstream_model
                },
                models: self.models,
                max_retries: set_or(m.max_retries, self.max_retries),
                base_delay_ms: set_or(m.base_delay_ms, self.base_delay_ms),
                max_delay_ms: set_or(m.max_delay_ms, self.max_delay_ms),
                max_total_wait_ms: set_or(m.max_total_wait_ms, self.max_total_wait_ms),
                connect_timeout_secs: set_or(m.connect_timeout_secs, self.connect_timeout_secs),
                retry_status_codes: set_or(m.retry_status_codes, self.retry_status_codes),
            },
            None => self,
        }
    }

    /// Whether the key of a model can be expanded.
    pub open spec fn model_key_settles(
        self,
        model: Seq<char>,
        env: Seq<(Seq<char>, Seq<char>)>,
    ) -> bool {
        match lists::entry(self.models, model) {
            Some(m) => key_settles(m.api_key, env),
            None => true,
        }
    }
}

impl ResolvedRouteConfig {
    /// The settings of a model.
    fn model(&self, name: &str) -> (r: Option<&ModelConfig>)
        ensures
            match r {
                Some(model) => lists::entry(self@.models, name@) == Some(model@),
                None => lists::entry(self@.models, name@) is None,
            },
    {
        let ghost models = self@.models;
        let ghost wanted = lists::keyed::<ModelView>(name@);
        for i in 0..self.models.len()
            invariant
                models == model_views(self.models@),
                wanted == lists::keyed::<ModelView>(name@),
                forall|j: int| 0 <= j < i ==> !wanted(#[trigger] models[j]),
        {
            if same_text(self.models[i].0.as_str(), name) {
                proof {
                    lists::lemma_first_where(models, wanted, i as int);
                }
                return Some(&self.models[i].1);
            }
        }
        proof {
            lists::lemma_first_where(models, wanted, models.len() as int);
        }
        None
    }

    /// Applies model-level overrides on top of the resolved route config.
    ///
    /// If the model is not found in the models map, returns a clone of self unchanged.
    pub fn resolve_model(&self, model: &str, env: &Vec<(String, String)>) -> (r:
        ResolvedRouteConfig)
        requires
            self@.model_key_settles(model@, environment::variables(env@)),
        ensures
            r@ == self@.for_model(model@, environment::variables(env@)),
    {
        match self.model(model) {
            Some(m) => {
                let mut r = self.clone();
                if m.target.is_some() {
                    r.target = copy_text(&m.target);
                }
                if !m.upstream_formats.is_empty() {
                    r.upstream_formats = m.upstream_formats.clone();
                }
                if m.api_key.is_some() {
                    r.api_key = expand_key(&m.api_key, env);
                }
                if m.upstream_model.is_some() {
                    r.upstream_model = copy_text(&m.upstream_model);
                }
                r.max_retries = m.max_retries.unwrap_or(r.max_retries);
                r.base_delay_ms = m.base_delay_ms.unwrap_or(r.base_delay_ms);
                r.max_delay_ms = m.max_delay_ms.unwrap_or(r.max_delay_ms);
                r.max_total_wait_ms = m.max_total_wait_ms.unwrap_or(r.max_total_wait_ms);
                r.connect_timeout_secs = m.connect_timeout_secs.unwrap_or(r.connect_timeout_secs);
                match &m.retry_status_codes {
                    Some(codes) => r.retry_status_codes = copy_codes(codes),
                    None => {},
                }
                r
            },
            None => self.clone(),
        }
    }

    /// Lists model names configured for this route.
    pub fn model_names(&self) -> (r: Vec<&str>)
        ensures
            r@.map_values(|s: &str| s@) == self@.models.map_values(
                |entry: (Seq<char>, ModelView)| entry.0,
            ),
    {
        let mut r: Vec<&str> = Vec::new();
        for i in 0..self.models.len()
            invariant
                r@.len() == i,
                forall|j: int| 0 <= j < i ==> (#[trigger] r@[j])@ == self.models@[j].0@,
        {
            r.push(self.models[i].0.as_str());
        }
        assert(r@.map_values(|s: &str| s@) =~= self@.models.map_values(
            |entry: (Seq<char>, ModelView)| entry.0,
        ));
        r
    }
}

// ── What holds of every configuration ──────────────────────────────────────

/// A target that is given is a URI.
pub open spec fn target_ok(target: Option<Seq<char>>) -> bool {
    target matches Some(url) ==> url.len() > 0 && uri_error(url) is None
}

pub open spec fn route_ok(entry: (Seq<char>, RouteView)) -> bool {
    &&& !entry.0.contains('/')
    &&& entry.0 == DEFAULT_ROUTE@ || entry.1.target is Some
    &&& target_ok(entry.1.target)
    &&& forall|j: int|
        0 <= j < entry.1.models.len() ==> (#[trigger] entry.1.models[j]).0.len() > 0 && target_ok(
            entry.1.models[j].1.target,
        )
}

/// A configuration is accepted exactly where it has routes, every route can be
/// named in a path and has the targets that it needs, and no default is zero
/// that must not be.
pub proof fn lemma_accepted(config: ConfigView)
    ensures
        config.fault() is None <==> {
            &&& config.routes.len() > 0
            &&& forall|i: int| 0 <= i < config.routes.len() ==> route_ok(#[trigger] config.routes[i])
            &&& config.defaults.max_retries > 0
            &&& config.defaults.base_delay_ms > 0
            &&& config.defaults.max_delay_ms > 0
        },
{
    let pick = |entry: (Seq<char>, RouteView)| route_fault(entry);
    lists::lemma_first_some_none(config.routes, pick);
    assert forall|i: int| 0 <= i < config.routes.len() implies (pick(
        #[trigger] config.routes[i],
    ) is None <==> route_ok(config.routes[i])) by {
        lemma_route_accepted(config.routes[i]);
    }
    if forall|i: int| 0 <= i < config.routes.len() ==> route_ok(#[trigger] config.routes[i]) {
        assert forall|i: int| 0 <= i < config.routes.len() implies pick(
            #[trigger] config.routes[i],
        ) is None by {
            assert(route_ok(config.routes[i]));
        }
    }
}

proof fn lemma_route_accepted(entry: (Seq<char>, RouteView))
    ensures
        route_fault(entry) is None <==> route_ok(entry),
{
    let models = entry.1.models;
    let pick = |model: (Seq<char>, ModelView)| model_fault(entry.0, model);
    lists::lemma_first_some_none(models, pick);
    assert forall|j: int| 0 <= j < models.len() implies (pick(#[trigger] models[j]) is None <==> (
    models[j].0.len() > 0 && target_ok(models[j].1.target))) by {}
    if route_ok(entry) {
        assert forall|j: int| 0 <= j < models.len() implies pick(#[trigger] models[j]) is None by {
            assert(models[j].0.len() > 0 && target_ok(models[j].1.target));
        }
    }
}

/// Where no two routes have one name, each is resolved by its own name.
pub proof fn lemma_route_found(config: ConfigView, i: int)
    requires
        config.wf(),
        0 <= i < config.routes.len(),
    ensures
        lists::entry(config.routes, config.routes[i].0) == Some(config.routes[i].1),
{
    lists::lemma_first_where(
        config.routes,
        lists::keyed::<RouteView>(config.routes[i].0),
        i,
    );
}

/// An accepted configuration resolves every named route to one with a target.
pub proof fn lemma_accepted_named_route_has_target(
    config: ConfigView,
    name: Seq<char>,
    env: Seq<(Seq<char>, Seq<char>)>,
)
    requires
        config.fault() is None,
        name != DEFAULT_ROUTE@,
    ensures
        config.resolved(name, env) matches Some(route) ==> route.target is Some,
{
    lemma_accepted(config);
    lists::lemma_entry(config.routes, name);
    match lists::entry(config.routes, name) {
        Some(route) => {
            let at = choose|i: int|
                0 <= i < config.routes.len() && config.routes[i] == (name, route);
            assert(route_ok(config.routes[at]));
        },
        None => {},
    }
}

/// A model that is not configured leaves a route as it is.
pub proof fn lemma_unknown_model_changes_nothing(
    route: ResolvedView,
    model: Seq<char>,
    env: Seq<(Seq<char>, Seq<char>)>,
)
    requires
        forall|j: int| 0 <= j < route.models.len() ==> (#[trigger] route.models[j]).0 != model,
    ensures
        route.for_model(model, env) == route,
{
    lists::lemma_entry(route.models, model);
}

/// To apply the settings of a model twice is to apply them once.
pub proof fn lemma_model_settings_stable(
    route: ResolvedView,
    model: Seq<char>,
    env: Seq<(Seq<char>, Seq<char>)>,
)
    ensures
        route.for_model(model, env).for_model(model, env) == route.for_model(model, env),
{
}

/// Whether a setting in force is the one that was made, or the one behind it where
/// none was made.
pub open spec fn in_force<T>(value: T, made: Option<T>, behind: T) -> bool {
    (made matches Some(setting) ==> value == setting) && (made is None ==> value == behind)
}

/// Every setting of a configured route is in force: its own where it has one, the
/// default where there is one, and none otherwise. Its key is the configured one
/// with the environment's values in it.
pub proof fn lemma_route_settings(
    config: ConfigView,
    i: int,
    env: Seq<(Seq<char>, Seq<char>)>,
)
    requires
        config.wf(),
        0 <= i < config.routes.len(),
    ensures
        config.resolved(config.routes[i].0, env) matches Some(resolved) && {
            let route = config.routes[i].1;
            let defaults = config.defaults;
            &&& resolved.target == route.target
            &&& resolved.upstream_formats == route.upstream_formats
            &&& resolved.upstream_model == route.upstream_model
            &&& resolved.models == route.models
            &&& resolved.api_key is Some <==> route.api_key is Some
            &&& route.api_key is Some ==> resolved.api_key == Some(
                environment::expansion(route.api_key->0, env),
            )
            &&& in_force(resolved.max_retries, route.max_retries, defaults.max_retries)
            &&& in_force(resolved.base_delay_ms, route.base_delay_ms, defaults.base_delay_ms)
            &&& in_force(resolved.max_delay_ms, route.max_delay_ms, defaults.max_delay_ms)
            &&& in_force(
                resolved.max_total_wait_ms,
                route.max_total_wait_ms,
                defaults.max_total_wait_ms,
            )
            &&& in_force(
                resolved.connect_timeout_secs,
                route.connect_timeout_secs,
                defaults.connect_timeout_secs,
            )
            &&& in_force(
                resolved.retry_status_codes,
                route.retry_status_codes,
                defaults.retry_status_codes,
            )
        },
{
    lemma_route_found(config, i);
}

/// Only configured routes have settings.
pub proof fn lemma_unknown_route(
    config: ConfigView,
    name: Seq<char>,
    env: Seq<(Seq<char>, Seq<char>)>,
)
    requires
        forall|i: int| 0 <= i < config.routes.len() ==> (#[trigger] config.routes[i]).0 != name,
    ensures
        config.resolved(name, env) is None,
{
    lists::lemma_entry(config.routes, name);
}

/// Every setting of a configured model is in force: its own where it has one, the
/// route's otherwise.
pub proof fn lemma_model_settings(
    route: ResolvedView,
    j: int,
    env: Seq<(Seq<char>, Seq<char>)>,
)
    requires
        lists::distinct_keys(route.models),
        0 <= j < route.models.len(),
    ensures
        ({
            let model = route.models[j].1;
            let resolved = route.for_model(route.models[j].0, env);
            &&& in_force(
                resolved.target,
                if model.target is Some {
                    Some(model.target)
                } else {
                    None
                },
                route.target,
            )
            &&& in_force(
                resolved.upstream_model,
                if model.upstream_model is Some {
                    Some(model.upstream_model)
                } else {
                    None
                },
                route.upstream_model,
            )
            &&& model.api_key is Some ==> resolved.api_key == Some(
                environment::expansion(model.api_key->0, env),
            )
            &&& model.api_key is None ==> resolved.api_key == route.api_key
            &&& resolved.upstream_formats == if model.upstream_formats.len() == 0 {
                route.upstream_formats
            } else {
                model.upstream_formats
            }
            &&& resolved.models == route.models
            &&& in_force(resolved.max_retries, model.max_retries, route.max_retries)
            &&& in_force(resolved.base_delay_ms, model.base_delay_ms, route.base_delay_ms)
            &&& in_force(resolved.max_delay_ms, model.max_delay_ms, route.max_delay_ms)
            &&& in_force(
                resolved.max_total_wait_ms,
                model.max_total_wait_ms,
                route.max_total_wait_ms,
            )
            &&& in_force(
                resolved.connect_timeout_secs,
                model.connect_timeout_secs,
                route.connect_timeout_secs,
            )
            &&& in_force(
                resolved.retry_status_codes,
                model.retry_status_codes,
                route.retry_status_codes,
            )
        }),
{
    lemma_model_found(route, j);
}

/// A configured model is found by its name.
proof fn lemma_model_found(route: ResolvedView, j: int)
    requires
        lists::distinct_keys(route.models),
        0 <= j < route.models.len(),
    ensures
        lists::entry(route.models, route.models[j].0) == Some(route.models[j].1),
{
    lists::lemma_first_where(
        route.models,
        lists::keyed::<ModelView>(route.models[j].0),
        j,
    );
}

/// A configuration is refused for the first of its routes that is not in order, and
/// only then for its defaults.
pub proof fn lemma_first_fault(config: ConfigView, i: int)
    requires
        0 <= i < config.routes.len(),
        !route_ok(config.routes[i]),
        forall|j: int| 0 <= j < i ==> route_ok(#[trigger] config.routes[j]),
    ensures
        config.fault() is Some,
        config.fault() == route_fault(config.routes[i]),
{
    let pick = |entry: (Seq<char>, RouteView)| route_fault(entry);
    lemma_route_accepted(config.routes[i]);
    assert forall|j: int| 0 <= j < i implies pick(#[trigger] config.routes[j]) is None by {
        lemma_route_accepted(config.routes[j]);
    }
    lemma_first_some_at(config.routes, pick, i);
}

proof fn lemma_first_some_at<A, B>(items: Seq<A>, pick: spec_fn(A) -> Option<B>, i: int)
    requires
        0 <= i < items.len(),
        pick(items[i]) is Some,
        forall|j: int| 0 <= j < i ==> pick(#[trigger] items[j]) is None,
    ensures
        lists::first_some(items, pick) == pick(items[i]),
    decreases i,
{
    if i > 0 {
        let rest = items.skip(1);
        assert(pick(items[0]) is None);
        assert(rest[i - 1] == items[i]);
        assert forall|j: int| 0 <= j < i - 1 implies pick(#[trigger] rest[j]) is None by {
            assert(rest[j] == items[j + 1]);
        }
        lemma_first_some_at(rest, pick, i - 1);
    }
}

/// What a route is refused for: a slash in its name, a target that is missing, empty
/// or no URL.
pub proof fn lemma_route_faults(name: Seq<char>, route: RouteView)
    ensures
        name.contains('/') ==> route_fault((name, route)) == Some(
            "route name '"@ + name + "' must not contain '/'"@,
        ),
        !name.contains('/') && name != "default"@ && route.target is None ==> route_fault(
            (name, route),
        ) == Some("route '"@ + name + "'"@ + " (non-default) must have a target"@),
        !name.contains('/') && (route.target matches Some(url) && url.len() == 0) ==> route_fault(
            (name, route),
        ) == Some("route '"@ + name + "'"@ + " has empty target"@),
        !name.contains('/') && (route.target matches Some(url) && url.len() > 0 && uri_error(
            url,
        ) is Some) ==> route_fault((name, route)) == Some(
            "route '"@ + name + "'"@ + " target '"@ + route.target->0 + "' is not a valid URL: "@
                + uri_error(route.target->0)->0,
        ),
{
}

/// What the defaults are refused for, where every route is in order.
pub proof fn lemma_default_faults(config: ConfigView)
    ensures
        config.routes.len() == 0 ==> config.fault() == Some("no routes defined"@),
        config.routes.len() > 0 && (forall|i: int|
            0 <= i < config.routes.len() ==> route_ok(#[trigger] config.routes[i])) ==> {
            let d = config.defaults;
            &&& d.max_retries == 0 ==> config.fault() == Some("defaults.max_retries must be > 0"@)
            &&& d.max_retries > 0 && d.base_delay_ms == 0 ==> config.fault() == Some(
                "defaults.base_delay_ms must be > 0"@,
            )
            &&& d.max_retries > 0 && d.base_delay_ms > 0 && d.max_delay_ms == 0 ==> config.fault()
                == Some("defaults.max_delay_ms must be > 0"@)
        },
{
    let pick = |entry: (Seq<char>, RouteView)| route_fault(entry);
    if config.routes.len() > 0 && (forall|i: int|
        0 <= i < config.routes.len() ==> route_ok(#[trigger] config.routes[i])) {
        assert forall|i: int| 0 <= i < config.routes.len() implies pick(
            #[trigger] config.routes[i],
        ) is None by {
            lemma_route_accepted(config.routes[i]);
        }
        lists::lemma_first_some_none(config.routes, pick);
    }
}

/// What is said of a route and a model in these laws is what they are configured
/// with.
pub proof fn lemma_views(route: Route, model: ModelConfig, resolved: ResolvedRouteConfig)
    ensures
        route.target matches Some(s) ==> route@.target == Some(s@),
        route.api_key matches Some(s) ==> route@.api_key == Some(s@),
        route.upstream_model matches Some(s) ==> route@.upstream_model == Some(s@),
        route@.upstream_formats == route.upstream_formats.0@,
        route@.models.len() == route.models@.len(),
        forall|j: int|
            0 <= j < route.models@.len() ==> (#[trigger] route@.models[j]) == (
                route.models@[j].0@,
                route.models@[j].1@,
            ),
        route@.max_retries == route.max_retries,
        route@.base_delay_ms == route.base_delay_ms,
        route@.max_delay_ms == route.max_delay_ms,
        route@.max_total_wait_ms == route.max_total_wait_ms,
        route@.connect_timeout_secs == route.connect_timeout_secs,
        route.retry_status_codes matches Some(codes) ==> route@.retry_status_codes == Some(codes@),
        model.target matches Some(s) ==> model@.target == Some(s@),
        model.api_key matches Some(s) ==> model@.api_key == Some(s@),
        model.upstream_model matches Some(s) ==> model@.upstream_model == Some(s@),
        model@.upstream_formats == model.upstream_formats.0@,
        model@.max_retries == model.max_retries,
        model@.base_delay_ms == model.base_delay_ms,
        model@.max_delay_ms == model.max_delay_ms,
        model@.max_total_wait_ms == model.max_total_wait_ms,
        model@.connect_timeout_secs == model.connect_timeout_secs,
        model.retry_status_codes matches Some(codes) ==> model@.retry_status_codes == Some(codes@),
        resolved.target matches Some(s) ==> resolved@.target == Some(s@),
        resolved.api_key matches Some(s) ==> resolved@.api_key == Some(s@),
        resolved.upstream_model matches Some(s) ==> resolved@.upstream_model == Some(s@),
        resolved@.upstream_formats == resolved.upstream_formats.0@,
        resolved@.max_retries == resolved.max_retries,
        resolved@.base_delay_ms == resolved.base_delay_ms,
        resolved@.max_delay_ms == resolved.max_delay_ms,
        resolved@.max_total_wait_ms == resolved.max_total_wait_ms,
        resolved@.connect_timeout_secs == resolved.connect_timeout_secs,
        resolved@.retry_status_codes == resolved.retry_status_codes@,
{
}

/// A configuration has exactly the models that its routes have.
pub proof fn lemma_has_model(config: ConfigView, name: Seq<char>)
    ensures
        forall|i: int, j: int|
            0 <= i < config.routes.len() && 0 <= j < config.routes[i].1.models.len()
                ==> config.has_model((#[trigger] config.routes[i].1.models[j]).0),
        config.has_model(name) ==> exists|i: int, j: int|
            0 <= i < config.routes.len() && 0 <= j < config.routes[i].1.models.len() && (#[trigger]
            config.routes[i].1.models[j]).0 == name,
{
    assert forall|i: int, j: int|
        0 <= i < config.routes.len() && 0 <= j < config.routes[i].1.models.len() implies
        config.has_model((#[trigger] config.routes[i].1.models[j]).0) by {
        let route = config.routes[i].1;
        assert(names_model(route, route.models[j].0));
    }
    if config.has_model(name) {
        let i = choose|i: int|
            0 <= i < config.routes.len() && names_model(#[trigger] config.routes[i].1, name);
        let j = choose|j: int|
            0 <= j < config.routes[i].1.models.len() && (#[trigger] config.routes[i].1.models[j]).0
                == name;
        assert(config.routes[i].1.models[j].0 == name);
    }
}

/// What is said of a configuration in these laws is what it is.
pub proof fn lemma_config_view(config: Config)
    ensures
        config@.log_level == config.log_level@,
        config@.defaults.max_retries == config.defaults.max_retries,
        config@.defaults.base_delay_ms == config.defaults.base_delay_ms,
        config@.defaults.max_delay_ms == config.defaults.max_delay_ms,
        config@.defaults.max_total_wait_ms == config.defaults.max_total_wait_ms,
        config@.defaults.connect_timeout_secs == config.defaults.connect_timeout_secs,
        config@.defaults.retry_status_codes == config.defaults.retry_status_codes@,
        config@.routes.len() == config.routes@.len(),
        forall|i: int|
            0 <= i < config.routes@.len() ==> #[trigger] config@.routes[i] == (
                config.routes@[i].0@,
                config.routes@[i].1@,
            ),
{
}

} // verus!
