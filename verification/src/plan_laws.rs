//! What becomes of a request: which route it takes, what is planned for it, and
//! what it is answered where it goes nowhere.

use crate::config;
use crate::config::{ConfigView, RouteView};
use crate::format::Protocol;
use crate::json;
use crate::json::{JsonView, Parsed};
use crate::lists;
use crate::proxy;
use crate::proxy::{PlanView, Request, RouteMatchView, RoutedView};
use crate::text;
use crate::transform;
use crate::transform::common;
use crate::transform::laws;
use vstd::prelude::*;

verus! {

// ── Kinds of requests ──────────────────────────────────────────────────────

/// The state and the counters of the proxy have paths of their own, whatever the
/// method; the models are listed for every path that ends in `/models`, where it
/// is read; everything else is for an upstream.
pub proof fn lemma_request_kinds(is_get: bool, path: Seq<char>, prefix: Seq<char>)
    ensures
        proxy::request_kind(is_get, "/healthz"@) == Request::Health,
        proxy::request_kind(is_get, "/metrics"@) == Request::Metrics,
        proxy::request_kind(true, prefix + "/models"@) == Request::Models,
        proxy::request_kind(false, prefix + "/models"@) == Request::Forward,
        proxy::request_kind(is_get, path) is Health ==> path == "/healthz"@,
        proxy::request_kind(is_get, path) is Metrics ==> path == "/metrics"@,
        proxy::request_kind(is_get, path) is Models ==> is_get && path.len() >= 7 && path
            == path.take(path.len() - 7) + "/models"@,
{
    reveal_strlit("/healthz");
    reveal_strlit("/metrics");
    reveal_strlit("/models");
    let models = prefix + "/models"@;
    assert(models.skip(models.len() - 7) =~= "/models"@);
    assert(models.last() == 's');
    assert(models[models.len() - 2] == 'l');
    assert("/healthz"@.last() == 'z');
    assert("/metrics"@.last() == 's' && "/metrics"@["/metrics"@.len() - 2] == 'c');
    if text::has_suffix(path, "/models"@) {
        assert(path =~= path.take(path.len() - 7) + path.skip(path.len() - 7));
    }
}

// ── Routes ─────────────────────────────────────────────────────────────────

/// Whether a path begins with the name of a configured route as its first segment.
pub open spec fn names_route(
    config: ConfigView,
    path: Seq<char>,
    name: Seq<char>,
    rest: Seq<char>,
) -> bool {
    &&& !name.contains('/')
    &&& path == name + seq!['/'] + rest
    &&& exists|i: int| 0 <= i < config.routes.len() && (#[trigger] config.routes[i]).0 == name
}

/// A path without the slash in front, where it has one.
pub open spec fn below_root(path: Seq<char>) -> Seq<char> {
    if path.len() > 0 && path[0] == '/' {
        path.skip(1)
    } else {
        path
    }
}

/// A path, with or without a slash in front, leads to the route that its first
/// segment names, with what follows; or to the default route, where no route is
/// named so, with the path; or nowhere, where there is no default route.
pub proof fn lemma_route_match(path: Seq<char>, config: ConfigView)
    ensures
        ({
            let p = below_root(path);
            match proxy::matched_route(path, config) {
                RouteMatchView::Named(name, rest) => names_route(config, p, name, rest),
                RouteMatchView::Default(rest) => {
                    &&& rest == p
                    &&& lists::entry(config.routes, "default"@) is Some
                    &&& forall|name: Seq<char>, rest: Seq<char>|
                        !#[trigger] names_route(config, p, name, rest)
                },
                RouteMatchView::NotFound => {
                    &&& lists::entry(config.routes, "default"@) is None
                    &&& forall|name: Seq<char>, rest: Seq<char>|
                        !#[trigger] names_route(config, p, name, rest)
                },
            }
        }),
{
    let p = proxy::relative(path);
    let slash = |c: char| c == '/';
    let end = proxy::segment_end(p);
    lists::lemma_first_where_found(p, slash);
    if end < p.len() {
        let name = p.take(end);
        let rest = p.skip(end + 1);
        lists::lemma_entry(config.routes, name);
        assert(slash(p[end]));
        assert(p =~= name + seq!['/'] + rest);
        assert forall|i: int| 0 <= i < name.len() implies name[i] != '/' by {
            assert(!slash(p[i]));
        }
        if lists::entry(config.routes, name) is Some {
            let route = lists::entry(config.routes, name)->0;
            let i = choose|i: int| 0 <= i < config.routes.len() && config.routes[i] == (name, route);
            assert(config.routes[i].0 == name);
        }
    }
    assert forall|name: Seq<char>, rest: Seq<char>| #[trigger] names_route(
        config,
        p,
        name,
        rest,
    ) implies end < p.len() && p.take(end) == name && lists::entry(config.routes, name) is Some by {
        assert(p[name.len() as int] == '/');
        assert forall|i: int| 0 <= i < name.len() implies !slash(#[trigger] p[i]) by {
            assert(p[i] == name[i]);
            assert(name.contains(name[i]));
        }
        lists::lemma_first_where(p, slash, name.len() as int);
        assert(p.take(end) =~= name);
        lists::lemma_entry(config.routes, name);
    }
}

/// A request that leads to a route takes it with its settings; one that leads
/// nowhere is answered that there is no such route.
pub proof fn lemma_route_outcome(
    path: Seq<char>,
    config: ConfigView,
    env: Seq<(Seq<char>, Seq<char>)>,
)
    ensures
        match proxy::matched_route(path, config) {
            RouteMatchView::Named(name, rest) => proxy::route_outcome(path, config, env) matches Ok(
                routed,
            ) && routed.route_name == name && routed.rest == rest && config.resolved(name, env)
                == Some(routed.route),
            RouteMatchView::Default(rest) => proxy::route_outcome(path, config, env) matches Ok(
                routed,
            ) && routed.route_name == "default"@ && routed.rest == rest && config.resolved(
                "default"@,
                env,
            ) == Some(routed.route),
            RouteMatchView::NotFound => proxy::route_outcome(path, config, env) matches Err(reply)
                && proxy::tells_error(
                reply,
                404,
                "no route matched \""@ + path + "\". Available: "@ + text::joined(
                    config.routes.map_values(|entry: (Seq<char>, RouteView)| entry.0),
                    ", "@,
                ),
                "unknown_route"@,
            ),
        },
{
    proxy::lemma_error_reply(
        404,
        "no route matched \""@ + path + "\". Available: "@ + text::joined(
            config.routes.map_values(|entry: (Seq<char>, RouteView)| entry.0),
            ", "@,
        ),
        "unknown_route"@,
    );
}

// ── Plans ──────────────────────────────────────────────────────────────────

/// The model that a request body names.
pub open spec fn asks_for(body: Seq<u8>) -> Option<Seq<char>> {
    match json::json_parse(body) {
        Parsed::Value(v) => match v.field("model"@) {
            Some(JsonView::String(model)) if body.len() > 0 => Some(model),
            _ => None,
        },
        Parsed::Fault(_) => None,
    }
}

/// Whether a URL is an address, its trailing slashes left out, followed by a path.
pub open spec fn is_url(url: Seq<char>, target: Seq<char>, path: Seq<char>) -> bool {
    exists|base: Seq<char>|
        #![trigger text::has_prefix(target, base)]
        url == base + path && text::has_prefix(target, base) && (forall|i: int|
            base.len() <= i < target.len() ==> target[i] == '/') && (base.len() > 0 ==> base.last()
            != '/')
}

/// The path under which an upstream offers a protocol.
pub open spec fn path_of(protocol: Protocol) -> Seq<char> {
    match protocol {
        Protocol::Responses => "/v1/responses"@,
        Protocol::Chat => "/v1/chat/completions"@,
        Protocol::Anthropic => "/v1/messages"@,
    }
}

/// What is planned for a request: the settings of the model that it asks for, or
/// of the route; the protocol that its path ends in, and the one that the upstream
/// takes; and the URL of the upstream.
pub proof fn lemma_plan(
    routed: RoutedView,
    anthropic_target: Option<Seq<char>>,
    body: Seq<u8>,
    env: Seq<(Seq<char>, Seq<char>)>,
)
    ensures
        proxy::plan_outcome(routed, anthropic_target, body, env) matches Ok(plan) ==> {
            &&& plan.route_name == routed.route_name
            &&& plan.client_model == asks_for(body)
            &&& asks_for(body) is None ==> plan.route == routed.route
            &&& asks_for(body) matches Some(model) ==> plan.route == routed.route.for_model(
                model,
                env,
            )
            &&& text::has_suffix(routed.rest, "/responses"@) ==> plan.inbound
                == Protocol::Responses
            &&& text::has_suffix(routed.rest, "/messages"@) ==> plan.inbound == Protocol::Anthropic
            &&& plan.inbound == Protocol::Responses ==> text::has_suffix(
                routed.rest,
                "/responses"@,
            )
            &&& plan.inbound == Protocol::Anthropic ==> text::has_suffix(routed.rest, "/messages"@)
            &&& plan.route.upstream_formats.len() == 0 ==> plan.upstream == plan.inbound
            &&& plan.route.upstream_formats.contains(plan.inbound) ==> plan.upstream
                == plan.inbound
            &&& plan.route.upstream_formats.len() > 0 && !plan.route.upstream_formats.contains(
                plan.inbound,
            ) ==> plan.upstream == plan.route.upstream_formats[0]
            &&& if plan.upstream == Protocol::Anthropic && anthropic_target is Some {
                is_url(plan.upstream_url, anthropic_target->0, path_of(plan.upstream))
            } else {
                plan.route.target is Some && is_url(
                    plan.upstream_url,
                    plan.route.target->0,
                    path_of(plan.upstream),
                )
            }
            &&& asks_for(body) matches Some(model) ==> model.len() > 0 ==> plan.tag == seq!['[']
                + routed.route_name + seq!['|'] + model + seq![']']
            &&& !(asks_for(body) is Some && asks_for(body)->0.len() > 0) ==> plan.tag == seq!['[']
                + routed.route_name + seq![']']
        },
{
    reveal_strlit("/responses");
    reveal_strlit("/chat/completions");
    reveal_strlit("/messages");
    reveal_strlit("[");
    reveal_strlit("|");
    reveal_strlit("]");
    assert("["@ =~= seq!['[']);
    assert("|"@ =~= seq!['|']);
    assert("]"@ =~= seq![']']);
    let rest = routed.rest;
    if text::has_suffix(rest, "/messages"@) {
        assert(rest.last() == rest.skip(rest.len() - 9)[8]);
        assert(rest[rest.len() - 2] == rest.skip(rest.len() - 9)[7]);
        if text::has_suffix(rest, "/responses"@) {
            assert(rest.skip(rest.len() - 10)[7] == rest[rest.len() - 3]);
            assert(rest.skip(rest.len() - 9)[6] == rest[rest.len() - 3]);
        }
        if text::has_suffix(rest, "/chat/completions"@) {
            assert(rest.skip(rest.len() - 17)[15] == rest[rest.len() - 2]);
        }
    }
    match proxy::plan_outcome(routed, anthropic_target, body, env) {
        Ok(plan) => {
            let target = if plan.upstream == Protocol::Anthropic && anthropic_target is Some {
                anthropic_target->0
            } else {
                plan.route.target->0
            };
            text::lemma_without_trailing(target, '/');
            let base = text::without_trailing(target, '/');
            assert(plan.upstream_url == base + path_of(plan.upstream));
            assert(text::has_prefix(target, base));
        },
        Err(_) => {},
    }
}

/// A plan fails exactly where there is no address: on the default route the client
/// is asked for a model, on another it is told that there is no target.
pub proof fn lemma_plan_fails(
    routed: RoutedView,
    anthropic_target: Option<Seq<char>>,
    body: Seq<u8>,
    env: Seq<(Seq<char>, Seq<char>)>,
)
    ensures
        ({
            let route = match asks_for(body) {
                Some(model) => routed.route.for_model(model, env),
                None => routed.route,
            };
            let outcome = proxy::plan_outcome(routed, anthropic_target, body, env);
            &&& route.target is Some ==> outcome is Ok
            &&& route.target is None && routed.route_name == "default"@ ==> outcome is Err
                && proxy::tells_error(
                outcome->Err_0,
                400,
                "default route requires a model field in the request body to determine the upstream target"@,
                "missing_model"@,
            )
            &&& outcome matches Err(reply) ==> routed.route_name != "default"@
                ==> proxy::tells_error(
                reply,
                400,
                "no target configured for this route/model"@,
                "no_target"@,
            )
        }),
{
    proxy::lemma_error_reply(
        400,
        "default route requires a model field in the request body to determine the upstream target"@,
        "missing_model"@,
    );
    proxy::lemma_error_reply(400, "no target configured for this route/model"@, "no_target"@);
}

/// Whether two values have the same under a key.
pub open spec fn agree(a: JsonView, b: JsonView, key: Seq<char>) -> bool {
    a.field(key) == b.field(key)
}

/// Whether a value is another with its model renamed and nothing else changed.
pub open spec fn is_renamed(renamed: JsonView, v: JsonView, model: Seq<char>) -> bool {
    &&& renamed is Object
    &&& renamed.field("model"@) == Some(JsonView::String(model))
    &&& forall|key: Seq<char>|
        key != "model"@ ==> #[trigger] agree(renamed, v, key)
}

/// Whether bytes are what a plan sends for a value that it converts to the
/// upstream's protocol: where the text of the value reads as the value, what is
/// sent asks for the model that the value asks for.
pub open spec fn is_sent(plan: PlanView, v: JsonView) -> bool {
    &&& plan.inbound == plan.upstream ==> plan.body == transform::json_bytes(v)
    &&& plan.inbound != plan.upstream && json::json_parse(transform::json_bytes(v))
        == Parsed::Value(v) ==> exists|converted: JsonView|
        plan.body == transform::json_bytes(converted) && #[trigger] agree(
            converted,
            v,
            "model"@,
        )
}

/// What a plan sends names the configured model of the upstream, and nothing else
/// of the request changes; where none is configured, or the client asks for that
/// one, the request keeps its name.
pub proof fn lemma_plan_names_model(
    routed: RoutedView,
    anthropic_target: Option<Seq<char>>,
    body: Seq<u8>,
    env: Seq<(Seq<char>, Seq<char>)>,
    v: JsonView,
)
    requires
        json::json_parse(body) == Parsed::Value(v),
        v is Object,
    ensures
        proxy::plan_outcome(routed, anthropic_target, body, env) matches Ok(plan) ==> {
            &&& plan.route.upstream_model matches Some(model) ==> model.len() > 0 && asks_for(body)
                != Some(model) ==> exists|renamed: JsonView|
                is_sent(plan, renamed) && #[trigger] is_renamed(renamed, v, model)
            &&& plan.inbound == plan.upstream && (plan.route.upstream_model is None
                || plan.route.upstream_model == asks_for(body)) ==> plan.body == body
        },
{
    reveal_strlit("");
    match proxy::plan_outcome(routed, anthropic_target, body, env) {
        Ok(plan) => {
            if let Some(model) = plan.route.upstream_model {
                if model.len() > 0 && asks_for(body) != Some(model) {
                    let renamed = common::with_model(v, model);
                    assert(is_renamed(renamed, v, model));
                    laws::lemma_request_keeps_model_and_stream(
                        plan.inbound,
                        plan.upstream,
                        renamed,
                    );
                    let converted = transform::converted_request(
                        plan.inbound,
                        plan.upstream,
                        renamed,
                    );
                    assert(agree(converted, renamed, "model"@));
                    assert(is_sent(plan, renamed));
                }
            }
        },
        Err(_) => {},
    }
}

/// A request on a configured route with a model for the upstream, for no model
/// that has settings of its own, is planned with that model's name.
pub proof fn lemma_configured_model_sent(
    config: ConfigView,
    i: int,
    path: Seq<char>,
    anthropic_target: Option<Seq<char>>,
    body: Seq<u8>,
    env: Seq<(Seq<char>, Seq<char>)>,
    v: JsonView,
    model: Seq<char>,
)
    requires
        config.wf(),
        0 <= i < config.routes.len(),
        config.routes[i].1.upstream_model == Some(model),
        model.len() > 0,
        json::json_parse(body) == Parsed::Value(v),
        v is Object,
        asks_for(body) != Some(model),
        asks_for(body) matches Some(asked) ==> forall|j: int|
            0 <= j < config.routes[i].1.models.len() ==> (#[trigger] config.routes[i].1.models[j]).0
                != asked,
    ensures
        config.resolved(config.routes[i].0, env) is Some,
        config.resolved(config.routes[i].0, env)->0.upstream_model == Some(model),
        ({
            let routed = proxy::route_outcome(path, config, env);
            let planned = proxy::plan_outcome(routed->Ok_0, anthropic_target, body, env);
            let plan = planned->Ok_0;
            routed is Ok && routed->Ok_0.route_name == config.routes[i].0 && planned is Ok ==> {
                &&& plan.route.upstream_model == Some(model)
                &&& exists|renamed: JsonView|
                    is_sent(plan, renamed) && #[trigger] is_renamed(renamed, v, model)
            }
        }),
{
    config::lemma_route_settings(config, i, env);
    lemma_route_outcome(path, config, env);
    match proxy::route_outcome(path, config, env) {
        Ok(routed) => {
            lemma_plan_names_model(routed, anthropic_target, body, env, v);
            lemma_plan(routed, anthropic_target, body, env);
            if let Some(asked) = asks_for(body) {
                lists::lemma_entry(config.routes[i].1.models, asked);
            }
        },
        Err(_) => {},
    }
}

/// Whether a plan sends bytes, converted to the upstream's protocol; where they
/// cannot be converted they go as they are, and the plan says why.
pub open spec fn goes_out(plan: PlanView, bytes: Seq<u8>) -> bool {
    match transform::request_outcome(plan.inbound, plan.upstream, bytes) {
        Ok(converted) => plan.body == converted && plan.fault is None,
        Err(message) => plan.body == bytes && plan.fault == Some(message),
    }
}

/// What a plan sends is the request, renamed where another name of the model is
/// configured and the request is a JSON object, and nothing else.
pub proof fn lemma_plan_body(
    routed: RoutedView,
    anthropic_target: Option<Seq<char>>,
    body: Seq<u8>,
    env: Seq<(Seq<char>, Seq<char>)>,
)
    ensures
        proxy::plan_outcome(routed, anthropic_target, body, env) matches Ok(plan) ==> {
            let named = plan.route.upstream_model;
            let value = json::json_parse(body);
            let asked = match asks_for(body) {
                Some(model) => model,
                None => Seq::empty(),
            };
            let renames = named is Some && named->0 != asked && value is Value && value->Value_0
                is Object;
            &&& renames ==> exists|renamed: JsonView|
                goes_out(plan, transform::json_bytes(renamed)) && #[trigger] is_renamed(
                    renamed,
                    value->Value_0,
                    named->0,
                )
            &&& !renames ==> goes_out(plan, body)
        },
{
    reveal_strlit("");
    assert(""@ =~= Seq::empty());
    match proxy::plan_outcome(routed, anthropic_target, body, env) {
        Ok(plan) => {
            let value = json::json_parse(body);
            if let Some(model) = plan.route.upstream_model {
                if value is Value && value->Value_0 is Object {
                    let renamed = common::with_model(value->Value_0, model);
                    assert(is_renamed(renamed, value->Value_0, model));
                }
            }
        },
        Err(_) => {},
    }
}

} // verus!
