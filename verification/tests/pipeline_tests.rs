use user_gateway::claims::Claims;
use user_gateway::pipeline::{
    compose, dispatch, get_included_paths, ignore_logs, match_route, metrics_router,
    open_api_router, private_router, public_router, request_log_decision, response_event_emitted,
    response_log_decision, split_path, ConfigError, GateOutcome, Method, Stage,
};
use user_gateway::policy::AccessDecision;

fn full_app() -> user_gateway::pipeline::App {
    compose(vec![
        private_router(),
        public_router(),
        metrics_router(),
        open_api_router(),
    ])
    .expect("the four groups are disjoint")
}

fn claims_with_roles(roles: Vec<&str>) -> Option<Claims> {
    Some(Claims {
        subject: String::from("s"),
        audiences: vec![String::from("account")],
        roles: roles.into_iter().map(String::from).collect(),
        expiry: 2_000_000_000,
    })
}

#[test]
fn split_keeps_every_segment() {
    assert_eq!(
        split_path("/users/abc"),
        vec![String::from(""), String::from("users"), String::from("abc")]
    );
    assert_eq!(split_path(""), vec![String::from("")]);
    assert_eq!(
        split_path("/users/"),
        vec![String::from(""), String::from("users"), String::from("")]
    );
}

#[test]
fn patterns_match_their_paths() {
    assert!(match_route("/users/{id}", "/users/42"));
    assert!(match_route("/metrics", "/metrics"));
    assert!(!match_route("/users/{id}", "/users"));
    assert!(!match_route("/users/{id}", "/users/42/extra"));
    assert!(!match_route("/users/{id}", "/users/"));
    assert!(!match_route("/login", "/metrics"));
}

#[test]
fn merge_of_the_four_groups_succeeds() {
    let app = full_app();
    assert_eq!(app.groups.len(), 4);
}

#[test]
fn overlapping_routes_fail_at_startup() {
    let r = compose(vec![public_router(), public_router()]);
    assert_eq!(r.err(), Some(ConfigError::OverlappingRoutes));
}

#[test]
fn missing_role_is_denied_before_any_handler() {
    let app = full_app();
    let outcome = dispatch(&app, Method::Get, "/users/42", &claims_with_roles(vec!["reader"]));
    assert_eq!(outcome, GateOutcome::Denied(AccessDecision::MissingRole));
}

#[test]
fn missing_token_is_unauthenticated_on_private_routes() {
    let app = full_app();
    let outcome = dispatch(&app, Method::Get, "/users/42", &None);
    assert_eq!(outcome, GateOutcome::Unauthenticated);
}

#[test]
fn valid_token_reaches_the_handler() {
    let app = full_app();
    let outcome = dispatch(&app, Method::Get, "/users/42", &claims_with_roles(vec!["user"]));
    assert_eq!(outcome, GateOutcome::Reached);
}

#[test]
fn public_routes_need_no_token() {
    let app = full_app();
    assert_eq!(dispatch(&app, Method::Get, "/", &None), GateOutcome::Reached);
    assert_eq!(dispatch(&app, Method::Post, "/login", &None), GateOutcome::Reached);
    assert_eq!(dispatch(&app, Method::Get, "/metrics", &None), GateOutcome::Reached);
    assert_eq!(dispatch(&app, Method::Get, "/api.json", &None), GateOutcome::Reached);
}

#[test]
fn unknown_routes_are_refused() {
    let app = full_app();
    assert_eq!(dispatch(&app, Method::Get, "/nothing", &None), GateOutcome::NoRoute);
    assert_eq!(dispatch(&app, Method::Delete, "/login", &None), GateOutcome::NoRoute);
}

#[test]
fn authorization_stage_sits_between_tracing_and_handler() {
    let private = private_router();
    assert_eq!(
        private.stages,
        vec![Stage::Tracing, Stage::Metrics, Stage::Authorization, Stage::Handler]
    );
    let public = public_router();
    assert_eq!(public.stages, vec![Stage::Tracing, Stage::Metrics, Stage::Handler]);
    assert!(public.policy.is_none());
    assert!(private.policy.is_some());
}

#[test]
fn metrics_responses_are_never_log_detailed() {
    let metrics = metrics_router();
    assert!(metrics.suppress_logs);
    assert!(!response_event_emitted(&metrics));
}

#[test]
fn user_responses_are_log_detailed() {
    let private = private_router();
    assert!(!private.suppress_logs);
    assert!(response_event_emitted(&private));
    let public = public_router();
    assert!(response_event_emitted(&public));
}

#[test]
fn marker_follows_the_suppression_list() {
    let included = get_included_paths();
    assert_eq!(included, vec![String::from("/metrics")]);
    let marked = ignore_logs(&String::from("/metrics"), &included);
    assert_eq!(marked, Some(String::from("true")));
    let unmarked = ignore_logs(&String::from("/users/42"), &included);
    assert_eq!(unmarked, None);
}

#[test]
fn response_hook_skips_only_marked_responses() {
    assert!(!response_log_decision(&Some(String::from("true"))));
    assert!(response_log_decision(&Some(String::from("false"))));
    assert!(response_log_decision(&None));
}

#[test]
fn request_hook_skips_listed_paths() {
    let skip = get_included_paths();
    assert!(!request_log_decision(&String::from("/metrics"), &skip));
    assert!(request_log_decision(&String::from("/users/42"), &skip));
}
