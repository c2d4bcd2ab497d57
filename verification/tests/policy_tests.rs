use user_gateway::claims::Claims;
use user_gateway::policy::{admin_allowed, enforce, route_policy, AccessDecision, AccessPolicy};

fn claims_with(roles: Vec<&str>, audiences: Vec<&str>) -> Claims {
    Claims {
        subject: String::from("subject-1"),
        audiences: audiences.into_iter().map(String::from).collect(),
        roles: roles.into_iter().map(String::from).collect(),
        expiry: 2_000_000_000,
    }
}

#[test]
fn allow_when_audience_and_roles_match() {
    let claims = claims_with(vec!["user"], vec!["account"]);
    let policy = route_policy();
    assert_eq!(enforce(&claims, &policy), AccessDecision::Allow);
}

#[test]
fn deny_missing_audience_checked_first() {
    let claims = claims_with(vec!["user"], vec!["other-service"]);
    let policy = route_policy();
    assert_eq!(enforce(&claims, &policy), AccessDecision::MissingAudience);
}

#[test]
fn deny_missing_role_when_audience_ok() {
    let claims = claims_with(vec!["reader"], vec!["account"]);
    let policy = route_policy();
    assert_eq!(enforce(&claims, &policy), AccessDecision::MissingRole);
}

#[test]
fn required_roles_must_all_be_present() {
    let policy = AccessPolicy {
        required_audiences: vec![String::from("account")],
        required_roles: vec![String::from("user"), String::from("auditor")],
    };
    let partial = claims_with(vec!["user"], vec!["account"]);
    assert_eq!(enforce(&partial, &policy), AccessDecision::MissingRole);
    let full = claims_with(vec!["auditor", "user"], vec!["account"]);
    assert_eq!(enforce(&full, &policy), AccessDecision::Allow);
}

#[test]
fn one_shared_audience_is_enough() {
    let policy = AccessPolicy {
        required_audiences: vec![String::from("account"), String::from("billing")],
        required_roles: vec![],
    };
    let claims = claims_with(vec![], vec!["billing"]);
    assert_eq!(enforce(&claims, &policy), AccessDecision::Allow);
}

#[test]
fn route_policy_is_account_audience_user_role() {
    let policy = route_policy();
    assert_eq!(policy.required_audiences, vec![String::from("account")]);
    assert_eq!(policy.required_roles, vec![String::from("user")]);
}

#[test]
fn admin_check_needs_administrator_role() {
    let admin = claims_with(vec!["user", "administrator"], vec!["account"]);
    assert!(admin_allowed(&admin));
    let plain = claims_with(vec!["user"], vec!["account"]);
    assert!(!admin_allowed(&plain));
    let empty = claims_with(vec![], vec![]);
    assert!(!admin_allowed(&empty));
}
