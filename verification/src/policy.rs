//! The access-policy enforcer: a route group's fixed audience and role
//! requirements, the decision taken against a token's claims, and the
//! stricter administrator check applied at the handler boundary of the
//! mutating operations.

use vstd::prelude::*;
use crate::claims::Claims;
use crate::text::{contains_string, contains_text, intersects, intersects_text, is_subset, subset_text};

verus! {

/// The fixed requirements attached to a protected route group at startup.
pub struct AccessPolicy {
    pub required_audiences: Vec<String>,
    pub required_roles: Vec<String>,
}

/// The enforcer's verdict on one request.
#[derive(PartialEq, Eq, Structural, Clone, Copy, Debug)]
pub enum AccessDecision {
    Allow,
    /// No required audience occurs among the token's audiences.
    MissingAudience,
    /// Some required role is missing from the token's roles.
    MissingRole,
}

/// The token carries at least one of the audiences the policy requires.
pub open spec fn audience_ok(claims: &Claims, policy: &AccessPolicy) -> bool {
    intersects_text(policy.required_audiences@, claims.audiences@)
}

/// Every role the policy requires occurs among the token's roles.
pub open spec fn roles_ok(claims: &Claims, policy: &AccessPolicy) -> bool {
    subset_text(policy.required_roles@, claims.roles@)
}

/// Route-level decision: the audience check runs first, then the role
/// subset check; a request passes only when both hold.
pub fn enforce(claims: &Claims, policy: &AccessPolicy) -> (r: AccessDecision)
    ensures
        r == AccessDecision::MissingAudience <==> !audience_ok(claims, policy),
        r == AccessDecision::MissingRole <==> (audience_ok(claims, policy)
            && !roles_ok(claims, policy)),
        r == AccessDecision::Allow <==> (audience_ok(claims, policy) && roles_ok(
            claims,
            policy,
        )),
{
    if !intersects(&policy.required_audiences, &claims.audiences) {
        AccessDecision::MissingAudience
    } else if !is_subset(&policy.required_roles, &claims.roles) {
        AccessDecision::MissingRole
    } else {
        AccessDecision::Allow
    }
}

/// The role every destructive operation demands, over and above the route
/// policy.
pub open spec fn admin_role() -> Seq<char> {
    "administrator"@
}

/// The token names the administrator role.
pub open spec fn is_admin(claims: &Claims) -> bool {
    contains_text(claims.roles@, admin_role())
}

/// Handler-level check for create, update and delete: allowed only to
/// administrators, independently of the route-level policy.
pub fn admin_allowed(claims: &Claims) -> (r: bool)
    ensures
        r == is_admin(claims),
{
    let role = String::from_str("administrator");
    contains_string(&claims.roles, &role)
}

/// The policy attached to the protected route group: the `account` audience
/// and the `user` role, fixed at startup.
pub fn route_policy() -> (r: AccessPolicy)
    ensures
        r.required_audiences@.len() == 1,
        r.required_audiences@[0]@ == "account"@,
        r.required_roles@.len() == 1,
        r.required_roles@[0]@ == "user"@,
{
    let mut audiences: Vec<String> = Vec::new();
    audiences.push(String::from_str("account"));
    let mut roles: Vec<String> = Vec::new();
    roles.push(String::from_str("user"));
    AccessPolicy { required_audiences: audiences, required_roles: roles }
}

} // verus!
