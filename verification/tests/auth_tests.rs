use user_gateway::auth::{
    exchange_request_params, login_user, narrow_token_response, ExchangeOutcome, LoginResult,
    LoginUser, TokenResponse,
};
use user_gateway::claims::Claims;
use user_gateway::token::{
    should_refresh_keys, validate, KeyCache, TokenError, TokenPayload,
};

fn provider_payload() -> TokenResponse {
    TokenResponse {
        access_token: String::from("access-abc"),
        expires_in: 300,
        refresh_expires_in: 1800,
        refresh_token: String::from("refresh-def"),
        token_type: String::from("Bearer"),
        id_token: String::from("idtok-1"),
        not_before_policy: 0,
        session_state: String::from("sess-1"),
        scope: String::from("email openid"),
    }
}

#[test]
fn login_narrows_to_exactly_five_fields() {
    let narrowed = narrow_token_response(provider_payload());
    assert_eq!(narrowed.access_token, String::from("access-abc"));
    assert_eq!(narrowed.token_type, String::from("Bearer"));
    assert_eq!(narrowed.expires_in, 300);
    assert_eq!(narrowed.refresh_token, String::from("refresh-def"));
    assert_eq!(narrowed.refresh_expires_in, 1800);
}

#[test]
fn successful_exchange_answers_ok_with_narrowed_body() {
    let (status, result) = login_user(ExchangeOutcome::Token(provider_payload()));
    assert_eq!(status, 200);
    match result {
        LoginResult::Success(l) => {
            assert_eq!(l.access_token, String::from("access-abc"));
            assert_eq!(l.refresh_token, String::from("refresh-def"));
        }
        _ => panic!("expected the narrowed login response"),
    }
}

#[test]
fn credential_rejection_is_forbidden() {
    let (status, result) = login_user(ExchangeOutcome::Rejected);
    assert_eq!(status, 403);
    assert!(matches!(result, LoginResult::InvalidCredentials));
}

#[test]
fn unreachable_provider_is_presented_as_invalid_credentials() {
    let (status, result) = login_user(ExchangeOutcome::Unreachable);
    assert_eq!(status, 403);
    assert!(matches!(result, LoginResult::InvalidCredentials));
}

#[test]
fn wrong_password_and_provider_down_answer_alike() {
    let rejected = login_user(ExchangeOutcome::Rejected);
    let unreachable = login_user(ExchangeOutcome::Unreachable);
    assert_eq!(rejected.0, unreachable.0);
    assert!(matches!(rejected.1, LoginResult::InvalidCredentials));
    assert!(matches!(unreachable.1, LoginResult::InvalidCredentials));
}

#[test]
fn protocol_breakage_is_an_internal_fault() {
    let (status, result) = login_user(ExchangeOutcome::Malformed);
    assert_eq!(status, 500);
    assert!(matches!(result, LoginResult::UpstreamProtocolError));
}

#[test]
fn exchange_form_is_the_fixed_password_grant() {
    let login = LoginUser {
        username: String::from("alice"),
        password: String::from("pw-alice"),
    };
    let params = exchange_request_params("my-client", "cs-value", &login);
    assert_eq!(params.len(), 6);
    assert_eq!(params[0], (String::from("grant_type"), String::from("password")));
    assert_eq!(params[1], (String::from("scope"), String::from("email openid")));
    assert_eq!(params[2], (String::from("client_id"), String::from("my-client")));
    assert_eq!(
        params[3],
        (String::from("client_secret"), String::from("cs-value"))
    );
    assert_eq!(params[4], (String::from("username"), String::from("alice")));
    assert_eq!(params[5], (String::from("password"), String::from("pw-alice")));
}

fn payload(expiry: u64, key_id: u64) -> TokenPayload {
    TokenPayload {
        subject: String::from("subject-1"),
        audiences: vec![String::from("account")],
        roles: vec![String::from("user")],
        expiry,
        key_id,
    }
}

fn cache_with_key(key_id: u64) -> KeyCache {
    let mut cache = KeyCache::new();
    cache.install_snapshot(vec![key_id]);
    cache
}

fn expected_audiences() -> Vec<String> {
    vec![String::from("account")]
}

#[test]
fn valid_token_yields_claims_with_the_payload_fields() {
    let cache = cache_with_key(9);
    let claims: Claims = validate(&cache, Some(payload(1_000, 9)), true, 500, &expected_audiences())
        .expect("a fresh, signed token must validate");
    assert_eq!(claims.subject, String::from("subject-1"));
    assert_eq!(claims.roles, vec![String::from("user")]);
    assert_eq!(claims.expiry, 1_000);
}

#[test]
fn unparsable_token_is_malformed() {
    let cache = cache_with_key(9);
    let r = validate(&cache, None, true, 500, &expected_audiences());
    assert_eq!(r.err(), Some(TokenError::MalformedToken));
}

#[test]
fn unknown_key_or_bad_signature_is_invalid() {
    let cache = cache_with_key(9);
    let wrong_key = validate(&cache, Some(payload(1_000, 8)), true, 500, &expected_audiences());
    assert_eq!(wrong_key.err(), Some(TokenError::InvalidSignature));
    let bad_sig = validate(&cache, Some(payload(1_000, 9)), false, 500, &expected_audiences());
    assert_eq!(bad_sig.err(), Some(TokenError::InvalidSignature));
}

#[test]
fn past_expiry_is_rejected_after_the_signature() {
    let cache = cache_with_key(9);
    let r = validate(&cache, Some(payload(400, 9)), true, 500, &expected_audiences());
    assert_eq!(r.err(), Some(TokenError::Expired));
    let boundary = validate(&cache, Some(payload(500, 9)), true, 500, &expected_audiences());
    assert_eq!(boundary.err(), Some(TokenError::Expired));
}

#[test]
fn foreign_audience_is_rejected_last() {
    let cache = cache_with_key(9);
    let mut p = payload(1_000, 9);
    p.audiences = vec![String::from("other-service")];
    let r = validate(&cache, Some(p), true, 500, &expected_audiences());
    assert_eq!(r.err(), Some(TokenError::AudienceMismatch));
}

#[test]
fn only_a_first_signature_failure_triggers_a_key_refresh() {
    assert!(should_refresh_keys(&TokenError::InvalidSignature, false));
    assert!(!should_refresh_keys(&TokenError::InvalidSignature, true));
    assert!(!should_refresh_keys(&TokenError::Expired, false));
    assert!(!should_refresh_keys(&TokenError::MalformedToken, false));
    assert!(!should_refresh_keys(&TokenError::AudienceMismatch, false));
}

#[test]
fn refresh_swaps_in_the_whole_snapshot() {
    let mut cache = KeyCache::new();
    assert!(!cache.has_key(1));
    cache.install_snapshot(vec![1, 2]);
    assert!(cache.has_key(1) && cache.has_key(2));
    cache.install_snapshot(vec![3]);
    assert!(!cache.has_key(1) && !cache.has_key(2) && cache.has_key(3));
}
