//! The credential-exchange proxy's pure parts: the fixed-shape form
//! request sent to the identity provider's token endpoint, the narrowing
//! of its token payload to the five fields this service returns to its own
//! clients, and the mapping of the exchange outcome to the login response.

use vstd::prelude::*;

verus! {

/// A login request: transient, never logged, never persisted, dropped as
/// soon as the exchange returns.
pub struct LoginUser {
    pub username: String,
    pub password: String,
}

/// The identity provider's full token payload. Only a narrowed subset of
/// it ever leaves this service.
pub struct TokenResponse {
    pub access_token: String,
    pub expires_in: u16,
    pub refresh_expires_in: u16,
    pub refresh_token: String,
    pub token_type: String,
    pub id_token: String,
    pub not_before_policy: u32,
    pub session_state: String,
    pub scope: String,
}

/// What this service contractually returns on login: the five narrowed
/// fields and nothing else — no identity token, no scope, no session
/// state.
pub struct LoginResponse {
    pub access_token: String,
    pub token_type: String,
    pub expires_in: u16,
    pub refresh_token: String,
    pub refresh_expires_in: u16,
}

/// Narrows the provider's payload to the contractual login response; each
/// kept field is passed through unchanged, every other field is dropped.
pub fn narrow_token_response(t: TokenResponse) -> (r: LoginResponse)
    ensures
        r.access_token == t.access_token,
        r.token_type == t.token_type,
        r.expires_in == t.expires_in,
        r.refresh_token == t.refresh_token,
        r.refresh_expires_in == t.refresh_expires_in,
{
    LoginResponse {
        access_token: t.access_token,
        token_type: t.token_type,
        expires_in: t.expires_in,
        refresh_token: t.refresh_token,
        refresh_expires_in: t.refresh_expires_in,
    }
}

/// The fixed-shape form body of the credential exchange: the password
/// grant with a fixed scope, the configured client, and the caller's
/// credentials, in this order and nothing more.
pub fn exchange_request_params(client_id: &str, client_secret: &str, login: &LoginUser) -> (r: Vec<
    (String, String),
>)
    ensures
        r@.len() == 6,
        r@[0].0@ == "grant_type"@ && r@[0].1@ == "password"@,
        r@[1].0@ == "scope"@ && r@[1].1@ == "email openid"@,
        r@[2].0@ == "client_id"@ && r@[2].1@ == client_id@,
        r@[3].0@ == "client_secret"@ && r@[3].1@ == client_secret@,
        r@[4].0@ == "username"@ && r@[4].1@ == login.username@,
        r@[5].0@ == "password"@ && r@[5].1@ == login.password@,
{
    let mut params: Vec<(String, String)> = Vec::new();
    params.push((String::from_str("grant_type"), String::from_str("password")));
    params.push((String::from_str("scope"), String::from_str("email openid")));
    params.push((String::from_str("client_id"), String::from_str(client_id)));
    params.push((String::from_str("client_secret"), String::from_str(client_secret)));
    params.push((String::from_str("username"), login.username.clone()));
    params.push((String::from_str("password"), login.password.clone()));
    params
}

/// What the transport layer observed of the exchange: a parsed token
/// payload, a credential rejection read off the answer's status, a
/// transport-level failure, or a successful answer whose payload did not
/// parse as a token.
pub enum ExchangeOutcome {
    Token(TokenResponse),
    /// The provider answered and rejected the credentials.
    Rejected,
    /// Connection refused, timeout, and the like.
    Unreachable,
    /// The provider's successful answer was not a token payload.
    Malformed,
}

/// The login answer beside its status: the narrowed response, or one of
/// the failures. A credential rejection and a transport failure are
/// presented alike as invalid credentials, so upstream unavailability is
/// not leaked.
pub enum LoginResult {
    Success(LoginResponse),
    InvalidCredentials,
    UpstreamProtocolError,
}

/// Maps the exchange outcome to the login route's answer: a parsed token
/// is narrowed and returned with status 200; a credential rejection and a
/// transport failure both answer 403 as invalid credentials — the caller
/// cannot tell a wrong password from an unreachable provider; a
/// successful answer that is no token payload is the provider breaking
/// protocol, answered as this service's own fault with 500.
pub fn login_user(outcome: ExchangeOutcome) -> (r: (u16, LoginResult))
    ensures
        outcome matches ExchangeOutcome::Token(t) ==> r.0 == 200 && (
        r.1 matches LoginResult::Success(l) && l.access_token == t.access_token && l.token_type
            == t.token_type && l.expires_in == t.expires_in && l.refresh_token == t.refresh_token
            && l.refresh_expires_in == t.refresh_expires_in),
        outcome is Rejected ==> r.0 == 403 && r.1 is InvalidCredentials,
        outcome is Unreachable ==> r.0 == 403 && r.1 is InvalidCredentials,
        outcome is Malformed ==> r.0 == 500 && r.1 is UpstreamProtocolError,
{
    match outcome {
        ExchangeOutcome::Token(t) => (200, LoginResult::Success(narrow_token_response(t))),
        ExchangeOutcome::Rejected => (403, LoginResult::InvalidCredentials),
        ExchangeOutcome::Unreachable => (403, LoginResult::InvalidCredentials),
        ExchangeOutcome::Malformed => (500, LoginResult::UpstreamProtocolError),
    }
}

} // verus!
