//! The token validator's decisions: given the structural parse of a bearer
//! token, the outcome of the cryptographic signature check, the clock and
//! the expected audiences, produce trusted claims or the precise failure.
//! The signing-key material lives in a process-scoped cache that is
//! refreshed lazily, by swapping in a whole new snapshot, when a failure
//! looks like key rotation.

use vstd::prelude::*;
use crate::claims::Claims;
use crate::text::{intersects, intersects_text};

verus! {

/// The structural content of a bearer token before it is trusted: the raw
/// claim fields and the identifier of the key its signature names.
pub struct TokenPayload {
    pub subject: String,
    pub audiences: Vec<String>,
    pub roles: Vec<String>,
    pub expiry: u64,
    pub key_id: u64,
}

/// Why a bearer token was rejected.
#[derive(PartialEq, Eq, Structural, Clone, Copy, Debug)]
pub enum TokenError {
    /// The token's structure could not be parsed.
    MalformedToken,
    /// No cached key verifies the signature.
    InvalidSignature,
    /// The expiry is not in the future.
    Expired,
    /// None of the expected audiences occurs in the token.
    AudienceMismatch,
}

/// The process-scoped snapshot of trusted signing-key identifiers.
/// Readers only ever see a whole snapshot; a refresh replaces it in one
/// swap rather than editing it in place.
pub struct KeyCache {
    pub key_ids: Vec<u64>,
}

impl KeyCache {
    /// An empty cache: before the first discovery every signature fails,
    /// which triggers the lazy refresh.
    pub fn new() -> (r: KeyCache)
        ensures
            r.key_ids@.len() == 0,
    {
        KeyCache { key_ids: Vec::new() }
    }

    /// The cache trusts the key the token names.
    pub fn has_key(&self, key_id: u64) -> (r: bool)
        ensures
            r == self.key_ids@.contains(key_id),
    {
        let mut i: usize = 0;
        while i < self.key_ids.len()
            invariant
                i <= self.key_ids@.len(),
                forall|j: int| 0 <= j < i ==> self.key_ids@[j] != key_id,
            decreases self.key_ids@.len() - i,
        {
            if self.key_ids[i] == key_id {
                return true;
            }
            i = i + 1;
        }
        false
    }

    /// Copy-on-refresh: the freshly discovered key set replaces the whole
    /// snapshot.
    pub fn install_snapshot(&mut self, key_ids: Vec<u64>)
        ensures
            final(self).key_ids@ == key_ids@,
    {
        self.key_ids = key_ids;
    }
}

/// The signature is accepted only when the named key is cached and the
/// cryptographic check succeeded.
pub open spec fn signature_accepted(cache: Seq<u64>, p: TokenPayload, sig_ok: bool) -> bool {
    cache.contains(p.key_id) && sig_ok
}

/// A token whose expiry is not in the future is dead.
pub open spec fn token_expired(p: TokenPayload, now: u64) -> bool {
    p.expiry <= now
}

/// The validator's whole rejection order: structure, signature, expiry,
/// audience; `None` means the token is to be trusted.
pub open spec fn validate_error(
    cache: Seq<u64>,
    parsed: Option<TokenPayload>,
    sig_ok: bool,
    now: u64,
    expected_audiences: Seq<String>,
) -> Option<TokenError> {
    match parsed {
        None => Some(TokenError::MalformedToken),
        Some(p) => if !signature_accepted(cache, p, sig_ok) {
            Some(TokenError::InvalidSignature)
        } else if token_expired(p, now) {
            Some(TokenError::Expired)
        } else if !intersects_text(expected_audiences, p.audiences@) {
            Some(TokenError::AudienceMismatch)
        } else {
            None
        },
    }
}

/// Turns a parsed token into trusted claims, or rejects it exactly as
/// `validate_error` says. The claims carry the payload's fields unchanged;
/// roles are not judged here but by the access-policy enforcer, which
/// different routes apply with different policies.
pub fn validate(
    cache: &KeyCache,
    parsed: Option<TokenPayload>,
    sig_ok: bool,
    now: u64,
    expected_audiences: &Vec<String>,
) -> (r: Result<Claims, TokenError>)
    ensures
        (match r {
            Ok(_) => None::<TokenError>,
            Err(e) => Some(e),
        }) == validate_error(cache.key_ids@, parsed, sig_ok, now, expected_audiences@),
        r matches Ok(c) ==> parsed matches Some(p) && c.subject == p.subject && c.audiences
            == p.audiences && c.roles == p.roles && c.expiry == p.expiry,
{
    let p = match parsed {
        None => {
            return Err(TokenError::MalformedToken);
        },
        Some(p) => p,
    };
    if !(cache.has_key(p.key_id) && sig_ok) {
        return Err(TokenError::InvalidSignature);
    }
    if p.expiry <= now {
        return Err(TokenError::Expired);
    }
    if !intersects(expected_audiences, &p.audiences) {
        return Err(TokenError::AudienceMismatch);
    }
    Ok(Claims { subject: p.subject, audiences: p.audiences, roles: p.roles, expiry: p.expiry })
}

/// The lazy refresh decision: only a signature failure looks like key
/// rotation, and the cache is refreshed at most once per validation, never
/// on every request.
pub fn should_refresh_keys(err: &TokenError, already_refreshed: bool) -> (r: bool)
    ensures
        r == (*err == TokenError::InvalidSignature && !already_refreshed),
{
    match err {
        TokenError::InvalidSignature => !already_refreshed,
        _ => false,
    }
}

} // verus!
