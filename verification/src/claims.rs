//! The parsed content of a validated bearer token: subject, audiences,
//! roles, and expiry. A value of this type is produced only by the token
//! validator and lives for one request.

use vstd::prelude::*;
use crate::text::contains_text;

verus! {

/// What a verified bearer token asserts about its holder.
pub struct Claims {
    pub subject: String,
    pub audiences: Vec<String>,
    pub roles: Vec<String>,
    /// Seconds since the epoch at which the token stops being valid.
    pub expiry: u64,
}

impl Claims {
    /// The token names the given role.
    pub open spec fn has_role(&self, role: Seq<char>) -> bool {
        contains_text(self.roles@, role)
    }

    /// The token names the given audience.
    pub open spec fn has_audience(&self, audience: Seq<char>) -> bool {
        contains_text(self.audiences@, audience)
    }
}

} // verus!
