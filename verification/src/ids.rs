//! The user identifier: an opaque 128-bit key, written by clients as a UUID
//! text. Parsing is delegated to the `uuid` crate; the library's logic works
//! on the plain 128-bit value.

use vstd::prelude::*;

verus! {

/// The 128-bit value that a UUID text denotes, or `None` where the text is
/// not a UUID in any of the accepted spellings. The outcome depends on the
/// characters alone.
pub uninterp spec fn uuid_value(s: Seq<char>) -> Option<u128>;

/// Relies on `uuid::Uuid::parse_str` and `uuid::Uuid::as_u128`: parsing a
/// hexadecimal UUID text (with optional hyphens) is a pure function of the
/// text, and `as_u128` reads the sixteen parsed bytes back as one number.
#[verifier::external_body]
pub(crate) fn parse_user_id(s: &str) -> (r: Option<u128>)
    ensures
        r == uuid_value(s@),
{
    match uuid::Uuid::parse_str(s) {
        Ok(u) => Some(u.as_u128()),
        Err(_) => None,
    }
}

} // verus!
