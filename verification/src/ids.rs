//! Trusted generation and parsing of the 128-bit identifiers that name
//! games, players and the creator capability.

use vstd::prelude::*;

verus! {

/// What `uuid::Uuid::parse_str` makes of a string: the identifier value of
/// a well-formed UUID string, or nothing for a malformed one. The result
/// depends on the characters alone.
pub uninterp spec fn spec_parse_id(s: Seq<char>) -> Option<u128>;

/// Relies on `uuid::Uuid::new_v4`: a fresh random 128-bit identifier.
/// Nothing can be promised of a random value.
#[verifier::external_body]
pub(crate) fn fresh_id() -> u128 {
    uuid::Uuid::new_v4().as_u128()
}

/// Relies on `uuid::Uuid::parse_str` and `uuid::Uuid::as_u128`: whether a
/// string parses, and to which value, is a function of the string. The
/// error text is uuid's own and is not specified.
#[verifier::external_body]
pub(crate) fn parse_id(s: &str) -> (r: Result<u128, String>)
    ensures
        r is Ok <==> spec_parse_id(s@) is Some,
        r matches Ok(v) ==> spec_parse_id(s@) == Some(v),
{
    match uuid::Uuid::parse_str(s) {
        Ok(u) => Ok(u.as_u128()),
        Err(e) => Err(e.to_string()),
    }
}

} // verus!
