//! Entity identifiers: 128-bit ULID values.
use vstd::prelude::*;

verus! {

/// The numeric value of a ULID.
pub type Id = u128;

/// What `ulid::Ulid::from_string` decodes from a text, if it accepts it.
pub uninterp spec fn ulid_value(s: Seq<char>) -> Option<u128>;

/// Relies on `ulid::Ulid::from_string`: decodes a Crockford base32 ULID text
/// into its 128-bit value, or rejects it.
#[verifier::external_body]
pub(crate) fn parse_id(s: &str) -> (r: Option<Id>)
    ensures
        r == ulid_value(s@),
{
    match ulid::Ulid::from_string(s) {
        Ok(u) => Some(u.0),
        Err(_) => None,
    }
}

} // verus!
