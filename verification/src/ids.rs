//! Identifiers. Inside the library an id is a 128-bit value; at the HTTP
//! boundary it travels as a UUID string. Parsing and rendering are delegated
//! to the uuid crate behind the two trusted wrappers below.

use vstd::prelude::*;

verus! {

/// The value that `uuid::Uuid::parse_str` extracts from a string: `Some` of
/// the 128-bit id when the string is one of the textual UUID forms the crate
/// accepts, `None` otherwise. The result depends on the characters alone.
pub uninterp spec fn uuid_of(s: Seq<char>) -> Option<u128>;

/// The hyphenated lowercase rendering that `uuid::Uuid::to_string` gives a
/// 128-bit id. The result depends on the id alone.
pub uninterp spec fn uuid_str_of(id: u128) -> Seq<char>;

/// Relies on `uuid::Uuid::parse_str` (accepting the simple, hyphenated,
/// URN and braced forms) and `Uuid::as_u128`.
#[verifier::external_body]
pub fn parse_uuid(s: &str) -> (r: Option<u128>)
    ensures
        r == uuid_of(s@),
{
    match uuid::Uuid::parse_str(s) {
        Ok(u) => Some(u.as_u128()),
        Err(_) => None,
    }
}

/// Relies on `uuid::Uuid::from_u128` and the `Display` rendering of `Uuid`,
/// which is the 36-character hyphenated form; `parse_str` reads that form
/// back to the same id, which gives the round trip stated here.
#[verifier::external_body]
pub fn format_uuid(id: u128) -> (r: String)
    ensures
        r@ == uuid_str_of(id),
        r@.len() == 36,
        uuid_of(r@) == Some(id),
{
    uuid::Uuid::from_u128(id).to_string()
}

} // verus!
