//! Identifiers of rows: 128-bit values, written as thirty-two hex digits.

use vstd::prelude::*;

verus! {

/// The digit that stands for a value below sixteen.
pub open spec fn hex_digit(nibble: int) -> char {
    seq!['0', '1', '2', '3', '4', '5', '6', '7', '8', '9', 'a', 'b', 'c', 'd', 'e', 'f'][nibble]
}

/// The four bits of `id` that its digit at `position` stands for; position
/// zero holds the most significant bits.
pub open spec fn nibble_at(id: u128, position: int) -> int {
    (id as int / vstd::arithmetic::power::pow(16, (31 - position) as nat)) % 16
}

/// The text of an identifier: thirty-two lower-case hex digits, most
/// significant first, without hyphens.
pub open spec fn id_text(id: u128) -> Seq<char> {
    Seq::new(32, |position: int| hex_digit(nibble_at(id, position)))
}

/// The identifier that a text stands for, if it is one of the accepted
/// notations of an identifier.
pub uninterp spec fn parsed_id(text: Seq<char>) -> Option<u128>;

/// Draws a fresh identifier with `uuid::Uuid::new_v4`, which fills it from
/// the operating system's source of randomness and stops the program where
/// that source fails. Nothing is claimed of the value: two draws may even
/// coincide.
#[verifier::external_body]
pub(crate) fn new_id() -> u128 {
    uuid::Uuid::new_v4().as_u128()
}

/// Writes an identifier with `uuid::adapter::Simple::encode_lower`: the
/// sixteen bytes of the value, most significant first, as two lower-case hex
/// digits each.
#[verifier::external_body]
pub(crate) fn encode_id(id: u128) -> (text: String)
    ensures
        text@ == id_text(id),
{
    uuid::Uuid::from_u128(id).to_simple().encode_lower(&mut uuid::Uuid::encode_buffer()).to_string()
}

/// Reads an identifier with `uuid::Uuid::parse_str`, which accepts the
/// simple, the hyphenated and the URN notation in either case. The result
/// depends on the text alone.
#[verifier::external_body]
pub(crate) fn parse_id(text: &str) -> (id: Option<u128>)
    ensures
        id == parsed_id(text@),
{
    match uuid::Uuid::parse_str(text) {
        Ok(id) => Some(id.as_u128()),
        Err(_) => None,
    }
}

} // verus!
