//! Identifiers as `uuid` mints, writes and reads them.
//!
//! The relay keeps an identifier as its 128-bit value. The functions below
//! are thin calls into the `uuid` crate; what they are said to return is
//! taken on trust from the crate's source.

use vstd::prelude::*;

verus! {

/// `Uuid::new_v4`, taken as its 128-bit value: a random identifier. Every
/// version 4 identifier carries fixed version and variant bits, so none is
/// zero. The call panics when the system has no random bytes to give.
#[verifier::external_body]
pub(crate) fn fresh_uuid() -> (value: u128)
    ensures
        value != 0,
{
    uuid::Uuid::new_v4().as_u128()
}

/// The text that `uuid` writes a 128-bit identifier as: thirty-two
/// hexadecimal digits in five groups.
pub uninterp spec fn uuid_text(value: u128) -> Seq<char>;

/// The 128-bit identifier that `uuid` reads from a text, if it reads one.
pub uninterp spec fn uuid_parsed(text: Seq<char>) -> Option<u128>;

/// `Uuid::to_string`, on the identifier with the given 128-bit value.
#[verifier::external_body]
pub(crate) fn write_uuid(value: u128) -> (text: String)
    ensures
        text@ == uuid_text(value),
{
    uuid::Uuid::from_u128(value).to_string()
}

/// `Uuid::parse_str`, with the identifier it reads taken as its 128-bit
/// value. A text that is no identifier gives nothing.
#[verifier::external_body]
pub(crate) fn read_uuid(text: &str) -> (value: Option<u128>)
    ensures
        value == uuid_parsed(text@),
{
    match uuid::Uuid::parse_str(text) {
        Ok(id) => Some(id.as_u128()),
        Err(_) => None,
    }
}

} // verus!
