//! Card and deck identities: UUIDs, held as their 128 bits.

use vstd::prelude::*;

verus! {

/// The 128 bits of the UUID that a text spells, if it spells one.
pub uninterp spec fn uuid_of_text(text: Seq<char>) -> Option<u128>;

/// The bits that mark a UUID as random: version 4, RFC variant.
pub open spec fn is_random_uuid(id: u128) -> bool {
    id & 0x0000_0000_0000_f000_c000_0000_0000_0000u128
        == 0x0000_0000_0000_4000_8000_0000_0000_0000u128
}

/// Calls `uuid::Uuid::parse_str` and packs the UUID with `Uuid::as_u128`.
///
/// Trusted: the outcome depends on the text alone, so it is named
/// `uuid_of_text`; `None` stands for any parse error.
#[verifier::external_body]
pub(crate) fn parse_uuid(text: &str) -> (id: Option<u128>)
    ensures
        id == uuid_of_text(text@),
{
    match uuid::Uuid::parse_str(text) {
        Ok(id) => Some(id.as_u128()),
        Err(_) => None,
    }
}

/// Calls `uuid::Uuid::new_v4` and packs the UUID with `Uuid::as_u128`.
///
/// Trusted: whatever the random source gave, the version and variant bits
/// are those of a random UUID. Nothing else is claimed of the value. The
/// call fails hard if the operating system has no randomness to give.
#[verifier::external_body]
pub(crate) fn new_random_uuid() -> (id: u128)
    ensures
        is_random_uuid(id),
{
    uuid::Uuid::new_v4().as_u128()
}

} // verus!
