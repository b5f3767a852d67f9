use vstd::prelude::*;

verus! {

#[verifier::external_type_specification]
#[verifier::external_body]
pub struct ExUuidError(uuid::Error);

/// The 128-bit value of the UUID that a text spells, if it spells one.
pub uninterp spec fn uuid_value(text: Seq<char>) -> Option<u128>;

/// Relies on `uuid::Uuid::parse_str` (the value read with `Uuid::as_u128`):
/// whether a text is a UUID, and which one, depends on the text alone.
#[verifier::external_body]
pub(crate) fn parse_uuid(text: &str) -> (r: Result<u128, uuid::Error>)
    ensures
        r is Ok <==> uuid_value(text@) is Some,
        r matches Ok(v) ==> uuid_value(text@) == Some(v),
{
    match uuid::Uuid::parse_str(text) {
        Ok(u) => Ok(u.as_u128()),
        Err(e) => Err(e),
    }
}

/// Relies on `uuid::Uuid::new_v4` (the value read with `Uuid::as_u128`):
/// a random identifier, of which nothing is promised.
#[verifier::external_body]
pub(crate) fn random_uuid() -> (r: u128) {
    uuid::Uuid::new_v4().as_u128()
}

} // verus!
