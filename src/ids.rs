use vstd::prelude::*;

verus! {

/// Relies on `uuid::Uuid::new_v4` and the hyphenated form that its
/// `Display` writes: a random identifier of 36 characters. Nothing is
/// promised of which one.
#[verifier::external_body]
pub(crate) fn fresh_uuid() -> (r: String)
    ensures
        r@.len() == 36,
{
    uuid::Uuid::new_v4().to_string()
}

} // verus!
