use vstd::prelude::*;

verus! {

/// Games are identified by the `uuid` crate's `Uuid`, carried through unchanged.
#[verifier::external_type_specification]
#[verifier::external_body]
pub struct ExUuid(uuid::Uuid);

fn first_of(ids: &Vec<uuid::Uuid>) -> (r: Option<uuid::Uuid>)
    ensures
        ids@.len() == 0 ==> r is None,
        ids@.len() > 0 ==> r == Some(ids@[0]),
{
    if ids.len() == 0 {
        None
    } else {
        Some(ids[0])
    }
}

} // verus!
