//! The greeting of the first version of the interface.
use vstd::prelude::*;

verus! {

/// The greeting that `GET /api/v1` answers with.
pub fn index() -> (r: &'static str)
    ensures
        r@ == "Welcome to v1 of the API!"@,
{
    "Welcome to v1 of the API!"
}

} // verus!
