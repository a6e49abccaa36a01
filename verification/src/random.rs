//! Numbers drawn by chance.

use vstd::prelude::*;

verus! {

/// A number from `rand::random`. Chance decides: nothing is promised of it.
#[verifier::external_body]
pub(crate) fn random_id() -> (r: u32) {
    rand::random::<u32>()
}

} // verus!
