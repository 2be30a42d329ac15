use rand::Rng;
use vstd::prelude::*;

verus! {

/// Relies on rand::Rng::gen_range over `0..len`: a random index strictly
/// below `len`, drawn uniformly from the range. It panics only on an empty
/// range, which the precondition rules out. Which index comes back is not
/// specified: callers must be correct for every index below `len`.
#[verifier::external_body]
pub(crate) fn pick_index(len: usize) -> (r: usize)
    requires
        1 <= len,
    ensures
        r < len,
{
    rand::thread_rng().gen_range(0..len)
}

} // verus!
