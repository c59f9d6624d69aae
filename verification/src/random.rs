use rand::Rng;
use vstd::prelude::*;

verus! {

/// Draws a number uniformly from `low..high` with `rand::Rng::gen_range`
/// on the generator that `rand::thread_rng` hands out.
///
/// Trusted: the contract claims only what `gen_range` documents for an
/// exclusive integer range, namely that the result lies in `low..high`; it
/// panics on an empty range, which `requires` rules out.  Which number comes
/// out depends on the generator's state and is left unsaid.
#[verifier::external_body]
pub(crate) fn random_in_range(low: u64, high: u64) -> (r: u64)
    requires
        low < high,
    ensures
        low <= r < high,
{
    rand::thread_rng().gen_range(low..high)
}

} // verus!
