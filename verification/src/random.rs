use rand::Rng;
use vstd::prelude::*;

verus! {

/// A number drawn by chance from `low..high`.
///
/// Calls `Rng::gen_range(low, high)` of the `rand` crate on its thread-local
/// generator, `rand::thread_rng()`. Trusted, not proved: the call panics
/// unless `low < high`, and what it returns is at least `low` and less than
/// `high`. Nothing is claimed of which number of the range comes out.
#[verifier::external_body]
fn random_in_range(low: u16, high: u16) -> (value: u16)
    requires
        low < high,
    ensures
        low <= value < high,
{
    rand::thread_rng().gen_range(low, high)
}

/// A byte drawn by chance.
pub(crate) fn random_byte() -> u8 {
    random_in_range(0, 256) as u8
}

} // verus!
