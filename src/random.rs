use vstd::prelude::*;

verus! {

/// Relies on rand's `Rng::gen_range` on `thread_rng()`: an exclusive range
/// `0..high` yields a value below `high`. It panics on an empty range, which
/// `requires` rules out. Besides, `thread_rng` panics only where the
/// operating system's entropy source fails: when it first seeds the
/// generator, or when it reseeds it later.
#[verifier::external_body]
pub(crate) fn random_below(high: usize) -> (r: usize)
    requires
        high > 0,
    ensures
        r < high,
{
    rand::Rng::gen_range(&mut rand::thread_rng(), 0..high)
}

} // verus!
