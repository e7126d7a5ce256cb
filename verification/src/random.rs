use vstd::prelude::*;

verus! {

/// A number of milliseconds drawn uniformly from `low..high` by
/// `rand::Rng::gen_range` on `rand::thread_rng()`.  The contract claims
/// only what the crate documents: the value lies in the half-open range,
/// which must not be empty (the call panics on an empty range).  Which
/// value comes back is chance.
#[verifier::external_body]
pub(crate) fn random_millis(low: u64, high: u64) -> (r: u64)
    requires
        low < high,
    ensures
        low <= r < high,
{
    rand::Rng::gen_range(&mut rand::thread_rng(), low..high)
}

/// A span of `ms` milliseconds in nanoseconds.
pub open spec fn millis_to_nanos(ms: u64) -> u64 {
    (ms * 1000000) as u64
}

/// An election timeout drawn at random between `low` and `high`
/// milliseconds, in nanoseconds.
pub(crate) fn random_timeout(low: u64, high: u64) -> (r: u64)
    requires
        low < high,
        high <= 1000000,
    ensures
        exists|ms: u64| low <= ms < high && r == millis_to_nanos(ms),
{
    let ms = random_millis(low, high);
    let r = ms * 1000000;
    assert(r == millis_to_nanos(ms));
    r
}

} // verus!
