//! The latency collaborator: a pair of configured bounds, `base_latency` and
//! `jitter`, from which each operation samples a delay of
//! `base_latency + uniform_random(0, jitter)` milliseconds. The simulator is
//! immutable after construction; the caller performs the actual suspension.

use rand::Rng;
use vstd::prelude::*;

verus! {

/// Configuration of the simulated network: a fixed base latency plus a
/// random jitter drawn uniformly from `0..=jitter`, both in milliseconds.
#[derive(Clone)]
pub struct NetworkSimulator {
    base_latency: u64,
    jitter: u64,
}

/// Relies on `rand::Rng::gen_range` over the inclusive range `0..=bound`:
/// the result is uniformly distributed within the range, so it never
/// exceeds `bound`. The range is never empty, so the call never panics.
#[verifier::external_body]
fn random_jitter(bound: u64) -> (r: u64)
    ensures
        r <= bound,
{
    rand::thread_rng().gen_range(0..=bound)
}

impl NetworkSimulator {
    /// The configured base latency, in milliseconds.
    pub closed spec fn spec_base_latency(&self) -> u64 {
        self.base_latency
    }

    /// The configured inclusive jitter bound, in milliseconds.
    pub closed spec fn spec_jitter(&self) -> u64 {
        self.jitter
    }

    pub fn new(base_latency: u64, jitter: u64) -> (r: Self)
        ensures
            r.spec_base_latency() == base_latency,
            r.spec_jitter() == jitter,
    {
        NetworkSimulator { base_latency, jitter }
    }

    pub fn base_latency(&self) -> (r: u64)
        ensures
            r == self.spec_base_latency(),
    {
        self.base_latency
    }

    pub fn jitter(&self) -> (r: u64)
        ensures
            r == self.spec_jitter(),
    {
        self.jitter
    }

    /// Draw the delay of one simulated operation: the base latency plus a
    /// random jitter of at most `jitter` milliseconds.
    pub fn sample_delay(&self) -> (r: u64)
        requires
            self.spec_base_latency() + self.spec_jitter() <= u64::MAX,
        ensures
            self.spec_base_latency() <= r <= self.spec_base_latency() + self.spec_jitter(),
    {
        let j = random_jitter(self.jitter);
        self.base_latency + j
    }
}

} // verus!
