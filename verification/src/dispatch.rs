//! How the samples of a rendering pass are shared out among workers.

use vstd::prelude::*;

verus! {

/// The shape of one rendering pass: how many workers run, and how many
/// samples each of them takes. Every worker takes the same number, so the
/// pass as a whole takes their product.
#[derive(Clone, Copy, Debug, PartialEq, Eq, Structural)]
pub struct Plan {
    pub workers: usize,
    pub samples_per_worker: usize,
}

impl Plan {
    /// The number of samples of the whole pass, `workers * samples_per_worker`.
    pub open spec fn total(&self) -> nat {
        (self.workers * self.samples_per_worker) as nat
    }

    /// A plan for `configured` workers where that is given, else for one
    /// worker per unit of `available` parallelism.
    pub fn new(configured: Option<usize>, available: usize, samples_per_worker: usize) -> (plan:
        Plan)
        ensures
            configured.is_some() ==> plan.workers == configured.unwrap(),
            configured.is_none() ==> plan.workers == available,
            plan.samples_per_worker == samples_per_worker,
    {
        let workers = match configured {
            Some(workers) => workers,
            None => available,
        };
        Plan { workers, samples_per_worker }
    }

    /// The number of samples of the whole pass. The product of two `usize`
    /// always fits in the result.
    pub fn total_samples(&self) -> (total: u128)
        ensures
            total == self.total(),
    {
        proof {
            assert(self.workers * self.samples_per_worker <= u128::MAX) by (nonlinear_arith)
                requires
                    self.workers <= u64::MAX,
                    self.samples_per_worker <= u64::MAX,
            ;
        }
        (self.workers as u128) * (self.samples_per_worker as u128)
    }
}

} // verus!
