//! The deterministic bookkeeping of the geometric layout search.
//!
//! The optimizer embeds a QUBO matrix into the plane by racing one
//! derivative-free simplex search per candidate seed and accepting the
//! first embedding whose quality clears the caller's bar. The continuous,
//! floating-point part of that work (drawing start points, evaluating the
//! cost function, iterating the simplex) runs in the unverified layer;
//! this module owns everything the race decides on: the seed sequence, the
//! shape of the simplex, the quality scale and the acceptance test.

use vstd::prelude::*;

verus! {

use crate::qubo::Error;

/// The fixed denominator of the [`Quality`] scale: qualities are carried in
/// parts per million.
pub const QUALITY_SCALE: u32 = 1_000_000;

/// A quality level in `[0, 1]`, carried in parts per million; higher is
/// better. It gates acceptance of a candidate embedding and is reported to
/// callers.
#[derive(Debug, Clone, Copy, PartialEq, Eq, Structural)]
pub struct Quality(u32);

impl Quality {
    /// The quality value, in specifications: parts per million.
    pub closed spec fn spec_ppm(self) -> u32 {
        self.0
    }

    /// Validity: the value never exceeds the scale (quality one).
    pub open spec fn wf(self) -> bool {
        self.spec_ppm() <= QUALITY_SCALE
    }

    /// A quality from its parts-per-million value. A value beyond the
    /// scale is out of the quality range, which is a caller error.
    pub fn new(ppm: u32) -> (r: Self)
        requires
            ppm <= QUALITY_SCALE,
        ensures
            r.spec_ppm() == ppm,
            r.wf(),
    {
        Quality(ppm)
    }

    /// The worst possible quality, zero.
    pub fn worst() -> (r: Self)
        ensures
            r.spec_ppm() == 0,
            r.wf(),
    {
        Quality(0)
    }

    /// The best possible quality, one.
    pub fn best() -> (r: Self)
        ensures
            r.spec_ppm() == QUALITY_SCALE,
            r.wf(),
    {
        Quality(QUALITY_SCALE)
    }

    /// The value in parts per million.
    pub fn ppm(&self) -> (r: u32)
        ensures
            r == self.spec_ppm(),
    {
        self.0
    }

    /// Whether this quality clears the given bar: the acceptance test of
    /// the layout race.
    pub fn at_least(&self, bar: &Quality) -> (r: bool)
        ensures
            r == (self.spec_ppm() >= bar.spec_ppm()),
    {
        self.0 >= bar.0
    }
}

/// The tunables of the layout search. All five are required; defaults, if
/// any, belong to the calling layer.
#[derive(Debug, Clone, Copy, PartialEq, Eq, Structural)]
pub struct Options {
    /// The first candidate seed of the race.
    pub seed: u64,
    /// The least quality an embedding must reach to be accepted.
    pub min_quality: Quality,
    /// An upper bound on simplex iterations within one seed's attempt.
    pub max_iters: u64,
    /// The ratio of the maximal squared atom distance to the device limit
    /// above which the overflow-protection cost starts growing, in parts
    /// per million.
    pub overflow_protection_threshold: u64,
    /// The weight of the overflow-protection cost once it is active, in
    /// parts per million.
    pub overflow_protection_factor: u64,
}

/// The dimensions of one seed's simplex search over `num_nodes` nodes: the
/// search space has two coordinates per node, and the simplex method takes
/// one starting point more than there are dimensions.
pub fn simplex_shape(num_nodes: usize) -> (r: (usize, usize))
    requires
        2 * num_nodes + 1 <= usize::MAX,
    ensures
        r.0 == 2 * num_nodes,
        r.1 == 2 * num_nodes + 1,
{
    (2 * num_nodes, 2 * num_nodes + 1)
}

/// The candidate seed of attempt number `k`: the base seed plus `k`,
/// wrapping around the integer range.
pub open spec fn spec_seed(base: u64, k: u64) -> u64 {
    ((base + k) % 0x1_0000_0000_0000_0000) as u64
}

/// The supplier of candidate seeds for the layout race.
///
/// Seeds are handed out in a fixed order, `seed`, `seed + 1`, and so on;
/// each is attempted independently, so within one attempt the search is
/// fully deterministic, while which accepted seed wins the race depends on
/// scheduling. The stream is practically unbounded, but exhaustion is a
/// representable terminal state: once every offset has been handed out the
/// search reports that no solution was found rather than hanging.
#[derive(Debug, Clone, Copy, PartialEq, Eq, Structural)]
pub struct SeedStream {
    base: u64,
    next_offset: u64,
    exhausted: bool,
}

/// What one seed's attempt came to, as reported back to the stream's
/// owner.
#[derive(Debug, Clone, Copy, PartialEq, Eq, Structural)]
pub enum AttemptOutcome {
    /// The embedding cleared the quality bar; the race is over.
    Accepted,
    /// The embedding converged but its quality fell short; the next seed is
    /// tried.
    InsufficientQuality,
    /// The numerical search failed (degenerate simplex, non-finite cost);
    /// recoverable, the next seed is tried.
    Failed,
}

impl SeedStream {
    /// The base seed, in specifications.
    pub closed spec fn spec_base(self) -> u64 {
        self.base
    }

    /// How many seeds were handed out, in specifications.
    pub closed spec fn spec_next_offset(self) -> u64 {
        self.next_offset
    }

    /// Whether every seed was handed out, in specifications.
    pub closed spec fn spec_exhausted(self) -> bool {
        self.exhausted
    }

    /// A fresh stream starting at the caller's base seed.
    pub fn new(base: u64) -> (r: Self)
        ensures
            r.spec_base() == base,
            r.spec_next_offset() == 0,
            !r.spec_exhausted(),
    {
        SeedStream { base, next_offset: 0, exhausted: false }
    }

    /// The next candidate seed, or `NoSolution` once the stream is
    /// exhausted: the seed of attempt `k` is the base seed plus `k`,
    /// wrapping around the integer range.
    pub fn next_seed(&mut self) -> (r: Result<u64, Error>)
        ensures
            final(self).spec_base() == old(self).spec_base(),
            old(self).spec_exhausted() ==> {
                &&& r == Err::<u64, Error>(Error::NoSolution)
                &&& *final(self) == *old(self)
            },
            !old(self).spec_exhausted() ==> {
                &&& r == Ok::<u64, Error>(
                    spec_seed(old(self).spec_base(), old(self).spec_next_offset()),
                )
                &&& (final(self).spec_exhausted() <==> old(self).spec_next_offset()
                    == u64::MAX)
                &&& !(old(self).spec_next_offset() == u64::MAX)
                    ==> final(self).spec_next_offset() == old(self).spec_next_offset() + 1
            },
    {
        if self.exhausted {
            return Err(Error::NoSolution);
        }
        let seed = self.base.wrapping_add(self.next_offset);
        if self.next_offset == u64::MAX {
            self.exhausted = true;
        } else {
            self.next_offset = self.next_offset + 1;
        }
        Ok(seed)
    }

    /// Whether the race goes on after an attempt's outcome: an accepted
    /// embedding ends it, a rejection or a recoverable numerical failure
    /// moves on to the next seed.
    pub fn continues_after(outcome: AttemptOutcome) -> (r: bool)
        ensures
            r == !(outcome is Accepted),
    {
        match outcome {
            AttemptOutcome::Accepted => false,
            AttemptOutcome::InsufficientQuality => true,
            AttemptOutcome::Failed => true,
        }
    }
}

} // verus!
