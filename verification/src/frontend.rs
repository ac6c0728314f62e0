//! Problem frontends.
//!
//! Problems enter the pipeline either as raw QUBO constraints or as a
//! max-3-SAT formula that is reduced to QUBO constraints.

use vstd::prelude::*;

pub mod max3sat;

verus! {

use crate::qubo::Constraints;

/// A problem in one of the formats the pipeline understands.
pub enum Input {
    /// Raw QUBO constraints.
    Qubo(Constraints),
    /// An input for maximal 3-SAT.
    Max3Sat(max3sat::Input),
}

impl Input {
    /// Compiles the input to a set of QUBO constraints: raw constraints
    /// pass through unchanged, a max-3-SAT formula is reduced.
    pub fn to_constraints(&self) -> (r: Result<Constraints, max3sat::ReduceError>)
        requires
            self matches Input::Max3Sat(input) ==> {
                &&& 44 * input.conjunction@.len() <= i64::MAX
                &&& ({
                    let nmax = max3sat::base_names(input.conjunction@).len()
                        + input.conjunction@.len();
                    nmax * nmax <= usize::MAX
                })
            },
        ensures
            self matches Input::Qubo(c) ==> {
                &&& r matches Ok(m)
                &&& m.spec_num_nodes() == c.spec_num_nodes()
                &&& m.spec_data() == c.spec_data()
                &&& m.spec_names() == c.spec_names()
            },
            self matches Input::Max3Sat(input) ==> {
                &&& (r is Ok <==> max3sat::sizes_ok(input.conjunction@))
                &&& (r matches Ok(m) ==> {
                    &&& m.wf()
                    &&& m.spec_num_nodes() == max3sat::spec_reduction(input.conjunction@).0
                    &&& m.spec_data() == max3sat::spec_reduction(input.conjunction@).1
                    &&& m.spec_names() == max3sat::spec_reduction(input.conjunction@).2
                })
            },
    {
        match self {
            Input::Max3Sat(input) => input.to_qubo(),
            Input::Qubo(input) => Ok(input.duplicate()),
        }
    }
}

} // verus!
