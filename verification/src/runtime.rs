//! Measured results handed back by the execution collaborator.
//!
//! Running a compiled program on a quantum processor or an emulator yields a
//! multiset of measured bitstrings. The execution itself is an external
//! collaborator; this module holds the data type its results arrive in and
//! the conversion the interpretation logic reads them through.

use vstd::prelude::*;

verus! {

use vstd::string::StrSliceExecFns;

/// One measured outcome: a bitstring, one character per qubit in register
/// order, and how many times it was observed.
#[derive(Debug, Clone)]
pub struct Sample {
    /// The measured values, `'1'` for one, anything else for zero.
    pub bitstring: String,
    /// How many runs measured this outcome.
    pub instances: u64,
}

impl Sample {
    /// The measured values as booleans, one per qubit: a character is read
    /// as `true` exactly when it is `'1'`.
    pub fn bits(&self) -> (r: Vec<bool>)
        ensures
            r@.len() == self.bitstring@.len(),
            forall|i: int| 0 <= i < r@.len() ==> r@[i] == (self.bitstring@[i] == '1'),
    {
        let mut r: Vec<bool> = Vec::new();
        let n = self.bitstring.as_str().unicode_len();
        let mut i: usize = 0;
        while i < n
            invariant
                n == self.bitstring@.len(),
                i <= n,
                r@.len() == i,
                forall|j: int| 0 <= j < i ==> r@[j] == (self.bitstring@[j] == '1'),
            decreases n - i,
        {
            let c = self.bitstring.as_str().get_char(i);
            r.push(c == '1');
            i = i + 1;
        }
        r
    }
}

} // verus!
