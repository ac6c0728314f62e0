//! The compiled program format.
//!
//! A compiled problem is stored as the original problem side by side with
//! the serialized pulse sequence that was compiled from it, so that a later
//! run can both execute the sequence and interpret the measured results.
//! Serializing the sequence itself is the wire-format layer's work; here
//! the sequence is an opaque string.

use vstd::prelude::*;

verus! {

use crate::frontend::Input;

/// A compiled program: the problem it was compiled from, and the pulse
/// sequence to execute, already serialized.
pub struct Code {
    /// The problem, kept to interpret measured results.
    pub problem: Input,
    /// The serialized pulse sequence.
    pub sequence: String,
}

} // verus!
