//! The wire-format vocabulary of register descriptions.

use vstd::prelude::*;

verus! {

/// A name for a qubit.
#[derive(Clone, Debug, PartialEq, Eq, Hash)]
pub struct QubitId(pub String);

impl View for QubitId {
    type V = Seq<char>;

    open spec fn view(&self) -> Seq<char> {
        self.0@
    }
}

} // verus!
