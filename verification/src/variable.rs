//! Variables of a constraint system: an index tagged with its namespace.

use vstd::prelude::*;

verus! {

/// Position of a variable within one of the two disjoint namespaces.
#[derive(Clone, Copy, Debug, PartialEq, Eq, Structural)]
pub enum Index {
    /// A public input, known to prover and verifier.
    Input(usize),
    /// An auxiliary (witness) variable, known to the prover only.
    Aux(usize),
}

/// A variable of a constraint system.
#[derive(Clone, Copy, Debug, PartialEq, Eq, Structural)]
pub struct Variable(pub Index);

impl Variable {
    /// The input that stands for the constant one: input 0 by convention.
    pub open spec fn spec_one() -> Variable {
        Variable(Index::Input(0))
    }

    /// The input that stands for the constant one: input 0 by convention.
    #[verifier::when_used_as_spec(spec_one)]
    pub fn one() -> (v: Variable)
        ensures
            v == Variable(Index::Input(0)),
    {
        Variable(Index::Input(0))
    }

    /// Wraps an index without checking that any system has handed it out.
    pub fn new_unchecked(idx: Index) -> (v: Variable)
        ensures
            v == Variable(idx),
    {
        Variable(idx)
    }

    /// The index of this variable.
    pub fn get_unchecked(&self) -> (idx: Index)
        ensures
            idx == self.0,
    {
        self.0
    }
}

} // verus!
