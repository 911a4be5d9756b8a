//! Sparse weighted sums of variables.

use crate::variable::Variable;
use vstd::prelude::*;

verus! {

/// A weighted sum of variables, kept as its terms in the order they were added.
///
/// A variable may occur in several terms; such terms add up and are never
/// merged here.
#[derive(Clone, Debug, PartialEq, Eq)]
pub struct LinearCombination<S>(pub Vec<(S, Variable)>);

impl<S> View for LinearCombination<S> {
    type V = Seq<(S, Variable)>;

    /// The terms `(coefficient, variable)` in insertion order.
    open spec fn view(&self) -> Seq<(S, Variable)> {
        self.0@
    }
}

impl<S> LinearCombination<S> {
    /// The empty sum.
    pub fn zero() -> (lc: Self)
        ensures
            lc@ == Seq::<(S, Variable)>::empty(),
    {
        LinearCombination(Vec::new())
    }

    /// Appends the term `coeff * var`, whatever terms are already there.
    pub fn add_term(self, coeff: S, var: Variable) -> (lc: Self)
        ensures
            lc@ == self@.push((coeff, var)),
    {
        let mut terms = self.0;
        terms.push((coeff, var));
        LinearCombination(terms)
    }
}

} // verus!
