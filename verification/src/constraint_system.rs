//! The capabilities a circuit is written against, and circuits themselves.

use crate::error::SynthesisError;
use crate::linear_combination::LinearCombination;
use crate::model::{Constraint, System};
use crate::variable::Variable;
use vstd::prelude::*;

verus! {

/// Whether every variable of `lc` is among `known`.
pub open spec fn all_within<S>(known: spec_fn(Variable) -> bool, lc: Seq<(S, Variable)>) -> bool {
    forall|j: int| 0 <= j < lc.len() ==> known((#[trigger] lc[j]).1)
}

/// Whether `build` may be called on the empty combination and then returns
/// a combination over `known` variables only.
pub open spec fn builds_within<S, L: FnOnce(LinearCombination<S>) -> LinearCombination<S>>(
    known: spec_fn(Variable) -> bool,
    build: L,
) -> bool {
    &&& forall|zero: LinearCombination<S>| zero@.len() == 0 ==> #[trigger] call_requires(build, (zero,))
    &&& forall|zero: LinearCombination<S>, out: LinearCombination<S>|
        zero@.len() == 0 && #[trigger] call_ensures(build, (zero,), out) ==> all_within(known, out@)
}

/// Whether `terms` is what `build` can return for the empty combination.
pub open spec fn built_by<S, L: FnOnce(LinearCombination<S>) -> LinearCombination<S>>(
    build: L,
    terms: Seq<(S, Variable)>,
) -> bool {
    exists|zero: LinearCombination<S>, out: LinearCombination<S>|
        zero@.len() == 0 && #[trigger] call_ensures(build, (zero,), out) && out@ == terms
}

/// A system that hands out variables and takes constraints over them.
///
/// A circuit is written against this interface alone, so that one circuit
/// can be run by a recorder of structure as well as by an implementation
/// that computes witnesses. Names and values are passed as closures, so that
/// an implementation that keeps neither never has them computed; nothing is
/// asked of these closures here.
pub trait ConstraintSystem<S: Copy>: Sized {
    /// The state is consistent.
    spec fn inv(&self) -> bool;

    /// The structure taken so far: how many variables of each kind have been
    /// handed out, and the constraints in the order they were enforced.
    spec fn shape(&self) -> System<S>;

    /// Allocates an auxiliary variable, whose value `f` would compute. Where
    /// that succeeds, the variable returned is the next auxiliary variable,
    /// one that was not handed out before; where it fails, nothing that was
    /// there is lost.
    fn alloc_aux<F, A, AR>(&mut self, annotation: A, f: F) -> (r: Result<Variable, SynthesisError>) where
        F: FnOnce() -> Result<S, SynthesisError>,
        A: FnOnce() -> AR,
        AR: Into<String>,

        requires
            old(self).inv(),
        ensures
            final(self).inv(),
            final(self).shape().extends(old(self).shape()),
            r matches Ok(v) ==> {
                &&& v.0 is Aux
                &&& !old(self).shape().has(v)
                &&& final(self).shape().has(v)
                &&& final(self).shape() == old(self).shape().alloc_aux()
            },
    ;

    /// Allocates a public input, whose value `f` would compute. Where that
    /// succeeds, the variable returned is the next input, one that was not
    /// handed out before; where it fails, nothing that was there is lost.
    fn alloc_input<F, A, AR>(&mut self, annotation: A, f: F) -> (r: Result<Variable, SynthesisError>) where
        F: FnOnce() -> Result<S, SynthesisError>,
        A: FnOnce() -> AR,
        AR: Into<String>,

        requires
            old(self).inv(),
        ensures
            final(self).inv(),
            final(self).shape().extends(old(self).shape()),
            r matches Ok(v) ==> {
                &&& v.0 is Input
                &&& !old(self).shape().has(v)
                &&& final(self).shape().has(v)
                &&& final(self).shape() == old(self).shape().alloc_input()
            },
    ;

    /// Enforces `A * B = C`, each side built from the empty combination by
    /// its closure: the constraint that the closures built is the next one.
    fn enforce<A, AR, LA, LB, LC>(&mut self, annotation: A, a: LA, b: LB, c: LC) where
        A: FnOnce() -> AR,
        AR: Into<String>,
        LA: FnOnce(LinearCombination<S>) -> LinearCombination<S>,
        LB: FnOnce(LinearCombination<S>) -> LinearCombination<S>,
        LC: FnOnce(LinearCombination<S>) -> LinearCombination<S>,

        requires
            old(self).inv(),
            builds_within(|v: Variable| old(self).shape().has(v), a),
            builds_within(|v: Variable| old(self).shape().has(v), b),
            builds_within(|v: Variable| old(self).shape().has(v), c),
        ensures
            final(self).inv(),
            exists|row: Constraint<S>|
                built_by(a, row.a) && built_by(b, row.b) && built_by(c, row.c) && final(self).shape()
                    == #[trigger] old(self).shape().enforce(row),
    ;

    /// Opens a namespace for what follows. The structure is not touched.
    fn push_namespace<NR, N>(&mut self, name_fn: N) where NR: Into<String>, N: FnOnce() -> NR
        requires
            old(self).inv(),
        ensures
            final(self).inv(),
            final(self).shape() == old(self).shape(),
    ;

    /// Closes the namespace opened last. The structure is not touched.
    fn pop_namespace(&mut self)
        requires
            old(self).inv(),
        ensures
            final(self).inv(),
            final(self).shape() == old(self).shape(),
    ;

    /// The system at the root of all namespaces.
    fn get_root(&mut self) -> (root: &mut Self)
        ensures
            *root == *old(self),
            *final(self) == *final(root),
    ;
}

/// A circuit: a routine that allocates variables and enforces constraints.
pub trait Circuit<S: Copy> {
    /// What a run of this circuit can do: whether, started on a system of
    /// the shape `before`, it can leave one of the shape `after` and return
    /// `r`. This is the circuit's own account of itself; a circuit that says
    /// nothing of itself keeps this one, which allows everything.
    open spec fn synthesized(&self, before: System<S>, after: System<S>, r: Result<(), SynthesisError>) -> bool {
        true
    }

    /// Builds the circuit inside `cs`, or says why it cannot.
    ///
    /// The routine finds input 0 allocated: it stands for the constant one.
    /// It acts on `cs` through the operations of [`ConstraintSystem`] only
    /// and meets what they require, so it hands `cs` back consistent and
    /// grown, also where it fails. Verus proves this of an implementation
    /// that it verifies; of any other it is taken on trust.
    fn synthesize<CS: ConstraintSystem<S>>(self, cs: &mut CS) -> (r: Result<(), SynthesisError>)
        requires
            old(cs).inv(),
            old(cs).shape().has(Variable::one()),
        ensures
            final(cs).inv(),
            final(cs).shape().extends(old(cs).shape()),
            self.synthesized(old(cs).shape(), final(cs).shape(), r),
    ;
}

} // verus!
