//! The mathematical model of a recorded constraint system.
//!
//! Everything here is specification: a system is its two allocation counts
//! and the sequence of its constraints, and the column form is a function of
//! that sequence.

use crate::variable::{Index, Variable};
use vstd::prelude::*;

verus! {

/// One of the three matrices of a rank-1 constraint system.
#[derive(Clone, Copy, Debug, PartialEq, Eq, Structural)]
pub enum Matrix {
    /// Left factors.
    A,
    /// Right factors.
    B,
    /// Products.
    C,
}

/// A constraint `a * b = c`, each side by its terms in insertion order.
pub struct Constraint<S> {
    pub a: Seq<(S, Variable)>,
    pub b: Seq<(S, Variable)>,
    pub c: Seq<(S, Variable)>,
}

impl<S> Constraint<S> {
    /// The constraint with the sides `a`, `b` and `c`.
    pub open spec fn new(a: Seq<(S, Variable)>, b: Seq<(S, Variable)>, c: Seq<(S, Variable)>) -> Self {
        Constraint { a, b, c }
    }

    /// The side of this constraint that belongs to matrix `m`.
    pub open spec fn lc(self, m: Matrix) -> Seq<(S, Variable)> {
        match m {
            Matrix::A => self.a,
            Matrix::B => self.b,
            Matrix::C => self.c,
        }
    }

    /// The constraint `one * input_i * 0 = 0` that pads input `i`.
    pub open spec fn padding(one: S, i: nat) -> Self {
        Constraint { a: seq![(one, Variable(Index::Input(i as usize)))], b: Seq::empty(), c: Seq::empty() }
    }
}

/// The test "this term is on variable `v`".
pub open spec fn on_variable<S>(v: Variable) -> spec_fn((S, Variable)) -> bool {
    |t: (S, Variable)| t.1 == v
}

/// The map from a term to its column entry in constraint `c`.
pub open spec fn entry_in<S>(c: usize) -> spec_fn((S, Variable)) -> (S, usize) {
    |t: (S, Variable)| (t.0, c)
}

/// What one term list contributes to the column of `v`: for each term on `v`,
/// in order, its coefficient paired with the constraint index `c`.
pub open spec fn entries<S>(lc: Seq<(S, Variable)>, v: Variable, c: usize) -> Seq<(S, usize)> {
    lc.filter(on_variable(v)).map_values(entry_in(c))
}

/// The column of `v` in a matrix given row by row: the contributions of the
/// rows, in the order of the rows.
pub open spec fn column<S>(lcs: Seq<Seq<(S, Variable)>>, v: Variable) -> Seq<(S, usize)>
    decreases lcs.len(),
{
    if lcs.len() == 0 {
        Seq::empty()
    } else {
        column(lcs.drop_last(), v) + entries(lcs.last(), v, (lcs.len() - 1) as usize)
    }
}

/// One step a circuit can take against a constraint system.
pub enum Op<S> {
    /// Allocate a public input.
    AllocInput,
    /// Allocate an auxiliary variable.
    AllocAux,
    /// Enforce a constraint.
    Enforce(Constraint<S>),
}

/// A constraint system as far as its structure goes.
pub struct System<S> {
    /// How many inputs have been allocated.
    pub num_inputs: nat,
    /// How many auxiliary variables have been allocated.
    pub num_aux: nat,
    /// The constraints in the order they were enforced.
    pub constraints: Seq<Constraint<S>>,
}

impl<S> System<S> {
    /// The system with no variable and no constraint.
    pub open spec fn empty() -> Self {
        System { num_inputs: 0, num_aux: 0, constraints: Seq::empty() }
    }

    /// What a circuit finds when a run starts: no constraint, and one input,
    /// which stands for the constant one.
    pub open spec fn initial() -> Self {
        Self::empty().alloc_input()
    }

    /// Whether `v` has been allocated.
    pub open spec fn has(self, v: Variable) -> bool {
        match v.0 {
            Index::Input(i) => i < self.num_inputs,
            Index::Aux(i) => i < self.num_aux,
        }
    }

    /// Whether every variable of `lc` has been allocated.
    pub open spec fn has_all(self, lc: Seq<(S, Variable)>) -> bool {
        forall|j: int| 0 <= j < lc.len() ==> self.has((#[trigger] lc[j]).1)
    }

    /// Whether constraint `row` mentions allocated variables only.
    pub open spec fn admits(self, row: Constraint<S>) -> bool {
        self.has_all(row.a) && self.has_all(row.b) && self.has_all(row.c)
    }

    /// Every constraint mentions allocated variables only, and the counts are
    /// such that every index fits a machine word.
    pub open spec fn wf(self) -> bool {
        &&& self.num_inputs <= usize::MAX
        &&& self.num_aux <= usize::MAX
        &&& self.constraints.len() <= usize::MAX
        &&& forall|k: int| 0 <= k < self.constraints.len() ==> self.admits(#[trigger] self.constraints[k])
    }

    /// The system after one more input was allocated.
    pub open spec fn alloc_input(self) -> Self {
        System { num_inputs: self.num_inputs + 1, ..self }
    }

    /// The system after one more auxiliary variable was allocated.
    pub open spec fn alloc_aux(self) -> Self {
        System { num_aux: self.num_aux + 1, ..self }
    }

    /// The system after `row` was enforced.
    pub open spec fn enforce(self, row: Constraint<S>) -> Self {
        System { constraints: self.constraints.push(row), ..self }
    }

    /// The system after step `op`.
    pub open spec fn apply(self, op: Op<S>) -> Self {
        match op {
            Op::AllocInput => self.alloc_input(),
            Op::AllocAux => self.alloc_aux(),
            Op::Enforce(row) => self.enforce(row),
        }
    }

    /// The system after the steps `ops`, taken in order.
    pub open spec fn run(self, ops: Seq<Op<S>>) -> Self
        decreases ops.len(),
    {
        if ops.len() == 0 {
            self
        } else {
            self.run(ops.drop_last()).apply(ops.last())
        }
    }

    /// Matrix `m` row by row.
    pub open spec fn rows(self, m: Matrix) -> Seq<Seq<(S, Variable)>> {
        self.constraints.map_values(|row: Constraint<S>| row.lc(m))
    }

    /// The column of `v` in matrix `m`.
    pub open spec fn column(self, m: Matrix, v: Variable) -> Seq<(S, usize)> {
        column(self.rows(m), v)
    }

    /// The system with the inputs below `n` padded: one more constraint for
    /// each, in increasing order.
    pub open spec fn padded_to(self, one: S, n: nat) -> Self {
        System {
            constraints: self.constraints + Seq::new(n, |i: int| Constraint::padding(one, i as nat)),
            ..self
        }
    }

    /// The system with every input padded.
    pub open spec fn padded(self, one: S) -> Self {
        self.padded_to(one, self.num_inputs)
    }

    /// Whether this system has grown out of `earlier` by allocating and
    /// enforcing only: nothing was removed and no constraint changed.
    pub open spec fn extends(self, earlier: Self) -> bool {
        &&& earlier.num_inputs <= self.num_inputs
        &&& earlier.num_aux <= self.num_aux
        &&& earlier.constraints.is_prefix_of(self.constraints)
    }
}

/// Adding a term to a term list adds its entry to the column of its variable
/// and leaves the other columns alone.
pub proof fn lemma_entries_push<S>(lc: Seq<(S, Variable)>, t: (S, Variable), v: Variable, c: usize)
    ensures
        entries(lc.push(t), v, c) == if t.1 == v {
            entries(lc, v, c).push((t.0, c))
        } else {
            entries(lc, v, c)
        },
{
    lc.lemma_filter_push(t, on_variable(v));
    if t.1 == v {
        assert(entries(lc.push(t), v, c) =~= entries(lc, v, c).push((t.0, c)));
    }
}

/// A term list that does not mention `v` contributes nothing to its column.
pub proof fn lemma_entries_absent<S>(lc: Seq<(S, Variable)>, v: Variable, c: usize)
    requires
        forall|j: int| 0 <= j < lc.len() ==> (#[trigger] lc[j]).1 != v,
    ensures
        entries(lc, v, c) == Seq::<(S, usize)>::empty(),
    decreases lc.len(),
{
    if lc.len() == 0 {
        lemma_entries_empty::<S>(v, c);
        assert(lc =~= Seq::empty());
    } else {
        lemma_entries_absent(lc.drop_last(), v, c);
        lemma_entries_push(lc.drop_last(), lc.last(), v, c);
        assert(lc.drop_last().push(lc.last()) =~= lc);
    }
}

/// The empty term list contributes nothing.
pub proof fn lemma_entries_empty<S>(v: Variable, c: usize)
    ensures
        entries(Seq::<(S, Variable)>::empty(), v, c) == Seq::<(S, usize)>::empty(),
{
    reveal(Seq::filter);
    assert(Seq::<(S, Variable)>::empty().filter(on_variable(v)) =~= Seq::empty());
    assert(entries(Seq::<(S, Variable)>::empty(), v, c) =~= Seq::empty());
}

/// One more row adds its contribution at the end of each column.
pub proof fn lemma_column_push<S>(lcs: Seq<Seq<(S, Variable)>>, lc: Seq<(S, Variable)>, v: Variable)
    ensures
        column(lcs.push(lc), v) == column(lcs, v) + entries(lc, v, lcs.len() as usize),
{
    assert(lcs.push(lc).drop_last() =~= lcs);
}

/// The column of a variable that no row mentions is empty.
pub proof fn lemma_column_absent<S>(lcs: Seq<Seq<(S, Variable)>>, v: Variable)
    requires
        forall|k: int, j: int|
            0 <= k < lcs.len() && 0 <= j < lcs[k].len() ==> (#[trigger] lcs[k][j]).1 != v,
    ensures
        column(lcs, v) == Seq::<(S, usize)>::empty(),
    decreases lcs.len(),
{
    if lcs.len() > 0 {
        lemma_column_absent(lcs.drop_last(), v);
        let last = lcs.last();
        assert forall|j: int| 0 <= j < last.len() implies (#[trigger] last[j]).1 != v by {
            assert(lcs[lcs.len() - 1][j].1 != v);
        }
        lemma_entries_absent(last, v, (lcs.len() - 1) as usize);
    }
}

/// Enforcing a constraint adds its contribution at the end of each column
/// and changes nothing else in it.
pub proof fn lemma_enforce_column<S>(s: System<S>, row: Constraint<S>, m: Matrix, v: Variable)
    ensures
        s.enforce(row).column(m, v) == s.column(m, v) + entries(row.lc(m), v, s.constraints.len() as usize),
{
    assert(s.enforce(row).rows(m) =~= s.rows(m).push(row.lc(m)));
    lemma_column_push(s.rows(m), row.lc(m), v);
}

/// A variable that has not been allocated has empty columns.
pub proof fn lemma_fresh_column<S>(s: System<S>, m: Matrix, v: Variable)
    requires
        s.wf(),
        !s.has(v),
    ensures
        s.column(m, v) == Seq::<(S, usize)>::empty(),
{
    let lcs = s.rows(m);
    assert forall|k: int, j: int| 0 <= k < lcs.len() && 0 <= j < lcs[k].len() implies (#[trigger] lcs[k][j]).1
        != v by {
        let row = s.constraints[k];
        assert(s.admits(row));
        assert(lcs[k] == row.lc(m));
        assert(s.has_all(row.lc(m)));
        assert(s.has(row.lc(m)[j].1));
    }
    lemma_column_absent(lcs, v);
}

} // verus!
