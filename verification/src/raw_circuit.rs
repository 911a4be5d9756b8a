//! The recorder: a constraint system that keeps structure and nothing else.

use crate::constraint_system::{all_within, built_by, ConstraintSystem};
use crate::error::SynthesisError;
use crate::linear_combination::LinearCombination;
use crate::model::{
    entries, lemma_enforce_column, lemma_entries_empty, lemma_entries_push, lemma_fresh_column, Constraint,
    Matrix, System,
};
use crate::variable::{Index, Variable};
use vstd::prelude::*;

verus! {

/// A constraint system that records what a circuit allocates and enforces.
///
/// The constraints are kept twice: row by row in `lc_a`, `lc_b` and `lc_c`,
/// and column by column, one list of `(coefficient, constraint index)` per
/// variable and matrix. Values of variables are never computed.
#[derive(Debug)]
pub struct RawCircuit<S> {
    /// How many inputs have been allocated.
    pub num_inputs: usize,
    /// How many auxiliary variables have been allocated.
    pub num_aux: usize,
    /// How many constraints have been enforced.
    pub num_constraints: usize,
    /// Per input, its entries in matrix A.
    pub at_inputs: Vec<Vec<(S, usize)>>,
    /// Per input, its entries in matrix B.
    pub bt_inputs: Vec<Vec<(S, usize)>>,
    /// Per input, its entries in matrix C.
    pub ct_inputs: Vec<Vec<(S, usize)>>,
    /// Per auxiliary variable, its entries in matrix A.
    pub at_aux: Vec<Vec<(S, usize)>>,
    /// Per auxiliary variable, its entries in matrix B.
    pub bt_aux: Vec<Vec<(S, usize)>>,
    /// Per auxiliary variable, its entries in matrix C.
    pub ct_aux: Vec<Vec<(S, usize)>>,
    /// The left factor of each constraint.
    pub lc_a: Vec<LinearCombination<S>>,
    /// The right factor of each constraint.
    pub lc_b: Vec<LinearCombination<S>>,
    /// The product of each constraint.
    pub lc_c: Vec<LinearCombination<S>>,
}

/// The lists of a column ledger, each by its entries.
pub open spec fn ledger_view<S>(ledger: Vec<Vec<(S, usize)>>) -> Seq<Seq<(S, usize)>> {
    ledger@.map_values(|col: Vec<(S, usize)>| col@)
}

impl<S> View for RawCircuit<S> {
    type V = System<S>;

    /// The counts and the row form.
    open spec fn view(&self) -> System<S> {
        System {
            num_inputs: self.num_inputs as nat,
            num_aux: self.num_aux as nat,
            constraints: Seq::new(
                self.lc_a@.len(),
                |k: int| Constraint { a: self.lc_a@[k]@, b: self.lc_b@[k]@, c: self.lc_c@[k]@ },
            ),
        }
    }
}

impl<S> RawCircuit<S> {
    /// The column form of matrix `m` for the inputs, by input index.
    pub open spec fn input_columns(&self, m: Matrix) -> Seq<Seq<(S, usize)>> {
        match m {
            Matrix::A => ledger_view(self.at_inputs),
            Matrix::B => ledger_view(self.bt_inputs),
            Matrix::C => ledger_view(self.ct_inputs),
        }
    }

    /// The column form of matrix `m` for the auxiliary variables, by index.
    pub open spec fn aux_columns(&self, m: Matrix) -> Seq<Seq<(S, usize)>> {
        match m {
            Matrix::A => ledger_view(self.at_aux),
            Matrix::B => ledger_view(self.bt_aux),
            Matrix::C => ledger_view(self.ct_aux),
        }
    }

    /// The column that this recorder keeps for `v` in matrix `m`.
    pub open spec fn kept_column(&self, m: Matrix, v: Variable) -> Seq<(S, usize)> {
        match v.0 {
            Index::Input(i) => self.input_columns(m)[i as int],
            Index::Aux(i) => self.aux_columns(m)[i as int],
        }
    }

    /// Whether the column form of matrix `m` is the one that the row form
    /// determines, with one list for each allocated variable.
    pub open spec fn columns_agree(&self, m: Matrix) -> bool {
        &&& self.input_columns(m).len() == self.num_inputs
        &&& self.aux_columns(m).len() == self.num_aux
        &&& forall|v: Variable| self@.has(v) ==> #[trigger] self.kept_column(m, v) == self@.column(m, v)
    }

    /// The invariant of a recorder: the three row vectors run in step with
    /// the constraint count, every constraint is over allocated variables,
    /// and the column form agrees with the row form.
    pub open spec fn wf(&self) -> bool {
        &&& self.lc_a@.len() == self.num_constraints
        &&& self.lc_b@.len() == self.num_constraints
        &&& self.lc_c@.len() == self.num_constraints
        &&& self@.wf()
        &&& self.columns_agree(Matrix::A)
        &&& self.columns_agree(Matrix::B)
        &&& self.columns_agree(Matrix::C)
    }
}

/// Enters the terms of `l`, taken as a side of constraint `this_constraint`,
/// into the columns of their variables.
fn eval<S: Copy>(
    l: &LinearCombination<S>,
    inputs: &mut Vec<Vec<(S, usize)>>,
    aux: &mut Vec<Vec<(S, usize)>>,
    this_constraint: usize,
)
    requires
        forall|j: int|
            0 <= j < l@.len() ==> match (#[trigger] l@[j]).1.0 {
                Index::Input(id) => id < old(inputs)@.len(),
                Index::Aux(id) => id < old(aux)@.len(),
            },
    ensures
        final(inputs)@.len() == old(inputs)@.len(),
        final(aux)@.len() == old(aux)@.len(),
        forall|i: int|
            0 <= i < old(inputs)@.len() ==> (#[trigger] final(inputs)@[i])@ == old(inputs)@[i]@ + entries(
                l@,
                Variable(Index::Input(i as usize)),
                this_constraint,
            ),
        forall|i: int|
            0 <= i < old(aux)@.len() ==> (#[trigger] final(aux)@[i])@ == old(aux)@[i]@ + entries(
                l@,
                Variable(Index::Aux(i as usize)),
                this_constraint,
            ),
{
    let n = l.0.len();
    let mut j: usize = 0;
    proof {
        assert(inputs.len() == inputs@.len() && aux.len() == aux@.len());
        assert forall|v: Variable| #[trigger] entries(l@.take(0), v, this_constraint) == Seq::<(S, usize)>::empty() by {
            assert(l@.take(0) =~= Seq::empty());
            lemma_entries_empty::<S>(v, this_constraint);
        }
    }
    while j < n
        invariant
            j <= n,
            n == l@.len(),
            inputs@.len() == old(inputs)@.len() <= usize::MAX,
            aux@.len() == old(aux)@.len() <= usize::MAX,
            forall|k: int|
                0 <= k < l@.len() ==> match (#[trigger] l@[k]).1.0 {
                    Index::Input(id) => id < inputs@.len(),
                    Index::Aux(id) => id < aux@.len(),
                },
            forall|i: int|
                0 <= i < inputs@.len() ==> (#[trigger] inputs@[i])@ == old(inputs)@[i]@ + entries(
                    l@.take(j as int),
                    Variable(Index::Input(i as usize)),
                    this_constraint,
                ),
            forall|i: int|
                0 <= i < aux@.len() ==> (#[trigger] aux@[i])@ == old(aux)@[i]@ + entries(
                    l@.take(j as int),
                    Variable(Index::Aux(i as usize)),
                    this_constraint,
                ),
        decreases n - j,
    {
        let (coeff, var) = l.0[j];
        let ghost inputs_before = inputs@;
        let ghost aux_before = aux@;
        match var {
            Variable(Index::Input(id)) => inputs[id].push((coeff, this_constraint)),
            Variable(Index::Aux(id)) => aux[id].push((coeff, this_constraint)),
        }
        proof {
            let done = l@.take(j as int);
            assert(l@.take(j + 1) =~= done.push((coeff, var)));
            assert forall|i: int| 0 <= i < inputs@.len() implies (#[trigger] inputs@[i])@ == old(inputs)@[i]@
                + entries(l@.take(j + 1), Variable(Index::Input(i as usize)), this_constraint) by {
                let v = Variable(Index::Input(i as usize));
                lemma_entries_push(done, (coeff, var), v, this_constraint);
                assert(inputs_before[i]@ == old(inputs)@[i]@ + entries(done, v, this_constraint));
                if var == v {
                    assert(inputs@[i]@ == inputs_before[i]@.push((coeff, this_constraint)));
                }
            }
            assert forall|i: int| 0 <= i < aux@.len() implies (#[trigger] aux@[i])@ == old(aux)@[i]@ + entries(
                l@.take(j + 1),
                Variable(Index::Aux(i as usize)),
                this_constraint,
            ) by {
                let v = Variable(Index::Aux(i as usize));
                lemma_entries_push(done, (coeff, var), v, this_constraint);
                assert(aux_before[i]@ == old(aux)@[i]@ + entries(done, v, this_constraint));
                if var == v {
                    assert(aux@[i]@ == aux_before[i]@.push((coeff, this_constraint)));
                }
            }
        }
        j += 1;
    }
    proof {
        assert(l@.take(n as int) =~= l@);
    }
}

impl<S: Copy> RawCircuit<S> {
    /// A recorder that holds nothing yet.
    pub fn new() -> (cs: Self)
        ensures
            cs.wf(),
            cs@ == System::<S>::empty(),
    {
        let cs = RawCircuit {
            num_inputs: 0,
            num_aux: 0,
            num_constraints: 0,
            at_inputs: Vec::new(),
            bt_inputs: Vec::new(),
            ct_inputs: Vec::new(),
            at_aux: Vec::new(),
            bt_aux: Vec::new(),
            ct_aux: Vec::new(),
            lc_a: Vec::new(),
            lc_b: Vec::new(),
            lc_c: Vec::new(),
        };
        assert(cs@.constraints =~= Seq::empty());
        cs
    }

    /// Records the constraint `a * b = c` at the next constraint index, in
    /// the row form and, term by term, in the column form.
    pub fn record_constraint(&mut self, a: LinearCombination<S>, b: LinearCombination<S>, c: LinearCombination<S>)
        requires
            old(self).wf(),
            old(self)@.admits(Constraint::new(a@, b@, c@)),
        ensures
            final(self).wf(),
            final(self)@ == old(self)@.enforce(Constraint::new(a@, b@, c@)),
            final(self).lc_a@ == old(self).lc_a@.push(a),
            final(self).lc_b@ == old(self).lc_b@.push(b),
            final(self).lc_c@ == old(self).lc_c@.push(c),
    {
        let this_constraint = self.num_constraints;
        let ghost row = Constraint::new(a@, b@, c@);
        eval(&a, &mut self.at_inputs, &mut self.at_aux, this_constraint);
        eval(&b, &mut self.bt_inputs, &mut self.bt_aux, this_constraint);
        eval(&c, &mut self.ct_inputs, &mut self.ct_aux, this_constraint);
        self.lc_a.push(a);
        self.lc_b.push(b);
        self.lc_c.push(c);
        assert(self.lc_a.len() == self.lc_a@.len());
        self.num_constraints = this_constraint + 1;
        proof {
            assert(self@.constraints =~= old(self)@.constraints.push(row));
            assert forall|k: int| 0 <= k < self@.constraints.len() implies self@.admits(
                #[trigger] self@.constraints[k],
            ) by {
                if k < old(self)@.constraints.len() {
                    assert(old(self)@.admits(old(self)@.constraints[k]));
                }
            }
            assert forall|m: Matrix, v: Variable| self@.has(v) implies #[trigger] self.kept_column(m, v)
                == self@.column(m, v) by {
                assert(old(self).columns_agree(m));
                assert(old(self).kept_column(m, v) == old(self)@.column(m, v));
                lemma_enforce_column(old(self)@, row, m, v);
            }
        }
    }

    /// Pads every input: for each, in increasing order, one more constraint
    /// whose left factor is `one` times that input and whose other sides are
    /// empty, so that no input is left without an entry in matrix A.
    pub fn pad_inputs(&mut self, one: S)
        requires
            old(self).wf(),
        ensures
            final(self).wf(),
            final(self)@ == old(self)@.padded(one),
    {
        let n = self.num_inputs;
        assert(self@.constraints =~= old(self)@.padded_to(one, 0).constraints);
        for i in 0..n
            invariant
                self.wf(),
                n == old(self)@.num_inputs,
                self@ == old(self)@.padded_to(one, i as nat),
        {
            let a = LinearCombination::zero().add_term(one, Variable(Index::Input(i)));
            let b = LinearCombination::zero();
            let c = LinearCombination::zero();
            proof {
                assert(a@ =~= Constraint::<S>::padding(one, i as nat).a);
                assert(self@.constraints.push(Constraint::padding(one, i as nat)) =~= old(self)@.padded_to(
                    one,
                    (i + 1) as nat,
                ).constraints);
            }
            self.record_constraint(a, b, c);
        }
    }

    /// That an allocation keeps the invariant: `self` is `before` with one
    /// more variable, `fresh`, whose columns are empty.
    proof fn lemma_allocated(&self, before: &Self, fresh: Variable)
        requires
            before.wf(),
            !before@.has(fresh),
            self@.num_inputs <= usize::MAX,
            self@.num_aux <= usize::MAX,
            self@ == before@.alloc_input() && fresh == Variable(Index::Input(before.num_inputs)) || self@
                == before@.alloc_aux() && fresh == Variable(Index::Aux(before.num_aux)),
            self.lc_a == before.lc_a,
            self.lc_b == before.lc_b,
            self.lc_c == before.lc_c,
            self.num_constraints == before.num_constraints,
            forall|m: Matrix|
                #![trigger self.input_columns(m)]
                #![trigger self.aux_columns(m)]
                {
                    &&& self.input_columns(m).len() == self@.num_inputs
                    &&& self.aux_columns(m).len() == self@.num_aux
                    &&& self.kept_column(m, fresh) == Seq::<(S, usize)>::empty()
                    &&& forall|v: Variable|
                        before@.has(v) ==> #[trigger] self.kept_column(m, v) == before.kept_column(m, v)
                },
        ensures
            self.wf(),
            self@.extends(before@),
    {
        assert forall|k: int| 0 <= k < self@.constraints.len() implies self@.admits(
            #[trigger] self@.constraints[k],
        ) by {
            assert(before@.admits(before@.constraints[k]));
        }
        assert forall|m: Matrix, v: Variable| self@.has(v) implies #[trigger] self.kept_column(m, v)
            == self@.column(m, v) by {
            assert(before.columns_agree(m));
            assert(self.input_columns(m).len() == self@.num_inputs);
            if before@.has(v) {
                assert(before.kept_column(m, v) == before@.column(m, v));
            } else {
                assert(v == fresh);
                lemma_fresh_column(before@, m, v);
            }
        }
        assert(before@.constraints.is_prefix_of(self@.constraints));
    }
}

impl<S: Copy> ConstraintSystem<S> for RawCircuit<S> {
    /// The recorder's invariant.
    open spec fn inv(&self) -> bool {
        self.wf()
    }

    /// The counts and the row form.
    open spec fn shape(&self) -> System<S> {
        self@
    }

    /// Allocates the next auxiliary variable and gives it empty columns.
    /// Neither closure is called, and the call never fails.
    #[allow(unused_variables)]
    fn alloc_aux<F, A, AR>(&mut self, annotation: A, f: F) -> (r: Result<Variable, SynthesisError>) where
        F: FnOnce() -> Result<S, SynthesisError>,
        A: FnOnce() -> AR,
        AR: Into<String>,

        ensures
            r == Ok::<Variable, SynthesisError>(Variable(Index::Aux(old(self).num_aux))),
            final(self)@ == old(self)@.alloc_aux(),
    {
        let index = self.num_aux;
        self.at_aux.push(Vec::new());
        self.bt_aux.push(Vec::new());
        self.ct_aux.push(Vec::new());
        assert(self.at_aux.len() == self.at_aux@.len());
        self.num_aux = index + 1;
        proof {
            assert(old(self).columns_agree(Matrix::A) && old(self).columns_agree(Matrix::B) && old(
                self,
            ).columns_agree(Matrix::C));
            assert(self@.constraints =~= old(self)@.constraints);
            self.lemma_allocated(old(self), Variable(Index::Aux(index)));
        }
        Ok(Variable(Index::Aux(index)))
    }

    /// Allocates the next input and gives it empty columns. Neither closure
    /// is called, and the call never fails.
    #[allow(unused_variables)]
    fn alloc_input<F, A, AR>(&mut self, annotation: A, f: F) -> (r: Result<Variable, SynthesisError>) where
        F: FnOnce() -> Result<S, SynthesisError>,
        A: FnOnce() -> AR,
        AR: Into<String>,

        ensures
            r == Ok::<Variable, SynthesisError>(Variable(Index::Input(old(self).num_inputs))),
            final(self)@ == old(self)@.alloc_input(),
    {
        let index = self.num_inputs;
        self.at_inputs.push(Vec::new());
        self.bt_inputs.push(Vec::new());
        self.ct_inputs.push(Vec::new());
        assert(self.at_inputs.len() == self.at_inputs@.len());
        self.num_inputs = index + 1;
        proof {
            assert(old(self).columns_agree(Matrix::A) && old(self).columns_agree(Matrix::B) && old(
                self,
            ).columns_agree(Matrix::C));
            assert(self@.constraints =~= old(self)@.constraints);
            self.lemma_allocated(old(self), Variable(Index::Input(index)));
        }
        Ok(Variable(Index::Input(index)))
    }

    /// Builds the three sides, each from the empty combination, and records
    /// them as the next constraint. The name is not called.
    #[allow(unused_variables)]
    fn enforce<A, AR, LA, LB, LC>(&mut self, annotation: A, a: LA, b: LB, c: LC) where
        A: FnOnce() -> AR,
        AR: Into<String>,
        LA: FnOnce(LinearCombination<S>) -> LinearCombination<S>,
        LB: FnOnce(LinearCombination<S>) -> LinearCombination<S>,
        LC: FnOnce(LinearCombination<S>) -> LinearCombination<S>,

    {
        let ghost known = |v: Variable| old(self).shape().has(v);
        let a_zero = LinearCombination::zero();
        let b_zero = LinearCombination::zero();
        let c_zero = LinearCombination::zero();
        let ghost zeros = (a_zero, b_zero, c_zero);
        let la = a(a_zero);
        let lb = b(b_zero);
        let lc = c(c_zero);
        let ghost row = Constraint::new(la@, lb@, lc@);
        proof {
            assert(call_ensures(a, (zeros.0,), la) && all_within(known, la@) && built_by(a, row.a));
            assert(call_ensures(b, (zeros.1,), lb) && all_within(known, lb@) && built_by(b, row.b));
            assert(call_ensures(c, (zeros.2,), lc) && all_within(known, lc@) && built_by(c, row.c));
        }
        self.record_constraint(la, lb, lc);
        proof {
            assert(self@ == old(self)@.enforce(row));
            assert(old(self)@.constraints.is_prefix_of(self@.constraints));
        }
    }

    /// Does nothing: names are not kept, and `name_fn` is not called.
    #[allow(unused_variables)]
    fn push_namespace<NR, N>(&mut self, name_fn: N) where NR: Into<String>, N: FnOnce() -> NR
        ensures
            *final(self) == *old(self),
    {
    }

    /// Does nothing: names are not kept.
    fn pop_namespace(&mut self)
        ensures
            *final(self) == *old(self),
    {
    }

    /// The recorder itself: there are no nested namespaces.
    fn get_root(&mut self) -> (root: &mut Self) {
        self
    }
}

} // verus!
