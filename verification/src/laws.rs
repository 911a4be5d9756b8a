//! What holds of every recorder and of every run.

use crate::model::{column, entries, lemma_entries_empty, lemma_entries_push, Constraint, Matrix, Op, System};
use crate::raw_circuit::RawCircuit;
use crate::variable::{Index, Variable};
use vstd::prelude::*;

verus! {

/// The test "this step allocates an input".
pub open spec fn allocates_input<S>() -> spec_fn(Op<S>) -> bool {
    |op: Op<S>| op is AllocInput
}

/// The test "this step allocates an auxiliary variable".
pub open spec fn allocates_aux<S>() -> spec_fn(Op<S>) -> bool {
    |op: Op<S>| op is AllocAux
}

/// The test "this step enforces a constraint".
pub open spec fn enforces<S>() -> spec_fn(Op<S>) -> bool {
    |op: Op<S>| op is Enforce
}

/// Counts are what the steps add up to: running `ops` on `start` adds one
/// input for each step that allocates an input, one auxiliary variable for
/// each step that allocates one, and one constraint for each step that
/// enforces one, after the constraints that were there.
pub proof fn lemma_run_counts<S>(start: System<S>, ops: Seq<Op<S>>)
    ensures
        start.run(ops).num_inputs == start.num_inputs + ops.filter(allocates_input()).len(),
        start.run(ops).num_aux == start.num_aux + ops.filter(allocates_aux()).len(),
        start.run(ops).constraints.len() == start.constraints.len() + ops.filter(enforces()).len(),
        start.run(ops).extends(start),
    decreases ops.len(),
{
    reveal(Seq::filter);
    if ops.len() == 0 {
        assert(start.constraints.is_prefix_of(start.constraints));
    } else {
        let init = ops.drop_last();
        lemma_run_counts(start, init);
        assert(init.push(ops.last()) =~= ops);
        init.lemma_filter_push(ops.last(), allocates_input());
        init.lemma_filter_push(ops.last(), allocates_aux());
        init.lemma_filter_push(ops.last(), enforces());
        assert(start.constraints.is_prefix_of(start.run(ops).constraints));
    }
}

/// A recorder that has taken the steps `ops` since it was created holds as
/// many constraints in each row vector as `ops` enforces, as many input
/// columns per matrix as `ops` allocates inputs, and as many auxiliary
/// columns per matrix as `ops` allocates auxiliary variables.
pub proof fn lemma_recorder_sizes<S>(cs: RawCircuit<S>, ops: Seq<Op<S>>, m: Matrix)
    requires
        cs.wf(),
        cs@ == System::<S>::empty().run(ops),
    ensures
        cs.lc_a@.len() == ops.filter(enforces()).len(),
        cs.lc_b@.len() == ops.filter(enforces()).len(),
        cs.lc_c@.len() == ops.filter(enforces()).len(),
        cs.num_constraints == ops.filter(enforces()).len(),
        cs.input_columns(m).len() == ops.filter(allocates_input()).len(),
        cs.aux_columns(m).len() == ops.filter(allocates_aux()).len(),
{
    lemma_run_counts(System::<S>::empty(), ops);
    assert(cs.columns_agree(m));
}

/// Growth is reflexive: a system has grown out of itself.
pub proof fn lemma_extends_reflexive<S>(s: System<S>)
    ensures
        s.extends(s),
{
    assert(s.constraints.is_prefix_of(s.constraints));
}

/// Growth composes, and what was allocated stays allocated: a recorder only
/// ever appends.
pub proof fn lemma_extends_transitive<S>(later: System<S>, middle: System<S>, earlier: System<S>)
    requires
        later.extends(middle),
        middle.extends(earlier),
    ensures
        later.extends(earlier),
        forall|v: Variable| earlier.has(v) ==> later.has(v),
        forall|k: int| 0 <= k < earlier.constraints.len() ==> later.constraints[k] == earlier.constraints[k],
{
    assert(earlier.constraints.is_prefix_of(later.constraints));
}

/// Padding adds exactly one constraint per input and touches nothing else:
/// the counts stay, the constraints that were there stay where they were,
/// and the constraint that follows them at distance `i` pads input `i`: its
/// left factor is the single term `one` times input `i`, its right factor
/// and its product are empty.
pub proof fn lemma_padded<S>(s: System<S>, one: S)
    ensures
        s.padded(one).num_inputs == s.num_inputs,
        s.padded(one).num_aux == s.num_aux,
        s.padded(one).constraints.len() == s.constraints.len() + s.num_inputs,
        forall|k: int| 0 <= k < s.constraints.len() ==> #[trigger] s.padded(one).constraints[k] == s.constraints[k],
        forall|i: int|
            0 <= i < s.num_inputs ==> {
                let row = #[trigger] s.padded(one).constraints[s.constraints.len() + i];
                &&& row == Constraint::padding(one, i as nat)
                &&& row.a == seq![(one, Variable(Index::Input(i as usize)))]
                &&& row.b == Seq::<(S, Variable)>::empty()
                &&& row.c == Seq::<(S, Variable)>::empty()
            },
{
}

/// After a run of `ops` and the padding, the constraints number those that
/// `ops` enforces plus one for the reserved input and one for each input
/// that `ops` allocates.
pub proof fn lemma_export_len<S>(ops: Seq<Op<S>>, one: S)
    ensures
        System::<S>::initial().run(ops).padded(one).constraints.len() == ops.filter(enforces()).len() + 1 + ops.filter(
            allocates_input(),
        ).len(),
{
    lemma_run_counts(System::<S>::initial(), ops);
    lemma_padded(System::<S>::initial().run(ops), one);
}

/// Input 0 is reserved: it is allocated when a run starts and stays so
/// whatever steps follow. No later allocation returns it: an allocation
/// returns a variable that was not allocated before, and such a variable is
/// not input 0.
pub proof fn lemma_one_is_reserved<S>(ops: Seq<Op<S>>)
    ensures
        System::<S>::initial().has(Variable::one()),
        System::<S>::initial().run(ops).has(Variable::one()),
        System::<S>::initial().run(ops).num_inputs >= 1,
        forall|v: Variable| !System::<S>::initial().run(ops).has(v) ==> v != Variable::one(),
{
    lemma_run_counts(System::<S>::initial(), ops);
}

/// Whatever grows out of the start of a run still has input 0.
pub proof fn lemma_extension_keeps_one<S>(s: System<S>)
    requires
        s.extends(System::<S>::initial()),
    ensures
        s.has(Variable::one()),
        s.num_inputs >= 1,
{
}

/// A recorder holds nothing but its history: two recorders that have taken
/// the same steps since they were created agree on every row and on every
/// column, coefficient by coefficient and in the same order.
pub proof fn lemma_same_steps_same_record<S>(first: RawCircuit<S>, second: RawCircuit<S>, ops: Seq<Op<S>>)
    requires
        first.wf(),
        second.wf(),
        first@ == System::<S>::empty().run(ops),
        second@ == System::<S>::empty().run(ops),
    ensures
        first.num_inputs == second.num_inputs,
        first.num_aux == second.num_aux,
        first.num_constraints == second.num_constraints,
        first.lc_a@.len() == second.lc_a@.len(),
        first.lc_b@.len() == second.lc_b@.len(),
        first.lc_c@.len() == second.lc_c@.len(),
        forall|k: int|
            0 <= k < first.num_constraints ==> {
                &&& (#[trigger] first.lc_a@[k])@ == second.lc_a@[k]@
                &&& first.lc_b@[k]@ == second.lc_b@[k]@
                &&& first.lc_c@[k]@ == second.lc_c@[k]@
            },
        forall|m: Matrix| #[trigger] first.input_columns(m) == second.input_columns(m),
        forall|m: Matrix| #[trigger] first.aux_columns(m) == second.aux_columns(m),
{
    assert forall|k: int| 0 <= k < first.num_constraints implies {
        &&& (#[trigger] first.lc_a@[k])@ == second.lc_a@[k]@
        &&& first.lc_b@[k]@ == second.lc_b@[k]@
        &&& first.lc_c@[k]@ == second.lc_c@[k]@
    } by {
        let one = first@.constraints[k];
        let other = second@.constraints[k];
        assert(one == other);
        assert(one.a == first.lc_a@[k]@ && one.b == first.lc_b@[k]@ && one.c == first.lc_c@[k]@);
        assert(other.a == second.lc_a@[k]@ && other.b == second.lc_b@[k]@ && other.c == second.lc_c@[k]@);
    }
    assert forall|m: Matrix| #[trigger] first.input_columns(m) == second.input_columns(m) by {
        assert(first.columns_agree(m) && second.columns_agree(m));
        assert forall|i: int| 0 <= i < first.num_inputs implies first.input_columns(m)[i] == second.input_columns(
            m,
        )[i] by {
            let v = Variable(Index::Input(i as usize));
            assert(first.kept_column(m, v) == second.kept_column(m, v));
        }
        assert(first.input_columns(m) =~= second.input_columns(m));
    }
    assert forall|m: Matrix| #[trigger] first.aux_columns(m) == second.aux_columns(m) by {
        assert(first.columns_agree(m) && second.columns_agree(m));
        assert forall|i: int| 0 <= i < first.num_aux implies first.aux_columns(m)[i] == second.aux_columns(m)[i] by {
            let v = Variable(Index::Aux(i as usize));
            assert(first.kept_column(m, v) == second.kept_column(m, v));
        }
        assert(first.aux_columns(m) =~= second.aux_columns(m));
    }
}

/// In what one term list contributes to the column of `v` as constraint
/// `c`, the entry `(x, c)` occurs as often as the term `(x, v)` occurs in
/// the list, and no entry with another constraint index occurs at all.
pub proof fn lemma_entries_count<S>(lc: Seq<(S, Variable)>, v: Variable, c: usize, x: S, d: usize)
    ensures
        entries(lc, v, c).to_multiset().count((x, d)) == if d == c {
            lc.to_multiset().count((x, v))
        } else {
            0
        },
    decreases lc.len(),
{
    broadcast use vstd::multiset::group_multiset_axioms;

    if lc.len() == 0 {
        lemma_entries_empty::<S>(v, c);
        assert(lc =~= Seq::empty());
        lc.to_multiset_ensures();
        Seq::<(S, usize)>::empty().to_multiset_ensures();
    } else {
        let init = lc.drop_last();
        let t = lc.last();
        lemma_entries_count(init, v, c, x, d);
        lemma_entries_push(init, t, v, c);
        assert(init.push(t) =~= lc);
        vstd::seq_lib::to_multiset_build(init, t);
        vstd::seq_lib::to_multiset_build(entries(init, v, c), (t.0, c));
    }
}

/// No entry of a column carries the index of a constraint that is not there.
pub proof fn lemma_column_count_beyond<S>(lcs: Seq<Seq<(S, Variable)>>, v: Variable, x: S, d: usize)
    requires
        lcs.len() <= d,
    ensures
        column(lcs, v).to_multiset().count((x, d)) == 0,
    decreases lcs.len(),
{
    broadcast use vstd::multiset::group_multiset_axioms;

    if lcs.len() == 0 {
        Seq::<(S, usize)>::empty().to_multiset_ensures();
    } else {
        let last = (lcs.len() - 1) as usize;
        lemma_column_count_beyond(lcs.drop_last(), v, x, d);
        lemma_entries_count(lcs.last(), v, last, x, d);
        vstd::seq_lib::lemma_multiset_commutative(column(lcs.drop_last(), v), entries(lcs.last(), v, last));
    }
}

/// Rows and columns say the same: in the column of `v`, the entry `(x, c)`
/// occurs exactly as often as the term `(x, v)` occurs in row `c`.
pub proof fn lemma_column_counts<S>(lcs: Seq<Seq<(S, Variable)>>, v: Variable, c: int, x: S)
    requires
        0 <= c < lcs.len() <= usize::MAX,
    ensures
        column(lcs, v).to_multiset().count((x, c as usize)) == lcs[c].to_multiset().count((x, v)),
    decreases lcs.len(),
{
    broadcast use vstd::multiset::group_multiset_axioms;

    let last = (lcs.len() - 1) as usize;
    let init = lcs.drop_last();
    vstd::seq_lib::lemma_multiset_commutative(column(init, v), entries(lcs.last(), v, last));
    lemma_entries_count(lcs.last(), v, last, x, c as usize);
    if c == last {
        lemma_column_count_beyond(init, v, x, c as usize);
    } else {
        lemma_column_counts(init, v, c, x);
    }
}

/// Multiplicities agree between the two forms of a recorder: in the column
/// kept for an allocated variable `v` in matrix `m`, the entry `(x, c)`
/// occurs exactly as often as the term `(x, v)` occurs in side `m` of
/// constraint `c`.
pub proof fn lemma_column_multiplicity<S>(cs: RawCircuit<S>, m: Matrix, c: int, v: Variable, x: S)
    requires
        cs.wf(),
        0 <= c < cs.num_constraints,
        cs@.has(v),
    ensures
        cs.kept_column(m, v).to_multiset().count((x, c as usize)) == cs@.constraints[c].lc(
            m,
        ).to_multiset().count((x, v)),
{
    assert(cs.columns_agree(m));
    assert(cs.kept_column(m, v) == column(cs@.rows(m), v));
    lemma_column_counts(cs@.rows(m), v, c, x);
}

/// Row and column form of a recorder agree: if `v` carries the coefficient
/// `x` in side `m` of constraint `c`, then `v` is allocated and the column
/// that the recorder keeps for `v` in matrix `m` holds the entry `(x, c)`,
/// as many times as the term occurs in that side.
pub proof fn lemma_rows_match_columns<S>(cs: RawCircuit<S>, m: Matrix, c: int, v: Variable, x: S)
    requires
        cs.wf(),
        0 <= c < cs.num_constraints,
        cs@.constraints[c].lc(m).contains((x, v)),
    ensures
        cs@.has(v),
        cs.kept_column(m, v).contains((x, c as usize)),
        cs.kept_column(m, v).to_multiset().count((x, c as usize)) == cs@.constraints[c].lc(
            m,
        ).to_multiset().count((x, v)),
{
    let side = cs@.constraints[c].lc(m);
    let j = choose|j: int| 0 <= j < side.len() && side[j] == (x, v);
    assert(cs@.admits(cs@.constraints[c]));
    assert(cs@.has_all(side));
    assert(cs@.has(side[j].1));
    lemma_column_multiplicity(cs, m, c, v, x);
    cs.kept_column(m, v).to_multiset_ensures();
    side.to_multiset_ensures();
}

} // verus!
