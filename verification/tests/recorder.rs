use r1cs_export::{ConstraintSystem, Index, LinearCombination, RawCircuit, SynthesisError, Variable};

fn input(i: usize) -> Variable {
    Variable(Index::Input(i))
}

fn aux(i: usize) -> Variable {
    Variable(Index::Aux(i))
}

fn lc(terms: &[(u64, Variable)]) -> LinearCombination<u64> {
    let mut out = LinearCombination::zero();
    for (coeff, var) in terms {
        out = out.add_term(*coeff, *var);
    }
    out
}

/// A recorder with `n` inputs and `m` auxiliary variables.
fn recorder(n: usize, m: usize) -> RawCircuit<u64> {
    let mut cs = RawCircuit::new();
    for _ in 0..n {
        cs.alloc_input(|| "", || Ok(0)).unwrap();
    }
    for _ in 0..m {
        cs.alloc_aux(|| "", || Ok(0)).unwrap();
    }
    cs
}

#[test]
fn new_recorder_is_empty() {
    let cs: RawCircuit<u64> = RawCircuit::new();
    assert_eq!(cs.num_inputs, 0);
    assert_eq!(cs.num_aux, 0);
    assert_eq!(cs.num_constraints, 0);
    assert!(cs.lc_a.is_empty() && cs.lc_b.is_empty() && cs.lc_c.is_empty());
    assert!(cs.at_inputs.is_empty() && cs.bt_inputs.is_empty() && cs.ct_inputs.is_empty());
    assert!(cs.at_aux.is_empty() && cs.bt_aux.is_empty() && cs.ct_aux.is_empty());
}

#[test]
fn allocation_counts_up_from_zero_in_each_namespace() {
    let mut cs: RawCircuit<u64> = RawCircuit::new();
    assert_eq!(cs.alloc_input(|| "a", || Ok(1)), Ok(input(0)));
    assert_eq!(cs.alloc_aux(|| "b", || Ok(1)), Ok(aux(0)));
    assert_eq!(cs.alloc_aux(|| "c", || Ok(1)), Ok(aux(1)));
    assert_eq!(cs.alloc_input(|| "d", || Ok(1)), Ok(input(1)));
    assert_eq!(cs.alloc_input(|| "e", || Ok(1)), Ok(input(2)));
    assert_eq!(cs.alloc_aux(|| "f", || Ok(1)), Ok(aux(2)));
    assert_eq!(cs.num_inputs, 3);
    assert_eq!(cs.num_aux, 3);
}

#[test]
fn allocation_opens_empty_columns() {
    let cs = recorder(2, 3);
    assert_eq!(cs.at_inputs, vec![vec![], vec![]]);
    assert_eq!(cs.bt_inputs, vec![vec![], vec![]]);
    assert_eq!(cs.ct_inputs, vec![vec![], vec![]]);
    assert_eq!(cs.at_aux, vec![vec![], vec![], vec![]]);
    assert_eq!(cs.bt_aux, vec![vec![], vec![], vec![]]);
    assert_eq!(cs.ct_aux, vec![vec![], vec![], vec![]]);
    assert_eq!(cs.num_constraints, 0);
}

#[test]
fn sizes_follow_the_calls() {
    let (n, m, k) = (4, 6, 5);
    let mut cs = recorder(n, m);
    for j in 0..k {
        cs.enforce(
            || "",
            |l| l.add_term(j as u64 + 1, input(j % n)),
            |l| l.add_term(2, aux(j % m)),
            |l| l,
        );
    }
    assert_eq!(cs.num_inputs, n);
    assert_eq!(cs.num_aux, m);
    assert_eq!(cs.num_constraints, k);
    assert_eq!(cs.lc_a.len(), k);
    assert_eq!(cs.lc_b.len(), k);
    assert_eq!(cs.lc_c.len(), k);
    assert_eq!(cs.at_inputs.len(), n);
    assert_eq!(cs.bt_inputs.len(), n);
    assert_eq!(cs.ct_inputs.len(), n);
    assert_eq!(cs.at_aux.len(), m);
    assert_eq!(cs.bt_aux.len(), m);
    assert_eq!(cs.ct_aux.len(), m);
}

#[test]
fn allocation_leaves_values_and_names_alone() {
    let mut cs: RawCircuit<u64> = RawCircuit::new();
    let x = cs.alloc_input(|| -> String { panic!("name computed") }, || panic!("value computed"));
    assert_eq!(x, Ok(input(0)));
    let y = cs.alloc_aux(|| -> String { panic!("name computed") }, || panic!("value computed"));
    assert_eq!(y, Ok(aux(0)));
}

#[test]
fn allocation_succeeds_where_the_value_is_missing() {
    let mut cs: RawCircuit<u64> = RawCircuit::new();
    assert_eq!(cs.alloc_aux(|| "x", || Err(SynthesisError::AssignmentMissing)), Ok(aux(0)));
    assert_eq!(cs.alloc_input(|| "y", || Err(SynthesisError::DivisionByZero)), Ok(input(0)));
}

#[test]
fn enforce_leaves_the_name_alone() {
    let mut cs = recorder(1, 0);
    cs.enforce(|| -> String { panic!("name computed") }, |l| l.add_term(1, input(0)), |l| l, |l| l);
    assert_eq!(cs.num_constraints, 1);
}

#[test]
fn enforce_builds_each_side_from_the_empty_combination() {
    let mut cs = recorder(1, 1);
    cs.enforce(
        || "",
        |l| {
            assert_eq!(l, LinearCombination::zero());
            l.add_term(3, input(0))
        },
        |l| {
            assert_eq!(l.0.len(), 0);
            l.add_term(4, aux(0))
        },
        |l| {
            assert!(l.0.is_empty());
            l
        },
    );
    assert_eq!(cs.lc_a[0], lc(&[(3, input(0))]));
    assert_eq!(cs.lc_b[0], lc(&[(4, aux(0))]));
    assert_eq!(cs.lc_c[0], lc(&[]));
}

#[test]
fn rows_keep_the_order_of_the_calls() {
    let mut cs = recorder(2, 2);
    cs.enforce(|| "", |l| l.add_term(1, aux(0)), |l| l.add_term(2, aux(1)), |l| l.add_term(3, input(1)));
    cs.enforce(|| "", |l| l.add_term(4, input(0)), |l| l.add_term(5, input(1)), |l| l.add_term(6, aux(0)));
    assert_eq!(cs.lc_a, vec![lc(&[(1, aux(0))]), lc(&[(4, input(0))])]);
    assert_eq!(cs.lc_b, vec![lc(&[(2, aux(1))]), lc(&[(5, input(1))])]);
    assert_eq!(cs.lc_c, vec![lc(&[(3, input(1))]), lc(&[(6, aux(0))])]);
}

#[test]
fn columns_list_each_term_under_its_variable() {
    let mut cs = recorder(2, 2);
    cs.enforce(|| "", |l| l.add_term(1, aux(0)), |l| l.add_term(2, aux(1)), |l| l.add_term(3, input(1)));
    cs.enforce(|| "", |l| l.add_term(4, input(0)), |l| l.add_term(5, input(1)), |l| l.add_term(6, aux(0)));
    cs.enforce(|| "", |l| l.add_term(7, aux(0)).add_term(8, input(0)), |l| l, |l| l.add_term(9, input(1)));
    assert_eq!(cs.at_inputs, vec![vec![(4, 1), (8, 2)], vec![]]);
    assert_eq!(cs.bt_inputs, vec![vec![], vec![(5, 1)]]);
    assert_eq!(cs.ct_inputs, vec![vec![], vec![(3, 0), (9, 2)]]);
    assert_eq!(cs.at_aux, vec![vec![(1, 0), (7, 2)], vec![]]);
    assert_eq!(cs.bt_aux, vec![vec![], vec![(2, 0)]]);
    assert_eq!(cs.ct_aux, vec![vec![(6, 1)], vec![]]);
}

#[test]
fn a_variable_that_occurs_twice_is_entered_twice() {
    let mut cs = recorder(1, 1);
    cs.enforce(
        || "",
        |l| l.add_term(2, aux(0)).add_term(5, input(0)).add_term(2, aux(0)).add_term(3, aux(0)),
        |l| l,
        |l| l,
    );
    assert_eq!(cs.lc_a[0].0, vec![(2, aux(0)), (5, input(0)), (2, aux(0)), (3, aux(0))]);
    assert_eq!(cs.at_aux, vec![vec![(2, 0), (2, 0), (3, 0)]]);
    assert_eq!(cs.at_inputs, vec![vec![(5, 0)]]);
}

#[test]
fn every_term_of_a_row_is_found_in_its_column_as_often() {
    let mut cs = recorder(2, 3);
    cs.enforce(
        || "",
        |l| l.add_term(1, aux(2)).add_term(1, aux(2)).add_term(4, input(1)),
        |l| l.add_term(9, aux(0)),
        |l| l.add_term(1, input(0)).add_term(2, input(0)),
    );
    cs.enforce(
        || "",
        |l| l.add_term(1, aux(2)),
        |l| l.add_term(9, aux(0)).add_term(9, aux(0)).add_term(9, aux(0)),
        |l| l,
    );
    let rows = [&cs.lc_a, &cs.lc_b, &cs.lc_c];
    let input_columns = [&cs.at_inputs, &cs.bt_inputs, &cs.ct_inputs];
    let aux_columns = [&cs.at_aux, &cs.bt_aux, &cs.ct_aux];
    let mut terms_seen = 0;
    for m in 0..3 {
        for (c, row) in rows[m].iter().enumerate() {
            for &(x, v) in row.0.iter() {
                let in_row = row.0.iter().filter(|&&t| t == (x, v)).count();
                let column = match v {
                    Variable(Index::Input(i)) => &input_columns[m][i],
                    Variable(Index::Aux(i)) => &aux_columns[m][i],
                };
                let in_column = column.iter().filter(|&&e| e == (x, c)).count();
                assert_eq!(in_row, in_column);
                terms_seen += 1;
            }
        }
    }
    assert_eq!(terms_seen, 10);
    let entries: usize = input_columns.iter().chain(aux_columns.iter()).flat_map(|l| l.iter()).map(|c| c.len()).sum();
    assert_eq!(entries, 10);
}

#[test]
fn record_constraint_takes_the_sides_as_they_are() {
    let mut cs = recorder(1, 1);
    cs.record_constraint(lc(&[(2, input(0)), (3, aux(0))]), lc(&[(4, aux(0))]), lc(&[]));
    assert_eq!(cs.num_constraints, 1);
    assert_eq!(cs.lc_a, vec![lc(&[(2, input(0)), (3, aux(0))])]);
    assert_eq!(cs.lc_b, vec![lc(&[(4, aux(0))])]);
    assert_eq!(cs.lc_c, vec![lc(&[])]);
    assert_eq!(cs.at_inputs, vec![vec![(2, 0)]]);
    assert_eq!(cs.at_aux, vec![vec![(3, 0)]]);
    assert_eq!(cs.bt_aux, vec![vec![(4, 0)]]);
    assert_eq!(cs.bt_inputs, vec![vec![]]);
}

#[test]
fn pad_inputs_adds_one_constraint_per_input() {
    let mut cs = recorder(3, 2);
    cs.enforce(|| "", |l| l.add_term(5, aux(1)), |l| l, |l| l);
    cs.pad_inputs(1);
    assert_eq!(cs.num_constraints, 4);
    assert_eq!(cs.num_inputs, 3);
    assert_eq!(cs.num_aux, 2);
    for i in 0..3 {
        assert_eq!(cs.lc_a[1 + i].0, vec![(1, input(i))]);
        assert_eq!(cs.lc_b[1 + i].0, vec![]);
        assert_eq!(cs.lc_c[1 + i].0, vec![]);
    }
    assert_eq!(cs.at_inputs, vec![vec![(1, 1)], vec![(1, 2)], vec![(1, 3)]]);
    assert_eq!(cs.at_aux, vec![vec![], vec![(5, 0)]]);
}

#[test]
fn pad_inputs_without_inputs_adds_nothing() {
    let mut cs = recorder(0, 2);
    cs.pad_inputs(1);
    assert_eq!(cs.num_constraints, 0);
    assert!(cs.lc_a.is_empty());
}

#[test]
fn namespaces_change_nothing() {
    let mut cs = recorder(1, 1);
    cs.enforce(|| "", |l| l.add_term(1, input(0)), |l| l.add_term(1, aux(0)), |l| l);
    cs.push_namespace(|| -> String { panic!("name computed") });
    cs.push_namespace(|| "inner");
    cs.pop_namespace();
    cs.pop_namespace();
    cs.pop_namespace();
    assert_eq!(cs.num_inputs, 1);
    assert_eq!(cs.num_aux, 1);
    assert_eq!(cs.num_constraints, 1);
    assert_eq!(cs.lc_a, vec![lc(&[(1, input(0))])]);
    assert_eq!(cs.at_inputs, vec![vec![(1, 0)]]);
    assert_eq!(cs.bt_aux, vec![vec![(1, 0)]]);
}

#[test]
fn allocation_inside_a_namespace_continues_the_count() {
    let mut cs = recorder(1, 0);
    cs.push_namespace(|| "inner");
    assert_eq!(cs.alloc_input(|| "x", || Ok(1)), Ok(input(1)));
    cs.pop_namespace();
    assert_eq!(cs.alloc_input(|| "y", || Ok(1)), Ok(input(2)));
}

#[test]
fn root_is_the_recorder_itself() {
    let mut cs = recorder(1, 0);
    let v = cs.get_root().alloc_aux(|| "x", || Ok(1)).unwrap();
    assert_eq!(v, aux(0));
    cs.get_root().get_root().enforce(|| "", |l| l.add_term(1, v), |l| l, |l| l);
    assert_eq!(cs.num_aux, 1);
    assert_eq!(cs.num_constraints, 1);
    assert_eq!(cs.at_aux, vec![vec![(1, 0)]]);
}

#[test]
fn linear_combination_keeps_terms_in_insertion_order() {
    let l = LinearCombination::zero().add_term(3u64, aux(1)).add_term(1, input(0)).add_term(2, aux(0));
    assert_eq!(l.0, vec![(3, aux(1)), (1, input(0)), (2, aux(0))]);
}

#[test]
fn linear_combination_does_not_merge_or_drop_terms() {
    let l = LinearCombination::zero().add_term(3u64, aux(1)).add_term(0, aux(1)).add_term(3, aux(1));
    assert_eq!(l.0, vec![(3, aux(1)), (0, aux(1)), (3, aux(1))]);
}

#[test]
fn zero_has_no_terms() {
    let l: LinearCombination<u64> = LinearCombination::zero();
    assert!(l.0.is_empty());
}

#[test]
fn variable_wraps_and_unwraps_its_index() {
    assert_eq!(Variable::new_unchecked(Index::Aux(4)), aux(4));
    assert_eq!(Variable::new_unchecked(Index::Input(9)).get_unchecked(), Index::Input(9));
    assert_ne!(input(1), aux(1));
}

#[test]
fn one_is_input_zero() {
    assert_eq!(Variable::one(), input(0));
}
