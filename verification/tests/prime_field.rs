use bls12_381::Scalar;
use r1cs_export::{export_to_json, Circuit, ConstraintSystem, Index, SynthesisError, Variable};

/// (x + 2) * y = pub over any scalar type that can give its small constants.
struct Affine<S> {
    one: S,
    two: S,
}

impl<S: Copy> Circuit<S> for Affine<S> {
    fn synthesize<CS: ConstraintSystem<S>>(self, cs: &mut CS) -> Result<(), SynthesisError> {
        let (one, two) = (self.one, self.two);
        let x = cs.alloc_aux(|| "x", || Err(SynthesisError::AssignmentMissing))?;
        let y = cs.alloc_aux(|| "y", || Err(SynthesisError::AssignmentMissing))?;
        let public = cs.alloc_input(|| "pub", || Err(SynthesisError::AssignmentMissing))?;
        cs.enforce(
            || "(x + 2) * y = pub",
            |lc| lc.add_term(one, x).add_term(two, Variable::one()),
            |lc| lc.add_term(one, y),
            |lc| lc.add_term(one, public),
        );
        Ok(())
    }
}

#[test]
fn scalars_of_a_prime_field_are_stored_as_given() {
    let one = Scalar::one();
    let two = Scalar::from(2u64);
    let cs = export_to_json(Affine { one, two }, one).unwrap();
    assert_eq!(cs.num_inputs, 2);
    assert_eq!(cs.num_aux, 2);
    assert_eq!(cs.num_constraints, 3);
    assert_eq!(cs.lc_a[0].0, vec![(one, Variable(Index::Aux(0))), (two, Variable(Index::Input(0)))]);
    assert_eq!(cs.lc_b[0].0, vec![(one, Variable(Index::Aux(1)))]);
    assert_eq!(cs.lc_c[0].0, vec![(one, Variable(Index::Input(1)))]);
    assert_eq!(cs.at_inputs, vec![vec![(two, 0), (one, 1)], vec![(one, 2)]]);
}

#[test]
fn padding_carries_the_one_of_the_field() {
    let one = Scalar::one();
    let cs = export_to_json(Affine { one, two: one + one }, one).unwrap();
    for i in 0..2 {
        assert_eq!(cs.lc_a[1 + i].0, vec![(Scalar::one(), Variable(Index::Input(i)))]);
        assert!(cs.lc_b[1 + i].0.is_empty());
        assert!(cs.lc_c[1 + i].0.is_empty());
        assert_eq!(cs.lc_a[1 + i].0[0].0 * Scalar::from(7u64), Scalar::from(7u64));
    }
}
