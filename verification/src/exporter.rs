//! One full run: reserve the constant one, let the circuit record itself,
//! pad the inputs and hand the recorder out.

use crate::constraint_system::{Circuit, ConstraintSystem};
use crate::error::SynthesisError;
use crate::laws::lemma_padded;
use crate::model::{Constraint, System};
use crate::raw_circuit::RawCircuit;
use crate::variable::Variable;
use vstd::prelude::*;

verus! {

/// Starts a run: a fresh recorder in which input 0, the constant one, is
/// allocated and nothing else has happened. No value is given for it: the
/// recorder would not look at one.
pub fn begin_export<S: Copy>() -> (cs: RawCircuit<S>)
    ensures
        cs.wf(),
        cs@ == System::<S>::initial(),
        cs@.has(Variable::one()),
{
    let mut cs = RawCircuit::new();
    let _reserved = cs.alloc_input(
        || "",
        || -> (v: Result<S, SynthesisError>) { Err(SynthesisError::AssignmentMissing) },
    );
    cs
}

/// What a run exports whose circuit returned `outcome` and left `cs` behind:
/// the circuit's failure as it is, or else `cs` with every input padded.
pub open spec fn exported<S>(
    cs: RawCircuit<S>,
    outcome: Result<(), SynthesisError>,
    one: S,
    r: Result<RawCircuit<S>, SynthesisError>,
) -> bool {
    match outcome {
        Ok(_) => r matches Ok(out) && out.wf() && out@ == cs@.padded(one),
        Err(e) => r == Err::<RawCircuit<S>, SynthesisError>(e),
    }
}

/// Ends a run whose circuit returned `outcome` and left `cs` behind.
///
/// A failure of the circuit is handed on as it is and nothing is exported.
/// Otherwise every input of `cs` is padded with the coefficient `one`, and
/// the padded recorder is the result.
pub fn finish_export<S: Copy>(cs: RawCircuit<S>, outcome: Result<(), SynthesisError>, one: S) -> (r: Result<
    RawCircuit<S>,
    SynthesisError,
>)
    requires
        cs.wf(),
    ensures
        exported(cs, outcome, one, r),
{
    match outcome {
        Ok(_) => {
            let mut cs = cs;
            cs.pad_inputs(one);
            Ok(cs)
        },
        Err(e) => Err(e),
    }
}

/// Runs `circuit` against a fresh recorder and exports the structure.
///
/// Whatever the name suggests, no text is produced: what is exported is the
/// recorder itself, with its rows and columns, and rendering it is left to
/// the caller.
///
/// Input 0 is allocated before the circuit runs. `one` is the coefficient
/// of the padding constraints: the multiplicative identity of the field in
/// which the circuit is stated. The circuit is run on the initial system and
/// leaves a recorder and an outcome behind, as its own account of itself
/// allows. Where the outcome is a failure, the export fails with it and
/// nothing is exported. Where it is a success, the result is what the
/// circuit recorded, grown out of the initial system, followed by one
/// padding constraint for each input, input 0 among them.
pub fn export_to_json<S: Copy, C: Circuit<S>>(circuit: C, one: S) -> (r: Result<RawCircuit<S>, SynthesisError>)
    ensures
        exists|after: RawCircuit<S>, outcome: Result<(), SynthesisError>|
            {
                &&& #[trigger] circuit.synthesized(System::<S>::initial(), after@, outcome)
                &&& after.wf()
                &&& after@.extends(System::<S>::initial())
                &&& exported(after, outcome, one, r)
            },
        r matches Ok(out) ==> {
            &&& out.wf()
            &&& 1 <= out.num_inputs <= out.num_constraints
            &&& out@.has(Variable::one())
            &&& forall|i: int|
                0 <= i < out.num_inputs ==> #[trigger] out@.constraints[out.num_constraints - out.num_inputs + i]
                    == Constraint::padding(one, i as nat)
        },
{
    let mut cs = begin_export();
    let outcome = circuit.synthesize(&mut cs);
    proof {
        lemma_padded(cs@, one);
        assert(circuit.synthesized(System::<S>::initial(), cs@, outcome));
    }
    finish_export(cs, outcome, one)
}

} // verus!
