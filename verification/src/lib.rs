//! Structure-only recording of rank-1 constraint systems.
//!
//! A circuit is driven against a [`RawCircuit`], which hands out variables and
//! keeps every constraint `A * B = C` both row by row and, per variable, column
//! by column. No field arithmetic is done: coefficients are only stored.

pub mod constraint_system;
pub mod error;
pub mod exporter;
pub mod laws;
pub mod linear_combination;
pub mod model;
pub mod raw_circuit;
pub mod variable;

pub use constraint_system::{Circuit, ConstraintSystem};
pub use error::SynthesisError;
pub use exporter::{begin_export, export_to_json, finish_export};
pub use linear_combination::LinearCombination;
pub use model::{Constraint, Matrix, Op, System};
pub use raw_circuit::RawCircuit;
pub use variable::{Index, Variable};
