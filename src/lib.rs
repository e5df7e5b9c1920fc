//! Evaluation core of a units-aware expression language.
//!
//! Quantities pair an exact rational magnitude with a unit; unit algebra,
//! dimension checking and two interchangeable evaluation backends (a tree
//! walker and a compiler to a stack machine) are verified against one
//! mathematical model.
use vstd::prelude::*;

pub mod ast;
pub mod bytecode_interpreter;
pub mod interpreter;
pub mod laws;
pub mod model;
pub mod names;
pub mod number;
pub mod parser;
pub mod quantity;
pub mod registry;
pub mod treewalk_interpreter;
pub mod unit;
pub mod unit_registry;

verus! {

} // verus!
