//! Register API generator: the intermediate representation of a device's registers, its checks,
//! the Cortex-M description and the decisions of code generation.
use vstd::prelude::*;

pub mod cm;
pub mod codegen;
pub mod fmt;
pub mod ir;
pub mod translate;
pub mod verify;

verus! {
} // verus!
