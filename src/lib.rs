use vstd::prelude::*;

pub mod check;
pub mod codegen;
pub mod instr;
pub mod ir;
pub mod laws;
pub mod module;
pub mod names;
pub mod spec_code;

verus! {

} // verus!
