//! Generator of C++ stream-insertion (debug-dump) operators.
//!
//! A declaration tree is searched for a class or struct of a given name that
//! stands in the primary input file; the names of its data members are then
//! rendered into a `friend` declaration and the matching `operator<<`
//! definition.

pub mod tree;
pub mod locate;
pub mod emit;
pub mod generate;
pub mod report;
