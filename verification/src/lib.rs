//! A program superoptimizer for a small register-based virtual machine.
//!
//! The crate has two tightly coupled halves: a VM interpreter with exact
//! operational semantics, a dynamic cost model and a bounded-failure
//! execution contract, and a Monte-Carlo tree search over program-edit
//! actions that looks for a cheaper program with identical observable
//! output.

pub mod action;
pub mod instruction;
pub mod instruction_container;
pub mod op_finder;
pub mod program;
pub mod programs;
pub mod render;
pub mod reward;
pub mod rng;
pub mod uct;
pub mod vm;
