//! Seed-program fixtures: small example programs for the optimizer to
//! chew on, each yielding a valid program for a four-register VM.

pub mod add_two;
pub mod count_to_x;
pub mod vecmul;
