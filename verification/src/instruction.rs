//! The instruction set of the virtual machine and its static cost model.

use vstd::prelude::*;

verus! {

/// One opcode of the virtual machine, carrying its operand fields.
///
/// Register operands index into the register file; `variable` operands
/// name slots of the variable store; `jump_point` is an absolute program
/// position.
#[derive(Clone, Copy, Debug, PartialEq, Eq, Hash, Structural)]
pub enum Instruction {
    // Math
    Add { rega: usize, regb: usize, outreg: usize },
    Sub { rega: usize, regb: usize, outreg: usize },
    // Memory operations
    Var(usize),
    Load { register: usize, variable: usize },
    Store { register: usize, variable: usize },
    SetReg { register: usize, constant: i32 },
    // SIMD-style fused two-lane operation
    VecAdd { a1r: usize, b1r: usize, r1: usize, a2r: usize, b2r: usize, r2: usize },
    // Branching
    PCSetIfNotZero { register: usize, jump_point: usize },
    // IO
    Output(usize),
}

/// The static cost weight of one opcode: branching is deliberately
/// expensive, register/variable transfers cost two, everything else one.
pub open spec fn spec_weight(i: Instruction) -> nat {
    match i {
        Instruction::Add { .. } => 1,
        Instruction::Sub { .. } => 1,
        Instruction::Var(_) => 1,
        Instruction::Load { .. } => 2,
        Instruction::Store { .. } => 2,
        Instruction::SetReg { .. } => 1,
        Instruction::PCSetIfNotZero { .. } => 10,
        Instruction::Output(_) => 1,
        Instruction::VecAdd { .. } => 1,
    }
}

impl Instruction {
    /// Checks that every register operand addresses one of
    /// `register_count` registers.
    pub fn regs_ok(&self, register_count: usize) -> (r: bool)
        ensures
            r == spec_regs_ok(*self, register_count as nat),
    {
        match self {
            Instruction::Add { rega, regb, outreg } => *rega < register_count && *regb
                < register_count && *outreg < register_count,
            Instruction::Sub { rega, regb, outreg } => *rega < register_count && *regb
                < register_count && *outreg < register_count,
            Instruction::Var(_) => true,
            Instruction::Load { register, .. } => *register < register_count,
            Instruction::Store { register, .. } => *register < register_count,
            Instruction::SetReg { register, .. } => *register < register_count,
            Instruction::VecAdd { a1r, b1r, r1, a2r, b2r, r2 } => *a1r < register_count && *b1r
                < register_count && *r1 < register_count && *a2r < register_count && *b2r
                < register_count && *r2 < register_count,
            Instruction::PCSetIfNotZero { register, .. } => *register < register_count,
            Instruction::Output(register) => *register < register_count,
        }
    }
}

/// Whether every register operand of `i` addresses one of `register_count`
/// registers. The VM requires this of each instruction it executes.
pub open spec fn spec_regs_ok(i: Instruction, register_count: nat) -> bool {
    match i {
        Instruction::Add { rega, regb, outreg } => rega < register_count && regb < register_count
            && outreg < register_count,
        Instruction::Sub { rega, regb, outreg } => rega < register_count && regb < register_count
            && outreg < register_count,
        Instruction::Var(_) => true,
        Instruction::Load { register, .. } => register < register_count,
        Instruction::Store { register, .. } => register < register_count,
        Instruction::SetReg { register, .. } => register < register_count,
        Instruction::VecAdd { a1r, b1r, r1, a2r, b2r, r2 } => a1r < register_count && b1r
            < register_count && r1 < register_count && a2r < register_count && b2r < register_count
            && r2 < register_count,
        Instruction::PCSetIfNotZero { register, .. } => register < register_count,
        Instruction::Output(register) => register < register_count,
    }
}

} // verus!
