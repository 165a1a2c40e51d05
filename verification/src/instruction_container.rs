//! Instructions wrapped with a unique, immutable identity.
//!
//! The identity lets the VM attribute dynamic execution-frequency counts to
//! a specific instruction instance even as programs are edited, independent
//! of its current position. Identities are handed out by an explicit
//! [`IdAllocator`] owned by the caller and threaded through every
//! construction site, so they are unique per allocator and never reused.

use vstd::prelude::*;
use crate::instruction::{Instruction, spec_weight};

verus! {

/// Allocates instruction identities: a monotonically increasing counter.
/// Identities drawn from one allocator are globally unique within it.
pub struct IdAllocator {
    next: usize,
}

impl IdAllocator {
    /// The identity the allocator will hand out next.
    pub closed spec fn spec_next(&self) -> nat {
        self.next as nat
    }

    /// A fresh allocator, starting at identity 0.
    pub fn new() -> (r: Self)
        ensures
            r.spec_next() == 0,
    {
        IdAllocator { next: 0 }
    }

    /// Draws the next identity and advances the counter.
    pub fn fresh(&mut self) -> (r: usize)
        requires
            old(self).spec_next() < usize::MAX,
        ensures
            r as nat == old(self).spec_next(),
            final(self).spec_next() == old(self).spec_next() + 1,
    {
        let id = self.next;
        self.next = self.next + 1;
        id
    }
}

/// An instruction plus an identity assigned once at construction and
/// retained through copies. Equality is by the (identity, instruction) pair.
#[derive(Clone, Copy, Debug, PartialEq, Eq, Hash, Structural)]
pub struct InstructionContainer {
    pub code: Instruction,
    pub id: usize,
}

impl InstructionContainer {
    /// The wrapped instruction.
    pub open spec fn spec_code(&self) -> Instruction {
        self.code
    }

    /// The container's identity.
    pub open spec fn spec_id(&self) -> nat {
        self.id as nat
    }

    /// Wraps `code` with a fresh identity drawn from `ids`.
    pub fn new(code: Instruction, ids: &mut IdAllocator) -> (r: Self)
        requires
            old(ids).spec_next() < usize::MAX,
        ensures
            r.spec_code() == code,
            r.spec_id() == old(ids).spec_next(),
            final(ids).spec_next() == old(ids).spec_next() + 1,
    {
        InstructionContainer { code, id: ids.fresh() }
    }

    /// The container's identity.
    pub fn id(&self) -> (r: usize)
        ensures
            r as nat == self.spec_id(),
    {
        self.id
    }

    /// The wrapped instruction.
    pub fn code(&self) -> (r: Instruction)
        ensures
            r == self.spec_code(),
    {
        self.code
    }

    /// The static cost weight of the wrapped instruction.
    pub fn cost(&self) -> (r: usize)
        ensures
            r as nat == spec_weight(self.spec_code()),
            1 <= r <= 10,
    {
        match self.code {
            Instruction::Add { rega: _, regb: _, outreg: _ } => 1,
            Instruction::Sub { rega: _, regb: _, outreg: _ } => 1,
            Instruction::Var(_) => 1,
            Instruction::Load { register: _, variable: _ } => 2,
            Instruction::Store { register: _, variable: _ } => 2,
            Instruction::SetReg { register: _, constant: _ } => 1,
            Instruction::PCSetIfNotZero { register: _, jump_point: _ } => 10,
            Instruction::Output(_) => 1,
            Instruction::VecAdd { a1r: _, b1r: _, r1: _, a2r: _, b2r: _, r2: _ } => 1,
        }
    }
}

} // verus!
