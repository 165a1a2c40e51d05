//! An ordered, positionally-addressed sequence of instruction containers.
//!
//! Positions are not stable identifiers: insert and remove shift the
//! indices of all following elements, and `PCSetIfNotZero` jump targets are
//! absolute indices, so structural edits can silently change branch
//! targets. The program itself does not validate that.

use vstd::prelude::*;
use crate::instruction::{Instruction, spec_regs_ok};
use crate::instruction_container::{IdAllocator, InstructionContainer};

verus! {

/// An ordered sequence of [`InstructionContainer`]s addressed by position.
pub struct Program(pub(crate) Vec<InstructionContainer>);

impl View for Program {
    type V = Seq<InstructionContainer>;

    closed spec fn view(&self) -> Seq<InstructionContainer> {
        self.0@
    }
}

/// The bare instructions of a container sequence, with identities dropped.
pub open spec fn spec_codes(s: Seq<InstructionContainer>) -> Seq<Instruction> {
    s.map_values(|c: InstructionContainer| c.spec_code())
}

/// Whether every register operand in the sequence addresses one of
/// `register_count` registers.
pub open spec fn spec_prog_regs_ok(s: Seq<Instruction>, register_count: nat) -> bool {
    forall|i: int| 0 <= i < s.len() ==> spec_regs_ok(#[trigger] s[i], register_count)
}

impl Clone for Program {
    fn clone(&self) -> (r: Self)
        ensures
            r@ == self@,
    {
        let mut v: Vec<InstructionContainer> = Vec::new();
        let n = self.0.len();
        for i in 0..n
            invariant
                n == self.0.len(),
                v@ == self.0@.subrange(0, i as int),
        {
            v.push(self.0[i]);
            proof {
                assert(v@ =~= self.0@.subrange(0, i + 1));
            }
        }
        proof {
            assert(v@ =~= self.0@);
        }
        Program(v)
    }
}

impl Program {
    /// The bare instructions of this program, identities dropped.
    pub open spec fn codes(&self) -> Seq<Instruction> {
        spec_codes(self@)
    }

    /// Wraps each instruction with a fresh identity, in order.
    pub fn new(start: Vec<Instruction>, ids: &mut IdAllocator) -> (r: Self)
        requires
            old(ids).spec_next() + start@.len() <= usize::MAX,
        ensures
            r@.len() == start@.len(),
            r.codes() == start@,
            forall|i: int|
                0 <= i < start@.len() ==> (#[trigger] r@[i]).spec_id() == old(ids).spec_next() + i,
            final(ids).spec_next() == old(ids).spec_next() + start@.len(),
    {
        let ghost start0 = start@;
        let mut v: Vec<InstructionContainer> = Vec::new();
        let n = start.len();
        for i in 0..n
            invariant
                n == start@.len(),
                start@ == start0,
                v@.len() == i,
                ids.spec_next() == old(ids).spec_next() + i,
                old(ids).spec_next() + n <= usize::MAX,
                forall|j: int| 0 <= j < i ==> (#[trigger] v@[j]).spec_code() == start0[j],
                forall|j: int|
                    0 <= j < i ==> (#[trigger] v@[j]).spec_id() == old(ids).spec_next() + j,
        {
            let c = InstructionContainer::new(start[i], ids);
            v.push(c);
        }
        let r = Program(v);
        proof {
            assert(r.codes() =~= start0);
        }
        r
    }

    /// The container at `index`, if the index is in range.
    pub fn get(&self, index: usize) -> (r: Option<&InstructionContainer>)
        ensures
            match r {
                Some(c) => index < self@.len() && *c == self@[index as int],
                None => index >= self@.len(),
            },
    {
        if index < self.0.len() {
            Some(&self.0[index])
        } else {
            None
        }
    }

    /// The number of instructions.
    pub fn len(&self) -> (r: usize)
        ensures
            r == self@.len(),
    {
        self.0.len()
    }

    /// Inserts `element` at `index`, shifting everything after it.
    pub fn insert(&mut self, index: usize, element: InstructionContainer)
        requires
            index <= old(self)@.len(),
            old(self)@.len() < usize::MAX,
        ensures
            final(self)@ == old(self)@.insert(index as int, element),
    {
        self.0.insert(index, element)
    }

    /// Checks that every register operand in the program addresses one
    /// of `register_count` registers — the VM's execution precondition.
    pub fn regs_ok(&self, register_count: usize) -> (r: bool)
        ensures
            r == spec_prog_regs_ok(self.codes(), register_count as nat),
    {
        let n = self.0.len();
        for i in 0..n
            invariant
                n == self@.len(),
                forall|j: int|
                    0 <= j < i ==> spec_regs_ok(#[trigger] self.codes()[j], register_count as nat),
        {
            if !self.0[i].code().regs_ok(register_count) {
                proof {
                    assert(!spec_regs_ok(self.codes()[i as int], register_count as nat));
                }
                return false;
            }
            proof {
                assert(self.codes()[i as int] == self@[i as int].spec_code());
            }
        }
        true
    }

    /// Removes the container at `index` and returns its bare instruction.
    pub fn remove(&mut self, index: usize) -> (r: Instruction)
        requires
            index < old(self)@.len(),
        ensures
            final(self)@ == old(self)@.remove(index as int),
            r == old(self)@[index as int].spec_code(),
    {
        self.0.remove(index).code()
    }
}

} // verus!
