//! An accumulate-twice fixture: declare a variable, seed registers 0 and 1
//! with 0 and 1, add-and-store twice, load and output. Its observable
//! output is a single record of value 2.

use vstd::prelude::*;
use crate::instruction::Instruction;
use crate::instruction_container::IdAllocator;
use crate::program::Program;
use crate::render::spec_output_line;
use crate::vm::{spec_exe, spec_run_from, spec_zero_regs, ExecutionError};

verus! {

/// The instruction sequence of the accumulate-twice fixture.
pub open spec fn spec_add_two_codes() -> Seq<Instruction> {
    seq![
        Instruction::Var(0),
        Instruction::SetReg { register: 0, constant: 0 },
        Instruction::SetReg { register: 1, constant: 1 },
        Instruction::Add { rega: 0, regb: 1, outreg: 0 },
        Instruction::Store { register: 0, variable: 0 },
        Instruction::Load { register: 0, variable: 0 },
        Instruction::Add { rega: 0, regb: 1, outreg: 0 },
        Instruction::Store { register: 0, variable: 0 },
        Instruction::Load { register: 0, variable: 0 },
        Instruction::Output(0),
    ]
}

/// Builds the accumulate-twice fixture program.
pub fn prog(ids: &mut IdAllocator) -> (r: Program)
    requires
        old(ids).spec_next() + 10 <= usize::MAX,
    ensures
        r.codes() == spec_add_two_codes(),
{
    let start: Vec<Instruction> = vec![
        Instruction::Var(0),
        Instruction::SetReg { register: 0, constant: 0 },
        Instruction::SetReg { register: 1, constant: 1 },
        // Add 1
        Instruction::Add { rega: 0, regb: 1, outreg: 0 },
        Instruction::Store { register: 0, variable: 0 },
        // Add 2
        Instruction::Load { register: 0, variable: 0 },
        Instruction::Add { rega: 0, regb: 1, outreg: 0 },
        Instruction::Store { register: 0, variable: 0 },
        // Output val
        Instruction::Load { register: 0, variable: 0 },
        Instruction::Output(0),
    ];
    proof {
        assert(start@ =~= spec_add_two_codes());
    }
    Program::new(start, ids)
}

/// Reference scenario: the accumulate-twice fixture completes at cost 14
/// and outputs exactly one record, register 0 holding 2.
pub proof fn lemma_add_two_result(rc: nat)
    requires
        rc >= 2,
    ensures
        spec_exe(rc, Map::empty(), spec_add_two_codes()) == Ok::<
            (nat, Seq<Seq<char>>),
            ExecutionError,
        >((14, seq![spec_output_line(0, 2)])),
{
    let codes = spec_add_two_codes();
    let r0 = spec_zero_regs(rc);
    let m0 = Map::<usize, i32>::empty();
    let m1 = m0.insert(0, 0i32);
    let r1 = r0.update(0, 0i32);
    let r2 = r1.update(1, 1i32);
    let r3 = r2.update(0, 1i32);
    let m2 = m1.insert(0, 1i32);
    let r4 = r3.update(0, 1i32);
    let r5 = r4.update(0, 2i32);
    let m3 = m2.insert(0, 2i32);
    let r6 = r5.update(0, 2i32);
    assert(spec_run_from(codes, 0, r0, m0, 0, seq![], 0) == spec_run_from(
        codes,
        1,
        r0,
        m1,
        1,
        seq![],
        1,
    ));
    assert(spec_run_from(codes, 1, r0, m1, 1, seq![], 1) == spec_run_from(
        codes,
        2,
        r1,
        m1,
        2,
        seq![],
        2,
    ));
    assert(spec_run_from(codes, 2, r1, m1, 2, seq![], 2) == spec_run_from(
        codes,
        3,
        r2,
        m1,
        3,
        seq![],
        3,
    ));
    assert(spec_run_from(codes, 3, r2, m1, 3, seq![], 3) == spec_run_from(
        codes,
        4,
        r3,
        m1,
        4,
        seq![],
        4,
    ));
    assert(spec_run_from(codes, 4, r3, m1, 4, seq![], 4) == spec_run_from(
        codes,
        5,
        r3,
        m2,
        6,
        seq![],
        5,
    ));
    assert(spec_run_from(codes, 5, r3, m2, 6, seq![], 5) == spec_run_from(
        codes,
        6,
        r4,
        m2,
        8,
        seq![],
        6,
    ));
    assert(spec_run_from(codes, 6, r4, m2, 8, seq![], 6) == spec_run_from(
        codes,
        7,
        r5,
        m2,
        9,
        seq![],
        7,
    ));
    assert(spec_run_from(codes, 7, r5, m2, 9, seq![], 7) == spec_run_from(
        codes,
        8,
        r5,
        m3,
        11,
        seq![],
        8,
    ));
    assert(spec_run_from(codes, 8, r5, m3, 11, seq![], 8) == spec_run_from(
        codes,
        9,
        r6,
        m3,
        13,
        seq![],
        9,
    ));
    assert(spec_run_from(codes, 9, r6, m3, 13, seq![], 9) == spec_run_from(
        codes,
        10,
        r6,
        m3,
        14,
        Seq::<Seq<char>>::empty().push(spec_output_line(0, 2)),
        10,
    ));
    assert(Seq::<Seq<char>>::empty().push(spec_output_line(0, 2)) =~= seq![
        spec_output_line(0, 2),
    ]);
    assert(seq![] =~= Seq::<Seq<char>>::empty());
}

} // verus!
