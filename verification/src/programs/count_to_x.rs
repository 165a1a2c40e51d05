//! A bounded-counting fixture: increments register 0 until it reaches
//! `counter`, looping via `PCSetIfNotZero`, then outputs the register.

use vstd::prelude::*;
use crate::instruction::Instruction;
use crate::instruction_container::IdAllocator;
use crate::program::Program;
use crate::render::spec_output_line;
use crate::vm::{spec_exe, spec_run_from, spec_zero_regs, ExecutionError, TIMEOUT};

verus! {

/// The instruction sequence of the bounded-counting fixture with loop
/// target `counter`.
pub open spec fn spec_count_to_x_codes(counter: i32) -> Seq<Instruction> {
    seq![
        Instruction::Var(0),
        Instruction::SetReg { register: 0, constant: 0 },
        Instruction::SetReg { register: 1, constant: 1 },
        Instruction::Add { rega: 0, regb: 1, outreg: 0 },
        Instruction::SetReg { register: 1, constant: counter },
        Instruction::Sub { rega: 0, regb: 1, outreg: 1 },
        Instruction::PCSetIfNotZero { register: 1, jump_point: 2 },
        Instruction::Output(0),
    ]
}

/// Builds the bounded-counting fixture program with loop target `counter`.
pub fn prog(counter: i32, ids: &mut IdAllocator) -> (r: Program)
    requires
        old(ids).spec_next() + 8 <= usize::MAX,
    ensures
        r.codes() == spec_count_to_x_codes(counter),
{
    let start: Vec<Instruction> = vec![
        Instruction::Var(0),
        Instruction::SetReg { register: 0, constant: 0 },
        // Start of loop
        Instruction::SetReg { register: 1, constant: 1 },
        Instruction::Add { rega: 0, regb: 1, outreg: 0 },
        // Loop bound checking
        Instruction::SetReg { register: 1, constant: counter },
        Instruction::Sub { rega: 0, regb: 1, outreg: 1 },
        Instruction::PCSetIfNotZero { register: 1, jump_point: 2 },
        Instruction::Output(0),
    ];
    proof {
        assert(start@ =~= spec_count_to_x_codes(counter));
    }
    Program::new(start, ids)
}

proof fn lemma_count_iter(
    n: i32,
    k: i32,
    rc: nat,
    regs: Seq<i32>,
    mem: Map<usize, i32>,
    cost: nat,
    out: Seq<Seq<char>>,
    its: nat,
)
    requires
        1 <= n <= 1999,
        0 <= k < n,
        rc >= 2,
        regs.len() == rc,
        regs[0] == k,
        its + 5 * (n - k) + 1 <= TIMEOUT + 1,
    ensures
        spec_run_from(spec_count_to_x_codes(n), 2, regs, mem, cost, out, its) == Ok::<
            (nat, Seq<Seq<char>>),
            ExecutionError,
        >(((cost + 14 * (n - k) + 1) as nat, out.push(spec_output_line(0, n as int)))),
    decreases n - k,
{
    let codes = spec_count_to_x_codes(n);
    let r2 = regs.update(1, 1i32);
    let r3 = r2.update(0, ((k + 1) as i32));
    let r4 = r3.update(1, n);
    let r5 = r4.update(1, ((k + 1 - n) as i32));
    assert(spec_run_from(codes, 2, regs, mem, cost, out, its) == spec_run_from(
        codes,
        3,
        r2,
        mem,
        cost + 1,
        out,
        its + 1,
    ));
    assert(spec_run_from(codes, 3, r2, mem, cost + 1, out, its + 1) == spec_run_from(
        codes,
        4,
        r3,
        mem,
        cost + 2,
        out,
        its + 2,
    ));
    assert(spec_run_from(codes, 4, r3, mem, cost + 2, out, its + 2) == spec_run_from(
        codes,
        5,
        r4,
        mem,
        cost + 3,
        out,
        its + 3,
    ));
    assert(spec_run_from(codes, 5, r4, mem, cost + 3, out, its + 3) == spec_run_from(
        codes,
        6,
        r5,
        mem,
        cost + 4,
        out,
        its + 4,
    ));
    if k + 1 < n {
        assert(r5[1] != 0);
        assert(spec_run_from(codes, 6, r5, mem, cost + 4, out, its + 4) == spec_run_from(
            codes,
            2,
            r5,
            mem,
            cost + 14,
            out,
            its + 5,
        ));
        lemma_count_iter(n, ((k + 1) as i32), rc, r5, mem, (cost + 14) as nat, out, (its
            + 5) as nat);
    } else {
        assert(r5[1] == 0);
        assert(spec_run_from(codes, 6, r5, mem, cost + 4, out, its + 4) == spec_run_from(
            codes,
            7,
            r5,
            mem,
            cost + 14,
            out,
            its + 5,
        ));
        assert(r5[0] == n);
        assert(spec_run_from(codes, 7, r5, mem, cost + 14, out, its + 5) == spec_run_from(
            codes,
            8,
            r5,
            mem,
            cost + 15,
            out.push(spec_output_line(0, n as int)),
            its + 6,
        ));
    }
}

/// Cost accounting for the bounded-counting fixture: with loop target
/// `n` the program completes at cost exactly `14 * n + 3`, outputting
/// the single record for register 0 holding `n`. The cost is linear in
/// the iteration count.
pub proof fn lemma_count_to_x_cost(n: i32, rc: nat)
    requires
        1 <= n <= 1999,
        rc >= 2,
    ensures
        spec_exe(rc, Map::empty(), spec_count_to_x_codes(n)) == Ok::<
            (nat, Seq<Seq<char>>),
            ExecutionError,
        >(((14 * n + 3) as nat, seq![spec_output_line(0, n as int)])),
{
    let codes = spec_count_to_x_codes(n);
    let regs0 = spec_zero_regs(rc);
    let mem1 = Map::<usize, i32>::empty().insert(0, 0i32);
    let regs1 = regs0.update(0, 0i32);
    assert(spec_run_from(codes, 0, regs0, Map::empty(), 0, seq![], 0) == spec_run_from(
        codes,
        1,
        regs0,
        mem1,
        1,
        seq![],
        1,
    ));
    assert(spec_run_from(codes, 1, regs0, mem1, 1, seq![], 1) == spec_run_from(
        codes,
        2,
        regs1,
        mem1,
        2,
        seq![],
        2,
    ));
    lemma_count_iter(n, 0, rc, regs1, mem1, 2, seq![], 2);
    assert(Seq::<Seq<char>>::empty().push(spec_output_line(0, n as int)) =~= seq![
        spec_output_line(0, n as int),
    ]);
    assert(seq![] =~= Seq::<Seq<char>>::empty());
}

/// The counting loop's cost grows strictly with its iteration count.
pub proof fn lemma_count_to_x_cost_monotonic(n1: i32, n2: i32, rc: nat)
    requires
        1 <= n1 < n2 <= 1999,
        rc >= 2,
    ensures
        spec_exe(rc, Map::empty(), spec_count_to_x_codes(n1))->Ok_0.0 < spec_exe(
            rc,
            Map::empty(),
            spec_count_to_x_codes(n2),
        )->Ok_0.0,
{
    lemma_count_to_x_cost(n1, rc);
    lemma_count_to_x_cost(n2, rc);
}

} // verus!
