//! The virtual machine: a re-entrant interpreter with exact operational
//! semantics, a dynamic cost model and a bounded-failure execution
//! contract.
//!
//! The semantics is given once, as the specification function
//! [`spec_run_from`]; `exe` is proved to return exactly what that function
//! says for its program, register count and base memory. Identical inputs
//! therefore always yield identical results: the VM has no hidden state
//! and no hidden randomness.

use vstd::prelude::*;
use std::collections::HashMap;
use crate::instruction::{Instruction, spec_weight};
use crate::program::{Program, spec_prog_regs_ok};
use crate::render::{output_line, spec_output_line};
use vstd::pervasive::VecAdditionalExecFns;

verus! {

broadcast use vstd::std_specs::hash::group_hash_axioms;

/// The dynamic-instruction budget: one execution may take at most this
/// many steps beyond the first before it is aborted with `Timeout`.
pub const TIMEOUT: usize = 10000;

/// A structured failure of one `exe` call. All three abort the call with
/// no partial result.
#[derive(Clone, Copy, Debug, PartialEq, Eq, Structural)]
pub enum ExecutionError {
    /// Load or Store addressed a variable that was never declared.
    VariableNotFound,
    /// The dynamic-instruction budget was exceeded.
    Timeout,
    /// Signed 32-bit overflow or underflow in Add, Sub or VecAdd.
    OverflowArithmetic,
}

/// What one execution yields: the accumulated dynamic cost and the ordered
/// observable output records, or a structured failure.
pub type RunResult = Result<(nat, Seq<Seq<char>>), ExecutionError>;

/// Whether `x` fits in a signed 32-bit register.
pub open spec fn fits_i32(x: int) -> bool {
    i32::MIN <= x <= i32::MAX
}

/// The operational semantics: runs `prog` from program counter `pc` with
/// registers `regs`, variable store `mem`, accumulated cost `cost`, output
/// so far `out`, and `its` dynamic steps already taken.
///
/// Each step advances the counter by 1 before the instruction's effect is
/// applied, so `PCSetIfNotZero` targets are absolute positions. Execution
/// completes normally when the counter runs past the end of the program,
/// and aborts with `Timeout` once more than [`TIMEOUT`] steps have been
/// taken with instructions still remaining.
pub open spec fn spec_run_from(
    prog: Seq<Instruction>,
    pc: nat,
    regs: Seq<i32>,
    mem: Map<usize, i32>,
    cost: nat,
    out: Seq<Seq<char>>,
    its: nat,
) -> RunResult
    decreases TIMEOUT + 1 - its,
{
    if pc >= prog.len() {
        Ok((cost, out))
    } else if its > TIMEOUT {
        Err(ExecutionError::Timeout)
    } else {
        let i = prog[pc as int];
        let cost2 = cost + spec_weight(i);
        let its2 = its + 1;
        match i {
            Instruction::Add { rega, regb, outreg } => {
                let sum = regs[rega as int] + regs[regb as int];
                if fits_i32(sum) {
                    spec_run_from(
                        prog,
                        pc + 1,
                        regs.update(outreg as int, sum as i32),
                        mem,
                        cost2,
                        out,
                        its2,
                    )
                } else {
                    Err(ExecutionError::OverflowArithmetic)
                }
            },
            Instruction::Sub { rega, regb, outreg } => {
                let diff = regs[rega as int] - regs[regb as int];
                if fits_i32(diff) {
                    spec_run_from(
                        prog,
                        pc + 1,
                        regs.update(outreg as int, diff as i32),
                        mem,
                        cost2,
                        out,
                        its2,
                    )
                } else {
                    Err(ExecutionError::OverflowArithmetic)
                }
            },
            Instruction::Var(name) => {
                spec_run_from(prog, pc + 1, regs, mem.insert(name, 0), cost2, out, its2)
            },
            Instruction::Load { register, variable } => {
                if mem.contains_key(variable) {
                    spec_run_from(
                        prog,
                        pc + 1,
                        regs.update(register as int, mem[variable]),
                        mem,
                        cost2,
                        out,
                        its2,
                    )
                } else {
                    Err(ExecutionError::VariableNotFound)
                }
            },
            Instruction::Store { register, variable } => {
                if mem.contains_key(variable) {
                    spec_run_from(
                        prog,
                        pc + 1,
                        regs,
                        mem.insert(variable, regs[register as int]),
                        cost2,
                        out,
                        its2,
                    )
                } else {
                    Err(ExecutionError::VariableNotFound)
                }
            },
            Instruction::SetReg { register, constant } => {
                spec_run_from(
                    prog,
                    pc + 1,
                    regs.update(register as int, constant),
                    mem,
                    cost2,
                    out,
                    its2,
                )
            },
            Instruction::PCSetIfNotZero { register, jump_point } => {
                let pc2 = if regs[register as int] != 0 {
                    jump_point as nat
                } else {
                    pc + 1
                };
                spec_run_from(prog, pc2, regs, mem, cost2, out, its2)
            },
            Instruction::Output(register) => {
                let line = spec_output_line(register as nat, regs[register as int] as int);
                spec_run_from(prog, pc + 1, regs, mem, cost2, out.push(line), its2)
            },
            Instruction::VecAdd { a1r, b1r, r1, a2r, b2r, r2 } => {
                // Both lanes read the registers as they were before either
                // write; the second write wins if the lanes share an output.
                // Despite its name, this instruction computes subtraction in
                // both lanes — a known anomaly, kept deliberately rather
                // than silently fixed.
                let d1 = regs[a1r as int] - regs[b1r as int];
                let d2 = regs[a2r as int] - regs[b2r as int];
                if !fits_i32(d1) {
                    Err(ExecutionError::OverflowArithmetic)
                } else if !fits_i32(d2) {
                    Err(ExecutionError::OverflowArithmetic)
                } else {
                    spec_run_from(
                        prog,
                        pc + 1,
                        regs.update(r1 as int, d1 as i32).update(r2 as int, d2 as i32),
                        mem,
                        cost2,
                        out,
                        its2,
                    )
                }
            },
        }
    }
}

/// A completed run costs at most 10 per remaining budgeted step: each
/// step's weight is at most 10 and at most `TIMEOUT + 1 - its` more steps
/// can run.
pub proof fn lemma_run_cost_bound(
    prog: Seq<Instruction>,
    pc: nat,
    regs: Seq<i32>,
    mem: Map<usize, i32>,
    cost: nat,
    out: Seq<Seq<char>>,
    its: nat,
)
    requires
        its <= TIMEOUT + 1,
        spec_run_from(prog, pc, regs, mem, cost, out, its) matches Ok(_),
    ensures
        spec_run_from(prog, pc, regs, mem, cost, out, its) matches Ok(v) ==> v.0 <= cost + 10 * (
        TIMEOUT + 1 - its),
    decreases TIMEOUT + 1 - its,
{
    if pc >= prog.len() {
    } else {
        let i = prog[pc as int];
        let cost2 = cost + spec_weight(i);
        let its2 = its + 1;
        match i {
            Instruction::Add { rega, regb, outreg } => {
                let sum = regs[rega as int] + regs[regb as int];
                if fits_i32(sum) {
                    lemma_run_cost_bound(
                        prog,
                        pc + 1,
                        regs.update(outreg as int, sum as i32),
                        mem,
                        cost2,
                        out,
                        its2,
                    );
                }
            },
            Instruction::Sub { rega, regb, outreg } => {
                let diff = regs[rega as int] - regs[regb as int];
                if fits_i32(diff) {
                    lemma_run_cost_bound(
                        prog,
                        pc + 1,
                        regs.update(outreg as int, diff as i32),
                        mem,
                        cost2,
                        out,
                        its2,
                    );
                }
            },
            Instruction::Var(name) => {
                lemma_run_cost_bound(prog, pc + 1, regs, mem.insert(name, 0), cost2, out, its2);
            },
            Instruction::Load { register, variable } => {
                if mem.contains_key(variable) {
                    lemma_run_cost_bound(
                        prog,
                        pc + 1,
                        regs.update(register as int, mem[variable]),
                        mem,
                        cost2,
                        out,
                        its2,
                    );
                }
            },
            Instruction::Store { register, variable } => {
                if mem.contains_key(variable) {
                    lemma_run_cost_bound(
                        prog,
                        pc + 1,
                        regs,
                        mem.insert(variable, regs[register as int]),
                        cost2,
                        out,
                        its2,
                    );
                }
            },
            Instruction::SetReg { register, constant } => {
                lemma_run_cost_bound(
                    prog,
                    pc + 1,
                    regs.update(register as int, constant),
                    mem,
                    cost2,
                    out,
                    its2,
                );
            },
            Instruction::PCSetIfNotZero { register, jump_point } => {
                let pc2 = if regs[register as int] != 0 {
                    jump_point as nat
                } else {
                    pc + 1
                };
                lemma_run_cost_bound(prog, pc2, regs, mem, cost2, out, its2);
            },
            Instruction::Output(register) => {
                let line = spec_output_line(register as nat, regs[register as int] as int);
                lemma_run_cost_bound(prog, pc + 1, regs, mem, cost2, out.push(line), its2);
            },
            Instruction::VecAdd { a1r, b1r, r1, a2r, b2r, r2 } => {
                let d1 = regs[a1r as int] - regs[b1r as int];
                let d2 = regs[a2r as int] - regs[b2r as int];
                if fits_i32(d1) && fits_i32(d2) {
                    lemma_run_cost_bound(
                        prog,
                        pc + 1,
                        regs.update(r1 as int, d1 as i32).update(r2 as int, d2 as i32),
                        mem,
                        cost2,
                        out,
                        its2,
                    );
                }
            },
        }
    }
}

/// Any successful execution's dynamic cost is at most `10 * (TIMEOUT + 1)`.
pub proof fn lemma_exe_cost_bound(
    register_count: nat,
    base_memory: Map<usize, i32>,
    prog: Seq<Instruction>,
)
    requires
        spec_exe(register_count, base_memory, prog) matches Ok(_),
    ensures
        spec_exe(register_count, base_memory, prog) matches Ok(v) ==> v.0 <= 10 * (TIMEOUT + 1),
{
    lemma_run_cost_bound(
        prog,
        0,
        spec_zero_regs(register_count),
        base_memory,
        0,
        seq![],
        0,
    );
}

/// A zero-initialized register file of `count` registers.
pub open spec fn spec_zero_regs(count: nat) -> Seq<i32> {
    Seq::new(count, |i: int| 0i32)
}

/// What executing `prog` on a fresh VM with `register_count` registers and
/// variable store pre-seeded from `base_memory` yields.
pub open spec fn spec_exe(
    register_count: nat,
    base_memory: Map<usize, i32>,
    prog: Seq<Instruction>,
) -> RunResult {
    spec_run_from(prog, 0, spec_zero_regs(register_count), base_memory, 0, seq![], 0)
}

/// The interpreter's configuration: a register count and an optional
/// pre-seeded variable store. It holds no execution-call-spanning mutable
/// state, so one VM is safe to reuse across many calls.
pub struct VirtualMachine {
    register_count: usize,
    base_memory: HashMap<usize, i32>,
}

impl VirtualMachine {
    /// The size of the fresh register file allocated per call.
    pub closed spec fn spec_register_count(&self) -> nat {
        self.register_count as nat
    }

    /// The variable store every call starts from.
    pub closed spec fn spec_base_memory(&self) -> Map<usize, i32> {
        self.base_memory@
    }

    /// A VM with `register_count` registers and an empty base store.
    pub fn new(register_count: usize) -> (r: Self)
        ensures
            r.spec_register_count() == register_count,
            r.spec_base_memory() == Map::<usize, i32>::empty(),
    {
        VirtualMachine { register_count, base_memory: HashMap::new() }
    }

    /// A VM with `register_count` registers whose variable store starts
    /// pre-seeded from `base_memory` on every call.
    pub fn from_memory_state(register_count: usize, base_memory: HashMap<usize, i32>) -> (r: Self)
        ensures
            r.spec_register_count() == register_count,
            r.spec_base_memory() == base_memory@,
    {
        VirtualMachine { register_count, base_memory }
    }

    /// Executes `instructions`, returning the dynamic cost and the output
    /// records, or the structured failure — exactly as the semantics
    /// [`spec_exe`] prescribes for this VM's configuration.
    pub fn exe(&mut self, instructions: &Program) -> (r: Result<
        (usize, Vec<String>),
        ExecutionError,
    >)
        requires
            spec_prog_regs_ok(instructions.codes(), old(self).spec_register_count()),
        ensures
            *final(self) == *old(self),
            match r {
                Ok((cost, out)) => spec_exe(
                    old(self).spec_register_count(),
                    old(self).spec_base_memory(),
                    instructions.codes(),
                ) matches Ok(v) && v == (cost as nat, out.deep_view()),
                Err(e) => spec_exe(
                    old(self).spec_register_count(),
                    old(self).spec_base_memory(),
                    instructions.codes(),
                ) matches Err(e2) && e2 == e,
            },
    {
        let ghost codes = instructions.codes();
        let ghost target = spec_exe(
            self.spec_register_count(),
            self.spec_base_memory(),
            codes,
        );
        let n = instructions.len();
        let mut pc: usize = 0;
        let mut cost: usize = 0;
        let mut output: Vec<String> = Vec::new();
        let mut its: usize = 0;

        let register_count = self.register_count;
        let mut registers: Vec<i32> = Vec::new();
        while registers.len() < register_count
            invariant
                registers@.len() <= register_count,
                forall|i: int| 0 <= i < registers@.len() ==> registers@[i] == 0i32,
            decreases register_count - registers@.len(),
        {
            registers.push(0);
        }
        proof {
            assert(registers@ =~= spec_zero_regs(register_count as nat));
        }
        let mut memory = self.base_memory.clone();
        let mut instruction_counter: HashMap<usize, usize> = HashMap::new();
        proof {
            assert(output.deep_view() =~= Seq::<Seq<char>>::empty());
            assert(seq![] =~= Seq::<Seq<char>>::empty());
        }

        loop
            invariant
                n == codes.len(),
                n == instructions@.len(),
                codes == instructions.codes(),
                registers@.len() == register_count,
                register_count == old(self).spec_register_count(),
                spec_prog_regs_ok(codes, register_count as nat),
                its <= TIMEOUT + 1,
                cost <= 10 * its,
                forall|k: usize|
                    instruction_counter@.contains_key(k) ==> instruction_counter@[k] <= its,
                spec_run_from(
                    codes,
                    pc as nat,
                    registers@,
                    memory@,
                    cost as nat,
                    output.deep_view(),
                    its as nat,
                ) == target,
                target == spec_exe(
                    old(self).spec_register_count(),
                    old(self).spec_base_memory(),
                    codes,
                ),
            ensures
                pc >= n,
                spec_run_from(
                    codes,
                    pc as nat,
                    registers@,
                    memory@,
                    cost as nat,
                    output.deep_view(),
                    its as nat,
                ) == target,
            decreases TIMEOUT + 2 - its,
        {
            if pc >= n {
                break;
            }
            let instruction = *instructions.get(pc).unwrap();
            proof {
                assert(codes[pc as int] == instruction.spec_code());
            }
            if its > TIMEOUT {
                proof {
                    assert(target matches Err(e) && e == ExecutionError::Timeout);
                }
                return Err(ExecutionError::Timeout);
            }

            pc = pc + 1;
            its = its + 1;
            cost = cost + instruction.cost();

            let id = instruction.id();
            let prev: usize = match instruction_counter.get(&id) {
                Some(c) => *c,
                None => 0,
            };
            instruction_counter.insert(id, prev + 1);

            let ghost out_dv = output.deep_view();
            match instruction.code() {
                Instruction::Add { rega, regb, outreg } => {
                    let ra: i32 = registers[rega];
                    let x: i32 = match ra.checked_add(registers[regb]) {
                        Some(v) => v,
                        None => {
                            return Err(ExecutionError::OverflowArithmetic);
                        },
                    };
                    registers.set(outreg, x);
                },
                Instruction::SetReg { register, constant } => {
                    registers.set(register, constant);
                },
                Instruction::Sub { rega, regb, outreg } => {
                    let ra: i32 = registers[rega];
                    let x: i32 = match ra.checked_sub(registers[regb]) {
                        Some(v) => v,
                        None => {
                            return Err(ExecutionError::OverflowArithmetic);
                        },
                    };
                    registers.set(outreg, x);
                },
                Instruction::Var(name) => {
                    memory.insert(name, 0);
                },
                Instruction::Load { register, variable } => {
                    let value: i32 = match memory.get(&variable) {
                        Some(e) => *e,
                        None => {
                            return Err(ExecutionError::VariableNotFound);
                        },
                    };
                    registers.set(register, value);
                },
                Instruction::Store { register, variable } => {
                    if memory.contains_key(&variable) {
                        memory.insert(variable, registers[register]);
                    } else {
                        return Err(ExecutionError::VariableNotFound);
                    }
                },
                Instruction::PCSetIfNotZero { register, jump_point } => {
                    if registers[register] != 0 {
                        pc = jump_point;
                    }
                },
                Instruction::Output(register) => {
                    let line = output_line(register, registers[register]);
                    output.push(line);
                    proof {
                        assert(output.deep_view() =~= out_dv.push(
                            spec_output_line(register as nat, registers@[register as int] as int),
                        ));
                    }
                },
                Instruction::VecAdd { a1r, b1r, r1, a2r, b2r, r2 } => {
                    let ra: i32 = registers[a1r];
                    let res1: i32 = match ra.checked_sub(registers[b1r]) {
                        Some(v) => v,
                        None => {
                            return Err(ExecutionError::OverflowArithmetic);
                        },
                    };
                    let rb: i32 = registers[a2r];
                    let res2: i32 = match rb.checked_sub(registers[b2r]) {
                        Some(v) => v,
                        None => {
                            return Err(ExecutionError::OverflowArithmetic);
                        },
                    };
                    registers.set(r1, res1);
                    registers.set(r2, res2);
                },
            }
        }
        proof {
            assert(target matches Ok(v) && v == (cost as nat, output.deep_view()));
        }
        Ok((cost, output))
    }
}

/// The summed static weights of the instructions from position `from` to
/// the end of the program.
pub open spec fn spec_cost_sum(prog: Seq<Instruction>, from: int) -> nat
    decreases prog.len() - from,
{
    if from < 0 || from >= prog.len() {
        0
    } else {
        spec_weight(prog[from]) + spec_cost_sum(prog, from + 1)
    }
}

/// Whether the program contains no branch instruction.
pub open spec fn spec_straight_line(prog: Seq<Instruction>) -> bool {
    forall|i: int|
        0 <= i < prog.len() ==> !((#[trigger] prog[i]) matches Instruction::PCSetIfNotZero { .. })
}

proof fn lemma_straight_line_cost_from(
    prog: Seq<Instruction>,
    pc: nat,
    regs: Seq<i32>,
    mem: Map<usize, i32>,
    cost: nat,
    out: Seq<Seq<char>>,
    its: nat,
)
    requires
        spec_straight_line(prog),
        spec_run_from(prog, pc, regs, mem, cost, out, its) matches Ok(_),
    ensures
        spec_run_from(prog, pc, regs, mem, cost, out, its) matches Ok(v) ==> v.0 == cost
            + spec_cost_sum(prog, pc as int),
    decreases TIMEOUT + 1 - its,
{
    if pc >= prog.len() {
    } else {
        let i = prog[pc as int];
        let cost2 = cost + spec_weight(i);
        let its2 = its + 1;
        match i {
            Instruction::Add { rega, regb, outreg } => {
                let sum = regs[rega as int] + regs[regb as int];
                if fits_i32(sum) {
                    lemma_straight_line_cost_from(
                        prog,
                        pc + 1,
                        regs.update(outreg as int, sum as i32),
                        mem,
                        cost2,
                        out,
                        its2,
                    );
                }
            },
            Instruction::Sub { rega, regb, outreg } => {
                let diff = regs[rega as int] - regs[regb as int];
                if fits_i32(diff) {
                    lemma_straight_line_cost_from(
                        prog,
                        pc + 1,
                        regs.update(outreg as int, diff as i32),
                        mem,
                        cost2,
                        out,
                        its2,
                    );
                }
            },
            Instruction::Var(name) => {
                lemma_straight_line_cost_from(
                    prog,
                    pc + 1,
                    regs,
                    mem.insert(name, 0),
                    cost2,
                    out,
                    its2,
                );
            },
            Instruction::Load { register, variable } => {
                if mem.contains_key(variable) {
                    lemma_straight_line_cost_from(
                        prog,
                        pc + 1,
                        regs.update(register as int, mem[variable]),
                        mem,
                        cost2,
                        out,
                        its2,
                    );
                }
            },
            Instruction::Store { register, variable } => {
                if mem.contains_key(variable) {
                    lemma_straight_line_cost_from(
                        prog,
                        pc + 1,
                        regs,
                        mem.insert(variable, regs[register as int]),
                        cost2,
                        out,
                        its2,
                    );
                }
            },
            Instruction::SetReg { register, constant } => {
                lemma_straight_line_cost_from(
                    prog,
                    pc + 1,
                    regs.update(register as int, constant),
                    mem,
                    cost2,
                    out,
                    its2,
                );
            },
            Instruction::PCSetIfNotZero { register, jump_point } => {
                assert(false);
            },
            Instruction::Output(register) => {
                let line = spec_output_line(register as nat, regs[register as int] as int);
                lemma_straight_line_cost_from(
                    prog,
                    pc + 1,
                    regs,
                    mem,
                    cost2,
                    out.push(line),
                    its2,
                );
            },
            Instruction::VecAdd { a1r, b1r, r1, a2r, b2r, r2 } => {
                let d1 = regs[a1r as int] - regs[b1r as int];
                let d2 = regs[a2r as int] - regs[b2r as int];
                if fits_i32(d1) && fits_i32(d2) {
                    lemma_straight_line_cost_from(
                        prog,
                        pc + 1,
                        regs.update(r1 as int, d1 as i32).update(r2 as int, d2 as i32),
                        mem,
                        cost2,
                        out,
                        its2,
                    );
                }
            },
        }
    }
}

/// Cost accounting for straight-line programs: a program without
/// branches that completes costs exactly the sum of its instructions'
/// static weights — each instruction executes exactly once.
pub proof fn lemma_straight_line_cost(
    register_count: nat,
    base_memory: Map<usize, i32>,
    prog: Seq<Instruction>,
)
    requires
        spec_straight_line(prog),
        spec_exe(register_count, base_memory, prog) matches Ok(_),
    ensures
        spec_exe(register_count, base_memory, prog) matches Ok(v) ==> v.0 == spec_cost_sum(
            prog,
            0,
        ),
{
    lemma_straight_line_cost_from(
        prog,
        0,
        spec_zero_regs(register_count),
        base_memory,
        0,
        seq![],
        0,
    );
}

/// The VM is deterministic: two results that each satisfy `exe`'s
/// contract for the same program, register count and base memory are the
/// same result. There is no hidden state and no hidden randomness.
pub proof fn lemma_exe_deterministic(
    register_count: nat,
    base_memory: Map<usize, i32>,
    prog: Seq<Instruction>,
    r1: RunResult,
    r2: RunResult,
)
    requires
        r1 == spec_exe(register_count, base_memory, prog),
        r2 == spec_exe(register_count, base_memory, prog),
    ensures
        r1 == r2,
{
}

/// Error boundary: a `Load` whose variable is not in the store aborts
/// the run right there with `VariableNotFound`.
pub proof fn lemma_load_undeclared(
    prog: Seq<Instruction>,
    pc: nat,
    regs: Seq<i32>,
    mem: Map<usize, i32>,
    cost: nat,
    out: Seq<Seq<char>>,
    its: nat,
    register: usize,
    variable: usize,
)
    requires
        pc < prog.len(),
        its <= TIMEOUT,
        prog[pc as int] == (Instruction::Load { register, variable }),
        !mem.contains_key(variable),
    ensures
        spec_run_from(prog, pc, regs, mem, cost, out, its) == Err::<
            (nat, Seq<Seq<char>>),
            ExecutionError,
        >(ExecutionError::VariableNotFound),
{
}

/// Error boundary: a `Store` whose variable is not in the store aborts
/// the run right there with `VariableNotFound`.
pub proof fn lemma_store_undeclared(
    prog: Seq<Instruction>,
    pc: nat,
    regs: Seq<i32>,
    mem: Map<usize, i32>,
    cost: nat,
    out: Seq<Seq<char>>,
    its: nat,
    register: usize,
    variable: usize,
)
    requires
        pc < prog.len(),
        its <= TIMEOUT,
        prog[pc as int] == (Instruction::Store { register, variable }),
        !mem.contains_key(variable),
    ensures
        spec_run_from(prog, pc, regs, mem, cost, out, its) == Err::<
            (nat, Seq<Seq<char>>),
            ExecutionError,
        >(ExecutionError::VariableNotFound),
{
}

proof fn lemma_setreg_line_from(len: nat, pc: nat)
    requires
        pc <= len,
    ensures
        spec_run_from(
            Seq::new(len, |i: int| Instruction::SetReg { register: 0, constant: 0 }),
            pc,
            spec_zero_regs(1),
            Map::empty(),
            pc,
            seq![],
            pc,
        ) == (if pc >= len {
            Ok::<(nat, Seq<Seq<char>>), ExecutionError>((pc, seq![]))
        } else if pc > TIMEOUT {
            Err::<(nat, Seq<Seq<char>>), ExecutionError>(ExecutionError::Timeout)
        } else if len <= TIMEOUT + 1 {
            Ok::<(nat, Seq<Seq<char>>), ExecutionError>((len, seq![]))
        } else {
            Err::<(nat, Seq<Seq<char>>), ExecutionError>(ExecutionError::Timeout)
        }),
    decreases len - pc,
{
    let prog = Seq::new(len, |i: int| Instruction::SetReg { register: 0, constant: 0 });
    if pc >= len {
    } else if pc > TIMEOUT {
    } else {
        assert(spec_zero_regs(1).update(0, 0i32) =~= spec_zero_regs(1));
        lemma_setreg_line_from(len, pc + 1);
    }
}

/// Timeout is exact: a straight line of `len` unit instructions
/// completes (at cost `len`) precisely when `len` fits in the dynamic
/// budget of `TIMEOUT + 1` steps, and aborts with `Timeout` the moment
/// the budget is exceeded — never earlier, never later.
pub proof fn lemma_timeout_boundary(len: nat)
    ensures
        len <= TIMEOUT + 1 ==> spec_exe(
            1,
            Map::empty(),
            Seq::new(len, |i: int| Instruction::SetReg { register: 0, constant: 0 }),
        ) == Ok::<(nat, Seq<Seq<char>>), ExecutionError>((len, seq![])),
        len > TIMEOUT + 1 ==> spec_exe(
            1,
            Map::empty(),
            Seq::new(len, |i: int| Instruction::SetReg { register: 0, constant: 0 }),
        ) == Err::<(nat, Seq<Seq<char>>), ExecutionError>(ExecutionError::Timeout),
{
    lemma_setreg_line_from(len, 0);
}

} // verus!
