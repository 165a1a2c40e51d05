use superopt::instruction::Instruction;
use superopt::instruction_container::IdAllocator;
use superopt::program::Program;
use superopt::programs::{add_two, count_to_x, vecmul};
use superopt::vm::{ExecutionError, VirtualMachine};
use std::collections::HashMap;

fn run(program: &Program, registers: usize) -> Result<(usize, Vec<String>), ExecutionError> {
    let mut vm = VirtualMachine::new(registers);
    vm.exe(program)
}

#[test]
fn exe_is_deterministic() {
    let mut ids = IdAllocator::new();
    let program = add_two::prog(&mut ids);
    let mut vm = VirtualMachine::new(4);
    let first = vm.exe(&program).unwrap();
    let second = vm.exe(&program).unwrap();
    assert_eq!(first, second);
}

#[test]
fn add_two_outputs_two() {
    let mut ids = IdAllocator::new();
    let program = add_two::prog(&mut ids);
    let (cost, output) = run(&program, 4).unwrap();
    assert_eq!(output, vec!["Register: 0 = 2".to_string()]);
    // Straight-line program: cost is the sum of the static weights
    // (Var 1, SetReg 1+1, Add 1, Store 2, Load 2, Add 1, Store 2,
    // Load 2, Output 1).
    assert_eq!(cost, 14);
}

#[test]
fn count_to_five_outputs_five() {
    let mut ids = IdAllocator::new();
    let program = count_to_x::prog(5, &mut ids);
    let (cost, output) = run(&program, 4).unwrap();
    assert_eq!(output, vec!["Register: 0 = 5".to_string()]);
    assert_eq!(cost, 14 * 5 + 3);
}

#[test]
fn count_cost_strictly_increases_with_target() {
    let mut ids = IdAllocator::new();
    let (c5, _) = run(&count_to_x::prog(5, &mut ids), 4).unwrap();
    let (c6, _) = run(&count_to_x::prog(6, &mut ids), 4).unwrap();
    let (c10, _) = run(&count_to_x::prog(10, &mut ids), 4).unwrap();
    assert!(c5 < c6);
    assert!(c6 < c10);
}

#[test]
fn vecmul_outputs_elementwise_sums() {
    let mut ids = IdAllocator::new();
    let program = vecmul::prog(&mut ids);
    let (cost, output) = run(&program, 4).unwrap();
    assert_eq!(cost, 85);
    let expected: Vec<String> = vec![
        "Register: 0 = 2".to_string(),
        "Register: 0 = 4".to_string(),
        "Register: 0 = 6".to_string(),
        "Register: 0 = 8".to_string(),
        "Register: 0 = 10".to_string(),
    ];
    assert_eq!(output, expected);
}

#[test]
fn load_of_undeclared_variable_fails() {
    let mut ids = IdAllocator::new();
    let program = Program::new(
        vec![Instruction::Load { register: 0, variable: 7 }],
        &mut ids,
    );
    let result = run(&program, 4);
    assert!(matches!(result, Err(ExecutionError::VariableNotFound)));
}

#[test]
fn store_to_undeclared_variable_fails() {
    let mut ids = IdAllocator::new();
    let program = Program::new(
        vec![Instruction::Store { register: 0, variable: 3 }],
        &mut ids,
    );
    let result = run(&program, 4);
    assert!(matches!(result, Err(ExecutionError::VariableNotFound)));
}

#[test]
fn timeout_fires_exactly_at_the_step_budget() {
    // The budget admits 10001 dynamic steps; a straight line of 10001
    // unit instructions completes, one more instruction times out.
    let mut ids = IdAllocator::new();
    let fits: Vec<Instruction> =
        vec![Instruction::SetReg { register: 0, constant: 0 }; 10001];
    let over: Vec<Instruction> =
        vec![Instruction::SetReg { register: 0, constant: 0 }; 10002];
    let ok = run(&Program::new(fits, &mut ids), 1);
    assert_eq!(ok.unwrap().0, 10001);
    let timed_out = run(&Program::new(over, &mut ids), 1);
    assert!(matches!(timed_out, Err(ExecutionError::Timeout)));
}

#[test]
fn infinite_loop_times_out() {
    let mut ids = IdAllocator::new();
    let program = Program::new(
        vec![
            Instruction::SetReg { register: 0, constant: 1 },
            Instruction::PCSetIfNotZero { register: 0, jump_point: 0 },
        ],
        &mut ids,
    );
    let result = run(&program, 1);
    assert!(matches!(result, Err(ExecutionError::Timeout)));
}

#[test]
fn add_overflow_is_reported() {
    let mut ids = IdAllocator::new();
    let program = Program::new(
        vec![
            Instruction::SetReg { register: 0, constant: i32::MAX },
            Instruction::SetReg { register: 1, constant: 1 },
            Instruction::Add { rega: 0, regb: 1, outreg: 0 },
        ],
        &mut ids,
    );
    let result = run(&program, 2);
    assert!(matches!(result, Err(ExecutionError::OverflowArithmetic)));
}

#[test]
fn sub_underflow_is_reported() {
    let mut ids = IdAllocator::new();
    let program = Program::new(
        vec![
            Instruction::SetReg { register: 0, constant: i32::MIN },
            Instruction::SetReg { register: 1, constant: 1 },
            Instruction::Sub { rega: 0, regb: 1, outreg: 0 },
        ],
        &mut ids,
    );
    let result = run(&program, 2);
    assert!(matches!(result, Err(ExecutionError::OverflowArithmetic)));
}

#[test]
fn vecadd_computes_subtraction_in_both_lanes() {
    // Despite its name, the fused two-lane instruction computes
    // subtraction, not addition; both lanes read the registers as they
    // were before either write.
    let mut ids = IdAllocator::new();
    let program = Program::new(
        vec![
            Instruction::SetReg { register: 0, constant: 5 },
            Instruction::SetReg { register: 1, constant: 3 },
            Instruction::VecAdd { a1r: 0, b1r: 1, r1: 0, a2r: 1, b2r: 0, r2: 1 },
            Instruction::Output(0),
            Instruction::Output(1),
        ],
        &mut ids,
    );
    let (cost, output) = run(&program, 2).unwrap();
    assert_eq!(
        output,
        vec!["Register: 0 = 2".to_string(), "Register: 1 = -2".to_string()]
    );
    assert_eq!(cost, 1 + 1 + 1 + 1 + 1);
}

#[test]
fn vecadd_lane_underflow_is_reported() {
    let mut ids = IdAllocator::new();
    let program = Program::new(
        vec![
            Instruction::SetReg { register: 0, constant: i32::MIN },
            Instruction::SetReg { register: 1, constant: 1 },
            Instruction::VecAdd { a1r: 0, b1r: 1, r1: 0, a2r: 1, b2r: 1, r2: 1 },
        ],
        &mut ids,
    );
    let result = run(&program, 2);
    assert!(matches!(result, Err(ExecutionError::OverflowArithmetic)));
}

#[test]
fn var_redeclaration_resets_to_zero() {
    let mut ids = IdAllocator::new();
    let program = Program::new(
        vec![
            Instruction::Var(0),
            Instruction::SetReg { register: 0, constant: 7 },
            Instruction::Store { register: 0, variable: 0 },
            Instruction::Var(0),
            Instruction::Load { register: 1, variable: 0 },
            Instruction::Output(1),
        ],
        &mut ids,
    );
    let (_, output) = run(&program, 2).unwrap();
    assert_eq!(output, vec!["Register: 1 = 0".to_string()]);
}

#[test]
fn base_memory_is_preseeded_and_fresh_per_call() {
    let mut ids = IdAllocator::new();
    let mut base = HashMap::new();
    base.insert(0usize, 41i32);
    let mut vm = VirtualMachine::from_memory_state(2, base);
    let program = Program::new(
        vec![
            Instruction::Load { register: 0, variable: 0 },
            Instruction::SetReg { register: 1, constant: 1 },
            Instruction::Add { rega: 0, regb: 1, outreg: 0 },
            Instruction::Store { register: 0, variable: 0 },
            Instruction::Output(0),
        ],
        &mut ids,
    );
    let (_, first) = vm.exe(&program).unwrap();
    assert_eq!(first, vec!["Register: 0 = 42".to_string()]);
    // The store in the first call must not leak into the second: every
    // call starts from the configured base memory.
    let (_, second) = vm.exe(&program).unwrap();
    assert_eq!(second, vec!["Register: 0 = 42".to_string()]);
}

#[test]
fn negative_values_render_with_sign() {
    let mut ids = IdAllocator::new();
    let program = Program::new(
        vec![
            Instruction::SetReg { register: 0, constant: -42 },
            Instruction::Output(0),
        ],
        &mut ids,
    );
    let (_, output) = run(&program, 1).unwrap();
    assert_eq!(output, vec!["Register: 0 = -42".to_string()]);
}

#[test]
fn extreme_register_values_render_exactly() {
    let mut ids = IdAllocator::new();
    let program = Program::new(
        vec![
            Instruction::SetReg { register: 0, constant: i32::MIN },
            Instruction::SetReg { register: 1, constant: i32::MAX },
            Instruction::Output(0),
            Instruction::Output(1),
        ],
        &mut ids,
    );
    let (_, output) = run(&program, 2).unwrap();
    assert_eq!(
        output,
        vec![
            "Register: 0 = -2147483648".to_string(),
            "Register: 1 = 2147483647".to_string(),
        ]
    );
}
