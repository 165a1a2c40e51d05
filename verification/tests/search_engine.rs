use superopt::action::Action;
use superopt::instruction::Instruction;
use superopt::instruction_container::IdAllocator;
use superopt::op_finder::{mcts, Node, ProgramState, select_child};
use superopt::program::Program;
use superopt::programs::add_two;
use superopt::reward::reward;
use superopt::uct::{isqrt, ln_fp, log2_fp, FP_LN2, FP_SCALE};
use superopt::vm::VirtualMachine;

#[test]
fn state_reward_is_correctness_gated() {
    let mut ids = IdAllocator::new();
    let program = add_two::prog(&mut ids);
    let mut vm = VirtualMachine::new(4);
    let reference = vm.exe(&program).unwrap();
    assert_eq!(reference.0, 14);

    let mut state = ProgramState::new(program);
    assert!(state.requires_exe());
    state.exe(&mut vm).unwrap();
    assert!(!state.requires_exe());

    // Identical cost: not strictly cheaper, flat penalty.
    assert_eq!(state.reward(&reference), -100);
    // Against a dearer reference with the same output: the improvement.
    let dearer = (20usize, reference.1.clone());
    assert_eq!(state.reward(&dearer), 6);
    // Against a different required output: flat penalty.
    let other = (20usize, vec!["Register: 0 = 3".to_string()]);
    assert_eq!(state.reward(&other), -100);
}

#[test]
fn next_moves_proposes_removal_at_each_index() {
    let mut ids = IdAllocator::new();
    let program = Program::new(
        vec![Instruction::Var(0), Instruction::Var(1), Instruction::Var(2)],
        &mut ids,
    );
    let state = ProgramState::new(program);
    let moves = state.next_moves();
    assert_eq!(
        moves,
        vec![Action::Remove(0), Action::Remove(1), Action::Remove(2)]
    );
}

#[test]
fn applying_folds_the_pending_chain() {
    let mut ids = IdAllocator::new();
    let program = Program::new(
        vec![Instruction::Var(0), Instruction::Var(1), Instruction::Var(2)],
        &mut ids,
    );
    let state = ProgramState::new(program);
    let edited = state.applying(&vec![Action::Remove(2), Action::Remove(0)], &mut ids);
    let remaining = edited.program_clone();
    assert_eq!(remaining.len(), 1);
    assert_eq!(remaining.get(0).unwrap().code(), Instruction::Var(1));
}

#[test]
fn graduated_reward_matches_its_formula() {
    let lines = |texts: &[&str]| -> Vec<String> {
        texts.iter().map(|t| t.to_string()).collect()
    };
    // Perfect match, cost 2: 100 * (-0 - 1) * 2 + 1.
    assert_eq!(reward(&lines(&["a"]), (2, lines(&["a"]))), -199);
    // One mismatch, cost 1: 100 * (-1 - 1) * 1 + 1.
    assert_eq!(reward(&lines(&["a"]), (1, lines(&["b"]))), -199);
    // Length surplus of two, cost 0: constant 1.
    assert_eq!(reward(&lines(&["a", "b", "c"]), (0, lines(&["a"]))), 1);
    // Mismatch plus surplus, cost 3: diff 2, 100 * (-3) * 3 + 1.
    assert_eq!(reward(&lines(&["x", "b"]), (3, lines(&["a"]))), -899);
}

#[test]
fn unvisited_child_is_selected_before_any_visited_sibling() {
    let mut root = Node::new(Action::Nothing);
    root.visits = 10;
    root.children = vec![1, 2, 3];
    let mut strong = Node::new(Action::Remove(0));
    strong.visits = 9;
    strong.wins = 1;
    let mut fresh = Node::new(Action::Remove(1));
    fresh.visits = 0;
    let mut weak = Node::new(Action::Remove(2));
    weak.visits = 5;
    weak.wins = 0;
    let arena = vec![root, strong, fresh, weak];
    // However strong a visited sibling looks, the zero-visit child wins,
    // and it keeps winning on repeated selection passes.
    for _ in 0..3 {
        assert_eq!(select_child(&arena, 0), 2);
    }
}

#[test]
fn visited_children_compare_by_uct_value() {
    let mut root = Node::new(Action::Nothing);
    root.visits = 100;
    root.children = vec![1, 2];
    let mut winner = Node::new(Action::Remove(0));
    winner.visits = 50;
    winner.wins = 1;
    let mut loser = Node::new(Action::Remove(1));
    loser.visits = 50;
    loser.wins = 0;
    let arena = vec![root, winner, loser];
    assert_eq!(select_child(&arena, 0), 1);

    let win_value = arena[1].uct_value(100).unwrap();
    let lose_value = arena[2].uct_value(100).unwrap();
    // Equal exploration bonus, so the win rate decides.
    assert_eq!(win_value - lose_value, FP_SCALE / 50);
}

#[test]
fn uct_value_of_unvisited_node_is_unbounded() {
    let node = Node::new(Action::Nothing);
    assert!(node.uct_value(5).is_none());
    assert!(node.leaf());
}

#[test]
fn fixed_point_roots_and_logs_are_exact() {
    assert_eq!(isqrt(0), 0);
    assert_eq!(isqrt(1), 1);
    assert_eq!(isqrt(15), 3);
    assert_eq!(isqrt(16), 4);
    assert_eq!(isqrt(u64::MAX), (1u64 << 32) - 1);
    assert_eq!(log2_fp(1), 0);
    assert_eq!(log2_fp(2), FP_SCALE);
    assert_eq!(log2_fp(4), 2 * FP_SCALE);
    assert_eq!(log2_fp(1024), 10 * FP_SCALE);
    assert_eq!(ln_fp(1), 0);
    assert_eq!(ln_fp(2), FP_LN2);
    // log2(3) in fixed point: 1.5849625... scaled by 2^20 is 1661953.49,
    // and the bit-extraction algorithm truncates.
    assert_eq!(log2_fp(3), FP_SCALE + 613377);
}

#[test]
fn search_reports_only_verified_improvements() {
    // Search soundness: whatever the search reports as best must, on
    // independent re-execution, reproduce the reference output exactly
    // at strictly lower cost.
    let mut ids = IdAllocator::new();
    let program = add_two::prog(&mut ids);
    let mut vm = VirtualMachine::new(4);
    let reference = vm.exe(&program).unwrap();

    let found = mcts(program, &mut vm, &reference, 400, 8);
    if let Some((improvement, best)) = found {
        assert!(improvement >= 1);
        let best = best.expect("a positive improvement must carry its program");
        let mut fresh_vm = VirtualMachine::new(4);
        let (cost, output) = fresh_vm.exe(&best).unwrap();
        assert_eq!(output, reference.1);
        assert!(cost < reference.0);
        assert_eq!(cost, reference.0 - improvement as usize);
    }
}

#[test]
fn search_with_no_budget_or_no_program_reports_nothing() {
    // No passes to run, no rollout steps, or nothing to edit: the
    // search deterministically reports no candidate.
    let mut ids = IdAllocator::new();
    let mut vm = VirtualMachine::new(4);

    let program = add_two::prog(&mut ids);
    let reference = vm.exe(&program).unwrap();
    assert!(mcts(program, &mut vm, &reference, 1, 8).is_none());

    let program = add_two::prog(&mut ids);
    assert!(mcts(program, &mut vm, &reference, 100, 0).is_none());

    let empty = Program::new(vec![], &mut ids);
    let empty_reference = vm.exe(&empty).unwrap();
    assert_eq!(empty_reference, (0, Vec::new()));
    assert!(mcts(empty, &mut vm, &empty_reference, 100, 8).is_none());
}

#[test]
fn search_finds_the_redundant_seed_register_write() {
    // The accumulate-twice fixture wastes at least one instruction
    // (seeding register 0 with 0, which it already holds, and a
    // redundant reload); with a healthy budget the search should find a
    // cheaper correct program. The outcome is random, so allow a few
    // attempts before judging.
    let mut ids = IdAllocator::new();
    let mut improved = false;
    for _ in 0..5 {
        let program = add_two::prog(&mut ids);
        let mut vm = VirtualMachine::new(4);
        let reference = vm.exe(&program).unwrap();
        if let Some((improvement, best)) = mcts(program, &mut vm, &reference, 600, 6) {
            let best = best.unwrap();
            let (cost, output) = vm.exe(&best).unwrap();
            assert_eq!(output, reference.1);
            assert_eq!(cost + improvement as usize, reference.0);
            improved = true;
            break;
        }
    }
    assert!(improved, "no improvement found in any attempt");
}
