use superopt::action::Action;
use superopt::instruction::Instruction;
use superopt::instruction_container::{IdAllocator, InstructionContainer};
use superopt::program::Program;

#[test]
fn identities_are_unique_and_increasing() {
    let mut ids = IdAllocator::new();
    let a = InstructionContainer::new(Instruction::Var(0), &mut ids);
    let b = InstructionContainer::new(Instruction::Var(0), &mut ids);
    let c = InstructionContainer::new(Instruction::Output(0), &mut ids);
    assert_eq!(a.id(), 0);
    assert_eq!(b.id(), 1);
    assert_eq!(c.id(), 2);
    // Same instruction, different identity: the containers differ.
    assert_ne!(a, b);
    // A copy retains the identity.
    let a2 = a;
    assert_eq!(a2.id(), a.id());
    assert_eq!(a2, a);
}

#[test]
fn container_reports_static_weights() {
    let mut ids = IdAllocator::new();
    let weight = |i: Instruction, ids: &mut IdAllocator| InstructionContainer::new(i, ids).cost();
    assert_eq!(weight(Instruction::Add { rega: 0, regb: 1, outreg: 0 }, &mut ids), 1);
    assert_eq!(weight(Instruction::Sub { rega: 0, regb: 1, outreg: 0 }, &mut ids), 1);
    assert_eq!(weight(Instruction::Var(0), &mut ids), 1);
    assert_eq!(weight(Instruction::Load { register: 0, variable: 0 }, &mut ids), 2);
    assert_eq!(weight(Instruction::Store { register: 0, variable: 0 }, &mut ids), 2);
    assert_eq!(weight(Instruction::SetReg { register: 0, constant: 9 }, &mut ids), 1);
    assert_eq!(
        weight(Instruction::PCSetIfNotZero { register: 0, jump_point: 0 }, &mut ids),
        10
    );
    assert_eq!(weight(Instruction::Output(0), &mut ids), 1);
    assert_eq!(
        weight(Instruction::VecAdd { a1r: 0, b1r: 1, r1: 0, a2r: 2, b2r: 3, r2: 1 }, &mut ids),
        1
    );
}

#[test]
fn program_get_len_insert_remove() {
    let mut ids = IdAllocator::new();
    let mut program = Program::new(
        vec![Instruction::Var(0), Instruction::Output(0)],
        &mut ids,
    );
    assert_eq!(program.len(), 2);
    assert_eq!(program.get(0).unwrap().code(), Instruction::Var(0));
    assert_eq!(program.get(1).unwrap().code(), Instruction::Output(0));
    assert!(program.get(2).is_none());

    let extra = InstructionContainer::new(Instruction::Output(1), &mut ids);
    program.insert(1, extra);
    assert_eq!(program.len(), 3);
    assert_eq!(program.get(1).unwrap().code(), Instruction::Output(1));
    assert_eq!(program.get(2).unwrap().code(), Instruction::Output(0));

    let removed = program.remove(0);
    assert_eq!(removed, Instruction::Var(0));
    assert_eq!(program.len(), 2);
    assert_eq!(program.get(0).unwrap().code(), Instruction::Output(1));
}

#[test]
fn regs_ok_checks_every_operand() {
    let mut ids = IdAllocator::new();
    let fine = Program::new(
        vec![
            Instruction::Add { rega: 0, regb: 1, outreg: 2 },
            Instruction::Output(3),
        ],
        &mut ids,
    );
    assert!(fine.regs_ok(4));
    assert!(!fine.regs_ok(3));
    let bad = Program::new(vec![Instruction::Output(4)], &mut ids);
    assert!(!bad.regs_ok(4));
}

#[test]
fn apply_remove_deletes_at_index() {
    let mut ids = IdAllocator::new();
    let program = Program::new(
        vec![Instruction::Var(0), Instruction::Var(1), Instruction::Var(2)],
        &mut ids,
    );
    let edited = program.apply_action(&Action::Remove(1), &mut ids);
    assert_eq!(edited.len(), 2);
    assert_eq!(edited.get(0).unwrap().code(), Instruction::Var(0));
    assert_eq!(edited.get(1).unwrap().code(), Instruction::Var(2));
}

#[test]
fn apply_replace_only_inserts() {
    // `Replace` inserts a new instruction without removing
    // the one it is meant to replace, behaving like `Add`.
    let mut ids = IdAllocator::new();
    let program = Program::new(vec![Instruction::Var(0), Instruction::Var(1)], &mut ids);
    let edited = program.apply_action(&Action::Replace(0, Instruction::Output(0)), &mut ids);
    assert_eq!(edited.len(), 3);
    assert_eq!(edited.get(0).unwrap().code(), Instruction::Output(0));
    assert_eq!(edited.get(1).unwrap().code(), Instruction::Var(0));
    assert_eq!(edited.get(2).unwrap().code(), Instruction::Var(1));
}

#[test]
fn apply_add_inserts_with_fresh_identity() {
    let mut ids = IdAllocator::new();
    let program = Program::new(vec![Instruction::Var(0)], &mut ids);
    let edited = program.apply_action(&Action::Add(1, Instruction::Output(0)), &mut ids);
    assert_eq!(edited.len(), 2);
    assert_eq!(edited.get(1).unwrap().code(), Instruction::Output(0));
    assert_eq!(edited.get(1).unwrap().id(), 1);
}

#[test]
fn apply_move_reinserts_under_new_identity() {
    let mut ids = IdAllocator::new();
    let program = Program::new(
        vec![Instruction::Var(0), Instruction::Var(1), Instruction::Var(2)],
        &mut ids,
    );
    let edited = program.apply_action(&Action::Move(0, 2), &mut ids);
    assert_eq!(edited.len(), 3);
    assert_eq!(edited.get(0).unwrap().code(), Instruction::Var(1));
    assert_eq!(edited.get(1).unwrap().code(), Instruction::Var(2));
    assert_eq!(edited.get(2).unwrap().code(), Instruction::Var(0));
    // The moved instruction travels under a fresh identity.
    assert_eq!(edited.get(2).unwrap().id(), 3);
}

#[test]
fn apply_nothing_is_identity() {
    let mut ids = IdAllocator::new();
    let program = Program::new(vec![Instruction::Var(0)], &mut ids);
    let edited = program.apply_action(&Action::Nothing, &mut ids);
    assert_eq!(edited.len(), 1);
    assert_eq!(edited.get(0).unwrap().code(), Instruction::Var(0));
}

#[test]
fn apply_folds_a_chain_in_order() {
    let mut ids = IdAllocator::new();
    let program = Program::new(
        vec![Instruction::Var(0), Instruction::Var(1), Instruction::Var(2)],
        &mut ids,
    );
    let chain = vec![Action::Remove(0), Action::Remove(1)];
    let edited = program.apply(&chain, &mut ids);
    assert_eq!(edited.len(), 1);
    assert_eq!(edited.get(0).unwrap().code(), Instruction::Var(1));
}

#[test]
fn replacements_enumerate_register_alternatives() {
    let add = Instruction::Add { rega: 2, regb: 3, outreg: 1 };
    let adds = add.instruction_replacements();
    assert_eq!(adds.len(), 64);
    assert!(adds.iter().all(|i| matches!(i, Instruction::Add { outreg: 0, .. })));
    assert_eq!(adds[0], Instruction::Add { rega: 0, regb: 0, outreg: 0 });
    assert_eq!(adds[63], Instruction::Add { rega: 3, regb: 3, outreg: 0 });

    let load = Instruction::Load { register: 2, variable: 9 };
    let loads = load.instruction_replacements();
    assert_eq!(loads.len(), 4);
    for (k, candidate) in loads.iter().enumerate() {
        assert_eq!(*candidate, Instruction::Load { register: k, variable: 9 });
    }

    let vec_add = Instruction::VecAdd { a1r: 0, b1r: 1, r1: 0, a2r: 2, b2r: 3, r2: 1 };
    assert!(vec_add.instruction_replacements().is_empty());

    let out = Instruction::Output(2);
    assert_eq!(
        out.instruction_replacements(),
        vec![
            Instruction::Output(0),
            Instruction::Output(1),
            Instruction::Output(2),
            Instruction::Output(3),
        ]
    );
}
