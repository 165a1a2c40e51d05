//! The program-edit model: single edit steps against a program, and
//! chains of pending edits applied lazily to a base program.
//!
//! `Replace` only inserts and does not also delete the instruction it
//! is meant to replace, effectively behaving like `Add` — a known
//! anomaly, kept deliberately rather than silently fixed.

use vstd::prelude::*;
use crate::instruction::{Instruction, spec_regs_ok};
use crate::instruction_container::{IdAllocator, InstructionContainer};
use crate::program::{Program, spec_codes, spec_prog_regs_ok};

verus! {

/// A single edit step against a program.
#[derive(Debug, PartialEq, Eq, Hash, Clone, Copy, Structural)]
pub enum Action {
    Remove(usize),
    Replace(usize, Instruction),
    Add(usize, Instruction),
    Move(usize, usize),
    Nothing,
}

/// Whether applying `a` draws a fresh instruction identity.
pub open spec fn spec_action_allocates(a: Action) -> bool {
    match a {
        Action::Remove(_) => false,
        Action::Replace(_, _) => true,
        Action::Add(_, _) => true,
        Action::Move(_, _) => true,
        Action::Nothing => false,
    }
}

/// Whether `a` can be applied to a program of length `len` (its indices
/// are in range and the program can still grow).
pub open spec fn spec_action_ok(len: nat, a: Action) -> bool {
    match a {
        Action::Remove(idx) => idx < len,
        Action::Replace(idx, _) => idx <= len && len < usize::MAX,
        Action::Add(idx, _) => idx <= len && len < usize::MAX,
        Action::Move(from, to) => from < len && to <= len - 1,
        Action::Nothing => true,
    }
}

/// The program produced by applying `a`, where a freshly created
/// container takes identity `next_id`.
pub open spec fn spec_apply_action(
    s: Seq<InstructionContainer>,
    a: Action,
    next_id: nat,
) -> Seq<InstructionContainer> {
    match a {
        Action::Remove(idx) => s.remove(idx as int),
        Action::Replace(idx, code) => s.insert(
            idx as int,
            InstructionContainer { code, id: next_id as usize },
        ),
        Action::Add(idx, code) => s.insert(
            idx as int,
            InstructionContainer { code, id: next_id as usize },
        ),
        Action::Move(from, to) => s.remove(from as int).insert(
            to as int,
            InstructionContainer { code: s[from as int].code, id: next_id as usize },
        ),
        Action::Nothing => s,
    }
}

/// How many fresh identities a chain of edits draws.
pub open spec fn spec_chain_allocs(chain: Seq<Action>) -> nat
    decreases chain.len(),
{
    if chain.len() == 0 {
        0
    } else {
        (if spec_action_allocates(chain[0]) {
            1nat
        } else {
            0nat
        }) + spec_chain_allocs(chain.skip(1))
    }
}

/// Whether a chain of edits can be applied in order to `s`, starting with
/// identity `next_id` available.
pub open spec fn spec_chain_ok(s: Seq<InstructionContainer>, chain: Seq<Action>, next_id: nat) -> bool
    decreases chain.len(),
{
    if chain.len() == 0 {
        true
    } else {
        &&& spec_action_ok(s.len(), chain[0])
        &&& (spec_action_allocates(chain[0]) ==> next_id < usize::MAX)
        &&& spec_chain_ok(
            spec_apply_action(s, chain[0], next_id),
            chain.skip(1),
            next_id + (if spec_action_allocates(chain[0]) {
                1nat
            } else {
                0nat
            }),
        )
    }
}

/// The program produced by folding a chain of edits over `s`.
pub open spec fn spec_apply_chain(
    s: Seq<InstructionContainer>,
    chain: Seq<Action>,
    next_id: nat,
) -> Seq<InstructionContainer>
    decreases chain.len(),
{
    if chain.len() == 0 {
        s
    } else {
        spec_apply_chain(
            spec_apply_action(s, chain[0], next_id),
            chain.skip(1),
            next_id + (if spec_action_allocates(chain[0]) {
                1nat
            } else {
                0nat
            }),
        )
    }
}

/// Whether every action in the chain is a `Remove`.
pub open spec fn spec_all_removes(chain: Seq<Action>) -> bool {
    forall|i: int| 0 <= i < chain.len() ==> (#[trigger] chain[i]) matches Action::Remove(_)
}

/// A chain of removals draws no identities, so its applicability and its
/// result do not depend on the allocator position.
pub proof fn lemma_remove_chain_any_id(
    s: Seq<InstructionContainer>,
    chain: Seq<Action>,
    n1: nat,
    n2: nat,
)
    requires
        spec_all_removes(chain),
    ensures
        spec_chain_allocs(chain) == 0,
        spec_chain_ok(s, chain, n1) == spec_chain_ok(s, chain, n2),
        spec_apply_chain(s, chain, n1) == spec_apply_chain(s, chain, n2),
    decreases chain.len(),
{
    if chain.len() > 0 {
        assert(chain[0] matches Action::Remove(_));
        assert(spec_all_removes(chain.skip(1))) by {
            assert(forall|i: int|
                0 <= i < chain.skip(1).len() ==> chain.skip(1)[i] == chain[i + 1]);
        }
        lemma_remove_chain_any_id(spec_apply_action(s, chain[0], n1), chain.skip(1), n1, n2);
    }
}


/// A chain of removals shortens the program by exactly its length.
pub proof fn lemma_remove_chain_len(
    s: Seq<InstructionContainer>,
    chain: Seq<Action>,
    next_id: nat,
)
    requires
        spec_all_removes(chain),
        spec_chain_ok(s, chain, next_id),
    ensures
        chain.len() <= s.len(),
        spec_apply_chain(s, chain, next_id).len() == s.len() - chain.len(),
    decreases chain.len(),
{
    if chain.len() > 0 {
        assert(chain[0] matches Action::Remove(_));
        assert(spec_all_removes(chain.skip(1))) by {
            assert(forall|i: int|
                0 <= i < chain.skip(1).len() ==> chain.skip(1)[i] == chain[i + 1]);
        }
        lemma_remove_chain_len(spec_apply_action(s, chain[0], next_id), chain.skip(1), next_id);
    }
}

/// Removing one container keeps every register operand in range.
pub proof fn lemma_remove_preserves_regs_ok(
    s: Seq<InstructionContainer>,
    idx: int,
    register_count: nat,
)
    requires
        spec_prog_regs_ok(spec_codes(s), register_count),
        0 <= idx < s.len(),
    ensures
        spec_prog_regs_ok(spec_codes(s.remove(idx)), register_count),
{
    let before = spec_codes(s);
    let after = spec_codes(s.remove(idx));
    assert forall|i: int| 0 <= i < after.len() implies spec_regs_ok(after[i], register_count) by {
        if i < idx {
            assert(after[i] == before[i]);
        } else {
            assert(after[i] == before[i + 1]);
        }
    }
}

/// A chain of removals keeps every register operand in range.
pub proof fn lemma_remove_chain_preserves_regs_ok(
    s: Seq<InstructionContainer>,
    chain: Seq<Action>,
    next_id: nat,
    register_count: nat,
)
    requires
        spec_all_removes(chain),
        spec_chain_ok(s, chain, next_id),
        spec_prog_regs_ok(spec_codes(s), register_count),
    ensures
        spec_prog_regs_ok(spec_codes(spec_apply_chain(s, chain, next_id)), register_count),
    decreases chain.len(),
{
    if chain.len() > 0 {
        let idx = chain[0]->Remove_0;
        lemma_remove_preserves_regs_ok(s, idx as int, register_count);
        assert(spec_all_removes(chain.skip(1))) by {
            assert(forall|i: int|
                0 <= i < chain.skip(1).len() ==> chain.skip(1)[i] == chain[i + 1]);
        }
        lemma_remove_chain_preserves_regs_ok(
            spec_apply_action(s, chain[0], next_id),
            chain.skip(1),
            next_id,
            register_count,
        );
    }
}

impl Program {
    /// Applies one edit step, drawing a fresh identity from `ids` if the
    /// edit creates an instruction container.
    pub fn apply_action(self, action: &Action, ids: &mut IdAllocator) -> (r: Self)
        requires
            spec_action_ok(self@.len(), *action),
            spec_action_allocates(*action) ==> old(ids).spec_next() < usize::MAX,
        ensures
            r@ == spec_apply_action(self@, *action, old(ids).spec_next()),
            final(ids).spec_next() == old(ids).spec_next() + (if spec_action_allocates(*action) {
                1nat
            } else {
                0nat
            }),
    {
        let mut cur = self;
        match action {
            Action::Remove(idx) => {
                cur.remove(*idx);
            },
            Action::Replace(idx, new) => {
                cur.insert(*idx, InstructionContainer::new(*new, ids));
            },
            Action::Add(idx, new) => {
                cur.insert(*idx, InstructionContainer::new(*new, ids));
            },
            Action::Nothing => {},
            Action::Move(from, to) => {
                let pre_len = cur.len();
                let code = cur.remove(*from);
                let rem = InstructionContainer::new(code, ids);
                proof {
                    assert(cur@.len() == pre_len - 1 < usize::MAX);
                }
                cur.insert(*to, rem);
            },
        }
        cur
    }

    /// Folds a chain of pending edits over this program, in order.
    pub fn apply(self, actions: &Vec<Action>, ids: &mut IdAllocator) -> (r: Self)
        requires
            spec_chain_ok(self@, actions@, old(ids).spec_next()),
        ensures
            r@ == spec_apply_chain(self@, actions@, old(ids).spec_next()),
            final(ids).spec_next() == old(ids).spec_next() + spec_chain_allocs(actions@),
    {
        let ghost target = spec_apply_chain(self@, actions@, old(ids).spec_next());
        let ghost target_allocs = old(ids).spec_next() + spec_chain_allocs(actions@);
        let mut cur = self;
        let n = actions.len();
        let mut i: usize = 0;
        proof {
            assert(actions@.skip(0) =~= actions@);
        }
        while i < n
            invariant
                n == actions@.len(),
                i <= n,
                spec_chain_ok(cur@, actions@.skip(i as int), ids.spec_next()),
                spec_apply_chain(cur@, actions@.skip(i as int), ids.spec_next()) == target,
                ids.spec_next() + spec_chain_allocs(actions@.skip(i as int)) == target_allocs,
            decreases n - i,
        {
            let ghost pre = actions@.skip(i as int);
            proof {
                assert(pre[0] == actions@[i as int]);
                assert(pre.skip(1) =~= actions@.skip(i + 1));
            }
            cur = cur.apply_action(&actions[i], ids);
            i = i + 1;
        }
        proof {
            assert(actions@.skip(n as int) =~= Seq::<Action>::empty());
        }
        cur
    }
}

impl Instruction {
    /// Candidate replacement instructions for this instruction, as the
    /// search's extensible action generator proposes them: alternate
    /// register assignments for Load/Store/SetReg and Output, the
    /// enumerated register pairs for Add/Sub (always targeting register
    /// 0), and nothing for VecAdd.
    pub fn instruction_replacements(&self) -> (r: Vec<Instruction>)
        ensures
            r@ == spec_instruction_replacements(*self),
    {
        match self {
            Instruction::Add { rega: _, regb: _, outreg: _ } => {
                let mut v: Vec<Instruction> = Vec::new();
                for j in 0..64usize
                    invariant
                        v@ =~= Seq::new(
                            j as nat,
                            |q: int|
                                Instruction::Add {
                                    rega: (q / 16) as usize,
                                    regb: ((q % 16) / 4) as usize,
                                    outreg: 0,
                                },
                        ),
                {
                    v.push(Instruction::Add { rega: j / 16, regb: (j % 16) / 4, outreg: 0 });
                    proof {
                        assert(v@ =~= Seq::new(
                            (j + 1) as nat,
                            |q: int|
                                Instruction::Add {
                                    rega: (q / 16) as usize,
                                    regb: ((q % 16) / 4) as usize,
                                    outreg: 0,
                                },
                        ));
                    }
                }
                v
            },
            Instruction::Sub { rega: _, regb: _, outreg: _ } => {
                let mut v: Vec<Instruction> = Vec::new();
                for j in 0..64usize
                    invariant
                        v@ =~= Seq::new(
                            j as nat,
                            |q: int|
                                Instruction::Sub {
                                    rega: (q / 16) as usize,
                                    regb: ((q % 16) / 4) as usize,
                                    outreg: 0,
                                },
                        ),
                {
                    v.push(Instruction::Sub { rega: j / 16, regb: (j % 16) / 4, outreg: 0 });
                    proof {
                        assert(v@ =~= Seq::new(
                            (j + 1) as nat,
                            |q: int|
                                Instruction::Sub {
                                    rega: (q / 16) as usize,
                                    regb: ((q % 16) / 4) as usize,
                                    outreg: 0,
                                },
                        ));
                    }
                }
                v
            },
            Instruction::Var(a) => {
                let v: Vec<Instruction> = vec![Instruction::Var(*a)];
                proof {
                    assert(v@ =~= spec_instruction_replacements(*self));
                }
                v
            },
            Instruction::Load { register: _, variable } => {
                let v: Vec<Instruction> = vec![
                    Instruction::Load { register: 0, variable: *variable },
                    Instruction::Load { register: 1, variable: *variable },
                    Instruction::Load { register: 2, variable: *variable },
                    Instruction::Load { register: 3, variable: *variable },
                ];
                proof {
                    assert(v@ =~= spec_instruction_replacements(*self));
                }
                v
            },
            Instruction::Store { register: _, variable } => {
                let v: Vec<Instruction> = vec![
                    Instruction::Store { register: 0, variable: *variable },
                    Instruction::Store { register: 1, variable: *variable },
                    Instruction::Store { register: 2, variable: *variable },
                    Instruction::Store { register: 3, variable: *variable },
                ];
                proof {
                    assert(v@ =~= spec_instruction_replacements(*self));
                }
                v
            },
            Instruction::SetReg { register: _, constant } => {
                let v: Vec<Instruction> = vec![
                    Instruction::SetReg { register: 0, constant: *constant },
                    Instruction::SetReg { register: 1, constant: *constant },
                    Instruction::SetReg { register: 2, constant: *constant },
                    Instruction::SetReg { register: 3, constant: *constant },
                ];
                proof {
                    assert(v@ =~= spec_instruction_replacements(*self));
                }
                v
            },
            Instruction::VecAdd { a1r: _, b1r: _, r1: _, a2r: _, b2r: _, r2: _ } => {
                let v: Vec<Instruction> = Vec::new();
                proof {
                    assert(v@ =~= spec_instruction_replacements(*self));
                }
                v
            },
            Instruction::PCSetIfNotZero { register, jump_point } => {
                let v: Vec<Instruction> = vec![
                    Instruction::PCSetIfNotZero {
                        register: *register,
                        jump_point: *jump_point,
                    },
                ];
                proof {
                    assert(v@ =~= spec_instruction_replacements(*self));
                }
                v
            },
            Instruction::Output(_) => {
                let v: Vec<Instruction> = vec![
                    Instruction::Output(0),
                    Instruction::Output(1),
                    Instruction::Output(2),
                    Instruction::Output(3),
                ];
                proof {
                    assert(v@ =~= spec_instruction_replacements(*self));
                }
                v
            },
        }
    }
}

/// The candidate replacements `instruction_replacements` proposes for `i`.
pub open spec fn spec_instruction_replacements(i: Instruction) -> Seq<Instruction> {
    match i {
        Instruction::Add { .. } => Seq::new(
            64,
            |q: int|
                Instruction::Add {
                    rega: (q / 16) as usize,
                    regb: ((q % 16) / 4) as usize,
                    outreg: 0,
                },
        ),
        Instruction::Sub { .. } => Seq::new(
            64,
            |q: int|
                Instruction::Sub {
                    rega: (q / 16) as usize,
                    regb: ((q % 16) / 4) as usize,
                    outreg: 0,
                },
        ),
        Instruction::Var(a) => seq![Instruction::Var(a)],
        Instruction::Load { register: _, variable } => Seq::new(
            4,
            |q: int| Instruction::Load { register: q as usize, variable },
        ),
        Instruction::Store { register: _, variable } => Seq::new(
            4,
            |q: int| Instruction::Store { register: q as usize, variable },
        ),
        Instruction::SetReg { register: _, constant } => Seq::new(
            4,
            |q: int| Instruction::SetReg { register: q as usize, constant },
        ),
        Instruction::VecAdd { .. } => Seq::empty(),
        Instruction::PCSetIfNotZero { register, jump_point } => seq![
            Instruction::PCSetIfNotZero { register, jump_point },
        ],
        Instruction::Output(_) => seq![
            Instruction::Output(0),
            Instruction::Output(1),
            Instruction::Output(2),
            Instruction::Output(3),
        ],
    }
}

} // verus!
