//! The search engine: Monte-Carlo tree search over program-edit actions.
//!
//! A search state is a base program plus a chain of pending edit actions,
//! materialized only when it must be executed. The tree lives in a flat
//! arena; children are referenced by index and always sit after their
//! parent, so every root-to-leaf walk is finite. Selection descends by
//! fixed-point UCT priority (an unvisited child ranks above any visited
//! sibling), expansion creates one child per proposed action, a rollout
//! of random edits scored through the VM estimates the leaf's value, and
//! the outcome is propagated back up the selection path: each visited
//! ancestor's visit count increments by one and its win count is
//! overwritten with the outcome — a deliberate simplification of classic
//! MCTS averaging.

use vstd::prelude::*;
use crate::action::{
    Action,
    spec_all_removes,
    spec_apply_chain,
    spec_chain_allocs,
    spec_chain_ok,
    lemma_remove_chain_any_id,
    lemma_remove_chain_len,
    lemma_remove_chain_preserves_regs_ok,
};
use crate::instruction::Instruction;
use crate::instruction_container::{IdAllocator, InstructionContainer};
use crate::program::{Program, spec_codes, spec_prog_regs_ok};
use crate::rng::{fresh_rng, rng_below};
use crate::uct::{priority_ge, spec_priority_ge, spec_uct_fp, uct_fp};
use crate::vm::{lemma_exe_cost_bound, spec_exe, ExecutionError, VirtualMachine};
use vstd::pervasive::unreached;
use vstd::pervasive::VecAdditionalExecFns;

verus! {

broadcast use vstd::std_specs::vec::vec_clone_deep_view_proof;

/// A base program plus an optional cached execution result. The state
/// must be executed before correctness or reward queries are valid;
/// querying an unexecuted state is ruled out by contract.
pub struct ProgramState {
    program: Program,
    out: Option<(usize, Vec<String>)>,
}

/// The edit actions the search proposes from a state: remove at each
/// index.
pub open spec fn spec_next_moves(len: nat) -> Seq<Action> {
    Seq::new(len, |i: int| Action::Remove(i as usize))
}

impl ProgramState {
    /// The instruction containers of this state's program.
    pub closed spec fn prog_view(&self) -> Seq<InstructionContainer> {
        self.program@
    }

    /// The bare instructions of this state's program.
    pub open spec fn codes(&self) -> Seq<Instruction> {
        spec_codes(self.prog_view())
    }

    /// The cached execution result: dynamic cost and output records.
    pub closed spec fn out_view(&self) -> Option<(nat, Seq<Seq<char>>)> {
        match self.out {
            None => None,
            Some((c, v)) => Some((c as nat, v.deep_view())),
        }
    }

    /// The cached dynamic cost (meaningful only once executed).
    pub open spec fn spec_cost(&self) -> nat
        recommends
            self.out_view() is Some,
    {
        self.out_view()->Some_0.0
    }

    /// The cached output records (meaningful only once executed).
    pub open spec fn spec_lines(&self) -> Seq<Seq<char>>
        recommends
            self.out_view() is Some,
    {
        self.out_view()->Some_0.1
    }

    /// A fresh, unexecuted state over `program`.
    pub fn new(program: Program) -> (r: Self)
        ensures
            r.prog_view() == program@,
            r.out_view() is None,
    {
        ProgramState { out: None, program }
    }

    /// Whether the state still has to be executed before it can be
    /// scored.
    pub fn requires_exe(&self) -> (r: bool)
        ensures
            r == (self.out_view() is None),
    {
        self.out.is_none()
    }

    /// A copy of this state's program.
    pub fn program_clone(&self) -> (r: Program)
        ensures
            r@ == self.prog_view(),
    {
        self.program.clone()
    }

    /// Executes this state's program on `vm` and caches the result on
    /// success; on failure the cache keeps its previous value.
    pub fn exe(&mut self, vm: &mut VirtualMachine) -> (r: Result<(), ExecutionError>)
        requires
            spec_prog_regs_ok(old(self).codes(), old(vm).spec_register_count()),
        ensures
            *final(vm) == *old(vm),
            final(self).prog_view() == old(self).prog_view(),
            match r {
                Ok(_) => spec_exe(
                    old(vm).spec_register_count(),
                    old(vm).spec_base_memory(),
                    old(self).codes(),
                ) matches Ok(v) && final(self).out_view() == Some(v),
                Err(e) => spec_exe(
                    old(vm).spec_register_count(),
                    old(vm).spec_base_memory(),
                    old(self).codes(),
                ) matches Err(e2) && e2 == e && final(self).out_view() == old(self).out_view(),
            },
    {
        match vm.exe(&self.program) {
            Ok(o) => {
                self.out = Some(o);
                Ok(())
            },
            Err(e) => Err(e),
        }
    }

    /// Materializes the state reached by folding `actions` over this
    /// state's program, carrying the cached result over unchanged.
    pub fn applying(&self, actions: &Vec<Action>, ids: &mut IdAllocator) -> (r: Self)
        requires
            spec_chain_ok(self.prog_view(), actions@, old(ids).spec_next()),
        ensures
            r.prog_view() == spec_apply_chain(self.prog_view(), actions@, old(ids).spec_next()),
            r.out_view() == self.out_view(),
            final(ids).spec_next() == old(ids).spec_next() + spec_chain_allocs(actions@),
    {
        let mut new = self.clone();
        new.program = new.program.apply(actions, ids);
        new
    }

    /// Whether the cached output matches the reference output exactly:
    /// same length, element-wise equal.
    pub fn is_correct(&self, reference: &Vec<String>) -> (r: bool)
        requires
            self.out_view() is Some,
        ensures
            r == (self.spec_lines() == reference.deep_view()),
    {
        let out = match &self.out {
            Some(o) => o,
            None => unreached(),
        };

        if out.1.len() != reference.len() {
            proof {
                assert(self.spec_lines().len() != reference.deep_view().len());
            }
            return false;
        }
        let n = reference.len();
        for i in 0..n
            invariant
                n == reference.deep_view().len(),
                n == self.spec_lines().len(),
                self.out_view() is Some,
                self.out matches Some(o) && o.1.deep_view() == self.spec_lines() && o.1@.len()
                    == n,
                reference.deep_view().len() == reference@.len(),
                forall|j: int| 0 <= j < i ==> self.spec_lines()[j] == reference.deep_view()[j],
        {
            let ours = match &self.out {
                Some(o) => &o.1,
                None => unreached(),
            };
            if !(ours[i] == reference[i]) {
                proof {
                    assert(self.spec_lines()[i as int] != reference.deep_view()[i as int]);
                }
                return false;
            }
            proof {
                assert(self.spec_lines()[i as int] == reference.deep_view()[i as int]);
            }
        }
        proof {
            assert(self.spec_lines() =~= reference.deep_view());
        }
        true
    }

    /// Whether the cached cost strictly undercuts the reference cost.
    pub fn is_more_optimal(&self, reference: usize) -> (r: bool)
        requires
            self.out_view() is Some,
        ensures
            r == (self.spec_cost() < reference),
    {
        let out = match &self.out {
            Some(o) => o,
            None => unreached(),
        };
        out.0 < reference
    }

    /// The correctness-gated reward against the reference result `reference`:
    /// the cost improvement when the candidate is correct and strictly
    /// cheaper, a flat penalty of -100 otherwise.
    pub fn reward(&self, reference: &(usize, Vec<String>)) -> (r: isize)
        requires
            self.out_view() is Some,
            reference.0 <= isize::MAX,
            self.spec_cost() <= isize::MAX,
        ensures
            r == spec_state_reward(
                self.spec_cost(),
                self.spec_lines(),
                reference.0 as nat,
                reference.1.deep_view(),
            ),
    {
        let out_cost = match &self.out {
            Some(o) => o.0,
            None => unreached(),
        };

        if self.is_more_optimal(reference.0) && self.is_correct(&reference.1) {
            (reference.0 as isize) - (out_cost as isize)
        } else {
            -100
        }
    }

    /// The edit actions to explore from this state: remove at each index.
    pub fn next_moves(&self) -> (r: Vec<Action>)
        ensures
            r@ == spec_next_moves(self.prog_view().len()),
            r@.len() == self.prog_view().len(),
    {
        let mut new_moves: Vec<Action> = Vec::new();
        let n = self.program.len();
        for idx in 0..n
            invariant
                n == self.prog_view().len(),
                new_moves@ =~= spec_next_moves(idx as nat),
        {
            new_moves.push(Action::Remove(idx));
            proof {
                assert(new_moves@ =~= spec_next_moves((idx + 1) as nat));
            }
        }
        proof {
            assert(new_moves@ =~= spec_next_moves(n as nat));
        }
        new_moves
    }
}

/// The correctness-gated reward: `real_cost - cost` when the output
/// matches the reference exactly and the cost strictly undercuts it,
/// otherwise a flat penalty of -100.
pub open spec fn spec_state_reward(
    cost: nat,
    lines: Seq<Seq<char>>,
    real_cost: nat,
    real_lines: Seq<Seq<char>>,
) -> int {
    if cost < real_cost && lines == real_lines {
        real_cost - cost
    } else {
        -100
    }
}

impl Clone for ProgramState {
    fn clone(&self) -> (r: Self)
        ensures
            r.prog_view() == self.prog_view(),
            r.out_view() == self.out_view(),
    {
        let out: Option<(usize, Vec<String>)> = match &self.out {
            None => None,
            Some((c, v)) => {
                let cloned_lines = v.clone();
                proof {
                    assert forall|i: int| 0 <= i < v@.len() implies cloned_lines.deep_view()[i]
                        == v.deep_view()[i] by {
                        assert(vstd::pervasive::cloned::<String>(v[i], cloned_lines[i]));
                    }
                    assert(cloned_lines.deep_view() =~= v.deep_view());
                }
                Some((*c, cloned_lines))
            },
        };
        ProgramState { program: self.program.clone(), out }
    }
}

/// One node of the search tree: the edge-labeling action that reached it,
/// its visit and win counters, its children as arena indices, and (ghost)
/// the full action chain from the root. A node is a *Leaf* while its
/// child list is empty and becomes *Expanded* when children are created —
/// the only state transition in the system.
pub struct Node {
    pub action: Action,
    pub visits: u32,
    pub wins: u32,
    pub children: Vec<usize>,
    pub chain: Ghost<Seq<Action>>,
}

impl Node {
    /// A fresh leaf with an empty chain (the root).
    pub fn new(action: Action) -> (r: Self)
        ensures
            r.action == action,
            r.visits == 0,
            r.wins == 0,
            r.children@.len() == 0,
            r.chain@ == Seq::<Action>::empty(),
    {
        Node { action, visits: 0, wins: 0, children: Vec::new(), chain: Ghost(Seq::empty()) }
    }

    /// A fresh leaf reached from its parent by `action`.
    fn new_child(action: Action, chain: Ghost<Seq<Action>>) -> (r: Self)
        ensures
            r.action == action,
            r.visits == 0,
            r.wins == 0,
            r.children@.len() == 0,
            r.chain@ == chain@,
    {
        Node { action, visits: 0, wins: 0, children: Vec::new(), chain }
    }

    /// Whether the node is still a leaf.
    pub fn leaf(&self) -> (r: bool)
        ensures
            r == (self.children@.len() == 0),
    {
        self.children.len() == 0
    }

    /// The node's selection priority under `parent_visits`: `None` stands
    /// for the unbounded priority of an unvisited node, otherwise the
    /// fixed-point UCT value.
    pub fn uct_value(&self, parent_visits: u32) -> (r: Option<u64>)
        requires
            self.wins <= 1,
            1 <= parent_visits,
        ensures
            match r {
                None => self.visits == 0,
                Some(v) => self.visits > 0 && v == spec_uct_fp(
                    self.wins as nat,
                    self.visits as nat,
                    parent_visits as nat,
                ),
            },
    {
        if self.visits == 0 {
            None
        } else {
            Some(uct_fp(self.wins, self.visits, parent_visits))
        }
    }
}

/// What holds of every node: its chain is a chain of removals applicable
/// to the base program, and its win counter is a 0/1 flag.
pub open spec fn node_ok(n: Node, base: Seq<InstructionContainer>) -> bool {
    &&& spec_all_removes(n.chain@)
    &&& spec_chain_ok(base, n.chain@, 0)
    &&& n.wins <= 1
}

/// The parent/child wiring of one edge: the child sits strictly after its
/// parent in the arena, and its chain extends the parent's by its action.
pub open spec fn arena_child_ok(arena: Seq<Node>, i: int, j: int) -> bool {
    let c = arena[i].children@[j] as int;
    &&& i < c < arena.len()
    &&& arena[c].chain@ == arena[i].chain@.push(arena[c].action)
}

/// Well-formedness of the whole search tree arena over a base program.
pub open spec fn arena_wf(arena: Seq<Node>, base: Seq<InstructionContainer>) -> bool {
    &&& arena.len() >= 1
    &&& arena[0].chain@ == Seq::<Action>::empty()
    &&& forall|i: int| 0 <= i < arena.len() ==> node_ok(#[trigger] arena[i], base)
    &&& forall|i: int, j: int|
        0 <= i < arena.len() && 0 <= j < arena[i].children@.len() ==> #[trigger] arena_child_ok(
            arena,
            i,
            j,
        )
    &&& forall|i: int|
        0 <= i < arena.len() && (#[trigger] arena[i]).children@.len() > 0 ==> arena[i].visits >= 1
}

/// Picks the child of `node` to descend into: the last child that ranks
/// at least as high as every sibling, an unvisited child always ranking
/// above any visited one.
pub fn select_child(arena: &Vec<Node>, node: usize) -> (r: usize)
    requires
        node < arena@.len(),
        arena@[node as int].children@.len() > 0,
        arena@[node as int].visits >= 1,
        forall|j: int|
            0 <= j < arena@[node as int].children@.len() ==> node < #[trigger] arena@[node as int].children@[j]
                < arena@.len(),
        forall|i: int| 0 <= i < arena@.len() ==> (#[trigger] arena@[i]).wins <= 1,
    ensures
        exists|j: int|
            0 <= j < arena@[node as int].children@.len() && r == arena@[node as int].children@[j],
        node < r < arena@.len(),
        forall|j: int|
            0 <= j < arena@[node as int].children@.len() ==> spec_priority_ge(
                arena@[r as int].wins as nat,
                arena@[r as int].visits as nat,
                arena@[arena@[node as int].children@[j] as int].wins as nat,
                arena@[arena@[node as int].children@[j] as int].visits as nat,
                arena@[node as int].visits as nat,
            ),
        (exists|j: int|
            0 <= j < arena@[node as int].children@.len()
                && arena@[arena@[node as int].children@[j] as int].visits == 0) ==> arena@[r as int].visits
            == 0,
{
    let parent_visits = arena[node].visits;
    let child_count = arena[node].children.len();
    let mut best: usize = arena[node].children[0];
    let mut jj: usize = 1;
    while jj < child_count
        invariant
            node < arena@.len(),
            child_count == arena@[node as int].children@.len(),
            1 <= jj <= child_count,
            parent_visits == arena@[node as int].visits >= 1,
            forall|j: int|
                0 <= j < child_count ==> node < #[trigger] arena@[node as int].children@[j]
                    < arena@.len(),
            forall|i: int| 0 <= i < arena@.len() ==> (#[trigger] arena@[i]).wins <= 1,
            exists|j: int| 0 <= j < jj && best == arena@[node as int].children@[j],
            node < best < arena@.len(),
            forall|j: int|
                0 <= j < jj ==> spec_priority_ge(
                    arena@[best as int].wins as nat,
                    arena@[best as int].visits as nat,
                    arena@[arena@[node as int].children@[j] as int].wins as nat,
                    arena@[arena@[node as int].children@[j] as int].visits as nat,
                    arena@[node as int].visits as nat,
                ),
        decreases child_count - jj,
    {
        let cand = arena[node].children[jj];
        if priority_ge(
            arena[cand].wins,
            arena[cand].visits,
            arena[best].wins,
            arena[best].visits,
            parent_visits,
        ) {
            best = cand;
        }
        jj = jj + 1;
    }
    proof {
        if exists|j: int|
            0 <= j < arena@[node as int].children@.len()
                && arena@[arena@[node as int].children@[j] as int].visits == 0 {
            let j = choose|j: int|
                0 <= j < arena@[node as int].children@.len()
                    && arena@[arena@[node as int].children@[j] as int].visits == 0;
            assert(spec_priority_ge(
                arena@[best as int].wins as nat,
                arena@[best as int].visits as nat,
                arena@[arena@[node as int].children@[j] as int].wins as nat,
                arena@[arena@[node as int].children@[j] as int].visits as nat,
                arena@[node as int].visits as nat,
            ));
        }
    }
    best
}

/// Extending an allocation-free chain by one applicable allocation-free
/// action keeps it applicable, and applies that action last.
pub proof fn lemma_chain_ok_snoc(
    s: Seq<InstructionContainer>,
    chain: Seq<Action>,
    a: Action,
    n: nat,
)
    requires
        spec_chain_ok(s, chain, n),
        !crate::action::spec_action_allocates(a),
        crate::action::spec_action_ok(spec_apply_chain(s, chain, n).len(), a),
    ensures
        spec_chain_ok(s, chain.push(a), n),
        spec_apply_chain(s, chain.push(a), n) == crate::action::spec_apply_action(
            spec_apply_chain(s, chain, n),
            a,
            n,
        ),
    decreases chain.len(),
{
    if chain.len() == 0 {
        assert(chain.push(a)[0] == a);
        assert(chain.push(a).skip(1) =~= Seq::<Action>::empty());
        let applied = crate::action::spec_apply_action(s, a, n);
        assert(spec_chain_ok(applied, Seq::<Action>::empty(), n));
        assert(spec_apply_chain(applied, Seq::<Action>::empty(), n) == applied);
    } else {
        assert(chain.push(a)[0] == chain[0]);
        assert(chain.push(a).skip(1) =~= chain.skip(1).push(a));
        let n2 = n + (if crate::action::spec_action_allocates(chain[0]) {
            1nat
        } else {
            0nat
        });
        lemma_chain_ok_snoc(
            crate::action::spec_apply_action(s, chain[0], n),
            chain.skip(1),
            a,
            n2,
        );
    }
}

/// One rollout: from the state reached by `action_chain`, repeatedly pick
/// a random edit, apply it and score it through the VM, up to
/// `rollout_count` steps; execution failures are skipped, and the best
/// strictly-positive reward seen is returned with the program that
/// achieved it.
fn mcts_simulate(
    vm: &mut VirtualMachine,
    reference: &(usize, Vec<String>),
    base_state: &ProgramState,
    action_chain: Vec<Action>,
    rollout_count: usize,
    rng: &mut rand::rngs::ThreadRng,
    ids: &mut IdAllocator,
) -> (r: (isize, Option<Program>))
    requires
        spec_all_removes(action_chain@),
        spec_chain_ok(base_state.prog_view(), action_chain@, old(ids).spec_next()),
        spec_prog_regs_ok(base_state.codes(), old(vm).spec_register_count()),
        reference.0 <= isize::MAX,
    ensures
        *final(vm) == *old(vm),
        r.1 matches Some(p) ==> {
            &&& 1 <= r.0 <= reference.0
            &&& spec_prog_regs_ok(spec_codes(p@), old(vm).spec_register_count())
            &&& spec_exe(
                old(vm).spec_register_count(),
                old(vm).spec_base_memory(),
                spec_codes(p@),
            ) matches Ok(v) && v.0 == reference.0 - r.0 && v.1 == reference.1.deep_view()
        },
        r.0 >= 1 ==> r.1 is Some,
        rollout_count == 0 ==> r.0 == isize::MIN && r.1 is None,
        spec_apply_chain(base_state.prog_view(), action_chain@, old(ids).spec_next()).len() == 0
            ==> r.0 == isize::MIN && r.1 is None,
{
    let ghost rc = old(vm).spec_register_count();
    let mut rollout_state = base_state.applying(&action_chain, ids);
    let ghost init_len = rollout_state.prog_view().len();
    proof {
        lemma_remove_chain_preserves_regs_ok(
            base_state.prog_view(),
            action_chain@,
            old(ids).spec_next(),
            rc,
        );
    }
    let mut max_reward: isize = isize::MIN;
    let mut max_program: Option<Program> = None;

    let mut step: usize = 0;
    while step < rollout_count
        invariant
            spec_prog_regs_ok(rollout_state.codes(), rc),
            rc == old(vm).spec_register_count(),
            *vm == *old(vm),
            reference.0 <= isize::MAX,
            max_program matches Some(p) ==> {
                &&& 1 <= max_reward <= reference.0
                &&& spec_prog_regs_ok(spec_codes(p@), rc)
                &&& spec_exe(rc, old(vm).spec_base_memory(), spec_codes(p@)) matches Ok(v) && v.0
                    == reference.0 - max_reward && v.1 == reference.1.deep_view()
            },
            max_reward >= 1 ==> max_program is Some,
            rollout_count == 0 ==> max_reward == isize::MIN && max_program is None,
            init_len == 0 ==> rollout_state.prog_view().len() == 0,
            init_len == 0 ==> max_reward == isize::MIN && max_program is None,
        decreases rollout_count - step,
    {
        let next_states = rollout_state.next_moves();
        if next_states.len() == 0 {
            break;
        }

        let pick = rng_below(rng, next_states.len());
        let act = next_states[pick];
        let single: Vec<Action> = vec![act];
        proof {
            assert(act == Action::Remove(pick));
            assert(single@[0] == act);
            assert(single@.skip(1) =~= Seq::<Action>::empty());
            let applied = crate::action::spec_apply_action(
                rollout_state.prog_view(),
                act,
                ids.spec_next(),
            );
            assert(spec_chain_ok(applied, Seq::<Action>::empty(), ids.spec_next()));
            assert(spec_chain_ok(rollout_state.prog_view(), single@, ids.spec_next()));
            assert(spec_all_removes(single@));
        }
        let ghost before_view = rollout_state.prog_view();
        let ghost ids_before = ids.spec_next();
        rollout_state = rollout_state.applying(&single, ids);
        proof {
            lemma_remove_chain_preserves_regs_ok(before_view, single@, ids_before, rc);
        }

        match rollout_state.exe(vm) {
            Ok(_) => {
                proof {
                    lemma_exe_cost_bound(
                        rc,
                        old(vm).spec_base_memory(),
                        rollout_state.codes(),
                    );
                }
                let new_r = rollout_state.reward(reference);
                if new_r > max_reward && new_r > 0 {
                    max_reward = new_r;
                    max_program = Some(rollout_state.program_clone());
                } else if new_r > max_reward {
                    max_reward = new_r;
                }
            },
            Err(_) => {},
        }
        step = step + 1;
    }

    (max_reward, max_program)
}

/// One full search pass from the root: descend by UCT priority to a
/// leaf, expand it into one fresh zero-visit child per proposed action
/// (a one-way Leaf to Expanded transition), roll out from one uniformly
/// chosen new child, and propagate the outcome back up the selection
/// path: each visited node's visit count increments by one and its win
/// count is overwritten with the outcome flag.
fn mcts_epoch(
    arena: &mut Vec<Node>,
    vm: &mut VirtualMachine,
    reference: &(usize, Vec<String>),
    base_state: &ProgramState,
    rollout_count: usize,
    rng: &mut rand::rngs::ThreadRng,
    ids: &mut IdAllocator,
) -> (r: (u32, Option<Program>))
    requires
        arena_wf(old(arena)@, base_state.prog_view()),
        spec_prog_regs_ok(base_state.codes(), old(vm).spec_register_count()),
        reference.0 <= isize::MAX,
        reference.0 <= u32::MAX,
        forall|i: int|
            0 <= i < old(arena)@.len() ==> (#[trigger] old(arena)@[i]).visits < u32::MAX,
    ensures
        arena_wf(final(arena)@, base_state.prog_view()),
        final(arena)@.len() >= old(arena)@.len(),
        // Backpropagation: a node's visit count moves by at most one,
        // a node whose count did not move is untouched, and a node whose
        // count moved lies on the selection path: its win count is
        // overwritten with the outcome flag, everything else kept.
        forall|i: int|
            0 <= i < old(arena)@.len() ==> old(arena)@[i].visits <= (#[trigger] final(arena)@[i]).visits <= old(arena)@[i].visits + 1,
        forall|i: int|
            0 <= i < old(arena)@.len() && (#[trigger] final(arena)@[i]).visits == old(arena)@[i].visits ==> final(arena)@[i] == old(arena)@[i],
        forall|i: int|
            0 <= i < old(arena)@.len() && (#[trigger] final(arena)@[i]).visits == old(arena)@[i].visits + 1 ==> {
                &&& final(arena)@[i].action == old(arena)@[i].action
                &&& final(arena)@[i].chain == old(arena)@[i].chain
                &&& final(arena)@[i].wins == (if r.0 >= 1 {
                    1u32
                } else {
                    0u32
                })
            },
        // The root lies on every selection path.
        final(arena)@[0].visits == old(arena)@[0].visits + 1,
        final(arena)@[0].wins == (if r.0 >= 1 {
            1u32
        } else {
            0u32
        }),
        // The Leaf to Expanded transition is one-way: children are never
        // removed, and the reached leaf gains exactly one fresh
        // zero-visit child per proposed action.
        forall|i: int|
            0 <= i < old(arena)@.len() && (#[trigger] old(arena)@[i]).children@.len() > 0
                ==> final(arena)@[i].children == old(arena)@[i].children,
        forall|i: int|
            old(arena)@.len() <= i < final(arena)@.len() ==> {
                let nd = #[trigger] final(arena)@[i];
                nd.visits == 0 && nd.wins == 0 && nd.children@.len() == 0
            },
        exists|p: int|
            0 <= p < old(arena)@.len() && (#[trigger] old(arena)@[p]).children@.len() == 0 && {
                let moves = spec_next_moves(
                    spec_apply_chain(base_state.prog_view(), old(arena)@[p].chain@, 0).len(),
                );
                &&& final(arena)@.len() == old(arena)@.len() + moves.len()
                &&& final(arena)@[p].children@.len() == moves.len()
                &&& forall|j: int|
                    0 <= j < moves.len() ==> #[trigger] final(arena)@[p].children@[j] == old(arena)@.len() + j
                &&& forall|j: int|
                    0 <= j < moves.len() ==> (#[trigger] final(arena)@[old(arena)@.len()
                        + j]).action == moves[j]
                &&& forall|i: int|
                    0 <= i < old(arena)@.len() && (#[trigger] final(arena)@[i]).visits == old(arena)@[i].visits + 1 ==> old(arena)@[i].chain@.is_prefix_of(old(arena)@[p].chain@)
            },
        *final(vm) == *old(vm),
        r.1 matches Some(p) ==> {
            &&& 1 <= r.0 <= reference.0
            &&& spec_prog_regs_ok(spec_codes(p@), old(vm).spec_register_count())
            &&& spec_exe(
                old(vm).spec_register_count(),
                old(vm).spec_base_memory(),
                spec_codes(p@),
            ) matches Ok(v) && v.0 == reference.0 - r.0 && v.1 == reference.1.deep_view()
        },
        r.0 >= 1 ==> r.1 is Some,
        // Deterministic dead ends report a zero outcome.
        rollout_count == 0 ==> r.0 == 0 && r.1 is None,
        base_state.prog_view().len() == 0 ==> r.0 == 0 && r.1 is None,
{
    let ghost base = base_state.prog_view();
    let ghost rc = old(vm).spec_register_count();

    // Selection: descend while the current node is expanded.
    let mut path: Vec<usize> = Vec::new();
    path.push(0);
    let mut cur: usize = 0;
    let mut action_chain: Vec<Action> = Vec::new();
    proof {
        assert(arena@[0].chain@.is_prefix_of(arena@[0].chain@)) by {
            assert(arena@[0].chain@.subrange(0, arena@[0].chain@.len() as int) =~= arena@[0].chain@);
        }
    }
    while arena[cur].children.len() > 0
        invariant
            arena@ == old(arena)@,
            arena_wf(arena@, base),
            base == base_state.prog_view(),
            cur < arena@.len(),
            action_chain@ == arena@[cur as int].chain@,
            path@.len() >= 1,
            path@[0] == 0,
            path@[path@.len() - 1] == cur,
            forall|a: int, b: int| 0 <= a < b < path@.len() ==> path@[a] < path@[b],
            forall|a: int| 0 <= a < path@.len() ==> path@[a] < arena@.len(),
            forall|a: int|
                0 <= a < path@.len() ==> (#[trigger] arena@[path@[a] as int]).chain@.is_prefix_of(
                    arena@[cur as int].chain@,
                ),
        decreases arena@.len() - cur,
    {
        proof {
            assert forall|j: int|
                0 <= j < arena@[cur as int].children@.len() implies cur < #[trigger] arena@[cur as int].children@[j]
                    < arena@.len() by {
                assert(arena_child_ok(arena@, cur as int, j));
            }
            assert(arena@[cur as int].visits >= 1);
        }
        let next = select_child(arena, cur);
        proof {
            let j = choose|j: int|
                0 <= j < arena@[cur as int].children@.len() && next == arena@[cur as int].children@[j];
            assert(arena_child_ok(arena@, cur as int, j));
            assert(arena@[next as int].chain@ == arena@[cur as int].chain@.push(
                arena@[next as int].action,
            ));
        }
        proof {
            let cc = arena@[cur as int].chain@;
            let nc = arena@[next as int].chain@;
            assert forall|a: int| 0 <= a < path@.len() implies (#[trigger] arena@[path@[a] as int]).chain@.is_prefix_of(
                nc,
            ) by {
                let pc = arena@[path@[a] as int].chain@;
                assert(pc.is_prefix_of(cc));
                assert(nc.subrange(0, pc.len() as int) =~= pc);
            }
            assert(nc.subrange(0, nc.len() as int) =~= nc);
            assert(nc.is_prefix_of(nc));
        }
        action_chain.push(arena[next].action);
        path.push(next);
        cur = next;
    }

    // Expansion: materialize the leaf's state and create one child per
    // proposed action.
    proof {
        lemma_remove_chain_any_id(base, action_chain@, 0, ids.spec_next());
    }
    let ghost ids0 = ids.spec_next();
    let ghost leaf_chain = action_chain@;
    let node_state = base_state.applying(&action_chain, ids);
    proof {
        lemma_remove_chain_any_id(base, leaf_chain, ids0, 0);
        assert(node_state.prog_view() == spec_apply_chain(base, leaf_chain, 0));
        lemma_remove_chain_len(base, leaf_chain, 0);
    }
    let new_moves = node_state.next_moves();
    let base_len = arena.len();
    let mut child_ids: Vec<usize> = Vec::new();
    let mut mi: usize = 0;
    while mi < new_moves.len()
        invariant
            base_len == old(arena)@.len(),
            mi <= new_moves@.len(),
            arena@.len() == base_len + mi,
            child_ids@.len() == mi,
            forall|k: int| 0 <= k < mi ==> #[trigger] child_ids@[k] == base_len + k,
            forall|i: int| 0 <= i < base_len ==> arena@[i] == old(arena)@[i],
            forall|k: int|
                0 <= k < mi ==> {
                    let nd = #[trigger] arena@[base_len + k];
                    &&& nd.action == new_moves@[k]
                    &&& nd.visits == 0
                    &&& nd.wins == 0
                    &&& nd.children@.len() == 0
                    &&& nd.chain@ == action_chain@.push(new_moves@[k])
                },
        decreases new_moves@.len() - mi,
    {
        let act = new_moves[mi];
        let node = Node::new_child(act, Ghost(action_chain@.push(act)));
        arena.push(node);
        let idx = arena.len() - 1;
        child_ids.push(idx);
        mi = mi + 1;
    }
    let child_count = new_moves.len();
    let mut stash = Node::new(Action::Nothing);
    let ghost e1 = arena@;
    arena.set_and_swap(cur, &mut stash);
    stash.children = child_ids;
    arena.set_and_swap(cur, &mut stash);
    proof {
        assert(arena@ =~= e1.update(cur as int, arena@[cur as int]));
        // The expanded arena: untouched nodes, the re-wired leaf, and the
        // fresh children.
        assert(arena@.len() == base_len + child_count);
        assert(forall|i: int|
            0 <= i < base_len && i != cur ==> arena@[i] == old(arena)@[i]);
        assert(arena@[cur as int].action == old(arena)@[cur as int].action);
        assert(arena@[cur as int].chain == old(arena)@[cur as int].chain);
        assert(arena@[cur as int].visits == old(arena)@[cur as int].visits);
        assert(arena@[cur as int].wins == old(arena)@[cur as int].wins);
        assert(arena@[cur as int].children@ =~= child_ids@);
        assert(forall|x: int|
            0 <= x < base_len ==> (#[trigger] arena@[x]).chain == old(arena)@[x].chain
                && arena@[x].action == old(arena)@[x].action && arena@[x].visits == old(arena)@[x].visits && arena@[x].wins == old(arena)@[x].wins);
        assert(forall|k: int|
            0 <= k < child_count ==> {
                let nd = #[trigger] arena@[base_len + k];
                &&& nd.action == new_moves@[k]
                &&& nd.visits == 0
                &&& nd.wins == 0
                &&& nd.children@.len() == 0
                &&& nd.chain@ == action_chain@.push(new_moves@[k])
            });
        // Every node still satisfies its invariant; the new children's
        // chains extend the leaf's chain by one applicable removal.
        assert forall|i: int| 0 <= i < arena@.len() implies node_ok(
            #[trigger] arena@[i],
            base,
        ) by {
            if i < base_len {
                assert(node_ok(old(arena)@[i], base));
            } else {
                let k = i - base_len;
                let act = spec_next_moves(node_state.prog_view().len())[k];
                assert(arena@[i] == arena@[base_len + k]);
                assert(act == Action::Remove(k as usize));
                lemma_chain_ok_snoc(base, action_chain@, act, 0);
                assert(spec_all_removes(action_chain@.push(act))) by {
                    assert(forall|q: int|
                        0 <= q < action_chain@.len() ==> action_chain@.push(act)[q]
                            == action_chain@[q]);
                    assert(action_chain@.push(act)[action_chain@.len() as int] == act);
                }
            }
        }
        // The parent/child wiring still holds everywhere.
        assert forall|i: int, j: int|
            0 <= i < arena@.len() && 0 <= j < arena@[i].children@.len() implies #[trigger] arena_child_ok(
            arena@,
            i,
            j,
        ) by {
            if i < base_len && i != cur {
                assert(arena_child_ok(old(arena)@, i, j));
                let c = old(arena)@[i].children@[j] as int;
                assert(arena@[c].chain == old(arena)@[c].chain && arena@[c].action == old(arena)@[c].action);
            } else if i == cur {
                assert(child_ids@[j] == base_len + j);
                assert(arena@[i].children@[j] == base_len + j);
                assert(cur < base_len);
                assert(arena@[base_len + j].chain@ == action_chain@.push(new_moves@[j]));
                assert(arena@[base_len + j].action == new_moves@[j]);
                assert(arena@[cur as int].chain@ == action_chain@);
                assert(arena_child_ok(arena@, i, j));
            } else {
                assert(arena@[i] == arena@[base_len + (i - base_len)]);
                assert(arena@[i].children@.len() == 0);
            }
        }
        assert forall|i: int| 0 <= i < arena@.len() implies (#[trigger] arena@[i]).visits
            < u32::MAX by {
            if i < base_len {
                assert(arena@[i].visits == old(arena)@[i].visits);
            } else {
                assert(arena@[i] == arena@[base_len + (i - base_len)]);
            }
        }
        assert forall|i: int|
            0 <= i < arena@.len() && i != cur && (#[trigger] arena@[i]).children@.len()
                > 0 implies arena@[i].visits >= 1 by {
            if i < base_len {
                assert(arena@[i] == old(arena)@[i]);
            } else {
                assert(arena@[i] == arena@[base_len + (i - base_len)]);
                assert(arena@[i].children@.len() == 0);
            }
        }
        assert(arena@[0].chain@ == Seq::<Action>::empty());
    }

    // Simulation: roll out from one uniformly chosen new child. A
    // state with no proposed edits is a dead end: there is nothing to
    // simulate and the pass reports a zero outcome.
    let mut outcome_v: u32 = 0;
    let mut outcome_p: Option<Program> = None;
    if child_count > 0 {
        let pick = rng_below(rng, child_count);
        let chosen = new_moves[pick];
        proof {
            assert(chosen == Action::Remove(pick));
            lemma_chain_ok_snoc(base, action_chain@, chosen, ids.spec_next());
            lemma_remove_chain_any_id(base, action_chain@.push(chosen), ids.spec_next(), 0);
            assert(spec_all_removes(action_chain@.push(chosen))) by {
                assert(forall|i: int|
                    0 <= i < action_chain@.len() ==> action_chain@.push(chosen)[i]
                        == action_chain@[i]);
                assert(action_chain@.push(chosen)[action_chain@.len() as int] == chosen);
            }
        }
        action_chain.push(chosen);
        let sim = mcts_simulate(vm, reference, base_state, action_chain, rollout_count, rng, ids);
        if sim.0 >= 1 {
            outcome_v = sim.0 as u32;
        }
        outcome_p = sim.1;
    }

    // Backpropagation along the selection path.
    let win_flag: u32 = if outcome_v >= 1 {
        1
    } else {
        0
    };
    let ghost bp0 = arena@;
    proof {
        assert(forall|i: int| 0 <= i < bp0.len() ==> (#[trigger] bp0[i]).visits < u32::MAX);
        assert forall|i: int| base_len <= i < bp0.len() implies (#[trigger] bp0[i]).visits
            == 0 by {
            assert(bp0[i] == bp0[base_len + (i - base_len)]);
        }
    }
    let mut pi: usize = 0;
    while pi < path.len()
        invariant
            arena@.len() == bp0.len(),
            base_len <= bp0.len(),
            pi <= path@.len(),
            path@.len() >= 1,
            forall|a: int, b: int| 0 <= a < b < path@.len() ==> path@[a] < path@[b],
            forall|a: int| 0 <= a < path@.len() ==> path@[a] < base_len,
            forall|i: int| 0 <= i < bp0.len() ==> (#[trigger] bp0[i]).visits < u32::MAX,
            forall|i: int|
                0 <= i < arena@.len() && !(exists|a: int| 0 <= a < pi && path@[a] == i)
                    ==> arena@[i] == bp0[i],
            forall|a: int|
                0 <= a < pi ==> {
                    let i = #[trigger] path@[a] as int;
                    &&& arena@[i].action == bp0[i].action
                    &&& arena@[i].children == bp0[i].children
                    &&& arena@[i].chain == bp0[i].chain
                    &&& arena@[i].visits == bp0[i].visits + 1
                    &&& arena@[i].wins == win_flag
                },
        decreases path@.len() - pi,
    {
        let idx = path[pi];
        proof {
            assert(!(exists|a: int| 0 <= a < pi && path@[a] == idx as int)) by {
                assert(forall|a: int| 0 <= a < pi ==> path@[a] < path@[pi as int]);
            }
        }
        let mut node = Node::new(Action::Nothing);
        arena.set_and_swap(idx, &mut node);
        node.visits = node.visits + 1;
        node.wins = win_flag;
        arena.set_and_swap(idx, &mut node);
        pi = pi + 1;
    }

    proof {
        let fin = arena@;
        assert(forall|i: int|
            0 <= i < fin.len() ==> (#[trigger] fin[i]).chain == bp0[i].chain && fin[i].action
                == bp0[i].action && fin[i].children == bp0[i].children && fin[i].visits
                >= bp0[i].visits) by {
            assert(forall|a: int| 0 <= a < path@.len() ==> 0 <= #[trigger] path@[a] < bp0.len());
        }
        assert forall|i: int| 0 <= i < fin.len() implies node_ok(#[trigger] fin[i], base) by {
            assert(node_ok(bp0[i], base));
            if exists|a: int| 0 <= a < path@.len() && path@[a] == i {
                assert(fin[i].wins == win_flag);
            } else {
                assert(fin[i] == bp0[i]);
            }
        }
        assert forall|i: int, j: int|
            0 <= i < fin.len() && 0 <= j < fin[i].children@.len() implies #[trigger] arena_child_ok(
            fin,
            i,
            j,
        ) by {
            assert(arena_child_ok(bp0, i, j));
        }
        assert forall|i: int|
            0 <= i < fin.len() && (#[trigger] fin[i]).children@.len() > 0 implies fin[i].visits
            >= 1 by {
            if exists|a: int| 0 <= a < path@.len() && path@[a] == i {
                let a = choose|a: int| 0 <= a < path@.len() && path@[a] == i;
                assert(fin[i].visits == bp0[i].visits + 1);
            } else {
                assert(fin[i] == bp0[i]);
                assert(i != cur) by {
                    assert(path@[path@.len() - 1] == cur);
                }
                assert(bp0[i].visits >= 1);
            }
        }
        assert(0 == path@[0]);
        assert(fin[0].chain == bp0[0].chain);
        assert(arena_wf(fin, base));
        // Visit-count growth for the surrounding loop's accounting.
        assert forall|i: int| 0 <= i < old(arena)@.len() implies (#[trigger] fin[i]).visits
            <= old(arena)@[i].visits + 1 by {
            if exists|a: int| 0 <= a < path@.len() && path@[a] == i {
                let a = choose|a: int| 0 <= a < path@.len() && path@[a] == i;
                assert(fin[i].visits == bp0[i].visits + 1);
            } else {
                assert(fin[i] == bp0[i]);
            }
        }
        assert forall|i: int|
            old(arena)@.len() <= i < fin.len() implies (#[trigger] fin[i]).visits == 0
                && fin[i].wins == 0 && fin[i].children@.len() == 0 by {
            assert(forall|a: int| 0 <= a < path@.len() ==> #[trigger] path@[a] < base_len);
            assert(fin[i] == bp0[i]);
            assert(bp0[i] == bp0[base_len + (i - base_len)]);
        }
        // Backpropagation effects, node by node: the root is on every
        // path; untouched nodes are unchanged; touched nodes gain one
        // visit and take the outcome flag as their win count.
        assert(0 <= 0 < path@.len() && path@[0int] == 0);
        assert(fin[0].visits == bp0[0].visits + 1 && fin[0].wins == win_flag);
        assert(bp0[0].visits == old(arena)@[0int].visits);
        assert(forall|x: int|
            0 <= x < base_len ==> (#[trigger] bp0[x]).visits == old(arena)@[x].visits
                && bp0[x].action == old(arena)@[x].action && bp0[x].chain == old(arena)@[x].chain && bp0[x].wins == old(arena)@[x].wins);
        assert forall|i: int|
            0 <= i < old(arena)@.len() implies old(arena)@[i].visits <= (#[trigger] fin[i]).visits by {
            assert(fin[i].visits >= bp0[i].visits);
        }
        assert forall|i: int|
            0 <= i < old(arena)@.len() && (#[trigger] fin[i]).visits == old(arena)@[i].visits
            implies fin[i] == old(arena)@[i] by {
            if exists|a: int| 0 <= a < path@.len() && path@[a] == i {
                let a = choose|a: int| 0 <= a < path@.len() && path@[a] == i;
                assert(fin[i].visits == bp0[i].visits + 1);
                assert(false);
            } else {
                assert(fin[i] == bp0[i]);
                assert(i != cur) by {
                    assert(path@[path@.len() - 1] == cur);
                }
                assert(bp0[i] == old(arena)@[i]);
            }
        }
        assert forall|i: int|
            0 <= i < old(arena)@.len() && (#[trigger] fin[i]).visits == old(arena)@[i].visits + 1
            implies fin[i].action == old(arena)@[i].action && fin[i].chain == old(arena)@[i].chain && fin[i].wins == win_flag by {
            if exists|a: int| 0 <= a < path@.len() && path@[a] == i {
                let a = choose|a: int| 0 <= a < path@.len() && path@[a] == i;
                assert(fin[i].action == bp0[i].action && fin[i].chain == bp0[i].chain
                    && fin[i].wins == win_flag);
            } else {
                assert(fin[i] == bp0[i]);
                assert(i != cur) by {
                    assert(path@[path@.len() - 1] == cur);
                }
                assert(bp0[i] == old(arena)@[i]);
                assert(false);
            }
        }
        // Expansion effects: children are never removed, and the reached
        // leaf gained one fresh child per proposed action.
        assert(old(arena)@[cur as int].children@.len() == 0);
        assert forall|i: int|
            0 <= i < old(arena)@.len() && (#[trigger] old(arena)@[i]).children@.len() > 0
            implies fin[i].children == old(arena)@[i].children by {
            assert(i != cur);
            assert(fin[i].children == bp0[i].children);
            assert(bp0[i] == old(arena)@[i]);
        }
        let moves = spec_next_moves(
            spec_apply_chain(base, old(arena)@[cur as int].chain@, 0).len(),
        );
        assert(old(arena)@[cur as int].chain@ == leaf_chain);
        assert(moves == new_moves@);
        assert(fin.len() == old(arena)@.len() + moves.len());
        assert(fin[cur as int].children@ == bp0[cur as int].children@);
        assert(fin[cur as int].children@.len() == moves.len());
        assert forall|j: int|
            0 <= j < moves.len() implies #[trigger] fin[cur as int].children@[j] == old(arena)@.len() + j by {
            assert(child_ids@[j] == base_len + j);
        }
        assert forall|j: int|
            0 <= j < moves.len() implies (#[trigger] fin[old(arena)@.len() + j]).action
            == moves[j] by {
            assert(forall|a: int| 0 <= a < path@.len() ==> #[trigger] path@[a] < base_len);
            assert(fin[base_len + j] == bp0[base_len + j]);
            assert(bp0[base_len + j].action == new_moves@[j]);
        }
        // Every node whose visit count moved is an ancestor of the
        // expanded leaf: its chain is a prefix of the leaf's chain.
        assert forall|i: int|
            0 <= i < old(arena)@.len() && (#[trigger] fin[i]).visits == old(arena)@[i].visits + 1
            implies old(arena)@[i].chain@.is_prefix_of(old(arena)@[cur as int].chain@) by {
            if exists|a: int| 0 <= a < path@.len() && path@[a] == i {
                let a = choose|a: int| 0 <= a < path@.len() && path@[a] == i;
                assert(arena@[path@[a] as int].chain@.is_prefix_of(arena@[cur as int].chain@));
            } else {
                assert(fin[i] == bp0[i]);
                assert(i != cur) by {
                    assert(path@[path@.len() - 1] == cur);
                }
                assert(bp0[i] == old(arena)@[i]);
                assert(false);
            }
        }
        assert(0 <= cur < old(arena)@.len() && old(arena)@[cur as int].children@.len() == 0 && {
            let moves2 = spec_next_moves(
                spec_apply_chain(base, old(arena)@[cur as int].chain@, 0).len(),
            );
            &&& fin.len() == old(arena)@.len() + moves2.len()
            &&& fin[cur as int].children@.len() == moves2.len()
            &&& forall|j: int|
                0 <= j < moves2.len() ==> #[trigger] fin[cur as int].children@[j] == old(arena)@.len() + j
            &&& forall|j: int|
                0 <= j < moves2.len() ==> (#[trigger] fin[old(arena)@.len() + j]).action
                    == moves2[j]
            &&& forall|i: int|
                0 <= i < old(arena)@.len() && (#[trigger] fin[i]).visits == old(arena)@[i].visits
                    + 1 ==> old(arena)@[i].chain@.is_prefix_of(old(arena)@[cur as int].chain@)
        });
    }
    (outcome_v, outcome_p)
}

/// Runs the Monte-Carlo tree search for `epochs - 1` passes over the
/// edit space of `program` and returns the best strictly-improving,
/// correctness-preserving candidate ever observed: its cost improvement
/// and the program itself, or `None` if no candidate ever beat the
/// reference. Any reported program re-executes to exactly the reference
/// output at cost `reference.0 - improvement`. With no passes to run
/// (`epochs <= 1`), no rollout steps, or an empty seed program, the
/// search deterministically reports nothing.
pub fn mcts(
    program: Program,
    vm: &mut VirtualMachine,
    reference: &(usize, Vec<String>),
    epochs: usize,
    rollout_count: usize,
) -> (r: Option<(u32, Option<Program>)>)
    requires
        spec_prog_regs_ok(spec_codes(program@), old(vm).spec_register_count()),
        spec_exe(
            old(vm).spec_register_count(),
            old(vm).spec_base_memory(),
            spec_codes(program@),
        ) matches Ok(_),
        reference.0 <= isize::MAX,
        reference.0 <= u32::MAX,
        epochs <= u32::MAX,
    ensures
        *final(vm) == *old(vm),
        r matches Some(run) ==> {
            &&& 1 <= run.0 <= reference.0
            &&& run.1 matches Some(p)
            &&& spec_prog_regs_ok(spec_codes(p@), old(vm).spec_register_count())
            &&& spec_exe(
                old(vm).spec_register_count(),
                old(vm).spec_base_memory(),
                spec_codes(p@),
            ) matches Ok(v) && v.0 == reference.0 - run.0 && v.1 == reference.1.deep_view()
        },
        epochs <= 1 ==> r is None,
        rollout_count == 0 ==> r is None,
        program@.len() == 0 ==> r is None,
{
    let mut root_program = ProgramState::new(program);
    match root_program.exe(vm) {
        Ok(_) => {},
        Err(_) => {
            return unreached();
        },
    }
    let mut arena: Vec<Node> = Vec::new();
    arena.push(Node::new(Action::Nothing));
    proof {
        assert(arena@[0].chain@ == Seq::<Action>::empty());
        assert(spec_chain_ok(
            root_program.prog_view(),
            Seq::<Action>::empty(),
            0,
        ));
        assert(node_ok(arena@[0], root_program.prog_view()));
        assert(arena_wf(arena@, root_program.prog_view()));
    }
    let mut ids = IdAllocator::new();
    let mut rng = fresh_rng();
    let mut best_run: u32 = 0;
    let mut best_out: Option<(u32, Option<Program>)> = None;
    let mut epoch: usize = 1;
    while epoch < epochs
        invariant
            arena_wf(arena@, root_program.prog_view()),
            root_program.prog_view() == program@,
            spec_prog_regs_ok(root_program.codes(), old(vm).spec_register_count()),
            *vm == *old(vm),
            reference.0 <= isize::MAX,
            reference.0 <= u32::MAX,
            epochs <= u32::MAX,
            1 <= epoch,
            epochs <= 1 ==> epoch == 1,
            epoch == 1 ==> best_out is None,
            rollout_count == 0 ==> best_run == 0,
            program@.len() == 0 ==> best_run == 0,
            forall|i: int|
                0 <= i < arena@.len() ==> (#[trigger] arena@[i]).visits <= epoch,
            match best_out {
                None => best_run == 0,
                Some(run) => {
                    &&& run.0 == best_run
                    &&& 1 <= run.0 <= reference.0
                    &&& run.1 matches Some(p)
                    &&& spec_prog_regs_ok(spec_codes(p@), old(vm).spec_register_count())
                    &&& spec_exe(
                        old(vm).spec_register_count(),
                        old(vm).spec_base_memory(),
                        spec_codes(p@),
                    ) matches Ok(v) && v.0 == reference.0 - run.0 && v.1
                        == reference.1.deep_view()
                },
            },
        decreases epochs - epoch,
    {
        let run = mcts_epoch(
            &mut arena,
            vm,
            reference,
            &root_program,
            rollout_count,
            &mut rng,
            &mut ids,
        );
        if run.0 > best_run {
            best_run = run.0;
            best_out = Some(run);
        }
        epoch = epoch + 1;
    }
    best_out
}

} // verus!
