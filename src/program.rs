//! An agent's behaviour program: one tree that evaluates to an action.

use vstd::prelude::*;

use crate::eval::{eval, lemma_eval_has_type};
use crate::generators::{generate_action_expr, ACTION_MIN};
use crate::mutation::{is_mutation_of, WRAP_LIMIT};
use crate::rng::{random_below, ExprRng};
use crate::tree::{
    cap_u64, find_node, get_node, height, index_of, lemma_node_at_wf, lemma_replace_wf,
    lemma_size_is_one_plus_children, node_at, replace_tree, size, valid_path, ConstExpr, ExprSlot,
    Expr, Tree,
};
use crate::values::{Action, Ty, Value};
use crate::world::{Fish, InterpreterState};

verus! {

/// `new` is `old` with the node of pre-order index `index` replaced by a
/// mutation of it of the same type, and every other node as it was.
pub open spec fn mutated_at(old: Tree, new: Tree, index: nat) -> bool {
    exists|p: Seq<usize>, n: Tree|
        #[trigger] valid_path(old, p) && index_of(old, p) == index && n.wf(node_at(old, p).ty())
            && is_mutation_of(node_at(old, p), n, WRAP_LIMIT as nat) && new == #[trigger] replace_tree(
            old,
            p,
            n,
        )
}

/// `new` is `old` with one node, of some index in `[0, size)`, mutated.
pub open spec fn one_node_mutated(old: Tree, new: Tree) -> bool {
    exists|index: nat| index < size(old) && #[trigger] mutated_at(old, new, index)
}

/// The program that one agent runs each tick: a tree that is always
/// well-typed at the action type.
#[derive(Debug, PartialEq, Eq)]
pub struct Program {
    root: ExprSlot,
}

impl View for Program {
    type V = Tree;

    closed spec fn view(&self) -> Tree {
        self.root@
    }
}

impl Program {
    #[verifier::type_invariant]
    spec fn inv(&self) -> bool {
        self.root@.wf(Ty::Act)
    }

    /// A program over `root`, when that tree is well-typed at the action type.
    pub fn from_root(root: ExprSlot) -> (r: Option<Program>)
        ensures
            r is Some <==> root@.wf(Ty::Act),
            r matches Some(p) ==> p@ == root@,
    {
        if root.is_well_typed() && root.ty() == Ty::Act {
            Some(Program { root })
        } else {
            None
        }
    }

    /// The program's tree.
    pub fn root(&self) -> (r: &ExprSlot)
        ensures
            r@ == self@,
            r@.wf(Ty::Act),
    {
        proof {
            use_type_invariant(self);
        }
        &self.root
    }

    /// The program that always passes.
    pub fn empty() -> (r: Program)
        ensures
            r@ == (Tree {
                expr: Expr::Const(ConstExpr { value: Value::Act(Action::Pass) }),
                children: seq![],
            }),
    {
        let root = ExprSlot::leaf(Expr::Const(ConstExpr::new(Value::Act(Action::Pass))));
        Program { root }
    }

    /// A random program no taller than `max_depth + 1` levels.
    pub fn random(rng: &mut ExprRng, max_depth: u64) -> (r: Program)
        requires
            max_depth >= ACTION_MIN,
        ensures
            r@.wf(Ty::Act),
            height(r@) <= max_depth + 1,
    {
        Program { root: generate_action_expr(rng, max_depth) }
    }

    /// The action this program chooses for the evaluating agent.
    pub fn run(&self, state: &InterpreterState) -> (r: Action)
        requires
            state.wf(),
        ensures
            eval(self@, state.fishes@, state.fish_num) == Value::Act(r),
    {
        proof {
            use_type_invariant(self);
            lemma_eval_has_type(self.root@, Ty::Act, state.fishes@, state.fish_num);
        }
        match self.root.eval(state) {
            Value::Act(a) => a,
            _ => {
                proof {
                    assert(false);
                }
                Action::Pass
            },
        }
    }

    /// The number of nodes, capped at the largest `u64`.
    pub fn size(&self) -> (r: u64)
        ensures
            r == cap_u64(size(self@)),
            r >= 1,
    {
        proof {
            lemma_size_is_one_plus_children(self.root@);
        }
        self.root.size()
    }

    /// Replaces the node of pre-order index `index` with a mutation of it;
    /// the rest of the tree stays as it was.
    pub fn mutate_at(&mut self, index: u64, rng: &mut ExprRng)
        requires
            index < size(old(self)@),
        ensures
            final(self)@.wf(Ty::Act),
            mutated_at(old(self)@, final(self)@, index as nat),
    {
        proof {
            use_type_invariant(&*self);
        }
        let ghost before = self.root@;
        let path = find_node(&self.root, index).as_found();
        let node = get_node(&self.root, &path);
        proof {
            lemma_node_at_wf(before, Ty::Act, path@);
        }
        let replacement = node.mutate(rng, WRAP_LIMIT);
        let mut root = self.root.deep_clone();
        proof {
            assert(path@.skip(0) =~= path@);
            lemma_replace_wf(before, Ty::Act, path@, replacement@);
        }
        let ghost n = replacement@;
        root.replace_at(&path, 0, replacement);
        proof {
            assert(valid_path(before, path@) && index_of(before, path@) == index && n.wf(
                node_at(before, path@).ty(),
            ) && is_mutation_of(node_at(before, path@), n, WRAP_LIMIT as nat) && root@
                == replace_tree(before, path@, n));
        }
        *self = Program { root };
    }

    /// Replaces one node, drawn uniformly by pre-order index, with a
    /// mutation of it; see `mutate_at`.
    pub fn mutate(&mut self, rng: &mut ExprRng)
        ensures
            final(self)@.wf(Ty::Act),
            size(final(self)@) >= 1,
            one_node_mutated(old(self)@, final(self)@),
    {
        let ghost before = self@;
        let total_size = self.size();
        let index = random_below(rng, total_size);
        self.mutate_at(index, rng);
        proof {
            lemma_size_is_one_plus_children(self@);
            assert(mutated_at(before, self@, index as nat));
        }
    }

    /// A mutated copy; this program is left as it is.
    pub fn mutated(&self, rng: &mut ExprRng) -> (r: Program)
        ensures
            r@.wf(Ty::Act),
            one_node_mutated(self@, r@),
    {
        let mut new_program = self.clone();
        new_program.mutate(rng);
        proof {
            use_type_invariant(&new_program);
        }
        new_program
    }
}

impl Clone for Program {
    /// A deep copy: equal tree, so equal behaviour, and nothing shared.
    fn clone(&self) -> (r: Program)
        ensures
            r@ == self@,
            forall|fishes: Seq<Fish>, me: usize|
                #[trigger] eval(r@, fishes, me) == eval(self@, fishes, me),
    {
        proof {
            use_type_invariant(self);
        }
        Program { root: self.root.deep_clone() }
    }
}

} // verus!
