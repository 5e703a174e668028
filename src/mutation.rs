//! Single-node mutation.
//!
//! Each node kind offers a menu of alternatives (`menu`) and one is picked
//! uniformly. Every menu holds *wrap* (a new conditional over a generated
//! condition, with the node itself on one side and a mutation of it on the
//! other) and *regenerate* (a fresh tree of the same type at that type's
//! minimum budget). Kinds with children add *mutate child i* for each child,
//! and some add *collapse to child i*; a scalar constant adds its negation.
//! A wrap mutates the very node it wraps, so each mutation carries a budget
//! of nested wraps; a wrap with no budget left puts a regenerated tree on
//! its new side instead, so a wrap never loses the node's behaviour and
//! mutation always terminates.

use vstd::prelude::*;

use crate::generators::{
    generate_bool_expr, generate_minimal, generated, min_depth, production_for, Production,
};
use crate::rng::{random_below, ExprRng};
use crate::tree::{
    arg_tys, arity, lemma_node_typed, lemma_wf_child, result_ty, ExprSlot, Expr, IfExpr,
    NegateExpr, Tree,
};
use crate::values::{Ty, Value};

verus! {

/// How many wraps one mutation may nest.
pub const WRAP_LIMIT: u64 = 64;

/// One entry of a mutation menu.
#[derive(Clone, Copy, Debug, PartialEq, Eq)]
pub enum Alternative {
    Wrap,
    Regenerate,
    Negate,
    Collapse(usize),
    MutateChild(usize),
}

/// The mutation menu of a node kind, in the order the draw indexes it.
pub open spec fn menu(e: Expr) -> Seq<Alternative> {
    match e {
        Expr::Const(c) => if c.value is Num {
            seq![Alternative::Wrap, Alternative::Negate, Alternative::Regenerate]
        } else {
            seq![Alternative::Wrap, Alternative::Regenerate]
        },
        Expr::GetSelf(_) | Expr::ColorOf(_) | Expr::Similarity(_) => seq![
            Alternative::Regenerate,
            Alternative::Wrap,
        ],
        Expr::Nearest(_) | Expr::Energy(_) | Expr::Direction(_) => seq![
            Alternative::Wrap,
            Alternative::Regenerate,
        ],
        Expr::Move(_) => seq![
            Alternative::Wrap,
            Alternative::MutateChild(0),
            Alternative::Regenerate,
        ],
        Expr::SetVelocity(_) | Expr::Split(_) => seq![
            Alternative::Wrap,
            Alternative::MutateChild(0),
            Alternative::MutateChild(1),
            Alternative::Regenerate,
        ],
        Expr::Mul(_) => seq![
            Alternative::Wrap,
            Alternative::MutateChild(1),
            Alternative::MutateChild(0),
            Alternative::Regenerate,
        ],
        Expr::Not(_) | Expr::Negate(_) => seq![
            Alternative::Wrap,
            Alternative::Collapse(0),
            Alternative::MutateChild(0),
            Alternative::Regenerate,
        ],
        Expr::If(_) => seq![
            Alternative::Wrap,
            Alternative::Collapse(1),
            Alternative::Collapse(2),
            Alternative::MutateChild(0),
            Alternative::MutateChild(1),
            Alternative::MutateChild(2),
            Alternative::Regenerate,
        ],
        Expr::LessThan(_) => seq![
            Alternative::Regenerate,
            Alternative::Wrap,
            Alternative::MutateChild(1),
            Alternative::MutateChild(0),
        ],
        Expr::Add(_) => seq![
            Alternative::Wrap,
            Alternative::Collapse(0),
            Alternative::Collapse(1),
            Alternative::MutateChild(1),
            Alternative::MutateChild(0),
            Alternative::Regenerate,
        ],
    }
}

/// `r` is a tree that regenerating `t` can yield: one generated for `t`'s
/// type at that type's minimum budget.
pub open spec fn regenerated(t: Tree, r: Tree) -> bool {
    generated(production_for(t.ty()), min_depth(production_for(t.ty())) as nat, r)
}

/// `r` is `t` with exactly the child at `k` changed.
pub open spec fn differs_in_child(t: Tree, r: Tree, k: int) -> bool {
    &&& 0 <= k < t.children.len()
    &&& r.expr == t.expr
    &&& r.children.len() == t.children.len()
    &&& forall|j: int| 0 <= j < t.children.len() && j != k ==> r.children[j] == t.children[j]
}

/// `r` is what alternative `a` applied to `t` can yield, with `wraps`
/// nested wraps left.
pub open spec fn alternative_result(t: Tree, r: Tree, a: Alternative, wraps: nat) -> bool
    decreases wraps, t, 0nat,
{
    match a {
        Alternative::Wrap => {
            &&& r.expr == Expr::If(IfExpr { ty: t.ty() })
            &&& r.children.len() == 3
            &&& generated(Production::Bool, 1, r.children[0])
            &&& {
                ||| (r.children[1] == t && if wraps > 0 {
                    is_mutation_of(t, r.children[2], (wraps - 1) as nat)
                } else {
                    regenerated(t, r.children[2])
                })
                ||| (r.children[2] == t && if wraps > 0 {
                    is_mutation_of(t, r.children[1], (wraps - 1) as nat)
                } else {
                    regenerated(t, r.children[1])
                })
            }
        },
        Alternative::Regenerate => regenerated(t, r),
        Alternative::Negate => r == (Tree {
            expr: Expr::Negate(NegateExpr { ty: Ty::Num }),
            children: seq![t],
        }),
        Alternative::Collapse(k) => k < t.children.len() && r == t.children[k as int],
        Alternative::MutateChild(k) => {
            &&& k < t.children.len()
            &&& differs_in_child(t, r, k as int)
            &&& is_mutation_of(t.children[k as int], r.children[k as int], wraps)
        },
    }
}

/// `r` is what mutating `t` can yield: the result of one entry of its
/// kind's menu, with `wraps` nested wraps left.
pub open spec fn is_mutation_of(t: Tree, r: Tree, wraps: nat) -> bool
    decreases wraps, t, 1nat,
{
    let m = menu(t.expr);
    ||| alternative_result(t, r, m[0], wraps)
    ||| (1 < m.len() && alternative_result(t, r, m[1], wraps))
    ||| (2 < m.len() && alternative_result(t, r, m[2], wraps))
    ||| (3 < m.len() && alternative_result(t, r, m[3], wraps))
    ||| (4 < m.len() && alternative_result(t, r, m[4], wraps))
    ||| (5 < m.len() && alternative_result(t, r, m[5], wraps))
    ||| (6 < m.len() && alternative_result(t, r, m[6], wraps))
}

/// Every menu has between two and seven entries; collapses name children of
/// the node's own type, child mutations name children, and negation is
/// offered for scalar constants only.
pub proof fn lemma_menu(t: Tree, c: int)
    requires
        t.wf(t.ty()),
        0 <= c < menu(t.expr).len(),
    ensures
        2 <= menu(t.expr).len() <= 7,
        menu(t.expr)[c] matches Alternative::Collapse(k) ==> k < t.children.len() && arg_tys(
            t.expr,
        )[k as int] == t.ty(),
        menu(t.expr)[c] matches Alternative::MutateChild(k) ==> k < t.children.len(),
        menu(t.expr)[c] is Negate ==> t.ty() == Ty::Num,
{
    assert(t.children.len() == arity(t.expr));
    assert(result_ty(t.expr) == t.ty());
}

/// The menu of a node kind; see `menu`.
pub fn menu_of(e: Expr) -> (r: Vec<Alternative>)
    ensures
        r@ == menu(e),
{
    let mut v: Vec<Alternative> = Vec::new();
    match e {
        Expr::Const(c) => {
            v.push(Alternative::Wrap);
            if let Value::Num(_) = c.value {
                v.push(Alternative::Negate);
            }
            v.push(Alternative::Regenerate);
        },
        Expr::GetSelf(_) | Expr::ColorOf(_) | Expr::Similarity(_) => {
            v.push(Alternative::Regenerate);
            v.push(Alternative::Wrap);
        },
        Expr::Nearest(_) | Expr::Energy(_) | Expr::Direction(_) => {
            v.push(Alternative::Wrap);
            v.push(Alternative::Regenerate);
        },
        Expr::Move(_) => {
            v.push(Alternative::Wrap);
            v.push(Alternative::MutateChild(0));
            v.push(Alternative::Regenerate);
        },
        Expr::SetVelocity(_) | Expr::Split(_) => {
            v.push(Alternative::Wrap);
            v.push(Alternative::MutateChild(0));
            v.push(Alternative::MutateChild(1));
            v.push(Alternative::Regenerate);
        },
        Expr::Mul(_) => {
            v.push(Alternative::Wrap);
            v.push(Alternative::MutateChild(1));
            v.push(Alternative::MutateChild(0));
            v.push(Alternative::Regenerate);
        },
        Expr::Not(_) | Expr::Negate(_) => {
            v.push(Alternative::Wrap);
            v.push(Alternative::Collapse(0));
            v.push(Alternative::MutateChild(0));
            v.push(Alternative::Regenerate);
        },
        Expr::If(_) => {
            v.push(Alternative::Wrap);
            v.push(Alternative::Collapse(1));
            v.push(Alternative::Collapse(2));
            v.push(Alternative::MutateChild(0));
            v.push(Alternative::MutateChild(1));
            v.push(Alternative::MutateChild(2));
            v.push(Alternative::Regenerate);
        },
        Expr::LessThan(_) => {
            v.push(Alternative::Regenerate);
            v.push(Alternative::Wrap);
            v.push(Alternative::MutateChild(1));
            v.push(Alternative::MutateChild(0));
        },
        Expr::Add(_) => {
            v.push(Alternative::Wrap);
            v.push(Alternative::Collapse(0));
            v.push(Alternative::Collapse(1));
            v.push(Alternative::MutateChild(1));
            v.push(Alternative::MutateChild(0));
            v.push(Alternative::Regenerate);
        },
    }
    assert(v@ =~= menu(e));
    v
}

impl ExprSlot {
    /// A fresh tree of this node's type, at that type's minimum budget.
    fn regenerate(&self, rng: &mut ExprRng) -> (r: ExprSlot)
        ensures
            r@.wf(self@.ty()),
            regenerated(self@, r@),
    {
        generate_minimal(self.ty(), rng)
    }

    /// A conditional over a generated budget-one boolean that keeps this node
    /// on one side (picked uniformly) and puts a mutation of it on the other;
    /// with no wraps left, a regenerated tree goes on the other side.
    pub fn wrap_in_generic(&self, rng: &mut ExprRng, wraps: u64) -> (r: ExprSlot)
        requires
            self@.wf(self@.ty()),
        ensures
            r@.wf(self@.ty()),
            alternative_result(self@, r@, Alternative::Wrap, wraps as nat),
        decreases wraps, self, 1nat,
    {
        let ty = self.ty();
        let side = random_below(rng, 2);
        let condition = generate_bool_expr(rng, 1);
        let changed = if wraps > 0 {
            self.mutate(rng, wraps - 1)
        } else {
            self.regenerate(rng)
        };
        let kept = self.deep_clone();
        let r = if side == 0 {
            ExprSlot::node3(Expr::If(IfExpr { ty }), condition, kept, changed)
        } else {
            ExprSlot::node3(Expr::If(IfExpr { ty }), condition, changed, kept)
        };
        proof {
            lemma_node_typed(r@);
        }
        r
    }

    /// This node with its `k`-th child mutated and the other children copied.
    fn with_child_mutated(&self, k: usize, rng: &mut ExprRng, wraps: u64) -> (r: ExprSlot)
        requires
            self@.wf(self@.ty()),
            k < self@.children.len(),
        ensures
            r@.wf(self@.ty()),
            alternative_result(self@, r@, Alternative::MutateChild(k), wraps as nat),
        decreases wraps, self, 1nat,
    {
        let ghost t = self@;
        let mut children: Vec<ExprSlot> = Vec::new();
        let mut i: usize = 0;
        while i < self.children.len()
            invariant
                t == self@,
                t.wf(t.ty()),
                k < t.children.len(),
                i <= self.children.len(),
                t.children.len() == self.children.len(),
                children.len() == i,
                forall|j: int|
                    0 <= j < i ==> (#[trigger] children@[j])@.wf(arg_tys(t.expr)[j]),
                forall|j: int| 0 <= j < i && j != k ==> (#[trigger] children@[j])@ == t.children[j],
                k < i ==> is_mutation_of(t.children[k as int], children@[k as int]@, wraps as nat),
            decreases self.children.len() - i,
        {
            proof {
                lemma_wf_child(t, t.ty(), i as int);
            }
            let c = if i == k {
                self.children[i].mutate(rng, wraps)
            } else {
                self.children[i].deep_clone()
            };
            children.push(c);
            i = i + 1;
        }
        let r = ExprSlot { expr: self.expr, children };
        proof {
            assert forall|j: int| 0 <= j < r@.children.len() implies (
            #[trigger] r@.children[j]).wf(arg_tys(r@.expr)[j]) by {
                assert(r@.children[j] == children@[j]@);
            }
            lemma_node_typed(r@);
            assert forall|j: int| 0 <= j < t.children.len() && j != k implies r@.children[j]
                == t.children[j] by {
                assert(r@.children[j] == children@[j]@);
            }
            assert(r@.children[k as int] == children@[k as int]@);
        }
        r
    }

    /// A copy of the `k`-th child, for kinds whose child `k` has the node's
    /// own type.
    fn collapse_to_child(&self, k: usize) -> (r: ExprSlot)
        requires
            self@.wf(self@.ty()),
            k < self@.children.len(),
            arg_tys(self@.expr)[k as int] == self@.ty(),
        ensures
            r@.wf(self@.ty()),
            r@ == self@.children[k as int],
    {
        proof {
            lemma_wf_child(self@, self@.ty(), k as int);
        }
        let r = self.children[k].deep_clone();
        assert(r@ == self@.children[k as int]);
        r
    }

    /// Replaces the owned node in place by a mutation of it.
    pub fn mutate_expr(&mut self, rng: &mut ExprRng)
        requires
            old(self)@.wf(old(self)@.ty()),
        ensures
            final(self)@.wf(old(self)@.ty()),
            is_mutation_of(old(self)@, final(self)@, WRAP_LIMIT as nat),
    {
        let r = self.mutate(rng, WRAP_LIMIT);
        *self = r;
    }

    /// Entry `choice` of this node's menu, applied; see `alternative_result`.
    pub fn mutate_with(&self, choice: u64, rng: &mut ExprRng, wraps: u64) -> (r: ExprSlot)
        requires
            self@.wf(self@.ty()),
            choice < menu(self@.expr).len(),
        ensures
            r@.wf(self@.ty()),
            alternative_result(self@, r@, menu(self@.expr)[choice as int], wraps as nat),
        decreases wraps, self, 2nat,
    {
        proof {
            lemma_menu(self@, choice as int);
        }
        let m = menu_of(self.expr);
        match m[choice as usize] {
            Alternative::Wrap => self.wrap_in_generic(rng, wraps),
            Alternative::Regenerate => self.regenerate(rng),
            Alternative::Negate => {
                let r = ExprSlot::node1(Expr::Negate(NegateExpr { ty: Ty::Num }), self.deep_clone());
                proof {
                    lemma_node_typed(r@);
                }
                r
            },
            Alternative::Collapse(k) => self.collapse_to_child(k),
            Alternative::MutateChild(k) => self.with_child_mutated(k, rng, wraps),
        }
    }

    /// A mutation of this node: an entry of its kind's menu drawn uniformly
    /// and applied. The result has the node's type; at most `wraps` wraps
    /// nest.
    pub fn mutate(&self, rng: &mut ExprRng, wraps: u64) -> (r: ExprSlot)
        requires
            self@.wf(self@.ty()),
        ensures
            r@.wf(self@.ty()),
            is_mutation_of(self@, r@, wraps as nat),
        decreases wraps, self, 3nat,
    {
        proof {
            lemma_menu(self@, 0);
        }
        let n = menu_of(self.expr).len() as u64;
        let choice = random_below(rng, n);
        let r = self.mutate_with(choice, rng, wraps);
        proof {
            let m = menu(self@.expr);
            assert(alternative_result(self@, r@, m[choice as int], wraps as nat));
            assert(choice == 0 || choice == 1 || choice == 2 || choice == 3 || choice == 4
                || choice == 5 || choice == 6);
        }
        r
    }
}

} // verus!
