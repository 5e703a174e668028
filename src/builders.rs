//! Typed constructors: each builds one node over well-typed children and
//! yields a well-typed tree.

use vstd::prelude::*;

use crate::tree::{
    lemma_node_typed, AddExpr, ColorSimilarityExpr, ConstExpr, DichtsteVisExpr, ExprSlot, Expr,
    FishColorExpr, FishDirectionExpr, FishEnergyExpr, GetSelfExpr, IfExpr, LessThenExpr,
    MoveExpr, MulExpr, NegateExpr, NotExpr, SetVelocityExpr, SplitExpr, Tree,
};
use crate::values::{Ty, Value};

verus! {

impl ExprSlot {
    /// A constant.
    pub fn constant(value: Value) -> (r: ExprSlot)
        requires
            value.wf(),
            value.ty() != Ty::Ref,
        ensures
            r@ == (Tree { expr: Expr::Const(ConstExpr { value }), children: seq![] }),
            r@.wf(value.ty()),
    {
        let r = ExprSlot::leaf(Expr::Const(ConstExpr::new(value)));
        proof {
            lemma_node_typed(r@);
        }
        r
    }

    /// A reference to the evaluating agent.
    pub fn get_self() -> (r: ExprSlot)
        ensures
            r@ == (Tree { expr: Expr::GetSelf(GetSelfExpr), children: seq![] }),
            r@.wf(Ty::Ref),
    {
        let r = ExprSlot::leaf(Expr::GetSelf(GetSelfExpr));
        proof {
            lemma_node_typed(r@);
        }
        r
    }

    /// A reference to the nearest other agent.
    pub fn nearest() -> (r: ExprSlot)
        ensures
            r@ == (Tree { expr: Expr::Nearest(DichtsteVisExpr), children: seq![] }),
            r@.wf(Ty::Ref),
    {
        let r = ExprSlot::leaf(Expr::Nearest(DichtsteVisExpr));
        proof {
            lemma_node_typed(r@);
        }
        r
    }

    /// The energy of the agent `fish` refers to.
    pub fn energy_of(fish: ExprSlot) -> (r: ExprSlot)
        requires
            fish@.wf(Ty::Ref),
        ensures
            r@ == (Tree { expr: Expr::Energy(FishEnergyExpr), children: seq![fish@] }),
            r@.wf(Ty::Num),
    {
        let r = ExprSlot::node1(Expr::Energy(FishEnergyExpr), fish);
        proof {
            lemma_node_typed(r@);
        }
        r
    }

    /// The colour of the agent `fish` refers to.
    pub fn color_of(fish: ExprSlot) -> (r: ExprSlot)
        requires
            fish@.wf(Ty::Ref),
        ensures
            r@ == (Tree { expr: Expr::ColorOf(FishColorExpr), children: seq![fish@] }),
            r@.wf(Ty::Color),
    {
        let r = ExprSlot::node1(Expr::ColorOf(FishColorExpr), fish);
        proof {
            lemma_node_typed(r@);
        }
        r
    }

    /// The unit vector from the agent `origin` refers to towards `target`'s.
    pub fn direction(origin: ExprSlot, target: ExprSlot) -> (r: ExprSlot)
        requires
            origin@.wf(Ty::Ref),
            target@.wf(Ty::Ref),
        ensures
            r@ == (Tree {
                expr: Expr::Direction(FishDirectionExpr),
                children: seq![origin@, target@],
            }),
            r@.wf(Ty::Vector),
    {
        let r = ExprSlot::node2(Expr::Direction(FishDirectionExpr), origin, target);
        proof {
            lemma_node_typed(r@);
        }
        r
    }

    /// The similarity of two colours.
    pub fn similarity(lhs: ExprSlot, rhs: ExprSlot) -> (r: ExprSlot)
        requires
            lhs@.wf(Ty::Color),
            rhs@.wf(Ty::Color),
        ensures
            r@ == (Tree {
                expr: Expr::Similarity(ColorSimilarityExpr),
                children: seq![lhs@, rhs@],
            }),
            r@.wf(Ty::Frac),
    {
        let r = ExprSlot::node2(Expr::Similarity(ColorSimilarityExpr), lhs, rhs);
        proof {
            lemma_node_typed(r@);
        }
        r
    }

    /// `left < right`, over booleans, scalars or fractions.
    pub fn less_than(left: ExprSlot, right: ExprSlot) -> (r: ExprSlot)
        requires
            left@.ty() == Ty::Bool || left@.ty() == Ty::Num || left@.ty() == Ty::Frac,
            left@.wf(left@.ty()),
            right@.wf(left@.ty()),
        ensures
            r@ == (Tree {
                expr: Expr::LessThan(LessThenExpr { ty: left@.ty() }),
                children: seq![left@, right@],
            }),
            r@.wf(Ty::Bool),
    {
        let ty = left.ty();
        let r = ExprSlot::node2(Expr::LessThan(LessThenExpr { ty }), left, right);
        proof {
            lemma_node_typed(r@);
        }
        r
    }

    /// `left + right`, over scalars or vectors.
    pub fn add(left: ExprSlot, right: ExprSlot) -> (r: ExprSlot)
        requires
            left@.ty() == Ty::Num || left@.ty() == Ty::Vector,
            left@.wf(left@.ty()),
            right@.wf(left@.ty()),
        ensures
            r@ == (Tree {
                expr: Expr::Add(AddExpr { ty: left@.ty() }),
                children: seq![left@, right@],
            }),
            r@.wf(left@.ty()),
    {
        let ty = left.ty();
        let r = ExprSlot::node2(Expr::Add(AddExpr { ty }), left, right);
        proof {
            lemma_node_typed(r@);
        }
        r
    }

    /// `left * right`: scalar times scalar, or fraction times vector.
    pub fn mul(left: ExprSlot, right: ExprSlot) -> (r: ExprSlot)
        requires
            (left@.ty() == Ty::Num && right@.ty() == Ty::Num) || (left@.ty() == Ty::Frac
                && right@.ty() == Ty::Vector),
            left@.wf(left@.ty()),
            right@.wf(right@.ty()),
        ensures
            r@ == (Tree {
                expr: Expr::Mul(MulExpr { ty: right@.ty() }),
                children: seq![left@, right@],
            }),
            r@.wf(right@.ty()),
    {
        let ty = right.ty();
        let r = ExprSlot::node2(Expr::Mul(MulExpr { ty }), left, right);
        proof {
            lemma_node_typed(r@);
        }
        r
    }

    /// `-value`, over scalars or vectors.
    pub fn negate(value: ExprSlot) -> (r: ExprSlot)
        requires
            value@.ty() == Ty::Num || value@.ty() == Ty::Vector,
            value@.wf(value@.ty()),
        ensures
            r@ == (Tree {
                expr: Expr::Negate(NegateExpr { ty: value@.ty() }),
                children: seq![value@],
            }),
            r@.wf(value@.ty()),
    {
        let ty = value.ty();
        let r = ExprSlot::node1(Expr::Negate(NegateExpr { ty }), value);
        proof {
            lemma_node_typed(r@);
        }
        r
    }

    /// Boolean negation.
    pub fn not(value: ExprSlot) -> (r: ExprSlot)
        requires
            value@.wf(Ty::Bool),
        ensures
            r@ == (Tree { expr: Expr::Not(NotExpr), children: seq![value@] }),
            r@.wf(Ty::Bool),
    {
        let r = ExprSlot::node1(Expr::Not(NotExpr), value);
        proof {
            lemma_node_typed(r@);
        }
        r
    }

    /// `if condition { consequent } else { alternative }`.
    pub fn if_else(condition: ExprSlot, consequent: ExprSlot, alternative: ExprSlot) -> (r:
        ExprSlot)
        requires
            condition@.wf(Ty::Bool),
            consequent@.wf(consequent@.ty()),
            alternative@.wf(consequent@.ty()),
        ensures
            r@ == (Tree {
                expr: Expr::If(IfExpr { ty: consequent@.ty() }),
                children: seq![condition@, consequent@, alternative@],
            }),
            r@.wf(consequent@.ty()),
    {
        let ty = consequent.ty();
        let r = ExprSlot::node3(Expr::If(IfExpr { ty }), condition, consequent, alternative);
        proof {
            lemma_node_typed(r@);
        }
        r
    }

    /// A move in the given direction.
    pub fn move_in(direction: ExprSlot) -> (r: ExprSlot)
        requires
            direction@.wf(Ty::Vector),
        ensures
            r@ == (Tree { expr: Expr::Move(MoveExpr), children: seq![direction@] }),
            r@.wf(Ty::Act),
    {
        let r = ExprSlot::node1(Expr::Move(MoveExpr), direction);
        proof {
            lemma_node_typed(r@);
        }
        r
    }

    /// Setting the velocity, spending at most the given share of energy.
    pub fn set_velocity(target_velocity: ExprSlot, max_energy_ratio: ExprSlot) -> (r: ExprSlot)
        requires
            target_velocity@.wf(Ty::Vector),
            max_energy_ratio@.wf(Ty::Frac),
        ensures
            r@ == (Tree {
                expr: Expr::SetVelocity(SetVelocityExpr),
                children: seq![target_velocity@, max_energy_ratio@],
            }),
            r@.wf(Ty::Act),
    {
        let r = ExprSlot::node2(
            Expr::SetVelocity(SetVelocityExpr),
            target_velocity,
            max_energy_ratio,
        );
        proof {
            lemma_node_typed(r@);
        }
        r
    }

    /// Splitting off the given share of mass with the given impulse.
    pub fn split(impulse: ExprSlot, mass_fraction: ExprSlot) -> (r: ExprSlot)
        requires
            impulse@.wf(Ty::Vector),
            mass_fraction@.wf(Ty::Frac),
        ensures
            r@ == (Tree {
                expr: Expr::Split(SplitExpr),
                children: seq![impulse@, mass_fraction@],
            }),
            r@.wf(Ty::Act),
    {
        let r = ExprSlot::node2(Expr::Split(SplitExpr), impulse, mass_fraction);
        proof {
            lemma_node_typed(r@);
        }
        r
    }
}

} // verus!
