//! Depth-budgeted random generation of well-typed trees.
//!
//! Each production has a minimum budget under which it can be produced at
//! all. A generator asked for exactly its minimum picks among its leaf
//! productions; one more allows the shallow productions; anything beyond
//! also allows the full ones, among them a conditional over two branches of
//! the same production. Every recursive call gets a smaller budget that is
//! still at least the callee's minimum, so generation terminates and the
//! result is never taller than the budget plus one.

use vstd::prelude::*;

use crate::eval::{arg, eval};
use crate::rng::{random_below, ExprRng};
use crate::tree::{
    height, lemma_node_wf, ConstExpr, DichtsteVisExpr, ExprSlot, Expr, FishDirectionExpr,
    FishEnergyExpr, GetSelfExpr, IfExpr, LessThenExpr, MoveExpr, SetVelocityExpr, Tree,
};
use crate::values::{Color, Fraction, Ty, Value, UNIT};
use crate::world::Fish;

verus! {

pub const FISH_REF_MIN: u64 = 0;

pub const BOOL_MIN: u64 = 0;

pub const DIRECTION_MIN: u64 = FISH_REF_MIN + 1;

pub const MOVE_MIN: u64 = DIRECTION_MIN + 1;

pub const SET_VELOCITY_MIN: u64 = DIRECTION_MIN + 1;

pub const ACTION_MIN: u64 = MOVE_MIN;

pub const F64_MIN: u64 = 1;

pub const FRACTION_MIN: u64 = 1;

pub const COLOR_MIN: u64 = 1;

/// The productions that can be asked for by name, e.g. as the branches of a
/// generated conditional.
#[derive(Clone, Copy, Debug, PartialEq, Eq)]
pub enum Production {
    Action,
    Move,
    SetVelocity,
    Direction,
    FishRef,
    Bool,
    F64,
    Fraction,
    Color,
}

/// The minimum budget of a production.
pub open spec fn min_depth(p: Production) -> u64 {
    match p {
        Production::Action => ACTION_MIN,
        Production::Move => MOVE_MIN,
        Production::SetVelocity => SET_VELOCITY_MIN,
        Production::Direction => DIRECTION_MIN,
        Production::FishRef => FISH_REF_MIN,
        Production::Bool => BOOL_MIN,
        Production::F64 => F64_MIN,
        Production::Fraction => FRACTION_MIN,
        Production::Color => COLOR_MIN,
    }
}

/// The value type a production yields.
pub open spec fn produces(p: Production) -> Ty {
    match p {
        Production::Action | Production::Move | Production::SetVelocity => Ty::Act,
        Production::Direction => Ty::Vector,
        Production::FishRef => Ty::Ref,
        Production::Bool => Ty::Bool,
        Production::F64 => Ty::Num,
        Production::Fraction => Ty::Frac,
        Production::Color => Ty::Color,
    }
}

/// The production that regenerates a value of type `ty`.
pub open spec fn production_for(ty: Ty) -> Production {
    match ty {
        Ty::Act => Production::Action,
        Ty::Vector => Production::Direction,
        Ty::Ref => Production::FishRef,
        Ty::Bool => Production::Bool,
        Ty::Num => Production::F64,
        Ty::Frac => Production::Fraction,
        Ty::Color => Production::Color,
    }
}

/// Orders productions that delegate at the same budget: an action is a
/// move or a velocity setting built at the action's own budget.
pub open spec fn rank(p: Production) -> nat {
    match p {
        Production::Action => 1,
        _ => 0,
    }
}

/// How many alternatives production `p` offers at budget `d`: the leaf
/// band at its minimum, the shallow band one above, the full band beyond.
pub open spec fn band_len(p: Production, d: nat) -> nat {
    match p {
        Production::Action => if d == ACTION_MIN { 2 } else { 3 },
        Production::Move => if d == MOVE_MIN { 1 } else { 2 },
        Production::SetVelocity => if d == SET_VELOCITY_MIN { 1 } else { 2 },
        Production::Direction => if d == DIRECTION_MIN { 1 } else { 2 },
        Production::FishRef => if d == FISH_REF_MIN { 2 } else { 3 },
        Production::Bool => if d == 0 { 2 } else if d == 1 { 3 } else { 4 },
        Production::F64 => if d == F64_MIN { 2 } else { 3 },
        Production::Fraction => if d == FRACTION_MIN { 1 } else { 2 },
        Production::Color => if d == COLOR_MIN { 1 } else { 2 },
    }
}

/// A node without children.
pub open spec fn leaf(e: Expr) -> Tree {
    Tree { expr: e, children: seq![] }
}

/// `r` is a conditional over production `p` at budget `d`: a boolean
/// condition and two branches of `p`, all generated one level lower.
pub open spec fn if_of(p: Production, d: nat, r: Tree) -> bool
    decreases d, 0nat, 0nat,
{
    if d >= 1 {
        &&& r.expr == Expr::If(IfExpr { ty: produces(p) })
        &&& r.children.len() == 3
        &&& generated(Production::Bool, (d - 1) as nat, r.children[0])
        &&& generated(p, (d - 1) as nat, r.children[1])
        &&& generated(p, (d - 1) as nat, r.children[2])
    } else {
        false
    }
}

/// `r` is what alternative `c` of production `p` yields at budget `d`.
pub open spec fn production_result(p: Production, c: nat, d: nat, r: Tree) -> bool
    decreases d, rank(p), 1nat,
{
    match p {
        Production::Action => if c == 0 {
            generated(Production::Move, d, r)
        } else if c == 1 {
            generated(Production::SetVelocity, d, r)
        } else {
            if_of(p, d, r)
        },
        Production::Move => if c == 0 {
            &&& r.expr == Expr::Move(MoveExpr)
            &&& r.children.len() == 1
            &&& d >= 1
            &&& generated(Production::Direction, (d - 1) as nat, r.children[0])
        } else {
            if_of(p, d, r)
        },
        Production::SetVelocity => if c == 0 {
            &&& r.expr == Expr::SetVelocity(SetVelocityExpr)
            &&& r.children.len() == 2
            &&& d >= 1
            &&& generated(Production::Direction, (d - 1) as nat, r.children[0])
            &&& generated(Production::Fraction, (d - 1) as nat, r.children[1])
        } else {
            if_of(p, d, r)
        },
        Production::Direction => if c == 0 {
            &&& r.expr == Expr::Direction(FishDirectionExpr)
            &&& r.children.len() == 2
            &&& d >= 1
            &&& generated(Production::FishRef, (d - 1) as nat, r.children[0])
            &&& generated(Production::FishRef, (d - 1) as nat, r.children[1])
        } else {
            if_of(p, d, r)
        },
        Production::FishRef => if c == 0 {
            r == leaf(Expr::GetSelf(GetSelfExpr))
        } else if c == 1 {
            r == leaf(Expr::Nearest(DichtsteVisExpr))
        } else {
            if_of(p, d, r)
        },
        Production::Bool => if c == 0 {
            r == leaf(Expr::Const(ConstExpr { value: Value::Bool(true) }))
        } else if c == 1 {
            r == leaf(Expr::Const(ConstExpr { value: Value::Bool(false) }))
        } else if c == 2 {
            if_of(p, d, r)
        } else {
            &&& r.expr == Expr::LessThan(LessThenExpr { ty: Ty::Num })
            &&& r.children.len() == 2
            &&& d >= 1
            &&& generated(Production::F64, (d - 1) as nat, r.children[0])
            &&& generated(Production::F64, (d - 1) as nat, r.children[1])
        },
        Production::F64 => if c == 0 {
            r == (Tree {
                expr: Expr::Energy(FishEnergyExpr),
                children: seq![leaf(Expr::GetSelf(GetSelfExpr))],
            })
        } else if c == 1 {
            r == (Tree {
                expr: Expr::Energy(FishEnergyExpr),
                children: seq![leaf(Expr::Nearest(DichtsteVisExpr))],
            })
        } else {
            if_of(p, d, r)
        },
        Production::Fraction => if c == 0 {
            &&& r.children.len() == 0
            &&& r.expr is Const
            &&& r.expr->Const_0.value is Frac
            &&& r.expr->Const_0.value->Frac_0.wf()
        } else {
            if_of(p, d, r)
        },
        Production::Color => if c == 0 {
            &&& r.children.len() == 0
            &&& r.expr is Const
            &&& r.expr->Const_0.value is Color
            &&& r.expr->Const_0.value->Color_0.wf()
            &&& r.expr->Const_0.value->Color_0.inner@[3] == UNIT
        } else {
            if_of(p, d, r)
        },
    }
}

/// `r` is a tree that production `p` can generate at budget `d`.
pub open spec fn generated(p: Production, d: nat, r: Tree) -> bool
    decreases d, rank(p), 2nat,
{
    &&& d >= min_depth(p)
    &&& {
        ||| production_result(p, 0, d, r)
        ||| (1 < band_len(p, d) && production_result(p, 1, d, r))
        ||| (2 < band_len(p, d) && production_result(p, 2, d, r))
        ||| (3 < band_len(p, d) && production_result(p, 3, d, r))
    }
}

/// Every generated colour tree evaluates to an opaque colour with channels
/// in `[0, UNIT]`, whatever the agents.
pub proof fn lemma_generated_color(d: nat, r: Tree, fishes: Seq<Fish>, me: usize)
    requires
        generated(Production::Color, d, r),
    ensures
        eval(r, fishes, me).as_color().wf(),
        eval(r, fishes, me).as_color().inner@[3] == UNIT,
    decreases d,
{
    if !production_result(Production::Color, 0, d, r) {
        assert(production_result(Production::Color, 1, d, r));
        assert(if_of(Production::Color, d, r));
        let d1 = (d - 1) as nat;
        lemma_generated_color(d1, r.children[1], fishes, me);
        lemma_generated_color(d1, r.children[2], fishes, me);
        assert(arg(r, 1, fishes, me) == eval(r.children[1], fishes, me));
        assert(arg(r, 2, fishes, me) == eval(r.children[2], fishes, me));
    }
}

/// The number of alternatives of `p` at `max_depth`; see `band_len`.
pub fn band_size(p: Production, max_depth: u64) -> (r: u64)
    ensures
        r == band_len(p, max_depth as nat),
        r >= 1,
{
    match p {
        Production::Action => if max_depth == ACTION_MIN { 2 } else { 3 },
        Production::Move => if max_depth == MOVE_MIN { 1 } else { 2 },
        Production::SetVelocity => if max_depth == SET_VELOCITY_MIN { 1 } else { 2 },
        Production::Direction => if max_depth == DIRECTION_MIN { 1 } else { 2 },
        Production::FishRef => if max_depth == FISH_REF_MIN { 2 } else { 3 },
        Production::Bool => if max_depth == 0 { 2 } else if max_depth == 1 { 3 } else { 4 },
        Production::F64 => if max_depth == F64_MIN { 2 } else { 3 },
        Production::Fraction => if max_depth == FRACTION_MIN { 1 } else { 2 },
        Production::Color => if max_depth == COLOR_MIN { 1 } else { 2 },
    }
}

/// The minimum budget for a value of type `ty`.
pub fn min_depth_of(ty: Ty) -> (r: u64)
    ensures
        r == min_depth(production_for(ty)),
        produces(production_for(ty)) == ty,
{
    match ty {
        Ty::Act => ACTION_MIN,
        Ty::Vector => DIRECTION_MIN,
        Ty::Ref => FISH_REF_MIN,
        Ty::Bool => BOOL_MIN,
        Ty::Num => F64_MIN,
        Ty::Frac => FRACTION_MIN,
        Ty::Color => COLOR_MIN,
    }
}

/// Generates a tree of the production `p` within `max_depth`.
pub fn generate_with(p: Production, rng: &mut ExprRng, max_depth: u64) -> (r: ExprSlot)
    requires
        max_depth >= min_depth(p),
    ensures
        r@.wf(produces(p)),
        height(r@) <= max_depth + 1,
        generated(p, max_depth as nat, r@),
    decreases max_depth, 5nat,
{
    match p {
        Production::Action => generate_action_expr(rng, max_depth),
        Production::Move => generate_move_expr(rng, max_depth),
        Production::SetVelocity => generate_set_velocity_expr(rng, max_depth),
        Production::Direction => generate_direction_expr(rng, max_depth),
        Production::FishRef => generate_fish_ref_expr(rng, max_depth),
        Production::Bool => generate_bool_expr(rng, max_depth),
        Production::F64 => generate_f64_expr(rng, max_depth),
        Production::Fraction => generate_fraction_expr(rng, max_depth),
        Production::Color => generate_color_expr(rng, max_depth),
    }
}

/// Generates a tree of type `ty` at the smallest budget that type allows.
pub fn generate_minimal(ty: Ty, rng: &mut ExprRng) -> (r: ExprSlot)
    ensures
        r@.wf(ty),
        height(r@) <= min_depth(production_for(ty)) + 1,
        generated(production_for(ty), min_depth(production_for(ty)) as nat, r@),
{
    let d = min_depth_of(ty);
    match ty {
        Ty::Act => generate_with(Production::Action, rng, d),
        Ty::Vector => generate_with(Production::Direction, rng, d),
        Ty::Ref => generate_with(Production::FishRef, rng, d),
        Ty::Bool => generate_with(Production::Bool, rng, d),
        Ty::Num => generate_with(Production::F64, rng, d),
        Ty::Frac => generate_with(Production::Fraction, rng, d),
        Ty::Color => generate_with(Production::Color, rng, d),
    }
}

/// A conditional whose condition is a boolean tree and whose two branches
/// are trees of the production `p`, each one level below `max_depth`;
/// generated in the order condition, consequent, alternative.
pub fn generate_if_expr(p: Production, rng: &mut ExprRng, max_depth: u64) -> (r: ExprSlot)
    requires
        max_depth >= 1,
        max_depth - 1 >= min_depth(p),
    ensures
        r@.wf(produces(p)),
        height(r@) <= max_depth + 1,
        if_of(p, max_depth as nat, r@),
    decreases max_depth, 0nat,
{
    let condition = generate_bool_expr(rng, max_depth - 1);
    let consequent = generate_with(p, rng, max_depth - 1);
    let alternative = generate_with(p, rng, max_depth - 1);
    let r = ExprSlot::node3(Expr::If(IfExpr { ty: produces_ty(p) }), condition, consequent, alternative);
    proof {
        lemma_node_wf(r@, max_depth as nat);
    }
    r
}

fn produces_ty(p: Production) -> (r: Ty)
    ensures
        r == produces(p),
{
    match p {
        Production::Action | Production::Move | Production::SetVelocity => Ty::Act,
        Production::Direction => Ty::Vector,
        Production::FishRef => Ty::Ref,
        Production::Bool => Ty::Bool,
        Production::F64 => Ty::Num,
        Production::Fraction => Ty::Frac,
        Production::Color => Ty::Color,
    }
}

/// Alternative `choice` of an action: 0 a move, 1 a velocity setting, 2 a
/// conditional over actions.
pub fn generate_action_with(choice: u64, rng: &mut ExprRng, max_depth: u64) -> (r: ExprSlot)
    requires
        max_depth >= ACTION_MIN,
        choice < band_len(Production::Action, max_depth as nat),
    ensures
        r@.wf(Ty::Act),
        height(r@) <= max_depth + 1,
        production_result(Production::Action, choice as nat, max_depth as nat, r@),
    decreases max_depth, 3nat,
{
    if choice == 0 {
        generate_move_expr(rng, max_depth)
    } else if choice == 1 {
        generate_set_velocity_expr(rng, max_depth)
    } else {
        generate_if_expr(Production::Action, rng, max_depth)
    }
}

/// A random action; see `generate_action_with`.
pub fn generate_action_expr(rng: &mut ExprRng, max_depth: u64) -> (r: ExprSlot)
    requires
        max_depth >= ACTION_MIN,
    ensures
        r@.wf(Ty::Act),
        height(r@) <= max_depth + 1,
        generated(Production::Action, max_depth as nat, r@),
    decreases max_depth, 4nat,
{
    let choice = random_below(rng, band_size(Production::Action, max_depth));
    let r = generate_action_with(choice, rng, max_depth);
    proof {
        assert(production_result(Production::Action, choice as nat, max_depth as nat, r@));
    }
    r
}

/// Alternative `choice` of a move: 0 a move in a generated direction, 1 a
/// conditional over moves.
pub fn generate_move_with(choice: u64, rng: &mut ExprRng, max_depth: u64) -> (r: ExprSlot)
    requires
        max_depth >= MOVE_MIN,
        choice < band_len(Production::Move, max_depth as nat),
    ensures
        r@.wf(Ty::Act),
        height(r@) <= max_depth + 1,
        production_result(Production::Move, choice as nat, max_depth as nat, r@),
    decreases max_depth, 1nat,
{
    if choice == 0 {
        let direction = generate_direction_expr(rng, max_depth - 1);
        let r = ExprSlot::node1(Expr::Move(MoveExpr), direction);
        proof {
            lemma_node_wf(r@, max_depth as nat);
        }
        r
    } else {
        generate_if_expr(Production::Move, rng, max_depth)
    }
}

/// A random move; see `generate_move_with`.
pub fn generate_move_expr(rng: &mut ExprRng, max_depth: u64) -> (r: ExprSlot)
    requires
        max_depth >= MOVE_MIN,
    ensures
        r@.wf(Ty::Act),
        height(r@) <= max_depth + 1,
        generated(Production::Move, max_depth as nat, r@),
    decreases max_depth, 2nat,
{
    let choice = random_below(rng, band_size(Production::Move, max_depth));
    let r = generate_move_with(choice, rng, max_depth);
    proof {
        assert(production_result(Production::Move, choice as nat, max_depth as nat, r@));
    }
    r
}

/// Alternative `choice` of a velocity setting: 0 one from a generated
/// direction and fraction, 1 a conditional over velocity settings.
pub fn generate_set_velocity_with(choice: u64, rng: &mut ExprRng, max_depth: u64) -> (r: ExprSlot)
    requires
        max_depth >= SET_VELOCITY_MIN,
        choice < band_len(Production::SetVelocity, max_depth as nat),
    ensures
        r@.wf(Ty::Act),
        height(r@) <= max_depth + 1,
        production_result(Production::SetVelocity, choice as nat, max_depth as nat, r@),
    decreases max_depth, 1nat,
{
    if choice == 0 {
        let target_velocity = generate_direction_expr(rng, max_depth - 1);
        let max_energy_ratio = generate_fraction_expr(rng, max_depth - 1);
        let r = ExprSlot::node2(
            Expr::SetVelocity(SetVelocityExpr),
            target_velocity,
            max_energy_ratio,
        );
        proof {
            lemma_node_wf(r@, max_depth as nat);
        }
        r
    } else {
        generate_if_expr(Production::SetVelocity, rng, max_depth)
    }
}

/// A random velocity setting; see `generate_set_velocity_with`.
pub fn generate_set_velocity_expr(rng: &mut ExprRng, max_depth: u64) -> (r: ExprSlot)
    requires
        max_depth >= SET_VELOCITY_MIN,
    ensures
        r@.wf(Ty::Act),
        height(r@) <= max_depth + 1,
        generated(Production::SetVelocity, max_depth as nat, r@),
    decreases max_depth, 2nat,
{
    let choice = random_below(rng, band_size(Production::SetVelocity, max_depth));
    let r = generate_set_velocity_with(choice, rng, max_depth);
    proof {
        assert(production_result(Production::SetVelocity, choice as nat, max_depth as nat, r@));
    }
    r
}

/// Alternative `choice` of a direction: 0 the direction between two
/// generated references, 1 a conditional over directions.
pub fn generate_direction_with(choice: u64, rng: &mut ExprRng, max_depth: u64) -> (r: ExprSlot)
    requires
        max_depth >= DIRECTION_MIN,
        choice < band_len(Production::Direction, max_depth as nat),
    ensures
        r@.wf(Ty::Vector),
        height(r@) <= max_depth + 1,
        production_result(Production::Direction, choice as nat, max_depth as nat, r@),
    decreases max_depth, 1nat,
{
    if choice == 0 {
        let origin = generate_fish_ref_expr(rng, max_depth - 1);
        let target = generate_fish_ref_expr(rng, max_depth - 1);
        let r = ExprSlot::node2(Expr::Direction(FishDirectionExpr), origin, target);
        proof {
            lemma_node_wf(r@, max_depth as nat);
        }
        r
    } else {
        generate_if_expr(Production::Direction, rng, max_depth)
    }
}

/// A random direction; see `generate_direction_with`.
pub fn generate_direction_expr(rng: &mut ExprRng, max_depth: u64) -> (r: ExprSlot)
    requires
        max_depth >= DIRECTION_MIN,
    ensures
        r@.wf(Ty::Vector),
        height(r@) <= max_depth + 1,
        generated(Production::Direction, max_depth as nat, r@),
    decreases max_depth, 2nat,
{
    let choice = random_below(rng, band_size(Production::Direction, max_depth));
    let r = generate_direction_with(choice, rng, max_depth);
    proof {
        assert(production_result(Production::Direction, choice as nat, max_depth as nat, r@));
    }
    r
}

/// Alternative `choice` of an agent reference: 0 the evaluating agent, 1
/// its nearest neighbour, 2 a conditional over references.
pub fn generate_fish_ref_with(choice: u64, rng: &mut ExprRng, max_depth: u64) -> (r: ExprSlot)
    requires
        choice < band_len(Production::FishRef, max_depth as nat),
    ensures
        r@.wf(Ty::Ref),
        height(r@) <= max_depth + 1,
        production_result(Production::FishRef, choice as nat, max_depth as nat, r@),
    decreases max_depth, 1nat,
{
    if choice == 2 {
        generate_if_expr(Production::FishRef, rng, max_depth)
    } else {
        let r = if choice == 0 {
            ExprSlot::leaf(Expr::GetSelf(GetSelfExpr))
        } else {
            ExprSlot::leaf(Expr::Nearest(DichtsteVisExpr))
        };
        proof {
            lemma_node_wf(r@, 0);
        }
        r
    }
}

/// A random agent reference; see `generate_fish_ref_with`.
pub fn generate_fish_ref_expr(rng: &mut ExprRng, max_depth: u64) -> (r: ExprSlot)
    ensures
        r@.wf(Ty::Ref),
        height(r@) <= max_depth + 1,
        generated(Production::FishRef, max_depth as nat, r@),
    decreases max_depth, 2nat,
{
    let choice = random_below(rng, band_size(Production::FishRef, max_depth));
    let r = generate_fish_ref_with(choice, rng, max_depth);
    proof {
        assert(production_result(Production::FishRef, choice as nat, max_depth as nat, r@));
    }
    r
}

/// Alternative `choice` of a boolean: 0 `true`, 1 `false`, 2 a conditional
/// over booleans, 3 a comparison of two generated scalars.
pub fn generate_bool_with(choice: u64, rng: &mut ExprRng, max_depth: u64) -> (r: ExprSlot)
    requires
        choice < band_len(Production::Bool, max_depth as nat),
    ensures
        r@.wf(Ty::Bool),
        height(r@) <= max_depth + 1,
        production_result(Production::Bool, choice as nat, max_depth as nat, r@),
    decreases max_depth, 1nat,
{
    if choice == 2 {
        generate_if_expr(Production::Bool, rng, max_depth)
    } else if choice == 3 {
        let left = generate_f64_expr(rng, max_depth - 1);
        let right = generate_f64_expr(rng, max_depth - 1);
        let r = ExprSlot::node2(Expr::LessThan(LessThenExpr { ty: Ty::Num }), left, right);
        proof {
            lemma_node_wf(r@, max_depth as nat);
        }
        r
    } else {
        let r = ExprSlot::leaf(Expr::Const(ConstExpr::new(Value::Bool(choice == 0))));
        proof {
            lemma_node_wf(r@, 0);
        }
        r
    }
}

/// A random boolean; see `generate_bool_with`.
pub fn generate_bool_expr(rng: &mut ExprRng, max_depth: u64) -> (r: ExprSlot)
    ensures
        r@.wf(Ty::Bool),
        height(r@) <= max_depth + 1,
        generated(Production::Bool, max_depth as nat, r@),
    decreases max_depth, 2nat,
{
    let choice = random_below(rng, band_size(Production::Bool, max_depth));
    let r = generate_bool_with(choice, rng, max_depth);
    proof {
        assert(production_result(Production::Bool, choice as nat, max_depth as nat, r@));
    }
    r
}

/// Alternative `choice` of a scalar: 0 the evaluating agent's energy, 1 the
/// nearest neighbour's, 2 a conditional over scalars.
pub fn generate_f64_with(choice: u64, rng: &mut ExprRng, max_depth: u64) -> (r: ExprSlot)
    requires
        max_depth >= F64_MIN,
        choice < band_len(Production::F64, max_depth as nat),
    ensures
        r@.wf(Ty::Num),
        height(r@) <= max_depth + 1,
        production_result(Production::F64, choice as nat, max_depth as nat, r@),
    decreases max_depth, 1nat,
{
    if choice == 2 {
        generate_if_expr(Production::F64, rng, max_depth)
    } else {
        let fish = if choice == 0 {
            ExprSlot::leaf(Expr::GetSelf(GetSelfExpr))
        } else {
            ExprSlot::leaf(Expr::Nearest(DichtsteVisExpr))
        };
        proof {
            lemma_node_wf(fish@, 0);
        }
        let r = ExprSlot::node1(Expr::Energy(FishEnergyExpr), fish);
        proof {
            lemma_node_wf(r@, 1);
        }
        r
    }
}

/// A random scalar; see `generate_f64_with`.
pub fn generate_f64_expr(rng: &mut ExprRng, max_depth: u64) -> (r: ExprSlot)
    requires
        max_depth >= F64_MIN,
    ensures
        r@.wf(Ty::Num),
        height(r@) <= max_depth + 1,
        generated(Production::F64, max_depth as nat, r@),
    decreases max_depth, 2nat,
{
    let choice = random_below(rng, band_size(Production::F64, max_depth));
    let r = generate_f64_with(choice, rng, max_depth);
    proof {
        assert(production_result(Production::F64, choice as nat, max_depth as nat, r@));
    }
    r
}

/// Alternative `choice` of a fraction: 0 a constant drawn uniformly from
/// `[0, UNIT]`, 1 a conditional over fractions.
pub fn generate_fraction_with(choice: u64, rng: &mut ExprRng, max_depth: u64) -> (r: ExprSlot)
    requires
        max_depth >= FRACTION_MIN,
        choice < band_len(Production::Fraction, max_depth as nat),
    ensures
        r@.wf(Ty::Frac),
        height(r@) <= max_depth + 1,
        production_result(Production::Fraction, choice as nat, max_depth as nat, r@),
    decreases max_depth, 1nat,
{
    if choice == 0 {
        let parts = random_below(rng, UNIT + 1);
        let value = Value::Frac(Fraction::new(parts));
        let r = ExprSlot::leaf(Expr::Const(ConstExpr::new(value)));
        proof {
            lemma_node_wf(r@, 0);
        }
        r
    } else {
        generate_if_expr(Production::Fraction, rng, max_depth)
    }
}

/// A random fraction; see `generate_fraction_with`.
pub fn generate_fraction_expr(rng: &mut ExprRng, max_depth: u64) -> (r: ExprSlot)
    requires
        max_depth >= FRACTION_MIN,
    ensures
        r@.wf(Ty::Frac),
        height(r@) <= max_depth + 1,
        generated(Production::Fraction, max_depth as nat, r@),
    decreases max_depth, 2nat,
{
    let choice = random_below(rng, band_size(Production::Fraction, max_depth));
    let r = generate_fraction_with(choice, rng, max_depth);
    proof {
        assert(production_result(Production::Fraction, choice as nat, max_depth as nat, r@));
    }
    r
}

/// Alternative `choice` of a colour: 0 an opaque constant with red, green
/// and blue drawn uniformly from `[0, UNIT]`, 1 a conditional over colours.
pub fn generate_color_with(choice: u64, rng: &mut ExprRng, max_depth: u64) -> (r: ExprSlot)
    requires
        max_depth >= COLOR_MIN,
        choice < band_len(Production::Color, max_depth as nat),
    ensures
        r@.wf(Ty::Color),
        height(r@) <= max_depth + 1,
        production_result(Production::Color, choice as nat, max_depth as nat, r@),
    decreases max_depth, 1nat,
{
    if choice == 0 {
        let color = Color::random(rng);
        let r = ExprSlot::leaf(Expr::Const(ConstExpr::new(Value::Color(color))));
        proof {
            lemma_node_wf(r@, 0);
        }
        r
    } else {
        generate_if_expr(Production::Color, rng, max_depth)
    }
}

/// A random colour; see `generate_color_with`. Whatever it yields evaluates
/// to an opaque colour with channels in `[0, UNIT]`.
pub fn generate_color_expr(rng: &mut ExprRng, max_depth: u64) -> (r: ExprSlot)
    requires
        max_depth >= COLOR_MIN,
    ensures
        r@.wf(Ty::Color),
        height(r@) <= max_depth + 1,
        generated(Production::Color, max_depth as nat, r@),
        forall|fishes: Seq<Fish>, me: usize|
            (#[trigger] eval(r@, fishes, me)).as_color().wf() && eval(
                r@,
                fishes,
                me,
            ).as_color().inner@[3] == UNIT,
    decreases max_depth, 2nat,
{
    let choice = random_below(rng, band_size(Production::Color, max_depth));
    let r = generate_color_with(choice, rng, max_depth);
    proof {
        assert(production_result(Production::Color, choice as nat, max_depth as nat, r@));
        assert forall|fishes: Seq<Fish>, me: usize|
            (#[trigger] eval(r@, fishes, me)).as_color().wf() && eval(
                r@,
                fishes,
                me,
            ).as_color().inner@[3] == UNIT by {
            lemma_generated_color(max_depth as nat, r@, fishes, me);
        }
    }
    r
}

} // verus!
