//! Evaluation of expression trees against a snapshot of the population.

use vstd::prelude::*;

use crate::tree::{arg_tys, lemma_wf_child, ExprSlot, Expr, Tree};
use crate::values::{
    add_saturating, fixed_product, mul_saturating, negate_saturating, saturate, Action, Color,
    FishRef, Fraction, Ty, Value, Vec2,
};
use crate::world::{color_similarity, direction, nearest, similarity, Fish, InterpreterState};

verus! {

/// The energy of the referenced agent, or zero when there is none.
pub open spec fn energy_of(fishes: Seq<Fish>, r: FishRef) -> i64 {
    match r.maybe_fish_num {
        Some(k) => if k < fishes.len() {
            fishes[k as int].energy
        } else {
            0
        },
        None => 0,
    }
}

/// The colour of the referenced agent, or black when there is none.
pub open spec fn color_of(fishes: Seq<Fish>, r: FishRef) -> Color {
    match r.maybe_fish_num {
        Some(k) => if k < fishes.len() {
            fishes[k as int].color
        } else {
            Color::spec_black()
        },
        None => Color::spec_black(),
    }
}

/// The unit vector between two referenced agents; zero when either is
/// absent or they coincide.
pub open spec fn direction_between(fishes: Seq<Fish>, o: FishRef, t: FishRef) -> Vec2 {
    match (o.maybe_fish_num, t.maybe_fish_num) {
        (Some(a), Some(b)) => if a < fishes.len() && b < fishes.len() {
            direction(fishes[a as int], fishes[b as int])
        } else {
            Vec2 { x: 0, y: 0 }
        },
        _ => Vec2 { x: 0, y: 0 },
    }
}

/// Strict order at type `ty` (`false < true` for booleans).
pub open spec fn less_than(ty: Ty, a: Value, b: Value) -> bool {
    match ty {
        Ty::Bool => !a.as_bool() && b.as_bool(),
        Ty::Num => a.as_num() < b.as_num(),
        Ty::Frac => a.as_frac().parts < b.as_frac().parts,
        _ => false,
    }
}

/// The (saturating) sum at type `ty`.
pub open spec fn sum_at(ty: Ty, a: Value, b: Value) -> Value {
    match ty {
        Ty::Vector => Value::Vector(a.as_vector().spec_add(b.as_vector())),
        _ => Value::Num(saturate(a.as_num() + b.as_num()) as i64),
    }
}

/// The (saturating) fixed-point product at type `ty`: a fraction times a
/// vector for `Vector`, otherwise scalar times scalar.
pub open spec fn product_at(ty: Ty, a: Value, b: Value) -> Value {
    match ty {
        Ty::Vector => Value::Vector(
            Vec2 {
                x: saturate(fixed_product(a.as_frac().parts as int, b.as_vector().x as int)) as i64,
                y: saturate(fixed_product(a.as_frac().parts as int, b.as_vector().y as int)) as i64,
            },
        ),
        _ => Value::Num(saturate(fixed_product(a.as_num() as int, b.as_num() as int)) as i64),
    }
}

/// The (saturating) negation at type `ty`.
pub open spec fn negation_at(ty: Ty, a: Value) -> Value {
    match ty {
        Ty::Vector => Value::Vector(a.as_vector().spec_invert()),
        _ => Value::Num(saturate(-a.as_num()) as i64),
    }
}

/// The value of the `i`-th child.
pub open spec fn arg(t: Tree, i: int, fishes: Seq<Fish>, me: usize) -> Value
    decreases t, 0nat,
{
    if 0 <= i < t.children.len() {
        eval(t.children[i], fishes, me)
    } else {
        Value::Bool(false)
    }
}

/// The value of a tree when agent `me` evaluates it over `fishes`.
pub open spec fn eval(t: Tree, fishes: Seq<Fish>, me: usize) -> Value
    decreases t, 1nat,
{
    match t.expr {
        Expr::Const(c) => c.value,
        Expr::GetSelf(_) => Value::Ref(FishRef { maybe_fish_num: Some(me) }),
        Expr::Nearest(_) => Value::Ref(FishRef { maybe_fish_num: nearest(fishes, me as int) }),
        Expr::Energy(_) => Value::Num(energy_of(fishes, arg(t, 0, fishes, me).as_ref())),
        Expr::ColorOf(_) => Value::Color(color_of(fishes, arg(t, 0, fishes, me).as_ref())),
        Expr::Direction(_) => Value::Vector(
            direction_between(
                fishes,
                arg(t, 0, fishes, me).as_ref(),
                arg(t, 1, fishes, me).as_ref(),
            ),
        ),
        Expr::Similarity(_) => Value::Frac(
            Fraction {
                parts: similarity(
                    arg(t, 0, fishes, me).as_color(),
                    arg(t, 1, fishes, me).as_color(),
                ) as u64,
            },
        ),
        Expr::LessThan(k) => Value::Bool(
            less_than(k.ty, arg(t, 0, fishes, me), arg(t, 1, fishes, me)),
        ),
        Expr::Add(k) => sum_at(k.ty, arg(t, 0, fishes, me), arg(t, 1, fishes, me)),
        Expr::Mul(k) => product_at(k.ty, arg(t, 0, fishes, me), arg(t, 1, fishes, me)),
        Expr::Negate(k) => negation_at(k.ty, arg(t, 0, fishes, me)),
        Expr::Not(_) => Value::Bool(!arg(t, 0, fishes, me).as_bool()),
        Expr::If(_) => if arg(t, 0, fishes, me).as_bool() {
            arg(t, 1, fishes, me)
        } else {
            arg(t, 2, fishes, me)
        },
        Expr::Move(_) => Value::Act(Action::Move(arg(t, 0, fishes, me).as_vector())),
        Expr::SetVelocity(_) => Value::Act(
            Action::SetVelocity(
                arg(t, 0, fishes, me).as_vector(),
                arg(t, 1, fishes, me).as_frac(),
            ),
        ),
        Expr::Split(_) => Value::Act(
            Action::Split(arg(t, 0, fishes, me).as_vector(), arg(t, 1, fishes, me).as_frac()),
        ),
    }
}

/// A well-typed tree evaluates to a value of its type, with its fractions
/// in range.
pub proof fn lemma_eval_has_type(t: Tree, ty: Ty, fishes: Seq<Fish>, me: usize)
    requires
        t.wf(ty),
    ensures
        eval(t, fishes, me).ty() == ty,
        eval(t, fishes, me).wf(),
    decreases t,
{
    assert forall|i: int| 0 <= i < t.children.len() implies (#[trigger] arg(t, i, fishes, me)).ty()
        == arg_tys(t.expr)[i] && arg(t, i, fishes, me).wf() by {
        lemma_wf_child(t, ty, i);
        lemma_eval_has_type(t.children[i], arg_tys(t.expr)[i], fishes, me);
    }
    let v = eval(t, fishes, me);
    match t.expr {
        Expr::If(k) => {
            assert(arg_tys(t.expr)[1] == ty && arg_tys(t.expr)[2] == ty);
            assert(arg(t, 1, fishes, me).ty() == ty && arg(t, 2, fishes, me).ty() == ty);
        },
        Expr::SetVelocity(_) | Expr::Split(_) => {
            assert(arg_tys(t.expr)[1] == Ty::Frac);
            assert(arg(t, 1, fishes, me).wf() && arg(t, 1, fishes, me).ty() == Ty::Frac);
        },
        _ => {},
    }
}

fn bool_of(v: Value) -> (r: bool)
    ensures
        r == v.as_bool(),
{
    match v {
        Value::Bool(b) => b,
        _ => false,
    }
}

fn num_of(v: Value) -> (r: i64)
    ensures
        r == v.as_num(),
{
    match v {
        Value::Num(n) => n,
        _ => 0,
    }
}

fn vector_of(v: Value) -> (r: Vec2)
    ensures
        r == v.as_vector(),
{
    match v {
        Value::Vector(x) => x,
        _ => Vec2::zero(),
    }
}

fn frac_of(v: Value) -> (r: Fraction)
    ensures
        r == v.as_frac(),
{
    match v {
        Value::Frac(f) => f,
        _ => Fraction { parts: 0 },
    }
}

fn color_value_of(v: Value) -> (r: Color)
    ensures
        r == v.as_color(),
{
    match v {
        Value::Color(c) => c,
        _ => Color::black(),
    }
}

fn ref_of(v: Value) -> (r: FishRef)
    ensures
        r == v.as_ref(),
{
    match v {
        Value::Ref(f) => f,
        _ => FishRef { maybe_fish_num: None },
    }
}

impl<'a> InterpreterState<'a> {
    /// The energy of the referenced agent, or zero when there is none.
    pub fn energy_of(&self, r: FishRef) -> (e: i64)
        ensures
            e == energy_of(self.fishes@, r),
    {
        match r.maybe_fish_num {
            Some(k) => if k < self.fishes.len() {
                self.fishes[k].energy
            } else {
                0
            },
            None => 0,
        }
    }

    /// The colour of the referenced agent, or black when there is none.
    pub fn color_of(&self, r: FishRef) -> (c: Color)
        ensures
            c == color_of(self.fishes@, r),
    {
        match r.maybe_fish_num {
            Some(k) => if k < self.fishes.len() {
                self.fishes[k].color
            } else {
                Color::black()
            },
            None => Color::black(),
        }
    }

    /// The unit vector from the agent `o` refers to towards the one `t`
    /// refers to; zero when either is absent or they coincide.
    pub fn direction_between(&self, o: FishRef, t: FishRef) -> (v: Vec2)
        ensures
            v == direction_between(self.fishes@, o, t),
    {
        match (o.maybe_fish_num, t.maybe_fish_num) {
            (Some(a), Some(b)) => if a < self.fishes.len() && b < self.fishes.len() {
                self.fishes[a].direction_to(&self.fishes[b])
            } else {
                Vec2::zero()
            },
            _ => Vec2::zero(),
        }
    }
}

impl ExprSlot {
    fn eval_child(&self, i: usize, state: &InterpreterState) -> (r: Value)
        requires
            state.wf(),
            self@.wf(self@.ty()),
            i < self@.children.len(),
        ensures
            r == arg(self@, i as int, state.fishes@, state.fish_num),
        decreases self, 0nat,
    {
        proof {
            lemma_wf_child(self@, self@.ty(), i as int);
        }
        self.children[i].eval(state)
    }

    /// Evaluates the owned tree; the result depends on the tree, the agents
    /// and the evaluating agent's index alone.
    pub fn eval(&self, state: &InterpreterState) -> (r: Value)
        requires
            state.wf(),
            self@.wf(self@.ty()),
        ensures
            r == eval(self@, state.fishes@, state.fish_num),
        decreases self, 1nat,
    {
        let ghost t = self@;
        assert(t.children.len() == arg_tys(t.expr).len());
        match self.expr {
            Expr::Const(c) => c.value,
            Expr::GetSelf(_) => Value::Ref(FishRef { maybe_fish_num: Some(state.fish_num) }),
            Expr::Nearest(_) => Value::Ref(FishRef { maybe_fish_num: state.nearest_other() }),
            Expr::Energy(_) => {
                let r = ref_of(self.eval_child(0, state));
                Value::Num(state.energy_of(r))
            },
            Expr::ColorOf(_) => {
                let r = ref_of(self.eval_child(0, state));
                Value::Color(state.color_of(r))
            },
            Expr::Direction(_) => {
                let o = ref_of(self.eval_child(0, state));
                let d = ref_of(self.eval_child(1, state));
                Value::Vector(state.direction_between(o, d))
            },
            Expr::Similarity(_) => {
                let a = color_value_of(self.eval_child(0, state));
                let b = color_value_of(self.eval_child(1, state));
                Value::Frac(color_similarity(&a, &b))
            },
            Expr::LessThan(k) => {
                let a = self.eval_child(0, state);
                let b = self.eval_child(1, state);
                let r = match k.ty {
                    Ty::Bool => !bool_of(a) && bool_of(b),
                    Ty::Num => num_of(a) < num_of(b),
                    Ty::Frac => frac_of(a).parts < frac_of(b).parts,
                    _ => false,
                };
                Value::Bool(r)
            },
            Expr::Add(k) => {
                let a = self.eval_child(0, state);
                let b = self.eval_child(1, state);
                match k.ty {
                    Ty::Vector => Value::Vector(vector_of(a).add(vector_of(b))),
                    _ => Value::Num(add_saturating(num_of(a), num_of(b))),
                }
            },
            Expr::Mul(k) => {
                let a = self.eval_child(0, state);
                let b = self.eval_child(1, state);
                match k.ty {
                    Ty::Vector => {
                        proof {
                            lemma_wf_child(t, t.ty(), 0);
                            lemma_eval_has_type(t.children[0], Ty::Frac, state.fishes@, state.fish_num);
                        }
                        let f = frac_of(a).parts as i64;
                        let v = vector_of(b);
                        Value::Vector(Vec2::new(mul_saturating(f, v.x), mul_saturating(f, v.y)))
                    },
                    _ => Value::Num(mul_saturating(num_of(a), num_of(b))),
                }
            },
            Expr::Negate(k) => {
                let a = self.eval_child(0, state);
                match k.ty {
                    Ty::Vector => Value::Vector(vector_of(a).invert()),
                    _ => Value::Num(negate_saturating(num_of(a))),
                }
            },
            Expr::Not(_) => Value::Bool(!bool_of(self.eval_child(0, state))),
            Expr::If(_) => {
                if bool_of(self.eval_child(0, state)) {
                    self.eval_child(1, state)
                } else {
                    self.eval_child(2, state)
                }
            },
            Expr::Move(_) => Value::Act(Action::Move(vector_of(self.eval_child(0, state)))),
            Expr::SetVelocity(_) => {
                let v = vector_of(self.eval_child(0, state));
                let f = frac_of(self.eval_child(1, state));
                Value::Act(Action::SetVelocity(v, f))
            },
            Expr::Split(_) => {
                let v = vector_of(self.eval_child(0, state));
                let f = frac_of(self.eval_child(1, state));
                Value::Act(Action::Split(v, f))
            },
        }
    }
}

} // verus!
