//! Hand-written programs for agents seeded into the population by design.

use vstd::prelude::*;

use crate::eval::{arg, direction_between, energy_of, eval, product_at, color_of};
use crate::program::Program;
use crate::tree::ExprSlot;
use crate::values::{Action, Fraction, FishRef, Ty, Value, UNIT};
use crate::world::{nearest, similarity, Fish};

verus! {

/// Below this energy an agent running `ass_is_grass` waits instead of splitting.
pub const GRASS_SPLIT_ENERGY: i64 = 10_000 * (UNIT as i64);

/// A reference to the nearest other agent.
pub open spec fn nearest_ref(fishes: Seq<Fish>, me: usize) -> FishRef {
    FishRef { maybe_fish_num: nearest(fishes, me as int) }
}

/// A reference to the evaluating agent.
pub open spec fn self_ref(me: usize) -> FishRef {
    FishRef { maybe_fish_num: Some(me) }
}

/// What `smartie` decides: towards the nearest agent when that one holds
/// less energy, away from it otherwise, at a fifth of unit speed, spending
/// at most a twentieth of the energy.
pub open spec fn smartie_action(fishes: Seq<Fish>, me: usize) -> Action {
    let near = nearest_ref(fishes, me);
    let heading = if energy_of(fishes, near) < energy_of(fishes, self_ref(me)) {
        direction_between(fishes, self_ref(me), near)
    } else {
        direction_between(fishes, near, self_ref(me))
    };
    Action::SetVelocity(
        product_at(
            Ty::Vector,
            Value::Frac(Fraction { parts: UNIT / 5 }),
            Value::Vector(heading),
        ).as_vector(),
        Fraction { parts: UNIT / 20 },
    )
}

/// What `toast_niet_kannibaal` decides: pass when the nearest agent's colour
/// is more than nine tenths similar to its own, act as `smartie` otherwise.
pub open spec fn toast_action(fishes: Seq<Fish>, me: usize) -> Action {
    let kin = UNIT / 10 * 9 < similarity(
        color_of(fishes, nearest_ref(fishes, me)),
        color_of(fishes, self_ref(me)),
    ) as u64;
    if kin {
        Action::Pass
    } else {
        smartie_action(fishes, me)
    }
}

/// What `ass_is_grass` decides: pass below `GRASS_SPLIT_ENERGY`, otherwise
/// split off a fifth of its mass away from the nearest agent.
pub open spec fn grass_action(fishes: Seq<Fish>, me: usize) -> Action {
    if energy_of(fishes, self_ref(me)) < GRASS_SPLIT_ENERGY {
        Action::Pass
    } else {
        Action::Split(
            direction_between(fishes, nearest_ref(fishes, me), self_ref(me)),
            Fraction { parts: UNIT / 5 },
        )
    }
}

/// Chases the nearest agent when it holds less energy, flees it otherwise.
pub fn smartie() -> (r: Program)
    ensures
        forall|fishes: Seq<Fish>, me: usize|
            #[trigger] eval(r@, fishes, me) == Value::Act(smartie_action(fishes, me)),
{
    let near_a = ExprSlot::nearest();
    let self_a = ExprSlot::get_self();
    let ghost (tn, ts) = (near_a@, self_a@);
    let e_near = ExprSlot::energy_of(near_a);
    let e_self = ExprSlot::energy_of(self_a);
    let ghost (ten, tes) = (e_near@, e_self@);
    let condition = ExprSlot::less_than(e_near, e_self);
    let ghost tcond = condition@;
    let towards = ExprSlot::direction(ExprSlot::get_self(), ExprSlot::nearest());
    let away = ExprSlot::direction(ExprSlot::nearest(), ExprSlot::get_self());
    let ghost (tt, ta) = (towards@, away@);
    let heading = ExprSlot::if_else(condition, towards, away);
    let ghost th = heading@;
    let speed = ExprSlot::constant(Value::Frac(Fraction::new(UNIT / 5)));
    let ghost tsp = speed@;
    let velocity = ExprSlot::mul(speed, heading);
    let ghost tv = velocity@;
    let ratio = ExprSlot::constant(Value::Frac(Fraction::new(UNIT / 20)));
    let ghost tr = ratio@;
    let root = ExprSlot::set_velocity(velocity, ratio);
    let ghost t = root@;
    proof {
        assert forall|fishes: Seq<Fish>, me: usize|
            #[trigger] eval(t, fishes, me) == Value::Act(smartie_action(fishes, me)) by {
            let near = nearest_ref(fishes, me);
            assert(eval(tn, fishes, me) == Value::Ref(near));
            assert(eval(ts, fishes, me) == Value::Ref(self_ref(me)));
            assert(arg(ten, 0, fishes, me) == eval(tn, fishes, me));
            assert(arg(tes, 0, fishes, me) == eval(ts, fishes, me));
            assert(arg(tcond, 0, fishes, me) == eval(ten, fishes, me));
            assert(arg(tcond, 1, fishes, me) == eval(tes, fishes, me));
            assert(eval(tt.children[0], fishes, me) == Value::Ref(self_ref(me)));
            assert(eval(tt.children[1], fishes, me) == Value::Ref(near));
            assert(eval(ta.children[0], fishes, me) == Value::Ref(near));
            assert(eval(ta.children[1], fishes, me) == Value::Ref(self_ref(me)));
            assert(arg(tt, 0, fishes, me) == eval(tt.children[0], fishes, me));
            assert(arg(tt, 1, fishes, me) == eval(tt.children[1], fishes, me));
            assert(arg(ta, 0, fishes, me) == eval(ta.children[0], fishes, me));
            assert(arg(ta, 1, fishes, me) == eval(ta.children[1], fishes, me));
            assert(arg(th, 0, fishes, me) == eval(tcond, fishes, me));
            assert(arg(th, 1, fishes, me) == eval(tt, fishes, me));
            assert(arg(th, 2, fishes, me) == eval(ta, fishes, me));
            assert(arg(tv, 0, fishes, me) == eval(tsp, fishes, me));
            assert(arg(tv, 1, fishes, me) == eval(th, fishes, me));
            assert(arg(t, 0, fishes, me) == eval(tv, fishes, me));
            assert(arg(t, 1, fishes, me) == eval(tr, fishes, me));
        }
    }
    Program::from_root(root).unwrap()
}

/// Leaves its kin alone; behaves as `smartie` towards others.
pub fn toast_niet_kannibaal() -> (r: Program)
    ensures
        forall|fishes: Seq<Fish>, me: usize|
            #[trigger] eval(r@, fishes, me) == Value::Act(toast_action(fishes, me)),
{
    let near_c = ExprSlot::color_of(ExprSlot::nearest());
    let self_c = ExprSlot::color_of(ExprSlot::get_self());
    let ghost (tnc, tsc) = (near_c@, self_c@);
    let sim = ExprSlot::similarity(near_c, self_c);
    let ghost tsim = sim@;
    let bound = ExprSlot::constant(Value::Frac(Fraction::new(UNIT / 10 * 9)));
    let ghost tb = bound@;
    let kin = ExprSlot::less_than(bound, sim);
    let ghost tk = kin@;
    let pass = ExprSlot::constant(Value::Act(Action::Pass));
    let ghost tp = pass@;
    let chaser = smartie();
    let other = chaser.root().deep_clone();
    let ghost to = other@;
    let root = ExprSlot::if_else(kin, pass, other);
    let ghost t = root@;
    proof {
        assert forall|fishes: Seq<Fish>, me: usize|
            #[trigger] eval(t, fishes, me) == Value::Act(toast_action(fishes, me)) by {
            assert(eval(to, fishes, me) == Value::Act(smartie_action(fishes, me)));
            assert(eval(tnc.children[0], fishes, me) == Value::Ref(nearest_ref(fishes, me)));
            assert(eval(tsc.children[0], fishes, me) == Value::Ref(self_ref(me)));
            assert(arg(tnc, 0, fishes, me) == eval(tnc.children[0], fishes, me));
            assert(arg(tsc, 0, fishes, me) == eval(tsc.children[0], fishes, me));
            assert(arg(tsim, 0, fishes, me) == eval(tnc, fishes, me));
            assert(arg(tsim, 1, fishes, me) == eval(tsc, fishes, me));
            assert(arg(tk, 0, fishes, me) == eval(tb, fishes, me));
            assert(arg(tk, 1, fishes, me) == eval(tsim, fishes, me));
            assert(arg(t, 0, fishes, me) == eval(tk, fishes, me));
            assert(arg(t, 1, fishes, me) == eval(tp, fishes, me));
            assert(arg(t, 2, fishes, me) == eval(to, fishes, me));
        }
    }
    Program::from_root(root).unwrap()
}

/// Waits while poor; once rich enough, splits away from the nearest agent.
pub fn ass_is_grass() -> (r: Program)
    ensures
        forall|fishes: Seq<Fish>, me: usize|
            #[trigger] eval(r@, fishes, me) == Value::Act(grass_action(fishes, me)),
{
    let own = ExprSlot::energy_of(ExprSlot::get_self());
    let ghost town = own@;
    let threshold = ExprSlot::constant(Value::Num(GRASS_SPLIT_ENERGY));
    let ghost tth = threshold@;
    let poor = ExprSlot::less_than(own, threshold);
    let ghost tpoor = poor@;
    let away = ExprSlot::direction(ExprSlot::nearest(), ExprSlot::get_self());
    let ghost ta = away@;
    let share = ExprSlot::constant(Value::Frac(Fraction::new(UNIT / 5)));
    let ghost tsh = share@;
    let split = ExprSlot::split(away, share);
    let ghost tsplit = split@;
    let pass = ExprSlot::constant(Value::Act(Action::Pass));
    let ghost tp = pass@;
    let root = ExprSlot::if_else(poor, pass, split);
    let ghost t = root@;
    proof {
        assert forall|fishes: Seq<Fish>, me: usize|
            #[trigger] eval(t, fishes, me) == Value::Act(grass_action(fishes, me)) by {
            assert(eval(town.children[0], fishes, me) == Value::Ref(self_ref(me)));
            assert(arg(town, 0, fishes, me) == eval(town.children[0], fishes, me));
            assert(arg(tpoor, 0, fishes, me) == eval(town, fishes, me));
            assert(arg(tpoor, 1, fishes, me) == eval(tth, fishes, me));
            assert(eval(ta.children[0], fishes, me) == Value::Ref(nearest_ref(fishes, me)));
            assert(eval(ta.children[1], fishes, me) == Value::Ref(self_ref(me)));
            assert(arg(ta, 0, fishes, me) == eval(ta.children[0], fishes, me));
            assert(arg(ta, 1, fishes, me) == eval(ta.children[1], fishes, me));
            assert(arg(tsplit, 0, fishes, me) == eval(ta, fishes, me));
            assert(arg(tsplit, 1, fishes, me) == eval(tsh, fishes, me));
            assert(arg(t, 0, fishes, me) == eval(tpoor, fishes, me));
            assert(arg(t, 1, fishes, me) == eval(tp, fishes, me));
            assert(arg(t, 2, fishes, me) == eval(tsplit, fishes, me));
        }
    }
    Program::from_root(root).unwrap()
}

} // verus!
