use artifish::angels::{ass_is_grass, smartie, toast_niet_kannibaal, GRASS_SPLIT_ENERGY};
use artifish::generators::{
    generate_action_expr, generate_bool_expr, generate_color_expr, generate_direction_expr,
    generate_f64_expr, generate_fish_ref_expr, generate_fraction_expr, generate_move_expr,
    generate_set_velocity_expr, ACTION_MIN, COLOR_MIN, DIRECTION_MIN, F64_MIN, FISH_REF_MIN,
    FRACTION_MIN, MOVE_MIN, SET_VELOCITY_MIN,
};
use artifish::generators::{
    generate_action_with, generate_bool_with, generate_color_with, generate_fish_ref_with,
    generate_fraction_with,
};
use artifish::mutation::{menu_of, Alternative};
use artifish::program::Program;
use artifish::rng::ExprRng;
use artifish::tree::{
    find_node, get_node, AddExpr, ConstExpr, DichtsteVisExpr, Expr, ExprSlot, FindNodeResult,
    GetSelfExpr, IfExpr,
};
use artifish::values::{
    add_saturating, mul_saturating, negate_saturating, Action, Color, FishRef, Fraction, Ty, Value,
    Vec2, COLOR_DRIFT, MIN_CHANNEL, UNIT,
};
use artifish::world::{color_similarity, Fish, InterpreterState};
use rand::SeedableRng;

const ONE: i64 = UNIT as i64;

fn rng(seed: u64) -> ExprRng {
    ExprRng::seed_from_u64(seed)
}

fn fish_at(x: i32, y: i32) -> Fish {
    Fish { x, y, energy: 100 * ONE, color: Color::new([0, UNIT as u32, 0, UNIT as u32]) }
}

fn height(s: &ExprSlot) -> usize {
    1 + s.children.iter().map(height).max().unwrap_or(0)
}

fn arities_match(s: &ExprSlot) -> bool {
    s.children.len() == s.arity() && s.children.iter().all(arities_match)
}

fn count_nodes(s: &ExprSlot) -> u64 {
    1 + s.children.iter().map(count_nodes).sum::<u64>()
}

fn num(v: i64) -> ExprSlot {
    ExprSlot::constant(Value::Num(v))
}

fn sample_tree() -> ExprSlot {
    // if (2 < 5) { energy(self) } else { -(energy(nearest)) }
    ExprSlot::if_else(
        ExprSlot::less_than(num(2 * ONE), num(5 * ONE)),
        ExprSlot::energy_of(ExprSlot::get_self()),
        ExprSlot::negate(ExprSlot::energy_of(ExprSlot::nearest())),
    )
}

#[test]
fn if_const_true_picks_consequent() {
    let v1 = Vec2::new(3, -4);
    let v2 = Vec2::new(-7, 8);
    let t = ExprSlot::if_else(
        ExprSlot::constant(Value::Bool(true)),
        ExprSlot::constant(Value::Act(Action::Move(v1))),
        ExprSlot::constant(Value::Act(Action::Move(v2))),
    );
    let fishes = vec![fish_at(0, 0), fish_at(5, 5)];
    for me in 0..fishes.len() {
        let state = InterpreterState { fish_num: me, fishes: &fishes };
        assert_eq!(t.eval(&state), Value::Act(Action::Move(v1)));
    }
}

#[test]
fn nearest_prefers_closer_agent() {
    let fishes = vec![fish_at(0, 0), fish_at(10, 0), fish_at(3, 0)];
    let state = InterpreterState { fish_num: 0, fishes: &fishes };
    assert_eq!(state.nearest_other(), Some(2));
    let t = ExprSlot::nearest();
    assert_eq!(t.eval(&state), Value::Ref(FishRef { maybe_fish_num: Some(2) }));
}

#[test]
fn nearest_breaks_ties_by_list_order() {
    let fishes = vec![fish_at(5, 0), fish_at(0, 0), fish_at(-5, 0), fish_at(0, 5)];
    let state = InterpreterState { fish_num: 1, fishes: &fishes };
    assert_eq!(state.nearest_other(), Some(0));
    let state = InterpreterState { fish_num: 0, fishes: &fishes };
    assert_eq!(state.nearest_other(), Some(1));
    let state = InterpreterState { fish_num: 3, fishes: &fishes };
    assert_eq!(state.nearest_other(), Some(1));
}

#[test]
fn lone_agent_has_no_nearest_and_zero_direction() {
    let fishes = vec![fish_at(7, 7)];
    let state = InterpreterState { fish_num: 0, fishes: &fishes };
    assert_eq!(state.nearest_other(), None);
    assert_eq!(
        ExprSlot::nearest().eval(&state),
        Value::Ref(FishRef { maybe_fish_num: None })
    );
    let d = ExprSlot::direction(ExprSlot::get_self(), ExprSlot::nearest());
    assert_eq!(d.eval(&state), Value::Vector(Vec2::zero()));
    let e = ExprSlot::energy_of(ExprSlot::nearest());
    assert_eq!(e.eval(&state), Value::Num(0));
    let c = ExprSlot::color_of(ExprSlot::nearest());
    assert_eq!(c.eval(&state), Value::Color(Color::black()));
}

#[test]
fn less_than_on_constants() {
    let fishes = vec![fish_at(0, 0)];
    let state = InterpreterState { fish_num: 0, fishes: &fishes };
    let t = ExprSlot::less_than(num(2 * ONE), num(5 * ONE));
    assert_eq!(t.eval(&state), Value::Bool(true));
    let f = ExprSlot::less_than(num(5 * ONE), num(2 * ONE));
    assert_eq!(f.eval(&state), Value::Bool(false));
    let same = ExprSlot::less_than(num(5 * ONE), num(5 * ONE));
    assert_eq!(same.eval(&state), Value::Bool(false));
    let b = ExprSlot::less_than(
        ExprSlot::constant(Value::Bool(false)),
        ExprSlot::constant(Value::Bool(true)),
    );
    assert_eq!(b.eval(&state), Value::Bool(true));
}

#[test]
fn single_node_tree_addressing() {
    let t = ExprSlot::constant(Value::Bool(true));
    assert_eq!(t.size(), 1);
    match find_node(&t, 0) {
        FindNodeResult::FoundNode(path) => {
            assert!(path.is_empty());
            assert_eq!(get_node(&t, &path), &t);
        }
        FindNodeResult::NumVisited(_) => panic!("index 0 must resolve to the root"),
    }
    for index in [1u64, 2, 100, u64::MAX] {
        match find_node(&t, index) {
            FindNodeResult::NumVisited(n) => assert_eq!(n, 1),
            FindNodeResult::FoundNode(_) => panic!("index {} is out of range", index),
        }
    }
}

#[test]
fn color_similarity_identical_and_orthogonal() {
    let red = Color::new([UNIT as u32, 0, 0, 0]);
    let green = Color::new([0, UNIT as u32, 0, 0]);
    let odd = Color::new([123_457, 987_651, 31_337, 500_001]);
    assert_eq!(color_similarity(&red, &red).parts(), UNIT);
    assert_eq!(color_similarity(&odd, &odd).parts(), UNIT);
    assert_eq!(color_similarity(&red, &green).parts(), 0);
}

#[test]
fn color_similarity_stays_in_unit_range() {
    let mut r = rng(7);
    for _ in 0..200 {
        let a = Color::random(&mut r);
        let b = Color::random(&mut r);
        let s = color_similarity(&a, &b).parts();
        assert!(s <= UNIT);
    }
    let black = Color::new([0, 0, 0, 0]);
    assert_eq!(color_similarity(&black, &Color::black()).parts(), 0);
    let full = Color::new([u32::MAX; 4]);
    assert_eq!(color_similarity(&full, &full).parts(), UNIT);
}

#[test]
fn color_similarity_of_half_angle() {
    // (1,0,0,0) and (1,1,0,0): cosine 1/sqrt(2); the lengths are integer
    // square roots, isqrt(1e12) = 1e6 and isqrt(2e12) = 1414213, so the
    // result is floor(1e12 * 1e6 / (1e6 * 1414213)) = 707107
    let a = Color::new([UNIT as u32, 0, 0, 0]);
    let b = Color::new([UNIT as u32, UNIT as u32, 0, 0]);
    assert_eq!(color_similarity(&a, &b).parts(), 707_107);
}

#[test]
fn size_is_one_plus_children() {
    let t = sample_tree();
    let children: u64 = t.children.iter().map(|c| c.size()).sum();
    assert_eq!(t.size(), 1 + children);
    assert_eq!(t.size(), 9);
    assert_eq!(t.size(), count_nodes(&t));
}

#[test]
fn every_index_resolves_to_a_distinct_node() {
    let t = sample_tree();
    let n = t.size();
    let mut paths: Vec<Vec<usize>> = Vec::new();
    for i in 0..n {
        let path = find_node(&t, i).as_found();
        assert!(!paths.contains(&path));
        let _ = get_node(&t, &path);
        paths.push(path);
    }
    assert_eq!(paths[0], Vec::<usize>::new());
    assert_eq!(paths[1], vec![0]);
    assert_eq!(paths[2], vec![0, 0]);
    assert_eq!(paths[3], vec![0, 1]);
    assert_eq!(paths[4], vec![1]);
    assert_eq!(paths[5], vec![1, 0]);
    assert_eq!(paths[6], vec![2]);
    assert_eq!(paths[7], vec![2, 0]);
    assert_eq!(paths[8], vec![2, 0, 0]);
    match find_node(&t, n) {
        FindNodeResult::NumVisited(v) => assert_eq!(v, n),
        FindNodeResult::FoundNode(_) => panic!("index beyond the tree"),
    }
}

#[test]
fn replace_at_changes_one_node_only() {
    let mut t = sample_tree();
    let path = find_node(&t, 6).as_found();
    t.replace_at(&path, 0, num(42));
    assert_eq!(t.size(), 7);
    assert_eq!(t.children[0], sample_tree().children[0]);
    assert_eq!(t.children[1], sample_tree().children[1]);
    assert_eq!(t.children[2], num(42));
}

#[test]
fn mutation_keeps_programs_well_formed() {
    let mut r = rng(42);
    for round in 0..50 {
        let mut p = Program::random(&mut r, 4 + (round % 3));
        for _ in 0..20 {
            p.mutate(&mut r);
            assert!(p.size() >= 1);
            assert!(arities_match(p.root()));
            assert_eq!(p.root().ty(), Ty::Act);
        }
        let fishes = vec![fish_at(0, 0), fish_at(30, 40)];
        let state = InterpreterState { fish_num: 1, fishes: &fishes };
        let _ = p.run(&state);
    }
}

#[test]
fn evaluation_is_deterministic() {
    let mut r = rng(3);
    let fishes = vec![fish_at(0, 0), fish_at(30, 40), fish_at(-2, 9)];
    for _ in 0..30 {
        let p = Program::random(&mut r, 6);
        for me in 0..fishes.len() {
            let state = InterpreterState { fish_num: me, fishes: &fishes };
            assert_eq!(p.run(&state), p.run(&state));
        }
    }
}

#[test]
fn clone_evaluates_identically_and_is_independent() {
    let mut r = rng(11);
    let fishes = vec![fish_at(0, 0), fish_at(30, 40), fish_at(-2, 9)];
    for _ in 0..30 {
        let original = Program::random(&mut r, 5);
        let snapshot = original.clone();
        let mut copy = original.clone();
        assert_eq!(copy, original);
        for me in 0..fishes.len() {
            let state = InterpreterState { fish_num: me, fishes: &fishes };
            assert_eq!(copy.run(&state), original.run(&state));
        }
        copy.mutate(&mut r);
        assert_eq!(original, snapshot);
        let child = original.mutated(&mut r);
        assert_eq!(original, snapshot);
        assert!(arities_match(child.root()));
    }
}

#[test]
fn generators_respect_their_budgets() {
    let mut r = rng(5);
    for extra in 0..4u64 {
        let cases: Vec<(ExprSlot, u64, Ty)> = vec![
            (generate_action_expr(&mut r, ACTION_MIN + extra), ACTION_MIN + extra, Ty::Act),
            (generate_move_expr(&mut r, MOVE_MIN + extra), MOVE_MIN + extra, Ty::Act),
            (
                generate_set_velocity_expr(&mut r, SET_VELOCITY_MIN + extra),
                SET_VELOCITY_MIN + extra,
                Ty::Act,
            ),
            (generate_direction_expr(&mut r, DIRECTION_MIN + extra), DIRECTION_MIN + extra, Ty::Vector),
            (generate_fish_ref_expr(&mut r, FISH_REF_MIN + extra), FISH_REF_MIN + extra, Ty::Ref),
            (generate_bool_expr(&mut r, extra), extra, Ty::Bool),
            (generate_f64_expr(&mut r, F64_MIN + extra), F64_MIN + extra, Ty::Num),
            (generate_fraction_expr(&mut r, FRACTION_MIN + extra), FRACTION_MIN + extra, Ty::Frac),
            (generate_color_expr(&mut r, COLOR_MIN + extra), COLOR_MIN + extra, Ty::Color),
        ];
        for (tree, budget, ty) in cases {
            assert!(height(&tree) as u64 <= budget + 1);
            assert!(arities_match(&tree));
            assert_eq!(tree.ty(), ty);
        }
    }
}

#[test]
fn minimal_budget_yields_leaf_productions() {
    let mut r = rng(9);
    for _ in 0..50 {
        let b = generate_bool_expr(&mut r, 0);
        assert!(matches!(b.expr, Expr::Const(ConstExpr { value: Value::Bool(_) })));
        let f = generate_fish_ref_expr(&mut r, 0);
        assert!(matches!(f.expr, Expr::GetSelf(GetSelfExpr) | Expr::Nearest(DichtsteVisExpr)));
        let m = generate_move_expr(&mut r, MOVE_MIN);
        assert!(matches!(m.expr, Expr::Move(_)));
        assert_eq!(height(&m), 3);
    }
}

#[test]
fn generated_fractions_and_colours_are_in_range() {
    let mut r = rng(13);
    let mut seen_nonzero = false;
    for _ in 0..100 {
        let t = generate_fraction_expr(&mut r, FRACTION_MIN);
        match t.expr {
            Expr::Const(ConstExpr { value: Value::Frac(f) }) => {
                assert!(f.parts() <= UNIT);
                seen_nonzero |= f.parts() > 0;
            }
            _ => panic!("a fraction constant at the minimum budget"),
        }
        let c = generate_color_expr(&mut r, COLOR_MIN);
        match c.expr {
            Expr::Const(ConstExpr { value: Value::Color(col) }) => {
                assert!(col.inner[..3].iter().all(|&ch| ch as u64 <= UNIT));
                assert_eq!(col.inner[3] as u64, UNIT);
            }
            _ => panic!("a colour constant at the minimum budget"),
        }
    }
    assert!(seen_nonzero);
}

#[test]
fn colour_mutation_drifts_within_bounds() {
    let mut r = rng(17);
    let base = Color::new([0, 500_000, UNIT as u32, 250_000]);
    for _ in 0..200 {
        let m = base.mutate(&mut r);
        assert_eq!(m.inner[3], base.inner[3]);
        for i in 0..3 {
            let lo = (base.inner[i] as i64 - COLOR_DRIFT as i64).clamp(MIN_CHANNEL as i64, ONE);
            let hi = (base.inner[i] as i64 + COLOR_DRIFT as i64 - 1).clamp(MIN_CHANNEL as i64, ONE);
            let v = m.inner[i] as i64;
            assert!(lo <= v && v <= hi);
        }
    }
}

#[test]
fn saturating_arithmetic() {
    assert_eq!(add_saturating(i64::MAX, 1), i64::MAX);
    assert_eq!(add_saturating(i64::MIN, -1), i64::MIN);
    assert_eq!(add_saturating(2, 3), 5);
    assert_eq!(negate_saturating(i64::MIN), i64::MAX);
    assert_eq!(negate_saturating(7), -7);
    assert_eq!(mul_saturating(2 * ONE, 3 * ONE), 6 * ONE);
    assert_eq!(mul_saturating(-3, ONE / 2), -1);
    assert_eq!(mul_saturating(i64::MAX, i64::MAX), i64::MAX);
    assert_eq!(mul_saturating(i64::MAX, i64::MIN), i64::MIN);
}

#[test]
fn arithmetic_nodes() {
    let fishes = vec![fish_at(0, 0)];
    let state = InterpreterState { fish_num: 0, fishes: &fishes };
    let sum = ExprSlot::add(num(2 * ONE), num(3 * ONE));
    assert_eq!(sum.eval(&state), Value::Num(5 * ONE));
    let neg = ExprSlot::negate(num(4));
    assert_eq!(neg.eval(&state), Value::Num(-4));
    let not = ExprSlot::not(ExprSlot::constant(Value::Bool(false)));
    assert_eq!(not.eval(&state), Value::Bool(true));
    let vsum = ExprSlot::add(
        ExprSlot::constant(Value::Vector(Vec2::new(1, 2))),
        ExprSlot::constant(Value::Vector(Vec2::new(10, -20))),
    );
    assert_eq!(vsum.eval(&state), Value::Vector(Vec2::new(11, -18)));
    let scaled = ExprSlot::mul(
        ExprSlot::constant(Value::Frac(Fraction::new(UNIT / 4))),
        ExprSlot::constant(Value::Vector(Vec2::new(ONE, -ONE))),
    );
    assert_eq!(scaled.eval(&state), Value::Vector(Vec2::new(ONE / 4, -ONE / 4)));
}

#[test]
fn direction_is_a_unit_vector() {
    let fishes = vec![fish_at(0, 0), fish_at(30, 40), fish_at(0, 0)];
    let state = InterpreterState { fish_num: 0, fishes: &fishes };
    assert_eq!(fishes[0].direction_to(&fishes[1]), Vec2::new(600_000, 800_000));
    assert_eq!(fishes[1].direction_to(&fishes[0]), Vec2::new(-600_000, -800_000));
    assert_eq!(fishes[0].direction_to(&fishes[2]), Vec2::zero());
    assert_eq!(fishes[0].distance_squared(&fishes[1]), 2500);
    let d = ExprSlot::direction(ExprSlot::get_self(), ExprSlot::nearest());
    // agent 2 coincides with agent 0 and is nearest
    assert_eq!(d.eval(&state), Value::Vector(Vec2::zero()));
}

#[test]
fn energy_and_colour_sensors() {
    let mut fishes = vec![fish_at(0, 0), fish_at(1, 0)];
    fishes[1].energy = 77;
    fishes[1].color = Color::new([1, 2, 3, 4]);
    let state = InterpreterState { fish_num: 0, fishes: &fishes };
    assert_eq!(ExprSlot::energy_of(ExprSlot::nearest()).eval(&state), Value::Num(77));
    assert_eq!(
        ExprSlot::energy_of(ExprSlot::get_self()).eval(&state),
        Value::Num(100 * ONE)
    );
    assert_eq!(
        ExprSlot::color_of(ExprSlot::nearest()).eval(&state),
        Value::Color(Color::new([1, 2, 3, 4]))
    );
    let sim = ExprSlot::similarity(
        ExprSlot::color_of(ExprSlot::get_self()),
        ExprSlot::color_of(ExprSlot::get_self()),
    );
    assert_eq!(sim.eval(&state), Value::Frac(Fraction::new(UNIT)));
}

#[test]
fn empty_program_passes() {
    let p = Program::empty();
    assert_eq!(p.size(), 1);
    let fishes = vec![fish_at(0, 0)];
    let state = InterpreterState { fish_num: 0, fishes: &fishes };
    assert_eq!(p.run(&state), Action::Pass);
}

#[test]
fn hand_written_programs() {
    // agent 1 is nearer to agent 0 and poorer: smartie chases it
    let mut fishes = vec![fish_at(0, 0), fish_at(3, 4), fish_at(100, 0)];
    fishes[1].energy = ONE;
    let state = InterpreterState { fish_num: 0, fishes: &fishes };
    assert_eq!(
        smartie().run(&state),
        Action::SetVelocity(Vec2::new(120_000, 160_000), Fraction::new(UNIT / 20))
    );
    // same colour: the nearest agent is kin, so pass
    assert_eq!(toast_niet_kannibaal().run(&state), Action::Pass);
    // richer neighbour: flee
    fishes[1].energy = 1000 * ONE;
    fishes[1].color = Color::new([UNIT as u32, 0, 0, 0]);
    let state = InterpreterState { fish_num: 0, fishes: &fishes };
    assert_eq!(
        toast_niet_kannibaal().run(&state),
        Action::SetVelocity(Vec2::new(-120_000, -160_000), Fraction::new(UNIT / 20))
    );
    // too poor to split
    assert_eq!(ass_is_grass().run(&state), Action::Pass);
    fishes[0].energy = GRASS_SPLIT_ENERGY;
    let state = InterpreterState { fish_num: 0, fishes: &fishes };
    assert_eq!(
        ass_is_grass().run(&state),
        Action::Split(Vec2::new(-600_000, -800_000), Fraction::new(UNIT / 5))
    );
}

#[test]
fn const_expr_new_holds_value() {
    let c = ConstExpr::new(Value::Num(5));
    assert_eq!(c.value, Value::Num(5));
}

#[test]
fn well_typedness_is_checked() {
    assert!(sample_tree().is_well_typed());
    let ill = ExprSlot::node2(
        Expr::Add(AddExpr { ty: Ty::Num }),
        ExprSlot::constant(Value::Bool(true)),
        num(1),
    );
    assert!(!ill.is_well_typed());
    let short = ExprSlot::node1(Expr::If(IfExpr { ty: Ty::Num }), ExprSlot::constant(Value::Bool(true)));
    assert!(!short.is_well_typed());
    let bad_fraction = ExprSlot::leaf(Expr::Const(ConstExpr::new(Value::Frac(Fraction { parts: UNIT + 1 }))));
    assert!(!bad_fraction.is_well_typed());
    let constant_ref = ExprSlot::leaf(Expr::Const(ConstExpr::new(Value::Ref(FishRef { maybe_fish_num: Some(0) }))));
    assert!(!constant_ref.is_well_typed());
    assert!(Program::from_root(sample_tree()).is_none());
    assert!(Program::from_root(ill).is_none());
    let pass = ExprSlot::constant(Value::Act(Action::Pass));
    assert_eq!(Program::from_root(pass), Some(Program::empty()));
}

#[test]
fn slot_construction_and_children() {
    let t = ExprSlot::new(
        Expr::LessThan(artifish::tree::LessThenExpr { ty: Ty::Num }),
        vec![num(1), num(2)],
    );
    assert!(t.is_well_typed());
    assert_eq!(t.num_children(), 2);
    assert_eq!(t.arity(), 2);
    assert_eq!(t.borrow_nth_child(1), &num(2));
    assert_eq!(t.size(), 3);
}

#[test]
fn in_place_slot_mutation_keeps_type() {
    let mut r = rng(23);
    for _ in 0..100 {
        let mut t = sample_tree();
        t.mutate_expr(&mut r);
        assert!(t.is_well_typed());
        assert_eq!(t.ty(), Ty::Num);
        let mut c = num(5);
        c.mutate_expr(&mut r);
        assert!(c.is_well_typed());
        assert_eq!(c.ty(), Ty::Num);
    }
}

#[test]
fn generator_alternatives_by_choice() {
    let mut r = rng(29);
    assert_eq!(generate_bool_with(0, &mut r, 0), ExprSlot::constant(Value::Bool(true)));
    assert_eq!(generate_bool_with(1, &mut r, 5), ExprSlot::constant(Value::Bool(false)));
    let c = generate_bool_with(2, &mut r, 1);
    assert!(matches!(c.expr, Expr::If(IfExpr { ty: Ty::Bool })));
    assert!(c.children.iter().all(|ch| height(ch) == 1));
    let lt = generate_bool_with(3, &mut r, 2);
    assert!(matches!(lt.expr, Expr::LessThan(_)));
    assert!(lt.children.iter().all(|ch| matches!(ch.expr, Expr::Energy(_))));
    assert_eq!(generate_fish_ref_with(0, &mut r, 0), ExprSlot::get_self());
    assert_eq!(generate_fish_ref_with(1, &mut r, 0), ExprSlot::nearest());
    let mv = generate_action_with(0, &mut r, ACTION_MIN);
    assert!(matches!(mv.expr, Expr::Move(_)));
    assert!(matches!(mv.children[0].expr, Expr::Direction(_)));
    let sv = generate_action_with(1, &mut r, ACTION_MIN);
    assert!(matches!(sv.expr, Expr::SetVelocity(_)));
    assert!(matches!(sv.children[1].expr, Expr::Const(ConstExpr { value: Value::Frac(_) })));
    let f = generate_fraction_with(0, &mut r, FRACTION_MIN);
    assert!(matches!(f.expr, Expr::Const(ConstExpr { value: Value::Frac(_) })));
    let col = generate_color_with(1, &mut r, COLOR_MIN + 1);
    assert!(matches!(col.expr, Expr::If(IfExpr { ty: Ty::Color })));
}

#[test]
fn generated_colours_evaluate_opaque() {
    let mut r = rng(31);
    let fishes = vec![fish_at(0, 0), fish_at(3, 4)];
    for _ in 0..50 {
        let t = generate_color_expr(&mut r, 3);
        for me in 0..fishes.len() {
            let state = InterpreterState { fish_num: me, fishes: &fishes };
            match t.eval(&state) {
                Value::Color(c) => {
                    assert_eq!(c.inner[3] as u64, UNIT);
                    assert!(c.inner.iter().all(|&ch| ch as u64 <= UNIT));
                }
                other => panic!("a colour, not {:?}", other),
            }
        }
    }
}

#[test]
fn mutation_alternatives_by_choice() {
    let mut r = rng(37);
    let t = sample_tree();
    let menu = menu_of(t.expr);
    assert_eq!(menu.len(), 7);
    assert_eq!(menu[1], Alternative::Collapse(1));
    // collapse to the consequent and to the alternative
    assert_eq!(t.mutate_with(1, &mut r, 4), t.children[1]);
    assert_eq!(t.mutate_with(2, &mut r, 4), t.children[2]);
    // mutate the condition only
    let m = t.mutate_with(3, &mut r, 4);
    assert_eq!(m.expr, t.expr);
    assert_eq!(m.children[1], t.children[1]);
    assert_eq!(m.children[2], t.children[2]);
    assert_eq!(m.children[0].ty(), Ty::Bool);
    // wrap keeps the node on one side
    let w = t.mutate_with(0, &mut r, 4);
    assert!(matches!(w.expr, Expr::If(IfExpr { ty: Ty::Num })));
    assert!(w.children[1] == t || w.children[2] == t);
    assert!(height(&w.children[0]) <= 2);
    // with no wraps left, a wrap still keeps the node
    let w0 = t.wrap_in_generic(&mut r, 0);
    assert!(w0.children[1] == t || w0.children[2] == t);
    // a scalar constant can be negated
    let five = num(5);
    assert_eq!(five.mutate_with(1, &mut r, 4), ExprSlot::negate(num(5)));
}

#[test]
fn mutate_at_changes_the_indexed_node() {
    let mut r = rng(41);
    let fishes = vec![fish_at(0, 0), fish_at(3, 4)];
    let state = InterpreterState { fish_num: 0, fishes: &fishes };
    for _ in 0..30 {
        let original = Program::random(&mut r, 5);
        let n = original.size();
        let index = n - 1;
        let mut p = original.clone();
        p.mutate_at(index, &mut r);
        let path = find_node(original.root(), index).as_found();
        // outside the path's last step the tree is unchanged
        if let Some((&last, prefix)) = path.split_last() {
            let mut before = original.root();
            let mut after = p.root();
            for &k in prefix {
                before = &before.children[k];
                after = &after.children[k];
            }
            for j in 0..before.children.len() {
                if j != last {
                    assert_eq!(before.children[j], after.children[j]);
                }
            }
        }
        let _ = p.run(&state);
    }
}

#[test]
fn colour_helpers_are_exact() {
    let c = Color::opaque(1, 2, 3);
    assert_eq!(c.inner, [1, 2, 3, UNIT as u32]);
    let base = Color::new([0, 500_000, UNIT as u32, 7]);
    let s = base.shifted([0, COLOR_DRIFT, 2 * COLOR_DRIFT - 1]);
    assert_eq!(s.inner, [MIN_CHANNEL as u32, 500_000, UNIT as u32, 7]);
    let s = base.shifted([COLOR_DRIFT + 5, COLOR_DRIFT - 5, 0]);
    assert_eq!(s.inner, [MIN_CHANNEL as u32, 499_995, (UNIT - COLOR_DRIFT) as u32, 7]);
}
