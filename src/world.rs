//! The read-only snapshot of the population that expressions are evaluated
//! against, and the geometric and colour measures that sensors read from it.

use vstd::prelude::*;

use crate::values::{isqrt, isqrt_u128, lemma_isqrt, Color, Fraction, Vec2, UNIT};

verus! {

/// What the expression engine reads of one agent: its position, its energy
/// and its colour.
#[derive(Clone, Copy, Debug, PartialEq, Eq)]
pub struct Fish {
    pub x: i32,
    pub y: i32,
    pub energy: i64,
    pub color: Color,
}

/// The squared Euclidean distance between two agents.
pub open spec fn dist2(a: Fish, b: Fish) -> nat {
    ((b.x - a.x) * (b.x - a.x) + (b.y - a.y) * (b.y - a.y)) as nat
}

/// `d * UNIT / len`, rounded toward zero.
pub open spec fn scale_to_unit(d: int, len: nat) -> int {
    if d >= 0 {
        d * (UNIT as int) / (len as int)
    } else {
        -((-d) * (UNIT as int) / (len as int))
    }
}

/// The unit vector from `from` towards `to`, in fixed point; the zero
/// vector when the two positions coincide.
pub open spec fn direction(from: Fish, to: Fish) -> Vec2 {
    let n = dist2(from, to);
    if n == 0 {
        Vec2 { x: 0, y: 0 }
    } else {
        Vec2 {
            x: scale_to_unit(to.x - from.x, isqrt(n)) as i64,
            y: scale_to_unit(to.y - from.y, isqrt(n)) as i64,
        }
    }
}

proof fn lemma_square_nonneg(a: int)
    ensures
        a * a >= 0,
{
    assert(a * a >= 0) by (nonlinear_arith);
}

/// A coordinate difference is bounded by the distance it contributes to.
proof fn lemma_component_le_root(d: int, e: int)
    requires
        d * d + e * e > 0,
    ensures
        isqrt((d * d + e * e) as nat) >= 1,
        (if d >= 0 { d } else { -d }) <= isqrt((d * d + e * e) as nat),
{
    let n = (d * d + e * e) as nat;
    lemma_isqrt(n);
    let r = isqrt(n);
    let a = if d >= 0 { d } else { -d };
    assert(e * e >= 0) by (nonlinear_arith);
    assert(a * a == d * d) by (nonlinear_arith)
        requires
            a == d || a == -d,
    ;
    assert(a <= r) by (nonlinear_arith)
        requires
            a >= 0,
            a * a <= n,
            n < (r + 1) * (r + 1),
            r >= 0,
    ;
    assert(r >= 1) by (nonlinear_arith)
        requires
            n >= 1,
            n < (r + 1) * (r + 1),
            r >= 0,
    ;
}

/// Fixed-point `d * UNIT / len` for `|d| <= len`.
fn scale_component(d: i64, len: u128) -> (r: i64)
    requires
        len >= 1,
        -0x1_0000_0000 <= d <= 0x1_0000_0000,
    ensures
        r == scale_to_unit(d as int, len as nat),
{
    let a: u128 = if d >= 0 {
        d as u128
    } else {
        (-d) as u128
    };
    assert(a * (UNIT as u128) <= 0x1_0000_0000 * 1_000_000) by (nonlinear_arith)
        requires
            a <= 0x1_0000_0000,
    ;
    let q: u128 = a * (UNIT as u128) / len;
    assert(q <= a * (UNIT as u128)) by (nonlinear_arith)
        requires
            len >= 1,
            a >= 0,
            q == (a * (UNIT as u128)) as int / len as int,
    ;
    if d >= 0 {
        q as i64
    } else {
        -(q as i64)
    }
}

impl Fish {
    /// The unit vector from this agent towards `other` (zero if they coincide).
    pub fn direction_to(&self, other: &Fish) -> (r: Vec2)
        ensures
            r == direction(*self, *other),
    {
        let dx: i64 = other.x as i64 - self.x as i64;
        let dy: i64 = other.y as i64 - self.y as i64;
        let n: u128 = self.distance_squared(other);
        if n == 0 {
            Vec2::zero()
        } else {
            let len = isqrt_u128(n);
            proof {
                lemma_square_nonneg(dx as int);
                lemma_square_nonneg(dy as int);
                lemma_component_le_root(dx as int, dy as int);
                lemma_component_le_root(dy as int, dx as int);
            }
            Vec2::new(scale_component(dx, len), scale_component(dy, len))
        }
    }

    /// The squared Euclidean distance from this agent to `other`.
    pub fn distance_squared(&self, other: &Fish) -> (r: u128)
        ensures
            r == dist2(*self, *other),
    {
        let dx: i64 = other.x as i64 - self.x as i64;
        let dy: i64 = other.y as i64 - self.y as i64;
        let ax: u128 = if dx >= 0 {
            dx as u128
        } else {
            (-dx) as u128
        };
        let ay: u128 = if dy >= 0 {
            dy as u128
        } else {
            (-dy) as u128
        };
        assert(ax * ax <= 0x1_0000_0000 * 0x1_0000_0000 && ay * ay <= 0x1_0000_0000
            * 0x1_0000_0000) by (nonlinear_arith)
            requires
                ax <= 0x1_0000_0000,
                ay <= 0x1_0000_0000,
        ;
        assert(ax * ax == dx * dx && ay * ay == dy * dy) by (nonlinear_arith)
            requires
                ax == dx || ax == -dx,
                ay == dy || ay == -dy,
        ;
        ax * ax + ay * ay
    }
}

/// The index of the agent other than `me` nearest to `me`, among the first
/// `n` agents; on equal distances the earliest index wins.
pub open spec fn nearest_upto(fishes: Seq<Fish>, me: int, n: int) -> Option<usize>
    decreases n,
{
    if n <= 0 {
        None
    } else {
        let prev = nearest_upto(fishes, me, n - 1);
        let k = n - 1;
        if k == me {
            prev
        } else {
            match prev {
                None => Some(k as usize),
                Some(j) => if dist2(fishes[me], fishes[k]) < dist2(fishes[me], fishes[j as int]) {
                    Some(k as usize)
                } else {
                    prev
                },
            }
        }
    }
}

/// The nearest other agent to `me`, or `None` when `me` is alone.
pub open spec fn nearest(fishes: Seq<Fish>, me: int) -> Option<usize> {
    nearest_upto(fishes, me, fishes.len() as int)
}

proof fn lemma_nearest_upto(fishes: Seq<Fish>, me: int, n: int)
    requires
        0 <= me < fishes.len() <= usize::MAX,
        0 <= n <= fishes.len(),
    ensures
        nearest_upto(fishes, me, n) is None <==> (n == 0 || (n == 1 && me == 0)),
        nearest_upto(fishes, me, n) matches Some(j) ==> {
            &&& j < n
            &&& j != me
            &&& forall|k: int|
                0 <= k < n && k != me ==> dist2(fishes[me], fishes[j as int]) <= dist2(
                    fishes[me],
                    #[trigger] fishes[k],
                )
            &&& forall|k: int|
                0 <= k < j && k != me ==> dist2(fishes[me], #[trigger] fishes[k]) > dist2(
                    fishes[me],
                    fishes[j as int],
                )
        },
    decreases n,
{
    if n > 0 {
        lemma_nearest_upto(fishes, me, n - 1);
        let k0 = n - 1;
        let c = fishes[me];
        if k0 != me {
            match nearest_upto(fishes, me, n - 1) {
                None => {
                    assert forall|k: int| 0 <= k < n && k != me implies dist2(c, fishes[k0])
                        <= dist2(c, #[trigger] fishes[k]) by {
                        assert(k == k0);
                    }
                },
                Some(j) => {
                    if dist2(c, fishes[k0]) < dist2(c, fishes[j as int]) {
                        assert forall|k: int| 0 <= k < n && k != me implies dist2(c, fishes[k0])
                            <= dist2(c, #[trigger] fishes[k]) by {
                            if k != k0 {
                                assert(dist2(c, fishes[j as int]) <= dist2(c, fishes[k]));
                            }
                        }
                        assert forall|k: int| 0 <= k < k0 && k != me implies dist2(
                            c,
                            #[trigger] fishes[k],
                        ) > dist2(c, fishes[k0]) by {
                            assert(dist2(c, fishes[j as int]) <= dist2(c, fishes[k]));
                        }
                    }
                },
            }
        }
    }
}

/// Nearest-neighbour law: there is no nearest other agent exactly when the
/// evaluating agent is alone; otherwise the result is another agent at the
/// smallest distance, and no agent before it in list order is as near.
pub proof fn lemma_nearest(fishes: Seq<Fish>, me: int)
    requires
        0 <= me < fishes.len() <= usize::MAX,
    ensures
        nearest(fishes, me) is None <==> fishes.len() == 1,
        nearest(fishes, me) matches Some(j) ==> {
            &&& j < fishes.len()
            &&& j != me
            &&& forall|k: int|
                0 <= k < fishes.len() && k != me ==> dist2(fishes[me], fishes[j as int]) <= dist2(
                    fishes[me],
                    #[trigger] fishes[k],
                )
            &&& forall|k: int|
                0 <= k < j && k != me ==> dist2(fishes[me], #[trigger] fishes[k]) > dist2(
                    fishes[me],
                    fishes[j as int],
                )
        },
{
    lemma_nearest_upto(fishes, me, fishes.len() as int);
}

/// The evaluation context: the agents as of the start of the tick and the
/// index of the one whose program runs.
pub struct InterpreterState<'a> {
    pub fish_num: usize,
    pub fishes: &'a Vec<Fish>,
}

impl<'a> InterpreterState<'a> {
    /// The evaluating agent is one of the agents.
    pub open spec fn wf(&self) -> bool {
        self.fish_num < self.fishes.len()
    }

    pub fn get_self(&self) -> (r: &'a Fish)
        requires
            self.wf(),
        ensures
            *r == self.fishes@[self.fish_num as int],
    {
        &self.fishes[self.fish_num]
    }

    /// The agent other than the evaluating one that is nearest to it; the
    /// first in list order among equally near ones; `None` when it is alone.
    pub fn nearest_other(&self) -> (r: Option<usize>)
        requires
            self.wf(),
        ensures
            r == nearest(self.fishes@, self.fish_num as int),
    {
        let me = self.get_self();
        let mut best: Option<usize> = None;
        let mut best_d: u128 = 0;
        let mut k: usize = 0;
        while k < self.fishes.len()
            invariant
                self.wf(),
                *me == self.fishes@[self.fish_num as int],
                k <= self.fishes.len(),
                best == nearest_upto(self.fishes@, self.fish_num as int, k as int),
                best is Some ==> best->0 < k && best_d == dist2(*me, self.fishes@[best->0 as int]),
            decreases self.fishes.len() - k,
        {
            if k != self.fish_num {
                let d = me.distance_squared(&self.fishes[k]);
                match best {
                    None => {
                        best = Some(k);
                        best_d = d;
                    },
                    Some(_) => {
                        if d < best_d {
                            best = Some(k);
                            best_d = d;
                        }
                    },
                }
            }
            k = k + 1;
        }
        best
    }
}

/// The dot product of two colours, channel by channel.
pub open spec fn color_dot(a: Color, b: Color) -> nat {
    (a.inner@[0] * b.inner@[0] + a.inner@[1] * b.inner@[1] + a.inner@[2] * b.inner@[2]
        + a.inner@[3] * b.inner@[3]) as nat
}

/// Cosine similarity of two colours seen as four-component vectors, in
/// fixed point, rounded down and clamped to `[0, UNIT]`; zero when either
/// colour is the zero vector.
pub open spec fn similarity(a: Color, b: Color) -> nat {
    let d = isqrt(color_dot(a, a)) * isqrt(color_dot(b, b));
    if d == 0 {
        0
    } else {
        let c = color_dot(a, b) * (UNIT as nat) / d;
        if c > UNIT {
            UNIT as nat
        } else {
            c
        }
    }
}

fn channel_product(x: u32, y: u32) -> (r: u128)
    ensures
        r == x * y,
        r <= 0xffff_ffff * 0xffff_ffff,
{
    assert(x * y <= 0xffff_ffff * 0xffff_ffff) by (nonlinear_arith)
        requires
            x <= 0xffff_ffff,
            y <= 0xffff_ffff,
    ;
    x as u128 * y as u128
}

fn dot_u128(a: &Color, b: &Color) -> (r: u128)
    ensures
        r == color_dot(*a, *b),
        r <= 4 * 0xffff_ffff * 0xffff_ffff,
{
    channel_product(a.inner[0], b.inner[0]) + channel_product(a.inner[1], b.inner[1])
        + channel_product(a.inner[2], b.inner[2]) + channel_product(a.inner[3], b.inner[3])
}

/// The similarity of two colours as a fraction; see `similarity`.
pub fn color_similarity(a: &Color, b: &Color) -> (r: Fraction)
    ensures
        r.parts == similarity(*a, *b),
        r.wf(),
{
    let ab = dot_u128(a, b);
    let aa = dot_u128(a, a);
    let bb = dot_u128(b, b);
    let ra = isqrt_u128(aa);
    let rb = isqrt_u128(bb);
    proof {
        lemma_isqrt(aa as nat);
        lemma_isqrt(bb as nat);
        assert(ra <= 0x4_0000_0000 && rb <= 0x4_0000_0000) by (nonlinear_arith)
            requires
                ra * ra <= aa,
                rb * rb <= bb,
                aa <= 4 * 0xffff_ffff * 0xffff_ffff,
                bb <= 4 * 0xffff_ffff * 0xffff_ffff,
                ra >= 0,
                rb >= 0,
        ;
        assert(ra * rb <= 0x4_0000_0000 * 0x4_0000_0000) by (nonlinear_arith)
            requires
                0 <= ra <= 0x4_0000_0000,
                0 <= rb <= 0x4_0000_0000,
        ;
        assert(ab * (UNIT as u128) <= 4 * 0xffff_ffff * 0xffff_ffff * 1_000_000) by (nonlinear_arith)
            requires
                ab <= 4 * 0xffff_ffff * 0xffff_ffff,
        ;
    }
    let d: u128 = ra * rb;
    if d == 0 {
        Fraction { parts: 0 }
    } else {
        let c: u128 = ab * (UNIT as u128) / d;
        if c > UNIT as u128 {
            Fraction { parts: UNIT }
        } else {
            Fraction { parts: c as u64 }
        }
    }
}

} // verus!
