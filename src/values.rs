//! The closed set of value types that expressions produce.
//!
//! Quantities are fixed-point integers: `UNIT` stands for one whole, so a
//! scalar of `2 * UNIT` is two, a fraction is a count of millionths, a colour
//! channel likewise, and a unit vector has length `UNIT`. Sums, products and
//! negations saturate at the bounds of `i64`.

use vstd::prelude::*;

use crate::rng::{random_below, ExprRng};

verus! {

/// The fixed-point representation of one whole.
pub const UNIT: u64 = 1_000_000;

/// The largest `i64`, as a mathematical integer.
pub open spec fn i64_max() -> int {
    0x7fff_ffff_ffff_ffff
}

/// `v` clamped into the range of `i64`.
pub open spec fn saturate(v: int) -> int {
    if v > i64_max() {
        i64_max()
    } else if v < -i64_max() - 1 {
        -i64_max() - 1
    } else {
        v
    }
}

/// Saturating sum of two `i64` values.
pub fn add_saturating(a: i64, b: i64) -> (r: i64)
    ensures
        r == saturate(a + b),
{
    let s: i128 = a as i128 + b as i128;
    if s > i64::MAX as i128 {
        i64::MAX
    } else if s < i64::MIN as i128 {
        i64::MIN
    } else {
        s as i64
    }
}

/// Saturating negation of an `i64` value.
pub fn negate_saturating(a: i64) -> (r: i64)
    ensures
        r == saturate(-a),
{
    if a == i64::MIN {
        i64::MAX
    } else {
        -a
    }
}

/// Saturating fixed-point product: `a * b / UNIT`, rounded toward zero.
pub fn mul_saturating(a: i64, b: i64) -> (r: i64)
    ensures
        r == saturate(fixed_product(a as int, b as int)),
{
    proof {
        assert(-0x4000_0000_0000_0000_0000_0000_0000_0000 < a * b < 0x4000_0000_0000_0000_0000_0000_0000_0001)
            by (nonlinear_arith)
            requires
                -0x8000_0000_0000_0000 <= a < 0x8000_0000_0000_0000,
                -0x8000_0000_0000_0000 <= b < 0x8000_0000_0000_0000,
        ;
    }
    let p: i128 = a as i128 * b as i128;
    let q: i128 = if p >= 0 {
        p / (UNIT as i128)
    } else {
        -((-p) / (UNIT as i128))
    };
    if q > i64::MAX as i128 {
        i64::MAX
    } else if q < i64::MIN as i128 {
        i64::MIN
    } else {
        q as i64
    }
}

/// `a * b / UNIT`, with the quotient rounded toward zero.
pub open spec fn fixed_product(a: int, b: int) -> int {
    let p = a * b;
    if p >= 0 {
        p / (UNIT as int)
    } else {
        -((-p) / (UNIT as int))
    }
}

/// A two-dimensional vector in fixed point.
#[derive(Clone, Copy, Debug, PartialEq, Eq)]
pub struct Vec2 {
    pub x: i64,
    pub y: i64,
}

impl Vec2 {
    pub fn new(x: i64, y: i64) -> (r: Vec2)
        ensures
            r == (Vec2 { x, y }),
    {
        Vec2 { x, y }
    }

    pub fn zero() -> (r: Vec2)
        ensures
            r == (Vec2 { x: 0, y: 0 }),
    {
        Vec2 { x: 0, y: 0 }
    }

    pub open spec fn spec_add(self, o: Vec2) -> Vec2 {
        Vec2 { x: saturate(self.x + o.x) as i64, y: saturate(self.y + o.y) as i64 }
    }

    /// Component-wise saturating sum.
    pub fn add(self, o: Vec2) -> (r: Vec2)
        ensures
            r == self.spec_add(o),
    {
        Vec2 { x: add_saturating(self.x, o.x), y: add_saturating(self.y, o.y) }
    }

    pub open spec fn spec_invert(self) -> Vec2 {
        Vec2 { x: saturate(-self.x) as i64, y: saturate(-self.y) as i64 }
    }

    /// The opposite vector (saturating).
    pub fn invert(self) -> (r: Vec2)
        ensures
            r == self.spec_invert(),
    {
        Vec2 { x: negate_saturating(self.x), y: negate_saturating(self.y) }
    }
}

/// A proportion in `[0, 1]`, held as a count of `1 / UNIT` parts.
#[derive(Clone, Copy, Debug, PartialEq, Eq)]
pub struct Fraction {
    pub parts: u64,
}

impl Fraction {
    pub open spec fn wf(self) -> bool {
        self.parts <= UNIT
    }

    pub fn new(parts: u64) -> (r: Fraction)
        requires
            parts <= UNIT,
        ensures
            r.parts == parts,
            r.wf(),
    {
        Fraction { parts }
    }

    pub fn parts(self) -> (r: u64)
        ensures
            r == self.parts,
    {
        self.parts
    }
}

/// An RGBA colour; each channel is a count of `1 / UNIT` parts.
#[derive(Clone, Copy, Debug, PartialEq, Eq)]
pub struct Color {
    pub inner: [u32; 4],
}

impl Color {
    /// Every channel lies in `[0, UNIT]`.
    pub open spec fn wf(self) -> bool {
        forall|i: int| 0 <= i < 4 ==> #[trigger] self.inner@[i] <= UNIT
    }

    pub fn new(inner: [u32; 4]) -> (r: Color)
        ensures
            r.inner@ == inner@,
    {
        Color { inner }
    }

    pub open spec fn spec_black() -> Color {
        Color { inner: [0, 0, 0, UNIT as u32] }
    }

    /// Opaque black: the colour reported for an absent agent.
    pub fn black() -> (r: Color)
        ensures
            r == Color::spec_black(),
    {
        Color { inner: [0, 0, 0, UNIT as u32] }
    }
}

/// How far one mutation may shift a colour channel, either way.
pub const COLOR_DRIFT: u64 = UNIT / 10;

/// The dimmest a mutated colour channel may become.
pub const MIN_CHANNEL: u64 = UNIT / 10;

/// `v` clamped into `[lo, hi]`.
pub open spec fn clamp(v: int, lo: int, hi: int) -> int {
    if v < lo {
        lo
    } else if v > hi {
        hi
    } else {
        v
    }
}

/// `r` is `c` shifted by some amount in `[-COLOR_DRIFT, COLOR_DRIFT)` and
/// clamped into `[MIN_CHANNEL, UNIT]`.
pub open spec fn drifted(c: int, r: int) -> bool {
    clamp(c - COLOR_DRIFT, MIN_CHANNEL as int, UNIT as int) <= r <= clamp(
        c + COLOR_DRIFT - 1,
        MIN_CHANNEL as int,
        UNIT as int,
    )
}

/// A channel moved by `offset - COLOR_DRIFT` and clamped into
/// `[MIN_CHANNEL, UNIT]`.
fn shift_channel(c: u32, offset: u64) -> (r: u32)
    requires
        offset < 2 * COLOR_DRIFT,
    ensures
        r == clamp(c + offset - COLOR_DRIFT, MIN_CHANNEL as int, UNIT as int),
{
    let v: i64 = c as i64 + offset as i64 - COLOR_DRIFT as i64;
    let r: i64 = if v < MIN_CHANNEL as i64 {
        MIN_CHANNEL as i64
    } else if v > UNIT as i64 {
        UNIT as i64
    } else {
        v
    };
    r as u32
}

impl Color {
    /// The opaque colour with the given red, green and blue.
    pub fn opaque(red: u32, green: u32, blue: u32) -> (r: Color)
        ensures
            r.inner@ == seq![red, green, blue, UNIT as u32],
    {
        let r = Color { inner: [red, green, blue, UNIT as u32] };
        assert(r.inner@ =~= seq![red, green, blue, UNIT as u32]);
        r
    }

    /// An opaque colour with red, green and blue drawn uniformly from
    /// `[0, UNIT]`; see `opaque`.
    pub fn random(rng: &mut ExprRng) -> (r: Color)
        ensures
            r.wf(),
            r.inner@[3] == UNIT,
    {
        let red = random_below(rng, UNIT + 1) as u32;
        let green = random_below(rng, UNIT + 1) as u32;
        let blue = random_below(rng, UNIT + 1) as u32;
        Color::opaque(red, green, blue)
    }

    /// This colour with channel `i` (red, green, blue) moved by
    /// `offsets[i] - COLOR_DRIFT` and clamped into `[MIN_CHANNEL, UNIT]`;
    /// alpha unchanged.
    pub fn shifted(&self, offsets: [u64; 3]) -> (r: Color)
        requires
            forall|i: int| 0 <= i < 3 ==> #[trigger] offsets@[i] < 2 * COLOR_DRIFT,
        ensures
            r.inner@[3] == self.inner@[3],
            forall|i: int|
                0 <= i < 3 ==> #[trigger] r.inner@[i] == clamp(
                    self.inner@[i] + offsets@[i] - COLOR_DRIFT,
                    MIN_CHANNEL as int,
                    UNIT as int,
                ),
    {
        let red = shift_channel(self.inner[0], offsets[0]);
        let green = shift_channel(self.inner[1], offsets[1]);
        let blue = shift_channel(self.inner[2], offsets[2]);
        let r = Color { inner: [red, green, blue, self.inner[3]] };
        proof {
            assert forall|i: int| 0 <= i < 3 implies #[trigger] r.inner@[i] == clamp(
                self.inner@[i] + offsets@[i] - COLOR_DRIFT,
                MIN_CHANNEL as int,
                UNIT as int,
            ) by {
                if i == 0 {
                    assert(r.inner@[0] == red);
                } else if i == 1 {
                    assert(r.inner@[1] == green);
                } else {
                    assert(r.inner@[2] == blue);
                }
            }
        }
        r
    }

    /// This colour shifted by offsets drawn uniformly from
    /// `[0, 2 * COLOR_DRIFT)`; see `shifted`.
    pub fn mutate(&self, rng: &mut ExprRng) -> (r: Color)
        ensures
            r.inner@[3] == self.inner@[3],
            forall|i: int| 0 <= i < 3 ==> drifted(self.inner@[i] as int, #[trigger] r.inner@[i] as int),
    {
        let a = random_below(rng, 2 * COLOR_DRIFT);
        let b = random_below(rng, 2 * COLOR_DRIFT);
        let c = random_below(rng, 2 * COLOR_DRIFT);
        let offsets = [a, b, c];
        assert(offsets@[0] == a && offsets@[1] == b && offsets@[2] == c);
        self.shifted(offsets)
    }
}

/// An optional index into the current list of agents; `None` means "no such
/// agent" and is an ordinary value.
#[derive(Clone, Copy, Debug, PartialEq, Eq)]
pub struct FishRef {
    pub maybe_fish_num: Option<usize>,
}

/// What an agent does this tick.
#[derive(Clone, Copy, Debug, PartialEq, Eq)]
pub enum Action {
    Pass,
    Move(Vec2),
    SetVelocity(Vec2, Fraction),
    Split(Vec2, Fraction),
}

impl Action {
    pub open spec fn wf(self) -> bool {
        match self {
            Action::SetVelocity(_, f) => f.wf(),
            Action::Split(_, f) => f.wf(),
            _ => true,
        }
    }
}

/// The value types that expressions are typed over.
#[derive(Clone, Copy, Debug, PartialEq, Eq, Structural)]
pub enum Ty {
    Bool,
    Num,
    Vector,
    Frac,
    Color,
    Ref,
    Act,
}

/// A value of one of the value types.
#[derive(Clone, Copy, Debug, PartialEq, Eq)]
pub enum Value {
    Bool(bool),
    Num(i64),
    Vector(Vec2),
    Frac(Fraction),
    Color(Color),
    Ref(FishRef),
    Act(Action),
}

impl Value {
    pub open spec fn ty(self) -> Ty {
        match self {
            Value::Bool(_) => Ty::Bool,
            Value::Num(_) => Ty::Num,
            Value::Vector(_) => Ty::Vector,
            Value::Frac(_) => Ty::Frac,
            Value::Color(_) => Ty::Color,
            Value::Ref(_) => Ty::Ref,
            Value::Act(_) => Ty::Act,
        }
    }

    /// Fractions, also those inside actions, stay within `[0, UNIT]`.
    pub open spec fn wf(self) -> bool {
        match self {
            Value::Frac(f) => f.wf(),
            Value::Act(a) => a.wf(),
            _ => true,
        }
    }

    /// Whether this value's fractions are in range.
    pub fn in_range(&self) -> (r: bool)
        ensures
            r == self.wf(),
    {
        match self {
            Value::Frac(f) => f.parts <= UNIT,
            Value::Act(Action::SetVelocity(_, f)) => f.parts <= UNIT,
            Value::Act(Action::Split(_, f)) => f.parts <= UNIT,
            _ => true,
        }
    }

    /// The type of this value.
    pub fn value_ty(&self) -> (r: Ty)
        ensures
            r == self.ty(),
    {
        match self {
            Value::Bool(_) => Ty::Bool,
            Value::Num(_) => Ty::Num,
            Value::Vector(_) => Ty::Vector,
            Value::Frac(_) => Ty::Frac,
            Value::Color(_) => Ty::Color,
            Value::Ref(_) => Ty::Ref,
            Value::Act(_) => Ty::Act,
        }
    }

    pub open spec fn as_bool(self) -> bool {
        match self {
            Value::Bool(b) => b,
            _ => false,
        }
    }

    pub open spec fn as_num(self) -> i64 {
        match self {
            Value::Num(n) => n,
            _ => 0,
        }
    }

    pub open spec fn as_vector(self) -> Vec2 {
        match self {
            Value::Vector(v) => v,
            _ => Vec2 { x: 0, y: 0 },
        }
    }

    pub open spec fn as_frac(self) -> Fraction {
        match self {
            Value::Frac(f) => f,
            _ => Fraction { parts: 0 },
        }
    }

    pub open spec fn as_color(self) -> Color {
        match self {
            Value::Color(c) => c,
            _ => Color::spec_black(),
        }
    }

    pub open spec fn as_ref(self) -> FishRef {
        match self {
            Value::Ref(r) => r,
            _ => FishRef { maybe_fish_num: None },
        }
    }

    pub open spec fn as_action(self) -> Action {
        match self {
            Value::Act(a) => a,
            _ => Action::Pass,
        }
    }
}

/// The integer square root: the largest `r` with `r * r <= n`.
pub open spec fn isqrt(n: nat) -> nat
    decreases n,
{
    if n == 0 {
        0
    } else {
        let r = isqrt((n - 1) as nat);
        if (r + 1) * (r + 1) <= n {
            r + 1
        } else {
            r
        }
    }
}

pub open spec fn is_root(n: nat, r: nat) -> bool {
    r * r <= n && n < (r + 1) * (r + 1)
}

pub proof fn lemma_isqrt(n: nat)
    ensures
        is_root(n, isqrt(n)),
    decreases n,
{
    if n > 0 {
        lemma_isqrt((n - 1) as nat);
        let r = isqrt((n - 1) as nat);
        let m = (n - 1) as nat;
        assert(r * r <= m && m < (r + 1) * (r + 1));
        if (r + 1) * (r + 1) <= n {
            let q = r + 1;
            assert(n < (q + 1) * (q + 1)) by (nonlinear_arith)
                requires
                    m < q * q,
                    n == m + 1,
                    q >= 1,
            ;
            assert(isqrt(n) == q);
            assert(is_root(n, q));
        } else {
            assert(r * r <= n);
            assert(isqrt(n) == r);
            assert(is_root(n, r));
        }
    } else {
        assert(isqrt(0) == 0);
        assert((0 + 1) * (0 + 1) == 1int) by (nonlinear_arith);
        assert(is_root(0, 0));
    }
}

pub proof fn lemma_root_unique(n: nat, a: nat, b: nat)
    requires
        is_root(n, a),
        is_root(n, b),
    ensures
        a == b,
{
    if a < b {
        assert((a + 1) * (a + 1) <= b * b) by (nonlinear_arith)
            requires
                a + 1 <= b,
        ;
    } else if b < a {
        assert((b + 1) * (b + 1) <= a * a) by (nonlinear_arith)
            requires
                b + 1 <= a,
        ;
    }
}

/// Integer square root by bisection.
pub fn isqrt_u128(n: u128) -> (r: u128)
    ensures
        r == isqrt(n as nat),
{
    let mut lo: u128 = 0;
    let mut hi: u128 = 0x1_0000_0000_0000_0000;
    while lo + 1 < hi
        invariant
            lo < hi <= 0x1_0000_0000_0000_0000,
            lo * lo <= n,
            n < hi * hi,
        decreases hi - lo,
    {
        let mid: u128 = lo + (hi - lo) / 2;
        assert(mid * mid <= 0xffff_ffff_ffff_fffe_0000_0000_0000_0001) by (nonlinear_arith)
            requires
                mid < 0x1_0000_0000_0000_0000,
        ;
        if mid * mid <= n {
            lo = mid;
        } else {
            hi = mid;
        }
    }
    proof {
        lemma_isqrt(n as nat);
        assert(is_root(n as nat, lo as nat));
        lemma_root_unique(n as nat, lo as nat, isqrt(n as nat));
    }
    lo
}

} // verus!
