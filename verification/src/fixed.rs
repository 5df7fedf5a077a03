//! Fixed-point scalars and vectors.
//!
//! Lengths, speeds and angles are signed integers counted in millionths of a
//! whole unit. Every operation says exactly how it rounds and where it
//! saturates, so a simulation step gives the same result on every machine.

use vstd::prelude::*;

verus! {

/// Number of fixed-point units in one whole unit.
pub const SCALE: i64 = 1_000_000;

/// The quotient of `a` by a positive `b`, rounded toward zero.
pub open spec fn div_toward_zero(a: int, b: int) -> int
    recommends
        b > 0,
{
    if a >= 0 {
        a / b
    } else {
        -((-a) / b)
    }
}

/// `x` clamped into the range of `i64`.
pub open spec fn saturate(x: int) -> int {
    if x < i64::MIN as int {
        i64::MIN as int
    } else if x > i64::MAX as int {
        i64::MAX as int
    } else {
        x
    }
}

/// `x` clamped into `[-SCALE, SCALE]`.
pub open spec fn clamp_unit(x: int) -> int {
    if x < -(SCALE as int) {
        -(SCALE as int)
    } else if x > SCALE as int {
        SCALE as int
    } else {
        x
    }
}

/// The free vector `magnitude * direction`: each component is rounded toward
/// zero and saturates at the bounds of `i64`.
pub open spec fn scale_direction(direction: (int, int), magnitude: int) -> Vec2 {
    Vec2 {
        x: saturate(div_toward_zero(magnitude * direction.0, SCALE as int)) as i64,
        y: saturate(div_toward_zero(magnitude * direction.1, SCALE as int)) as i64,
    }
}

/// `vector . direction`, in units of `1 / (SCALE * SCALE)`: exact, nothing is rounded.
pub open spec fn dot_direction(vector: Vec2, direction: (int, int)) -> int {
    vector.x * direction.0 + vector.y * direction.1
}

/// The quotient of `a` by a positive `b`, rounded toward zero. It lies between zero and `a`.
pub fn divide(a: i128, b: i128) -> (q: i128)
    requires
        b > 0,
    ensures
        q as int == div_toward_zero(a as int, b as int),
        a >= 0 ==> 0 <= q <= a,
        a <= 0 ==> a <= q <= 0,
{
    proof {
        if a >= 0 {
            assert(0 <= a as int / b as int <= a) by (nonlinear_arith)
                requires
                    a >= 0,
                    b > 0,
            ;
        } else {
            assert(0 <= (-a) as int / b as int <= -a) by (nonlinear_arith)
                requires
                    a < 0,
                    b > 0,
            ;
        }
    }
    a / b
}

/// Narrows a wide intermediate result to `i64`, saturating at the bounds.
pub fn saturating(x: i128) -> (r: i64)
    ensures
        r as int == saturate(x as int),
{
    if x < i64::MIN as i128 {
        i64::MIN
    } else if x > i64::MAX as i128 {
        i64::MAX
    } else {
        x as i64
    }
}

/// `r` is the integer square root of `n`, rounded down.
pub open spec fn is_sqrt_floor(n: nat, r: nat) -> bool {
    r * r <= n < (r + 1) * (r + 1)
}

/// The integer square root of `n`, rounded down.
pub closed spec fn sqrt_floor(n: nat) -> nat {
    choose|r: nat| is_sqrt_floor(n, r)
}

proof fn lemma_square_monotonic(a: nat, b: nat)
    requires
        a <= b,
    ensures
        a * a <= b * b,
{
    assert(a * a <= b * b) by (nonlinear_arith)
        requires
            a <= b,
    ;
}

/// A number has at most one rounded-down square root, and `sqrt_floor` names it.
pub proof fn lemma_sqrt_floor_unique(n: nat, r: nat)
    requires
        is_sqrt_floor(n, r),
    ensures
        sqrt_floor(n) == r,
{
    let s = sqrt_floor(n);
    assert(is_sqrt_floor(n, s));
    if s < r {
        lemma_square_monotonic(s + 1, r);
    } else if r < s {
        lemma_square_monotonic(r + 1, s);
    }
}

/// The integer square root of `n`, rounded down.
pub fn isqrt(n: u128) -> (r: u64)
    ensures
        is_sqrt_floor(n as nat, r as nat),
        r as nat == sqrt_floor(n as nat),
{
    let mut lo: u128 = 0;
    let mut hi: u128 = 0x1_0000_0000_0000_0000;
    assert(0x1_0000_0000_0000_0000int * 0x1_0000_0000_0000_0000int > u128::MAX as int)
        by (nonlinear_arith);
    while hi - lo > 1
        invariant
            lo < hi <= 0x1_0000_0000_0000_0000,
            lo * lo <= n,
            n < hi * hi,
        decreases hi - lo,
    {
        let mid: u128 = lo + (hi - lo) / 2;
        assert(mid * mid <= 0xffff_ffff_ffff_ffff * 0xffff_ffff_ffff_ffff) by (nonlinear_arith)
            requires
                0 <= mid <= 0xffff_ffff_ffff_ffff,
        ;
        assert(0xffff_ffff_ffff_ffffint * 0xffff_ffff_ffff_ffffint <= u128::MAX as int)
            by (nonlinear_arith);
        if mid * mid <= n {
            lo = mid;
        } else {
            hi = mid;
        }
    }
    proof {
        assert(hi == lo + 1);
        lemma_sqrt_floor_unique(n as nat, lo as nat);
    }
    lo as u64
}

/// A free vector: a position, a displacement or a velocity.
#[derive(Clone, Copy, PartialEq, Eq, Structural, Debug)]
pub struct Vec2 {
    pub x: i64,
    pub y: i64,
}

/// A vector whose components lie in `[-SCALE, SCALE]`: a direction, a contact
/// normal or a movement intent.
#[derive(Clone, Copy, PartialEq, Eq, Structural, Debug)]
pub struct Dir2 {
    x: i64,
    y: i64,
}

impl View for Dir2 {
    type V = (int, int);

    closed spec fn view(&self) -> (int, int) {
        (self.x as int, self.y as int)
    }
}

impl Dir2 {
    #[verifier::type_invariant]
    spec fn bounded(self) -> bool {
        -SCALE <= self.x <= SCALE && -SCALE <= self.y <= SCALE
    }

    /// What every `Dir2` in executable code satisfies.
    pub open spec fn wf(self) -> bool {
        -SCALE <= self@.0 <= SCALE && -SCALE <= self@.1 <= SCALE
    }

    /// The vector `(x, y)`, each component clamped into `[-SCALE, SCALE]`.
    pub fn new(x: i64, y: i64) -> (d: Dir2)
        ensures
            d@ == (clamp_unit(x as int), clamp_unit(y as int)),
            d.wf(),
    {
        let cx: i64 = if x < -SCALE { -SCALE } else if x > SCALE { SCALE } else { x };
        let cy: i64 = if y < -SCALE { -SCALE } else if y > SCALE { SCALE } else { y };
        Dir2 { x: cx, y: cy }
    }

    /// The zero vector.
    pub fn zero() -> (d: Dir2)
        ensures
            d@ == (0int, 0int),
    {
        Dir2 { x: 0, y: 0 }
    }

    /// The unit vector along the first axis.
    pub fn x_axis() -> (d: Dir2)
        ensures
            d@ == (SCALE as int, 0int),
    {
        Dir2 { x: SCALE, y: 0 }
    }

    pub fn x(&self) -> (r: i64)
        ensures
            r == self@.0,
            -SCALE <= r <= SCALE,
    {
        proof {
            use_type_invariant(self);
        }
        self.x
    }

    pub fn y(&self) -> (r: i64)
        ensures
            r == self@.1,
            -SCALE <= r <= SCALE,
    {
        proof {
            use_type_invariant(self);
        }
        self.y
    }

    /// The same vector as a free vector.
    pub open spec fn spec_to_vec2(self) -> Vec2 {
        Vec2 { x: self@.0 as i64, y: self@.1 as i64 }
    }

    /// The same vector as a free vector.
    pub fn to_vec2(&self) -> (v: Vec2)
        ensures
            v == self.spec_to_vec2(),
    {
        Vec2 { x: self.x(), y: self.y() }
    }

    /// The opposite vector.
    pub fn neg(&self) -> (d: Dir2)
        ensures
            d@ == (-self@.0, -self@.1),
            d.wf(),
    {
        proof {
            use_type_invariant(self);
        }
        Dir2 { x: -self.x, y: -self.y }
    }

    /// The sum of the squares of the components.
    pub open spec fn spec_length_squared(self) -> int {
        self@.0 * self@.0 + self@.1 * self@.1
    }

    /// The sum of the squares of the components (at most `2 * SCALE * SCALE`).
    pub fn length_squared(&self) -> (r: i64)
        ensures
            r == self.spec_length_squared(),
            0 <= r <= 2 * SCALE * SCALE,
    {
        proof {
            use_type_invariant(self);
        }
        let x: i64 = self.x;
        let y: i64 = self.y;
        assert(0 <= x * x <= 1_000_000_000_000) by (nonlinear_arith)
            requires
                -1_000_000 <= x <= 1_000_000,
        ;
        assert(0 <= y * y <= 1_000_000_000_000) by (nonlinear_arith)
            requires
                -1_000_000 <= y <= 1_000_000,
        ;
        x * x + y * y
    }

    /// The free vector `magnitude * self`: each component is rounded toward zero
    /// and saturates at the bounds of `i64`.
    pub open spec fn spec_scaled(self, magnitude: int) -> Vec2 {
        scale_direction(self@, magnitude)
    }

    /// The free vector `magnitude * self`: each component is rounded toward zero
    /// and saturates at the bounds of `i64`.
    pub fn scaled(&self, magnitude: i64) -> (v: Vec2)
        ensures
            v == self.spec_scaled(magnitude as int),
    {
        let x: i64 = self.x();
        let y: i64 = self.y();
        Vec2 { x: saturating(scale_down(magnitude, x)), y: saturating(scale_down(magnitude, y)) }
    }
}

/// `magnitude * component / SCALE`, rounded toward zero.
fn scale_down(magnitude: i64, component: i64) -> (r: i128)
    requires
        -SCALE <= component <= SCALE,
    ensures
        r as int == div_toward_zero(magnitude * component, SCALE as int),
{
    let m: i128 = magnitude as i128;
    let c: i128 = component as i128;
    assert(-0x8000_0000_0000_0000 * 1_000_000 <= m * c <= 0x8000_0000_0000_0000 * 1_000_000)
        by (nonlinear_arith)
        requires
            -0x8000_0000_0000_0000 <= m <= 0x7fff_ffff_ffff_ffff,
            -1_000_000 <= c <= 1_000_000,
    ;
    let p: i128 = m * c;
    p / (SCALE as i128)
}

impl Vec2 {
    pub fn new(x: i64, y: i64) -> (v: Vec2)
        ensures
            v.x == x,
            v.y == y,
    {
        Vec2 { x, y }
    }

    /// The zero vector.
    pub fn zero() -> (v: Vec2)
        ensures
            v.x == 0,
            v.y == 0,
    {
        Vec2 { x: 0, y: 0 }
    }

    /// The sum of the squares of the components.
    pub open spec fn spec_length_squared(self) -> int {
        self.x * self.x + self.y * self.y
    }

    /// The sum of the squares of the components.
    pub fn length_squared(&self) -> (r: u128)
        ensures
            r == self.spec_length_squared(),
    {
        let x: i128 = self.x as i128;
        let y: i128 = self.y as i128;
        assert(0 <= x * x <= 0x8000_0000_0000_0000 * 0x8000_0000_0000_0000) by (nonlinear_arith)
            requires
                -0x8000_0000_0000_0000 <= x <= 0x8000_0000_0000_0000,
        ;
        assert(0 <= y * y <= 0x8000_0000_0000_0000 * 0x8000_0000_0000_0000) by (nonlinear_arith)
            requires
                -0x8000_0000_0000_0000 <= y <= 0x8000_0000_0000_0000,
        ;
        assert(0x8000_0000_0000_0000int * 0x8000_0000_0000_0000int
            == 0x4000_0000_0000_0000_0000_0000_0000_0000int) by (nonlinear_arith);
        let xx: u128 = (x * x) as u128;
        let yy: u128 = (y * y) as u128;
        xx + yy
    }

    /// `self . d`, in units of `1 / (SCALE * SCALE)`: exact, nothing is rounded.
    pub open spec fn spec_dot(self, d: Dir2) -> int {
        dot_direction(self, d@)
    }

    /// `self . d`, in units of `1 / (SCALE * SCALE)`: exact, nothing is rounded.
    pub fn dot(&self, d: &Dir2) -> (r: i128)
        ensures
            r == self.spec_dot(*d),
            -0x8000_0000_0000_0000 * 2_000_000 <= r <= 0x8000_0000_0000_0000 * 2_000_000,
    {
        let vx: i128 = self.x as i128;
        let vy: i128 = self.y as i128;
        let dx: i128 = d.x() as i128;
        let dy: i128 = d.y() as i128;
        assert(-0x8000_0000_0000_0000 * 1_000_000 <= vx * dx <= 0x8000_0000_0000_0000 * 1_000_000)
            by (nonlinear_arith)
            requires
                -0x8000_0000_0000_0000 <= vx <= 0x7fff_ffff_ffff_ffff,
                -1_000_000 <= dx <= 1_000_000,
        ;
        assert(-0x8000_0000_0000_0000 * 1_000_000 <= vy * dy <= 0x8000_0000_0000_0000 * 1_000_000)
            by (nonlinear_arith)
            requires
                -0x8000_0000_0000_0000 <= vy <= 0x7fff_ffff_ffff_ffff,
                -1_000_000 <= dy <= 1_000_000,
        ;
        vx * dx + vy * dy
    }

    /// The componentwise sum, each component saturating at the bounds of `i64`.
    pub open spec fn spec_plus(self, other: Vec2) -> Vec2 {
        Vec2 { x: saturate(self.x + other.x) as i64, y: saturate(self.y + other.y) as i64 }
    }

    /// The componentwise sum, each component saturating at the bounds of `i64`.
    pub fn plus(&self, other: &Vec2) -> (v: Vec2)
        ensures
            v == self.spec_plus(*other),
    {
        Vec2 {
            x: saturating(self.x as i128 + other.x as i128),
            y: saturating(self.y as i128 + other.y as i128),
        }
    }

    /// The componentwise difference, each component saturating at the bounds of `i64`.
    pub open spec fn spec_minus(self, other: Vec2) -> Vec2 {
        Vec2 { x: saturate(self.x - other.x) as i64, y: saturate(self.y - other.y) as i64 }
    }

    /// The componentwise difference, each component saturating at the bounds of `i64`.
    pub fn minus(&self, other: &Vec2) -> (v: Vec2)
        ensures
            v == self.spec_minus(*other),
    {
        Vec2 {
            x: saturating(self.x as i128 - other.x as i128),
            y: saturating(self.y as i128 - other.y as i128),
        }
    }

    /// The direction of `self`: each component times `SCALE`, divided by the
    /// rounded-down length and rounded toward zero; zero where that length is zero.
    pub open spec fn spec_normalize_or_zero(self) -> (int, int) {
        let len = sqrt_floor(self.spec_length_squared() as nat) as int;
        if len == 0 {
            (0int, 0int)
        } else {
            (
                div_toward_zero(self.x * SCALE as int, len),
                div_toward_zero(self.y * SCALE as int, len),
            )
        }
    }

    /// The direction of `self`, or zero for a vector shorter than one unit.
    pub fn normalize_or_zero(&self) -> (d: Dir2)
        ensures
            d@ == self.spec_normalize_or_zero(),
            d.wf(),
    {
        let len: u64 = isqrt(self.length_squared());
        if len == 0 {
            return Dir2::zero();
        }
        let cx: i128 = unit_component(self.x, self.y, len);
        let cy: i128 = unit_component(self.y, self.x, len);
        Dir2::new(cx as i64, cy as i64)
    }
}

/// `a * SCALE / len`, where `len` is the rounded-down length of `(a, b)`.
fn unit_component(a: i64, b: i64, len: u64) -> (r: i128)
    requires
        len > 0,
        is_sqrt_floor((a * a + b * b) as nat, len as nat),
    ensures
        r as int == div_toward_zero(a * SCALE as int, len as int),
        -SCALE <= r <= SCALE,
{
    let n: i128 = a as i128 * 1_000_000;
    let l: i128 = len as i128;
    proof {
        let m: int = if a >= 0 { a as int } else { -(a as int) };
        assert(m <= len) by {
            if m > len {
                lemma_square_monotonic((len + 1) as nat, m as nat);
                assert(m * m == a * a) by (nonlinear_arith)
                    requires
                        m == a || m == -a,
                ;
                assert(b * b >= 0) by (nonlinear_arith);
            }
        }
        let q: int = (m * 1_000_000) / (len as int);
        assert(0 <= q <= 1_000_000) by (nonlinear_arith)
            requires
                0 <= m <= len,
                len > 0,
                q == (m * 1_000_000) / (len as int),
        ;
        assert(n as int == a * SCALE as int);
        if a >= 0 {
            assert(div_toward_zero(n as int, l as int) == q);
        } else {
            assert(div_toward_zero(n as int, l as int) == -q);
        }
    }
    n / l
}

} // verus!
