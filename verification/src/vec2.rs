//! Fixed-point planar vectors and the integer arithmetic the simulation
//! rests on: truncating division (the fixed-point analogue of hardware
//! float division), integer square roots, and magnitude clamping.

use vstd::prelude::*;
use crate::COORD_BOUND;

verus! {

pub open spec fn abs(a: int) -> int {
    if a >= 0 {
        a
    } else {
        -a
    }
}

/// A planar vector with fixed-point components (milli-units).
#[derive(Clone, Copy, Debug, PartialEq, Eq, Structural)]
pub struct Vec2I {
    pub x: i64,
    pub y: i64,
}

/// Division truncating toward zero, the rounding the executable code uses.
pub open spec fn tdiv(a: int, b: int) -> int
    recommends
        b >= 1,
{
    if a >= 0 {
        a / b
    } else {
        -((-a) / b)
    }
}

/// Floor square root: the unique `r >= 0` with `r * r <= n < (r + 1) * (r + 1)`.
pub open spec fn sqrt_floor(n: int) -> int
    recommends
        n >= 0,
{
    choose|r: int| 0 <= r && #[trigger] (r * r) <= n && n < (r + 1) * (r + 1)
}

/// Ceiling square root: smallest `r >= 0` with `n <= r * r`.
pub open spec fn sqrt_ceil(n: int) -> int
    recommends
        n >= 0,
{
    if sqrt_floor(n) * sqrt_floor(n) == n {
        sqrt_floor(n)
    } else {
        sqrt_floor(n) + 1
    }
}

pub open spec fn mag_sq(v: Vec2I) -> int {
    v.x * v.x + v.y * v.y
}

/// All components within the crate-wide arithmetic bound.
pub open spec fn in_bounds(v: Vec2I) -> bool {
    -COORD_BOUND <= v.x <= COORD_BOUND && -COORD_BOUND <= v.y <= COORD_BOUND
}

/// World positions live within a hundred thousand units of the origin —
/// far beyond any playable area, yet small enough that differences and
/// squared distances never overflow.
pub open spec fn in_world(v: Vec2I) -> bool {
    -100_000_000 <= v.x <= 100_000_000 && -100_000_000 <= v.y <= 100_000_000
}

impl Vec2I {
    pub open spec fn spec_add(self, o: Vec2I) -> Vec2I {
        Vec2I { x: (self.x + o.x) as i64, y: (self.y + o.y) as i64 }
    }

    pub open spec fn spec_sub(self, o: Vec2I) -> Vec2I {
        Vec2I { x: (self.x - o.x) as i64, y: (self.y - o.y) as i64 }
    }

    pub open spec fn spec_dot(self, o: Vec2I) -> int {
        self.x * o.x + self.y * o.y
    }

    pub fn zero() -> (r: Vec2I)
        ensures
            r == (Vec2I { x: 0, y: 0 }),
    {
        Vec2I { x: 0, y: 0 }
    }

    pub fn add(self, o: Vec2I) -> (r: Vec2I)
        requires
            -0x4000_0000_0000_0000 <= self.x + o.x <= 0x4000_0000_0000_0000,
            -0x4000_0000_0000_0000 <= self.y + o.y <= 0x4000_0000_0000_0000,
        ensures
            r == self.spec_add(o),
    {
        Vec2I { x: self.x + o.x, y: self.y + o.y }
    }

    pub fn sub(self, o: Vec2I) -> (r: Vec2I)
        requires
            -0x4000_0000_0000_0000 <= self.x - o.x <= 0x4000_0000_0000_0000,
            -0x4000_0000_0000_0000 <= self.y - o.y <= 0x4000_0000_0000_0000,
        ensures
            r == self.spec_sub(o),
    {
        Vec2I { x: self.x - o.x, y: self.y - o.y }
    }

    pub fn dot(self, o: Vec2I) -> (r: i64)
        requires
            in_bounds(self),
            in_bounds(o),
        ensures
            r == self.spec_dot(o),
    {
        proof {
            lemma_prod_bound(self.x as int, o.x as int, COORD_BOUND as int);
            lemma_prod_bound(self.y as int, o.y as int, COORD_BOUND as int);
        }
        self.x * o.x + self.y * o.y
    }

    pub fn magnitude_sq(self) -> (r: i64)
        requires
            in_bounds(self),
        ensures
            r == mag_sq(self),
            r >= 0,
    {
        proof {
            lemma_prod_bound(self.x as int, self.x as int, COORD_BOUND as int);
            lemma_prod_bound(self.y as int, self.y as int, COORD_BOUND as int);
            lemma_square_nonneg(self.x as int);
            lemma_square_nonneg(self.y as int);
        }
        self.x * self.x + self.y * self.y
    }
}

/// `|a| <= b` and `|c| <= b` bound the product by `b * b`.
pub proof fn lemma_prod_bound(a: int, c: int, b: int)
    by (nonlinear_arith)
    requires
        -b <= a <= b,
        -b <= c <= b,
        b >= 0,
    ensures
        -(b * b) <= a * c <= b * b,
{
}

/// Independent bounds on two factors bound their product.
pub proof fn lemma_prod_bound2(a: int, c: int, ba: int, bc: int)
    by (nonlinear_arith)
    requires
        -ba <= a <= ba,
        -bc <= c <= bc,
        ba >= 0,
        bc >= 0,
    ensures
        -(ba * bc) <= a * c <= ba * bc,
{
}

pub proof fn lemma_square_nonneg(a: int)
    by (nonlinear_arith)
    ensures
        a * a >= 0,
{
}

pub proof fn lemma_nonzero_square_pos(a: int)
    by (nonlinear_arith)
    ensures
        a != 0 ==> a * a >= 1,
{
}

/// Mutable access to one element of a vector.
pub fn vec_mut<T>(v: &mut Vec<T>, i: usize) -> (e: &mut T)
    requires
        i < old(v).len(),
    ensures
        *e == old(v)@[i as int],
        final(v)@ == old(v)@.update(i as int, *final(e)),
{
    &mut v[i]
}

/// Truncating signed division by a positive divisor.
pub fn div_trunc(a: i64, b: i64) -> (r: i64)
    requires
        b >= 1,
        a > i64::MIN,
    ensures
        r == tdiv(a as int, b as int),
        a >= 0 ==> 0 <= r <= a,
        a < 0 ==> a <= r <= 0,
{
    if a >= 0 {
        a / b
    } else {
        -((-a) / b)
    }
}

/// Division rounding away from zero: the fixed-point rule for scaling a
/// force, so that a live force is never lost to quantization.
pub open spec fn rdiv_away(a: int, b: int) -> int
    recommends
        b >= 1,
{
    if a >= 0 {
        (a + b - 1) / b
    } else {
        -((-a + b - 1) / b)
    }
}

/// Sign, zero and magnitude facts about away-from-zero division.
pub proof fn lemma_rdiv_away_props(a: int, b: int)
    requires
        b >= 1,
    ensures
        abs(rdiv_away(a, b)) == (abs(a) + b - 1) / b,
        rdiv_away(-a, b) == -rdiv_away(a, b),
        a == 0 ==> rdiv_away(a, b) == 0,
        a >= 1 ==> rdiv_away(a, b) >= 1,
        a <= -1 ==> rdiv_away(a, b) <= -1,
        a >= 0 ==> rdiv_away(a, b) >= 0,
        a <= 0 ==> rdiv_away(a, b) <= 0,
{
    vstd::arithmetic::div_mod::lemma_div_pos_is_pos(abs(a) + b - 1, b);
    if a == 0 {
        vstd::arithmetic::div_mod::lemma_basic_div(b - 1, b);
    }
    if abs(a) >= 1 {
        vstd::arithmetic::div_mod::lemma_div_is_ordered(b, abs(a) + b - 1, b);
        vstd::arithmetic::div_mod::lemma_div_by_self(b);
    }
}

/// A numerator within `k` times the divisor rounds away to at most `k`.
pub proof fn lemma_rdiv_away_le(a: int, b: int, k: int)
    requires
        b >= 1,
        k >= 0,
        -(k * b) <= a <= k * b,
    ensures
        -k <= rdiv_away(a, b) <= k,
{
    lemma_rdiv_away_props(a, b);
    assert(abs(a) + b - 1 < b * (k + 1)) by (nonlinear_arith)
        requires
            b >= 1,
            k >= 0,
            abs(a) <= k * b,
            abs(a) == if a >= 0 { a } else { -a },
        ;
    vstd::arithmetic::div_mod::lemma_multiply_divide_lt(abs(a) + b - 1, b, k + 1);
}

/// Exec division rounding away from zero.
pub fn div_away(a: i64, b: i64) -> (r: i64)
    requires
        1 <= b <= 0x1000_0000_0000,
        -0x4000_0000_0000_0000 <= a <= 0x4000_0000_0000_0000,
    ensures
        r == rdiv_away(a as int, b as int),
{
    if a >= 0 {
        (a + b - 1) / b
    } else {
        proof {
            vstd::arithmetic::div_mod::lemma_div_pos_is_pos(-a + b - 1, b as int);
            vstd::arithmetic::div_mod::lemma_div_is_ordered(-a + b - 1, -a + b - 1, b as int);
            vstd::arithmetic::div_mod::lemma_div_nonincreasing(-a + b - 1, b as int);
        }
        -((-a + b - 1) / b)
    }
}

/// The square of a smaller non-negative number is no larger.
pub proof fn lemma_sq_le(a: int, b: int)
    by (nonlinear_arith)
    requires
        0 <= a <= b,
    ensures
        a * a <= b * b,
{
}

/// Floor square root by binary search.
pub fn isqrt(n: i64) -> (r: i64)
    requires
        n >= 0,
    ensures
        0 <= r <= 3_037_000_499,
        r * r <= n,
        n < (r + 1) * (r + 1),
        r == sqrt_floor(n as int),
{
    let mut lo: i64 = 0;
    let mut hi: i64 = 3_037_000_499;
    if n < hi {
        hi = n;
    }
    // invariant: lo * lo <= n < (hi + 1) * (hi + 1)
    proof {
        assert((hi + 1) * (hi + 1) > n) by (nonlinear_arith)
            requires
                hi >= 0,
                hi >= n || hi == 3_037_000_499,
                n <= i64::MAX,
            ;
    }
    while lo < hi
        invariant
            0 <= lo <= hi <= 3_037_000_499,
            lo * lo <= n,
            n < (hi + 1) * (hi + 1),
        decreases hi - lo,
    {
        let mid = lo + (hi - lo + 1) / 2;
        proof {
            assert(mid * mid <= 3_037_000_499 * 3_037_000_499) by (nonlinear_arith)
                requires
                    0 <= mid <= 3_037_000_499,
                ;
        }
        if mid * mid <= n {
            lo = mid;
        } else {
            hi = mid - 1;
        }
    }
    proof {
        lemma_sqrt_floor_unique(n as int, lo as int);
    }
    lo
}

/// Any `r` that brackets `n` between consecutive squares is the floor root.
pub proof fn lemma_sqrt_floor_unique(n: int, r: int)
    requires
        0 <= r,
        r * r <= n,
        n < (r + 1) * (r + 1),
    ensures
        r == sqrt_floor(n),
{
    assert(exists|q: int| 0 <= q && #[trigger] (q * q) <= n && n < (q + 1) * (q + 1)) by {
        assert(0 <= r && r * r <= n && n < (r + 1) * (r + 1));
    }
    let c = sqrt_floor(n);
    assert(0 <= c && c * c <= n && n < (c + 1) * (c + 1));
    if r < c {
        assert(false) by (nonlinear_arith)
            requires
                0 <= r < c,
                c * c <= n,
                n < (r + 1) * (r + 1),
            ;
    }
    if c < r {
        assert(false) by (nonlinear_arith)
            requires
                0 <= c < r,
                r * r <= n,
                n < (c + 1) * (c + 1),
            ;
    }
}

/// Ceiling square root, derived from the floor root.
pub fn isqrt_ceil(n: i64) -> (r: i64)
    requires
        n >= 0,
    ensures
        r >= 0,
        n <= r * r,
        r == sqrt_ceil(n as int),
        n > 0 ==> r >= 1,
        n > 0 ==> (r - 1) * (r - 1) < n,
{
    let f = isqrt(n);
    proof {
        if n > 0 && f == 0 {
            assert(f * f == 0);
            assert(n < (f + 1) * (f + 1));
            assert((0 + 1) * (0 + 1) == 1);
        }
    }
    proof {
        if f >= 1 {
            assert((f - 1) * (f - 1) < f * f) by (nonlinear_arith)
                requires
                    f >= 1,
                ;
        }
    }
    if f * f == n {
        f
    } else {
        proof {
            assert((f + 1) * (f + 1) >= n);
        }
        f + 1
    }
}

/// Squared Euclidean distance between two points.
pub open spec fn dist_sq(a: Vec2I, b: Vec2I) -> int {
    (a.x - b.x) * (a.x - b.x) + (a.y - b.y) * (a.y - b.y)
}

/// Squared distance of two world points; never negative and never
/// overflowing.
pub fn distance_sq(a: Vec2I, b: Vec2I) -> (r: i64)
    requires
        in_world(a),
        in_world(b),
    ensures
        r == dist_sq(a, b),
        r >= 0,
{
    let dx = a.x - b.x;
    let dy = a.y - b.y;
    proof {
        lemma_prod_bound(dx as int, dx as int, 200_000_000);
        lemma_prod_bound(dy as int, dy as int, 200_000_000);
        lemma_square_nonneg(dx as int);
        lemma_square_nonneg(dy as int);
    }
    dx * dx + dy * dy
}

/// Truncating division keeps the absolute value of the quotient equal to the
/// floor quotient of absolute values.
pub proof fn lemma_tdiv_abs(a: int, b: int)
    requires
        b >= 1,
    ensures
        abs(tdiv(a, b)) == abs(a) / b,
        tdiv(-a, b) == -tdiv(a, b),
{
    if a >= 0 {
        vstd::arithmetic::div_mod::lemma_div_pos_is_pos(a, b);
    } else {
        vstd::arithmetic::div_mod::lemma_div_pos_is_pos(-a, b);
    }
}

/// Multiplying a floor quotient back by the divisor stays below the dividend.
pub proof fn lemma_div_mul_le(a: int, b: int)
    requires
        a >= 0,
        b >= 1,
    ensures
        0 <= (a / b) * b <= a,
{
    vstd::arithmetic::div_mod::lemma_fundamental_div_mod(a, b);
    vstd::arithmetic::div_mod::lemma_remainder_lower(a, b);
    vstd::arithmetic::div_mod::lemma_div_pos_is_pos(a, b);
    assert((a / b) * b == b * (a / b)) by (nonlinear_arith);
}

/// The quotient never exceeds the dividend in absolute value.
pub proof fn lemma_tdiv_shrinks(a: int, b: int)
    requires
        b >= 1,
    ensures
        abs(tdiv(a, b)) <= abs(a),
{
    lemma_tdiv_abs(a, b);
    vstd::arithmetic::div_mod::lemma_div_nonincreasing(abs(a), b);
}

/// Multiplying by a non-negative factor keeps or flips nothing of the sign.
pub proof fn lemma_mul_sign(c: int, k: int)
    by (nonlinear_arith)
    requires
        k >= 0,
    ensures
        c >= 0 ==> c * k >= 0,
        c <= 0 ==> c * k <= 0,
        (-c) * k == -(c * k),
{
}

/// The absolute value distributes over a product with a non-negative factor.
pub proof fn lemma_abs_mul(c: int, k: int)
    requires
        k >= 0,
    ensures
        abs(c * k) == abs(c) * k,
{
    lemma_mul_sign(c, k);
}

/// Squaring forgets the sign.
pub proof fn lemma_square_abs(a: int)
    by (nonlinear_arith)
    ensures
        (-a) * (-a) == a * a,
        a >= 0 ==> a * a == a * a,
{
}

/// Core of the magnitude clamp, stated over absolute values: if
/// `arx * l <= ax * m`, `ary * l <= ay * m` and `ax*ax + ay*ay <= l*l`,
/// the scaled vector has magnitude at most `m`.
pub proof fn lemma_clamp_core(ax: int, ay: int, m: int, l: int, arx: int, ary: int)
    by (nonlinear_arith)
    requires
        l >= 1,
        m >= 0,
        ax >= 0,
        ay >= 0,
        arx >= 0,
        ary >= 0,
        ax * ax + ay * ay <= l * l,
        arx * l <= ax * m,
        ary * l <= ay * m,
    ensures
        arx * arx + ary * ary <= m * m,
{
    assert(arx * arx * (l * l) <= ax * ax * (m * m));
    assert(ary * ary * (l * l) <= ay * ay * (m * m));
    assert((arx * arx + ary * ary) * (l * l) <= (ax * ax + ay * ay) * (m * m));
    assert((ax * ax + ay * ay) * (m * m) <= (l * l) * (m * m));
}

/// Each component is bounded in absolute value by the full magnitude's
/// ceiling square root.
pub proof fn lemma_comp_le_sqrt(x: int, l: int)
    by (nonlinear_arith)
    requires
        l >= 0,
        x * x <= l * l,
    ensures
        abs(x) <= l,
{
}

/// Scale a vector by the ratio `num / den`, rounding each component toward
/// zero.  This is the one place the whole crate divides.
pub fn scale_div(v: Vec2I, num: i64, den: i64) -> (r: Vec2I)
    requires
        den >= 1,
        0 <= num <= 0x4000_0000,
        in_bounds(v),
    ensures
        r.x == tdiv(v.x * num, den as int),
        r.y == tdiv(v.y * num, den as int),
        num <= den ==> abs(r.x as int) <= abs(v.x as int) && abs(r.y as int) <= abs(v.y as int),
{
    proof {
        lemma_prod_bound(v.x as int, num as int, COORD_BOUND as int);
        lemma_prod_bound(v.y as int, num as int, COORD_BOUND as int);
        lemma_tdiv_shrinks(v.x * num, den as int);
        lemma_tdiv_shrinks(v.y * num, den as int);
        if num <= den {
            lemma_scale_le(v.x as int, num as int, den as int);
            lemma_scale_le(v.y as int, num as int, den as int);
        }
    }
    let rx = div_trunc(v.x * num, den);
    let ry = div_trunc(v.y * num, den);
    Vec2I { x: rx, y: ry }
}

/// Scaling by a ratio of at most one shrinks each component.
pub proof fn lemma_scale_le(c: int, num: int, den: int)
    requires
        den >= 1,
        0 <= num <= den,
    ensures
        abs(tdiv(c * num, den)) <= abs(c),
{
    lemma_tdiv_abs(c * num, den);
    lemma_abs_mul(c, num);
    vstd::arithmetic::mul::lemma_mul_inequality(num, den, abs(c));
    assert(num * abs(c) == abs(c) * num) by (nonlinear_arith);
    assert(den * abs(c) == abs(c) * den) by (nonlinear_arith);
    vstd::arithmetic::div_mod::lemma_div_is_ordered(abs(c) * num, abs(c) * den, den);
    vstd::arithmetic::div_mod::lemma_div_by_multiple(abs(c), den);
}

/// The ceiling square root is minimal: any `s` whose square reaches `n`
/// is at least it.
pub proof fn lemma_sqrt_ceil_le(n: int, s: int)
    requires
        n >= 0,
        s >= 0,
        s * s >= n,
    ensures
        sqrt_ceil(n) <= s,
{
    lemma_sqrt_floor_exists(n);
    let f = sqrt_floor(n);
    if f * f == n {
        if s < f {
            lemma_sq_le(s, f - 1);
            assert((f - 1) * (f - 1) < f * f) by (nonlinear_arith)
                requires
                    f >= 1,
                ;
            assert(false);
        }
    } else {
        if s < f + 1 {
            lemma_sq_le(s, f);
            assert(false);
        }
    }
}

/// `n` really lies between two consecutive squares.
pub proof fn lemma_sqrt_floor_exists(n: int)
    requires
        n >= 0,
    ensures
        0 <= sqrt_floor(n),
        sqrt_floor(n) * sqrt_floor(n) <= n,
        n < (sqrt_floor(n) + 1) * (sqrt_floor(n) + 1),
{
    // witness: count upward; done constructively with a decreasing helper
    lemma_sqrt_witness(n, 0);
    let c = sqrt_floor(n);
    assert(0 <= c && c * c <= n && n < (c + 1) * (c + 1));
}

/// Helper: from any `r` with `r * r <= n`, some floor root exists.
proof fn lemma_sqrt_witness(n: int, r: int)
    requires
        0 <= r,
        r * r <= n,
    ensures
        exists|q: int| 0 <= q && #[trigger] (q * q) <= n && n < (q + 1) * (q + 1),
    decreases n - r * r,
{
    if n < (r + 1) * (r + 1) {
        assert(0 <= r && r * r <= n && n < (r + 1) * (r + 1));
    } else {
        assert((r + 1) * (r + 1) > r * r) by (nonlinear_arith)
            requires
                r >= 0,
            ;
        lemma_sqrt_witness(n, r + 1);
    }
}

/// A dividend of at least `k` times the divisor yields a quotient of at
/// least `k`.
pub proof fn lemma_div_at_least(a: int, b: int, k: int)
    requires
        b >= 1,
        k >= 0,
        a >= k * b,
    ensures
        a / b >= k,
{
    vstd::arithmetic::div_mod::lemma_div_is_ordered(k * b, a, b);
    vstd::arithmetic::div_mod::lemma_div_by_multiple(k, b);
}

/// A fraction of at most one, expressed in per-mille, stays within
/// `[0, 1000]`.
pub proof fn lemma_frac_per_mille(a: int, b: int)
    requires
        0 <= a <= b,
        b >= 1,
    ensures
        0 <= tdiv(a * 1000, b) <= 1000,
{
    lemma_tdiv_abs(a * 1000, b);
    vstd::arithmetic::mul::lemma_mul_nonnegative(a, 1000);
    vstd::arithmetic::div_mod::lemma_div_pos_is_pos(a * 1000, b);
    assert(a * 1000 <= b * 1000) by (nonlinear_arith)
        requires
            a <= b,
        ;
    vstd::arithmetic::div_mod::lemma_div_is_ordered(a * 1000, b * 1000, b);
    assert(b * 1000 / b == 1000) by {
        vstd::arithmetic::div_mod::lemma_div_multiples_vanish(1000, b);
        assert(b * 1000 == 1000 * b) by (nonlinear_arith);
    }
}

/// The direction of `v` as a milli-scaled unit vector (zero for the zero
/// vector).  Components are bounded by 1000 in absolute value.
pub open spec fn spec_unit_milli(v: Vec2I) -> Vec2I {
    if v.x == 0 && v.y == 0 {
        Vec2I { x: 0, y: 0 }
    } else {
        Vec2I {
            x: tdiv(v.x * 1000, sqrt_ceil(mag_sq(v))) as i64,
            y: tdiv(v.y * 1000, sqrt_ceil(mag_sq(v))) as i64,
        }
    }
}

pub fn unit_milli(v: Vec2I) -> (r: Vec2I)
    requires
        in_bounds(v),
    ensures
        r == spec_unit_milli(v),
        -1000 <= r.x <= 1000,
        -1000 <= r.y <= 1000,
{
    if v.x == 0 && v.y == 0 {
        Vec2I { x: 0, y: 0 }
    } else {
        let m = v.magnitude_sq();
        proof {
            lemma_nonzero_square_pos(v.x as int);
            lemma_nonzero_square_pos(v.y as int);
            lemma_square_nonneg(v.y as int);
            lemma_square_nonneg(v.x as int);
        }
        let l = isqrt_ceil(m);
        proof {
            assert(l >= 1);
            assert(v.x * v.x <= l * l);
            assert(v.y * v.y <= l * l);
            lemma_comp_le_sqrt(v.x as int, l as int);
            lemma_comp_le_sqrt(v.y as int, l as int);
            lemma_unit_comp_bound(v.x as int, l as int);
            lemma_unit_comp_bound(v.y as int, l as int);
            lemma_prod_bound(v.x as int, 1000, COORD_BOUND as int);
            lemma_prod_bound(v.y as int, 1000, COORD_BOUND as int);
        }
        let rx = div_trunc(v.x * 1000, l);
        let ry = div_trunc(v.y * 1000, l);
        Vec2I { x: rx, y: ry }
    }
}

/// A component no larger than the magnitude scales to at most 1000.
pub proof fn lemma_unit_comp_bound(c: int, l: int)
    requires
        l >= 1,
        abs(c) <= l,
    ensures
        abs(tdiv(c * 1000, l)) <= 1000,
{
    lemma_tdiv_abs(c * 1000, l);
    lemma_abs_mul(c, 1000);
    vstd::arithmetic::div_mod::lemma_div_is_ordered(abs(c) * 1000, l * 1000, l);
    assert(l * 1000 / l == 1000) by {
        vstd::arithmetic::div_mod::lemma_div_multiples_vanish(1000, l);
        assert(l * 1000 == 1000 * l) by (nonlinear_arith);
    }
}

/// `v` unchanged while its magnitude is within `m`, otherwise `v` rescaled to
/// magnitude at most `m`.
pub open spec fn spec_clamp_len(v: Vec2I, m: int) -> Vec2I {
    if mag_sq(v) <= m * m {
        v
    } else {
        Vec2I {
            x: tdiv(v.x * m, sqrt_ceil(mag_sq(v))) as i64,
            y: tdiv(v.y * m, sqrt_ceil(mag_sq(v))) as i64,
        }
    }
}

pub fn clamp_len(v: Vec2I, m: i64) -> (r: Vec2I)
    requires
        0 <= m <= 0x4000_0000,
        in_bounds(v),
    ensures
        r == spec_clamp_len(v, m as int),
        mag_sq(r) <= m * m,
        mag_sq(v) <= m * m ==> r == v,
        in_bounds(r),
{
    let msq = v.magnitude_sq();
    proof {
        lemma_prod_bound(m as int, m as int, COORD_BOUND as int);
        lemma_square_nonneg(m as int);
    }
    if msq <= m * m {
        v
    } else {
        let l = isqrt_ceil(msq);
        proof {
            assert(l >= 1);
            lemma_prod_bound(v.x as int, m as int, COORD_BOUND as int);
            lemma_prod_bound(v.y as int, m as int, COORD_BOUND as int);
        }
        let rx = div_trunc(v.x * m, l);
        let ry = div_trunc(v.y * m, l);
        proof {
            lemma_tdiv_abs(v.x * m, l as int);
            lemma_tdiv_abs(v.y * m, l as int);
            lemma_div_mul_le(abs(v.x * m), l as int);
            lemma_abs_mul(v.x as int, m as int);
            lemma_abs_mul(v.y as int, m as int);
            // |rx| * l <= |v.x * m| == |v.x| * m, and likewise for y
            lemma_div_mul_le(abs(v.x * m), l as int);
            lemma_div_mul_le(abs(v.y * m), l as int);
            // components of v are bounded by the magnitude's ceiling root
            lemma_square_nonneg(v.x as int);
            lemma_square_nonneg(v.y as int);
            lemma_square_abs(v.x as int);
            lemma_square_abs(v.y as int);
            lemma_square_abs(rx as int);
            lemma_square_abs(ry as int);
            lemma_clamp_core(
                abs(v.x as int),
                abs(v.y as int),
                m as int,
                l as int,
                abs(rx as int),
                abs(ry as int),
            );
            assert(rx * rx + ry * ry <= m * m);
            lemma_square_nonneg(rx as int);
            lemma_square_nonneg(ry as int);
            lemma_comp_le_sqrt(rx as int, m as int);
            lemma_comp_le_sqrt(ry as int, m as int);
        }
        Vec2I { x: rx, y: ry }
    }
}

} // verus!
