//! Headings and velocity corrections: where the passes tell an agent to
//! steer, and the pushes that cohesion and avoidance hand out.
//!
//! A heading is a vector of the length of one unit. A push is a change of
//! velocity in fixed-point steps per second; it is computed from the
//! snapshot alone and added to the velocity once the pass is over.
//! Divisions round toward zero, and a component that a 32-bit integer cannot
//! hold is capped at the bound it passes.

use crate::vector::{Vec3i, UNIT};
use vstd::prelude::*;

verus! {

/// `r` is the square root of `n`, rounded down.
pub open spec fn is_floor_sqrt(n: int, r: int) -> bool {
    0 <= r && r * r <= n && n < (r + 1) * (r + 1)
}

/// The square root of `n`, rounded down.
pub open spec fn floor_sqrt(n: int) -> int {
    choose|r: int| is_floor_sqrt(n, r)
}

/// `a / b`, rounded toward zero, for a positive `b`.
pub open spec fn toward_zero(a: int, b: int) -> int {
    if a >= 0 {
        a / b
    } else {
        -((-a) / b)
    }
}

/// `a`, capped at the bounds of a 32-bit signed integer.
pub open spec fn capped(a: int) -> i32 {
    if a > i32::MAX {
        i32::MAX
    } else if a < i32::MIN {
        i32::MIN
    } else {
        a as i32
    }
}

/// The speed gained in `dt_ms` milliseconds at an acceleration of `rate`
/// steps per second per second, rounded down.
pub open spec fn gain(rate: u32, dt_ms: u32) -> int {
    rate * dt_ms / 1000
}

/// Lengths are measured in parts of a step, this many to the step, so that
/// short displacements keep their direction.
pub const FINE: u32 = 0x1_0000;

/// The length of a displacement in [`FINE`] parts of a step, rounded down,
/// from the square `n` of its length in steps.
pub open spec fn fine_length(n: int) -> int {
    floor_sqrt(n * (FINE * FINE))
}

/// The share of the gain `g` that falls to the component `d` of a
/// displacement of the squared length `n`: the component, times the gain,
/// over the length.
pub open spec fn share(d: int, g: int, n: int) -> i32 {
    capped(toward_zero(d * g * FINE, fine_length(n)))
}

/// A push of the size `gain(rate, dt_ms)` along the line from `from` to
/// `to`: each component of the displacement, times the gain, over the
/// length of the displacement. Between two equal points there is no line
/// and no push.
pub open spec fn pull(from: Vec3i, to: Vec3i, rate: u32, dt_ms: u32) -> Vec3i {
    if from.dist_sq(to) == 0 {
        Vec3i { x: 0, y: 0, z: 0 }
    } else {
        Vec3i {
            x: share(to.x - from.x, gain(rate, dt_ms), from.dist_sq(to)),
            y: share(to.y - from.y, gain(rate, dt_ms), from.dist_sq(to)),
            z: share(to.z - from.z, gain(rate, dt_ms), from.dist_sq(to)),
        }
    }
}

/// The heading from `from` to `to`: the displacement between the two, scaled
/// to the length of one unit. Between two equal points there is no line,
/// and the heading is straight up.
pub open spec fn direction(from: Vec3i, to: Vec3i) -> Vec3i {
    if from.dist_sq(to) == 0 {
        Vec3i { x: 0, y: UNIT as i32, z: 0 }
    } else {
        pull(from, to, UNIT, 1000)
    }
}

/// The displacement of the length `length` along `heading`, a vector of the
/// length of one unit.
pub open spec fn stretched(heading: Vec3i, length: u32) -> Vec3i {
    Vec3i {
        x: capped(toward_zero(heading.x * length, UNIT as int)),
        y: capped(toward_zero(heading.y * length, UNIT as int)),
        z: capped(toward_zero(heading.z * length, UNIT as int)),
    }
}

/// The scalar product of `v` with the displacement from `from` to `to`.
pub open spec fn along(v: Vec3i, from: Vec3i, to: Vec3i) -> int {
    v.x * (to.x - from.x) + v.y * (to.y - from.y) + v.z * (to.z - from.z)
}

/// The push that stops `v` from closing in on `to`: where `v` has a part
/// toward `to`, that part, reversed, so that the push points away from `to`
/// along the line between the two points. A velocity that does not close in
/// gets no push, and between two equal points there is no line and no push.
pub open spec fn damp(v: Vec3i, from: Vec3i, to: Vec3i) -> Vec3i {
    if from.dist_sq(to) == 0 || along(v, from, to) <= 0 {
        Vec3i { x: 0, y: 0, z: 0 }
    } else {
        Vec3i {
            x: capped(-toward_zero(along(v, from, to) * (to.x - from.x), from.dist_sq(to))),
            y: capped(-toward_zero(along(v, from, to) * (to.y - from.y), from.dist_sq(to))),
            z: capped(-toward_zero(along(v, from, to) * (to.z - from.z), from.dist_sq(to))),
        }
    }
}

/// The velocity `v` after the push `p`, component by component, capped.
pub open spec fn pushed(v: Vec3i, p: Vec3i) -> Vec3i {
    Vec3i { x: capped(v.x + p.x), y: capped(v.y + p.y), z: capped(v.z + p.z) }
}

/// Squares grow with their roots.
pub proof fn lemma_square_monotone(a: int, b: int)
    requires
        0 <= a <= b,
    ensures
        a * a <= b * b,
{
    assert(a * a <= b * b) by (nonlinear_arith)
        requires
            0 <= a <= b,
    ;
}

/// A number has one square root rounded down, so [`floor_sqrt`] is it.
pub proof fn lemma_floor_sqrt_unique(n: int, r: int)
    requires
        is_floor_sqrt(n, r),
    ensures
        floor_sqrt(n) == r,
{
    let s = floor_sqrt(n);
    assert(is_floor_sqrt(n, s));
    if s < r {
        lemma_square_monotone(s + 1, r);
    } else if r < s {
        lemma_square_monotone(r + 1, s);
    }
}

/// Every natural number has a square root rounded down.
pub proof fn lemma_floor_sqrt_exists(n: nat)
    ensures
        is_floor_sqrt(n as int, floor_sqrt(n as int)),
    decreases n,
{
    if n == 0 {
        assert(is_floor_sqrt(0, 0));
    } else {
        lemma_floor_sqrt_exists((n - 1) as nat);
        let r = floor_sqrt(n - 1);
        if n < (r + 1) * (r + 1) {
            assert(is_floor_sqrt(n as int, r));
        } else {
            assert((r + 2) * (r + 2) == (r + 1) * (r + 1) + 2 * r + 3) by (nonlinear_arith);
            assert(is_floor_sqrt(n as int, r + 1));
        }
    }
}

/// No component of a pull is larger than the gain, and none points away
/// from the goal.
pub proof fn lemma_pull_bounded(from: Vec3i, to: Vec3i, rate: u32, dt_ms: u32)
    ensures
        -gain(rate, dt_ms) <= pull(from, to, rate, dt_ms).x <= gain(rate, dt_ms),
        -gain(rate, dt_ms) <= pull(from, to, rate, dt_ms).y <= gain(rate, dt_ms),
        -gain(rate, dt_ms) <= pull(from, to, rate, dt_ms).z <= gain(rate, dt_ms),
        to.x >= from.x ==> pull(from, to, rate, dt_ms).x >= 0,
        to.x <= from.x ==> pull(from, to, rate, dt_ms).x <= 0,
        to.y >= from.y ==> pull(from, to, rate, dt_ms).y >= 0,
        to.y <= from.y ==> pull(from, to, rate, dt_ms).y <= 0,
        to.z >= from.z ==> pull(from, to, rate, dt_ms).z >= 0,
        to.z <= from.z ==> pull(from, to, rate, dt_ms).z <= 0,
{
    let n = from.dist_sq(to);
    let g = gain(rate, dt_ms);
    let dx = to.x - from.x;
    let dy = to.y - from.y;
    let dz = to.z - from.z;
    assert(dx * dx >= 0 && dy * dy >= 0 && dz * dz >= 0) by (nonlinear_arith);
    assert(n == dx * dx + dy * dy + dz * dz) by (nonlinear_arith)
        requires
            n == (from.x - to.x) * (from.x - to.x) + (from.y - to.y) * (from.y - to.y) + (from.z
                - to.z) * (from.z - to.z),
            dx == to.x - from.x,
            dy == to.y - from.y,
            dz == to.z - from.z,
    ;
    assert(g >= 0) by (nonlinear_arith)
        requires
            g == rate * dt_ms / 1000,
            rate >= 0,
            dt_ms >= 0,
    ;
    if n != 0 {
        lemma_share_bounded(dx, g, n);
        lemma_share_bounded(dy, g, n);
        lemma_share_bounded(dz, g, n);
    }
}

/// The share of a component is at most the gain, and keeps the sign of the
/// component.
proof fn lemma_share_bounded(d: int, g: int, n: int)
    requires
        d * d <= n,
        n > 0,
        g >= 0,
    ensures
        -g <= share(d, g, n) <= g,
        d >= 0 ==> share(d, g, n) >= 0,
        d <= 0 ==> share(d, g, n) <= 0,
{
    let f = FINE as int;
    let wide = n * (f * f);
    assert(wide >= f * f) by (nonlinear_arith)
        requires
            n >= 1,
            wide == n * (f * f),
            f == 0x1_0000,
    ;
    lemma_floor_sqrt_exists(wide as nat);
    let len = fine_length(n);
    assert(len > 0) by {
        if len == 0 {
            assert(wide < (0 + 1) * (0 + 1));
        }
    }
    let m = if d >= 0 {
        d
    } else {
        -d
    };
    // the component, in fine parts, is no longer than the displacement
    assert((m * f) * (m * f) <= wide) by (nonlinear_arith)
        requires
            m == d || m == -d,
            d * d <= n,
            wide == n * (f * f),
            f == 0x1_0000,
    ;
    assert(m * f >= 0) by (nonlinear_arith)
        requires
            m >= 0,
            f == 0x1_0000,
    ;
    assert(m * f <= len) by {
        if m * f > len {
            lemma_square_monotone(len + 1, m * f);
        }
    }
    assert(0 <= (m * f * g) / len <= g) by (nonlinear_arith)
        requires
            0 <= m * f <= len,
            len > 0,
            g >= 0,
    ;
    assert(0int / len == 0) by (nonlinear_arith)
        requires
            len > 0,
    ;
    assert(d * g * f == if d >= 0 {
        m * f * g
    } else {
        -(m * f * g)
    }) by (nonlinear_arith)
        requires
            m == if d >= 0 {
                d
            } else {
                -d
            },
    ;
    assert(m * f * g >= 0) by (nonlinear_arith)
        requires
            m * f >= 0,
            g >= 0,
    ;
}

/// The quotient of a product by a positive number, rounded toward zero, has
/// the sign of the product of the signs, or is zero.
proof fn lemma_quotient_sign(a: int, d: int, n: int)
    requires
        a > 0,
        n > 0,
    ensures
        d >= 0 ==> toward_zero(a * d, n) >= 0,
        d <= 0 ==> toward_zero(a * d, n) <= 0,
        d >= 0 ==> capped(-toward_zero(a * d, n)) <= 0,
        d <= 0 ==> capped(-toward_zero(a * d, n)) >= 0,
{
    assert(0int / n == 0) by (nonlinear_arith)
        requires
            n > 0,
    ;
    if d >= 0 {
        assert(a * d >= 0 && (a * d) / n >= 0) by (nonlinear_arith)
            requires
                a > 0,
                d >= 0,
                n > 0,
        ;
    } else {
        assert(a * d < 0 && (-(a * d)) / n >= 0) by (nonlinear_arith)
            requires
                a > 0,
                d < 0,
                n > 0,
        ;
    }
}

/// A damping push is repulsive: no component of it points at `to`, so it
/// has no part toward `to`.
pub proof fn lemma_damp_repels(v: Vec3i, from: Vec3i, to: Vec3i)
    ensures
        to.x >= from.x ==> damp(v, from, to).x <= 0,
        to.x <= from.x ==> damp(v, from, to).x >= 0,
        to.y >= from.y ==> damp(v, from, to).y <= 0,
        to.y <= from.y ==> damp(v, from, to).y >= 0,
        to.z >= from.z ==> damp(v, from, to).z <= 0,
        to.z <= from.z ==> damp(v, from, to).z >= 0,
        along(damp(v, from, to), from, to) <= 0,
{
    let n = from.dist_sq(to);
    let a = along(v, from, to);
    let p = damp(v, from, to);
    let dx = to.x - from.x;
    let dy = to.y - from.y;
    let dz = to.z - from.z;
    if n != 0 && a > 0 {
        assert(n > 0) by (nonlinear_arith)
            requires
                n == (from.x - to.x) * (from.x - to.x) + (from.y - to.y) * (from.y - to.y) + (
                from.z - to.z) * (from.z - to.z),
                n != 0,
        ;
        lemma_quotient_sign(a, dx, n);
        lemma_quotient_sign(a, dy, n);
        lemma_quotient_sign(a, dz, n);
    }
    assert(p.x * dx <= 0 && p.y * dy <= 0 && p.z * dz <= 0) by (nonlinear_arith)
        requires
            dx >= 0 ==> p.x <= 0,
            dx <= 0 ==> p.x >= 0,
            dy >= 0 ==> p.y <= 0,
            dy <= 0 ==> p.y >= 0,
            dz >= 0 ==> p.z <= 0,
            dz <= 0 ==> p.z >= 0,
    ;
}

/// Computes [`floor_sqrt`].
pub fn isqrt(n: u128) -> (r: u64)
    ensures
        r == floor_sqrt(n as int),
        is_floor_sqrt(n as int, r as int),
{
    let mut lo: u128 = 0;
    let mut hi: u128 = 0x1_0000_0000_0000_0000;
    assert(0x1_0000_0000_0000_0000int * 0x1_0000_0000_0000_0000int
        == 0x1_0000_0000_0000_0000_0000_0000_0000_0000int) by (nonlinear_arith);
    while hi - lo > 1
        invariant
            lo < hi <= 0x1_0000_0000_0000_0000,
            lo * lo <= n,
            n < hi * hi,
        decreases hi - lo,
    {
        let mid: u128 = lo + (hi - lo) / 2;
        assert(mid * mid <= 0xFFFF_FFFF_FFFF_FFFF * 0xFFFF_FFFF_FFFF_FFFF) by (nonlinear_arith)
            requires
                mid <= 0xFFFF_FFFF_FFFF_FFFF,
        ;
        if mid * mid <= n {
            lo = mid;
        } else {
            hi = mid;
        }
    }
    proof {
        assert(hi == lo + 1);
        lemma_floor_sqrt_unique(n as int, lo as int);
    }
    lo as u64
}

/// Computes [`toward_zero`] and caps the result: [`capped`].
fn scaled(a: i128, b: u128) -> (q: i32)
    requires
        b > 0,
        -0x7FFF_FFFF_FFFF_FFFF_FFFF_FFFF_FFFF_FFFF <= a,
    ensures
        q == capped(toward_zero(a as int, b as int)),
{
    if a >= 0 {
        let whole: u128 = (a as u128) / b;
        if whole > i32::MAX as u128 {
            i32::MAX
        } else {
            whole as i32
        }
    } else {
        let whole: u128 = ((-a) as u128) / b;
        if whole > 0x8000_0000 {
            i32::MIN
        } else {
            (-(whole as i64)) as i32
        }
    }
}

/// Caps a sum of two components: [`capped`].
fn capped_sum(a: i32, b: i32) -> (c: i32)
    ensures
        c == capped(a + b),
{
    let sum: i64 = a as i64 + b as i64;
    if sum > i32::MAX as i64 {
        i32::MAX
    } else if sum < i32::MIN as i64 {
        i32::MIN
    } else {
        sum as i32
    }
}

/// Computes [`pull`].
pub fn pull_toward(from: &Vec3i, to: &Vec3i, rate: u32, dt_ms: u32) -> (p: Vec3i)
    ensures
        p == pull(*from, *to, rate, dt_ms),
{
    let dist_sq = from.distance_sq(to);
    if dist_sq == 0 {
        return Vec3i::zero();
    }
    let fine: u128 = FINE as u128;
    assert(dist_sq * (fine * fine) <= 0x3_0000_0000_0000_0000 * 0x1_0000_0000 && dist_sq * (fine
        * fine) >= 1 && fine * fine == 0x1_0000_0000) by (nonlinear_arith)
        requires
            1 <= dist_sq <= 0x3_0000_0000_0000_0000,
            fine == 0x1_0000,
    ;
    let len: u128 = isqrt(dist_sq * (fine * fine)) as u128;
    assert(len == fine_length(from.dist_sq(*to)));
    assert(len > 0) by {
        if len == 0 {
            assert(dist_sq * (fine * fine) < (0 + 1) * (0 + 1));
        }
    }
    let wide_rate: u64 = rate as u64;
    let wide_dt: u64 = dt_ms as u64;
    assert(wide_rate * wide_dt <= 0xFFFF_FFFF * 0xFFFF_FFFF) by (nonlinear_arith)
        requires
            wide_rate <= 0xFFFF_FFFF,
            wide_dt <= 0xFFFF_FFFF,
    ;
    let g: i128 = (wide_rate * wide_dt / 1000) as i128;
    assert(g == gain(rate, dt_ms));
    let dx: i128 = to.x as i128 - from.x as i128;
    let dy: i128 = to.y as i128 - from.y as i128;
    let dz: i128 = to.z as i128 - from.z as i128;
    Vec3i { x: fine_share(dx, g, len), y: fine_share(dy, g, len), z: fine_share(dz, g, len) }
}

/// Computes a component of a pull: [`share`], for the length `len` in fine
/// parts.
fn fine_share(d: i128, g: i128, len: u128) -> (q: i32)
    requires
        -0x1_0000_0000 <= d <= 0x1_0000_0000,
        0 <= g <= 0x1_0000_0000_0000_0000,
        len > 0,
    ensures
        q == capped(toward_zero(d * g * FINE, len as int)),
{
    assert(-0x1_0000_0000_0000_0000_0000_0000 <= d * g <= 0x1_0000_0000_0000_0000_0000_0000)
        by (nonlinear_arith)
        requires
            -0x1_0000_0000 <= d <= 0x1_0000_0000,
            0 <= g <= 0x1_0000_0000_0000_0000,
    ;
    let part: i128 = d * g;
    scaled(part * (FINE as i128), len)
}

/// Computes [`damp`].
pub fn damp_along(v: &Vec3i, from: &Vec3i, to: &Vec3i) -> (p: Vec3i)
    ensures
        p == damp(*v, *from, *to),
{
    let dist_sq = from.distance_sq(to);
    if dist_sq == 0 {
        return Vec3i::zero();
    }
    let dx: i128 = to.x as i128 - from.x as i128;
    let dy: i128 = to.y as i128 - from.y as i128;
    let dz: i128 = to.z as i128 - from.z as i128;
    let vx: i128 = v.x as i128;
    let vy: i128 = v.y as i128;
    let vz: i128 = v.z as i128;
    assert(-0x8000_0000_0000_0000 <= vx * dx <= 0x8000_0000_0000_0000 && -0x8000_0000_0000_0000
        <= vy * dy <= 0x8000_0000_0000_0000 && -0x8000_0000_0000_0000 <= vz * dz
        <= 0x8000_0000_0000_0000) by (nonlinear_arith)
        requires
            -0x8000_0000 <= vx <= 0x8000_0000,
            -0x8000_0000 <= vy <= 0x8000_0000,
            -0x8000_0000 <= vz <= 0x8000_0000,
            -0x1_0000_0000 <= dx <= 0x1_0000_0000,
            -0x1_0000_0000 <= dy <= 0x1_0000_0000,
            -0x1_0000_0000 <= dz <= 0x1_0000_0000,
    ;
    let a: i128 = vx * dx + vy * dy + vz * dz;
    assert(a == along(*v, *from, *to));
    if a <= 0 {
        return Vec3i::zero();
    }
    assert(-0x2_0000_0000_0000_0000_0000_0000 <= a * dx <= 0x2_0000_0000_0000_0000_0000_0000
        && -0x2_0000_0000_0000_0000_0000_0000 <= a * dy <= 0x2_0000_0000_0000_0000_0000_0000
        && -0x2_0000_0000_0000_0000_0000_0000 <= a * dz <= 0x2_0000_0000_0000_0000_0000_0000)
        by (nonlinear_arith)
        requires
            -0x2_0000_0000_0000_0000 <= a <= 0x2_0000_0000_0000_0000,
            -0x1_0000_0000 <= dx <= 0x1_0000_0000,
            -0x1_0000_0000 <= dy <= 0x1_0000_0000,
            -0x1_0000_0000 <= dz <= 0x1_0000_0000,
    ;
    Vec3i {
        x: scaled(-(a * dx), dist_sq),
        y: scaled(-(a * dy), dist_sq),
        z: scaled(-(a * dz), dist_sq),
    }
}

/// Computes [`direction`].
pub fn direction_to(from: &Vec3i, to: &Vec3i) -> (d: Vec3i)
    ensures
        d == direction(*from, *to),
{
    if from.distance_sq(to) == 0 {
        Vec3i { x: 0, y: UNIT as i32, z: 0 }
    } else {
        pull_toward(from, to, UNIT, 1000)
    }
}

/// Computes [`stretched`].
pub fn stretch(heading: &Vec3i, length: u32) -> (d: Vec3i)
    ensures
        d == stretched(*heading, length),
{
    let l: i128 = length as i128;
    let hx: i128 = heading.x as i128;
    let hy: i128 = heading.y as i128;
    let hz: i128 = heading.z as i128;
    assert(-0x8000_0000_0000_0000 <= hx * l <= 0x8000_0000_0000_0000 && -0x8000_0000_0000_0000
        <= hy * l <= 0x8000_0000_0000_0000 && -0x8000_0000_0000_0000 <= hz * l
        <= 0x8000_0000_0000_0000) by (nonlinear_arith)
        requires
            0 <= l <= 0x1_0000_0000,
            -0x8000_0000 <= hx <= 0x8000_0000,
            -0x8000_0000 <= hy <= 0x8000_0000,
            -0x8000_0000 <= hz <= 0x8000_0000,
    ;
    Vec3i {
        x: scaled(hx * l, UNIT as u128),
        y: scaled(hy * l, UNIT as u128),
        z: scaled(hz * l, UNIT as u128),
    }
}

/// Computes [`pushed`].
pub fn push(v: &Vec3i, p: &Vec3i) -> (w: Vec3i)
    ensures
        w == pushed(*v, *p),
{
    Vec3i { x: capped_sum(v.x, p.x), y: capped_sum(v.y, p.y), z: capped_sum(v.z, p.z) }
}

} // verus!
