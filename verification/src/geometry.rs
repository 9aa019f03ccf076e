//! Points in space and the integer arithmetic on them.

use vstd::prelude::*;

verus! {

/// The fixed-point representation of 1: fractions are held in thousandths.
pub const UNIT: u32 = 1000;

/// The direction taken where two points coincide and none can be computed.
pub open spec fn fallback_axis() -> Vec3 {
    Vec3 { x: 0, y: 1000, z: 0 }
}

/// The displacement that changes nothing.
pub open spec fn zero_vec() -> Vec3 {
    Vec3 { x: 0, y: 0, z: 0 }
}

/// A point, or a displacement, in three-dimensional space.
#[derive(Clone, Copy, Debug, PartialEq, Eq, Structural)]
pub struct Vec3 {
    pub x: i32,
    pub y: i32,
    pub z: i32,
}

/// The square of a number.
pub open spec fn square(v: int) -> int {
    v * v
}

/// The squared Euclidean distance between two points.
pub open spec fn dist_sq_spec(a: Vec3, b: Vec3) -> int {
    square(a.x - b.x) + square(a.y - b.y) + square(a.z - b.z)
}

/// `r` is the integer square root of `n`: the largest whole number whose
/// square does not exceed `n`.
pub open spec fn is_sqrt_floor(n: int, r: int) -> bool {
    0 <= r && r * r <= n && n < (r + 1) * (r + 1)
}

/// The nearest coordinate to `v` that a point can hold.
pub open spec fn clamp_coord_spec(v: int) -> int {
    if v < i32::MIN {
        i32::MIN as int
    } else if v > i32::MAX {
        i32::MAX as int
    } else {
        v
    }
}

/// `v / d` rounded toward zero, for a positive divisor.
pub open spec fn div_toward_zero(v: int, d: int) -> int {
    if v >= 0 {
        v / d
    } else {
        -((-v) / d)
    }
}

/// Squares a difference of two coordinates.
fn square_diff(a: i32, b: i32) -> (r: u128)
    ensures
        r == square(a - b),
        r <= 0xffff_ffff * 0xffff_ffff,
{
    let d: i64 = a as i64 - b as i64;
    let m: u128 = if d >= 0 { d as u128 } else { (-d) as u128 };
    assert(m * m == (a - b) * (a - b)) by (nonlinear_arith)
        requires
            m == a - b || m == -(a - b),
    ;
    assert(m * m <= 0xffff_ffff * 0xffff_ffff) by (nonlinear_arith)
        requires
            0 <= m <= 0xffff_ffff,
    ;
    m * m
}

/// The squared Euclidean distance between `a` and `b`.
pub fn dist_sq(a: Vec3, b: Vec3) -> (r: u128)
    ensures
        r == dist_sq_spec(a, b),
        r <= 3 * (0xffff_ffff * 0xffff_ffff),
{
    let dx: u128 = square_diff(a.x, b.x);
    let dy: u128 = square_diff(a.y, b.y);
    let dz: u128 = square_diff(a.z, b.z);
    dx + dy + dz
}

/// The integer square root of `n`.
pub fn isqrt(n: u128) -> (r: u64)
    ensures
        is_sqrt_floor(n as int, r as int),
{
    let mut lo: u128 = 0;
    let mut hi: u128 = 0x1_0000_0000_0000_0000;
    assert(n < hi * hi) by (nonlinear_arith)
        requires
            hi == 0x1_0000_0000_0000_0000,
            n <= u128::MAX,
    ;
    while hi - lo > 1
        invariant
            lo < hi <= 0x1_0000_0000_0000_0000,
            lo * lo <= n < hi * hi,
        decreases hi - lo,
    {
        let mid: u128 = lo + (hi - lo) / 2;
        assert(mid * mid <= u128::MAX) by (nonlinear_arith)
            requires
                0 <= mid <= 0xffff_ffff_ffff_ffff,
        ;
        if mid * mid <= n {
            lo = mid;
        } else {
            hi = mid;
        }
    }
    lo as u64
}

/// Divides by a positive number, rounding toward zero.
pub fn scale_down(v: i128, d: u128) -> (r: i128)
    requires
        d > 0,
    ensures
        r == div_toward_zero(v as int, d as int),
{
    if v >= 0 {
        let m: u128 = v as u128;
        (m / d) as i128
    } else if v == i128::MIN {
        let m: u128 = 0x8000_0000_0000_0000_0000_0000_0000_0000;
        let q: u128 = m / d;
        assert(q <= m) by (nonlinear_arith)
            requires
                q == m / d,
                d > 0,
        ;
        if q == m {
            i128::MIN
        } else {
            -(q as i128)
        }
    } else {
        let m: u128 = (-v) as u128;
        let q: u128 = m / d;
        assert(q <= m) by (nonlinear_arith)
            requires
                q == m / d,
                d > 0,
        ;
        -(q as i128)
    }
}

/// Brings a wide value into the range of a coordinate.
pub fn clamp_coord(v: i128) -> (r: i32)
    ensures
        r == clamp_coord_spec(v as int),
{
    if v < i32::MIN as i128 {
        i32::MIN
    } else if v > i32::MAX as i128 {
        i32::MAX
    } else {
        v as i32
    }
}

} // verus!
