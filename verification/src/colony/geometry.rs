//! Distances between points of the world, in exact integer arithmetic.

use vstd::prelude::*;
use crate::colony::types::Position;

verus! {

/// Square of the straight-line distance between two points.
pub open spec fn dist_sq(a: Position, b: Position) -> int {
    (a.x - b.x) * (a.x - b.x) + (a.y - b.y) * (a.y - b.y) + (a.z - b.z) * (a.z - b.z)
}

/// `r` is the square root of `n`, rounded down.
pub open spec fn is_floor_sqrt(n: int, r: int) -> bool {
    0 <= r && r * r <= n < (r + 1) * (r + 1)
}

/// The square root of `n`, rounded down.
pub open spec fn floor_sqrt(n: int) -> int {
    choose|r: int| is_floor_sqrt(n, r)
}

/// Straight-line distance between two points, rounded down to a thousandth.
pub open spec fn distance(a: Position, b: Position) -> int {
    floor_sqrt(dist_sq(a, b))
}

/// The points lie at most `range` apart.
pub open spec fn within(a: Position, b: Position, range: int) -> bool {
    dist_sq(a, b) <= range * range
}

/// The points lie less than `range` apart.
pub open spec fn closer_than(a: Position, b: Position, range: int) -> bool {
    dist_sq(a, b) < range * range
}

/// `v`, or the end of the coordinate range it lies beyond.
pub open spec fn clamp_coord(v: int) -> i32 {
    if v < i32::MIN {
        i32::MIN
    } else if v > i32::MAX {
        i32::MAX
    } else {
        v as i32
    }
}

/// The point `(dx, dy, dz)` away from `p`, kept inside the coordinate range.
pub open spec fn offset(p: Position, dx: int, dy: int, dz: int) -> Position {
    Position { x: clamp_coord(p.x + dx), y: clamp_coord(p.y + dy), z: clamp_coord(p.z + dz) }
}

/// Squaring keeps the order of natural numbers.
pub proof fn lemma_square_monotonic(a: int, b: int)
    by (nonlinear_arith)
    requires
        0 <= a <= b,
    ensures
        a * a <= b * b,
{
}

/// At most one number is the rounded-down square root of `n`.
pub proof fn lemma_floor_sqrt_unique(n: int, r: int)
    requires
        is_floor_sqrt(n, r),
    ensures
        floor_sqrt(n) == r,
{
    let q = floor_sqrt(n);
    assert(is_floor_sqrt(n, q));
    if q < r {
        lemma_square_monotonic(q + 1, r);
    } else if r < q {
        lemma_square_monotonic(r + 1, q);
    }
}

/// A squared distance is never negative and stays below 2^66.
pub proof fn lemma_dist_sq_bounds(a: Position, b: Position)
    ensures
        0 <= dist_sq(a, b) < 0x4_0000_0000_0000_0000,
        dist_sq(a, b) == dist_sq(b, a),
{
    let dx = a.x - b.x;
    let dy = a.y - b.y;
    let dz = a.z - b.z;
    assert(0 <= dx * dx <= 0xffff_ffff * 0xffff_ffff) by (nonlinear_arith)
        requires
            -0xffff_ffff <= dx <= 0xffff_ffff,
    ;
    assert(0 <= dy * dy <= 0xffff_ffff * 0xffff_ffff) by (nonlinear_arith)
        requires
            -0xffff_ffff <= dy <= 0xffff_ffff,
    ;
    assert(0 <= dz * dz <= 0xffff_ffff * 0xffff_ffff) by (nonlinear_arith)
        requires
            -0xffff_ffff <= dz <= 0xffff_ffff,
    ;
    assert((b.x - a.x) * (b.x - a.x) == dx * dx) by (nonlinear_arith)
        requires
            dx == a.x - b.x,
    ;
    assert((b.y - a.y) * (b.y - a.y) == dy * dy) by (nonlinear_arith)
        requires
            dy == a.y - b.y,
    ;
    assert((b.z - a.z) * (b.z - a.z) == dz * dz) by (nonlinear_arith)
        requires
            dz == a.z - b.z,
    ;
}

/// The distance between two points is below 2^33.
pub proof fn lemma_distance_bound(a: Position, b: Position)
    ensures
        is_floor_sqrt(dist_sq(a, b), distance(a, b)),
        0 <= distance(a, b) < 0x2_0000_0000,
{
    lemma_dist_sq_bounds(a, b);
    let n = dist_sq(a, b);
    lemma_floor_sqrt_exists(n);
    let r = distance(a, b);
    if r >= 0x2_0000_0000 {
        lemma_square_monotonic(0x2_0000_0000, r);
    }
}

/// Every natural number has a rounded-down square root.
pub proof fn lemma_floor_sqrt_exists(n: int)
    requires
        0 <= n,
    ensures
        is_floor_sqrt(n, floor_sqrt(n)),
    decreases n,
{
    if n == 0 {
        assert(is_floor_sqrt(0, 0));
    } else {
        lemma_floor_sqrt_exists(n - 1);
        let r = floor_sqrt(n - 1);
        if (r + 1) * (r + 1) <= n {
            assert((r + 2) * (r + 2) > (r + 1) * (r + 1)) by (nonlinear_arith)
                requires
                    r >= 0,
            ;
            assert(is_floor_sqrt(n, r + 1));
        } else {
            assert(is_floor_sqrt(n, r));
        }
    }
}

/// Square of the straight-line distance between two points.
pub fn distance_sq(a: Position, b: Position) -> (d: u128)
    ensures
        d == dist_sq(a, b),
{
    proof {
        lemma_dist_sq_bounds(a, b);
    }
    let dx: i128 = a.x as i128 - b.x as i128;
    let dy: i128 = a.y as i128 - b.y as i128;
    let dz: i128 = a.z as i128 - b.z as i128;
    assert(0 <= dx * dx <= 0xffff_ffff * 0xffff_ffff) by (nonlinear_arith)
        requires
            -0xffff_ffff <= dx <= 0xffff_ffff,
    ;
    assert(0 <= dy * dy <= 0xffff_ffff * 0xffff_ffff) by (nonlinear_arith)
        requires
            -0xffff_ffff <= dy <= 0xffff_ffff,
    ;
    assert(0 <= dz * dz <= 0xffff_ffff * 0xffff_ffff) by (nonlinear_arith)
        requires
            -0xffff_ffff <= dz <= 0xffff_ffff,
    ;
    (dx * dx + dy * dy + dz * dz) as u128
}

/// Square root of `n`, rounded down.
pub fn integer_sqrt(n: u128) -> (r: u64)
    requires
        n < 0x4_0000_0000_0000_0000,
    ensures
        r == floor_sqrt(n as int),
        is_floor_sqrt(n as int, r as int),
        r < 0x2_0000_0000,
{
    let mut lo: u128 = 0;
    let mut hi: u128 = 0x2_0000_0000;
    assert(hi * hi == 0x4_0000_0000_0000_0000) by (nonlinear_arith)
        requires
            hi == 0x2_0000_0000,
    ;
    while hi - lo > 1
        invariant
            lo < hi <= 0x2_0000_0000,
            lo * lo <= n < hi * hi,
        decreases hi - lo,
    {
        let mid: u128 = lo + (hi - lo) / 2;
        assert(mid * mid < 0x4_0000_0000_0000_0000) by (nonlinear_arith)
            requires
                0 <= mid < 0x2_0000_0000,
        ;
        if mid * mid <= n {
            lo = mid;
        } else {
            hi = mid;
        }
    }
    proof {
        assert(hi == lo + 1);
        lemma_floor_sqrt_unique(n as int, lo as int);
    }
    lo as u64
}

/// Straight-line distance between two points, rounded down to a thousandth.
pub fn distance_3d(a: Position, b: Position) -> (d: u64)
    ensures
        d == distance(a, b),
        d < 0x2_0000_0000,
{
    proof {
        lemma_dist_sq_bounds(a, b);
    }
    integer_sqrt(distance_sq(a, b))
}

/// Whether two points lie at most `range` apart.
pub fn is_within(a: Position, b: Position, range: u32) -> (near: bool)
    ensures
        near == within(a, b, range as int),
{
    let r: u128 = range as u128;
    assert(0 <= r * r <= 0xffff_ffff * 0xffff_ffff) by (nonlinear_arith)
        requires
            0 <= r <= 0xffff_ffff,
    ;
    distance_sq(a, b) <= r * r
}

/// Whether two points lie less than `range` apart.
pub fn is_closer_than(a: Position, b: Position, range: u32) -> (near: bool)
    ensures
        near == closer_than(a, b, range as int),
{
    let r: u128 = range as u128;
    assert(0 <= r * r <= 0xffff_ffff * 0xffff_ffff) by (nonlinear_arith)
        requires
            0 <= r <= 0xffff_ffff,
    ;
    distance_sq(a, b) < r * r
}

fn clamp(v: i64) -> (c: i32)
    ensures
        c == clamp_coord(v as int),
{
    if v < i32::MIN as i64 {
        i32::MIN
    } else if v > i32::MAX as i64 {
        i32::MAX
    } else {
        v as i32
    }
}

/// The point `(dx, dy, dz)` away from `p`; a coordinate that would leave the
/// coordinate range stops at its end.
pub fn offset_by(p: Position, dx: i32, dy: i32, dz: i32) -> (q: Position)
    ensures
        q == offset(p, dx as int, dy as int, dz as int),
{
    Position {
        x: clamp(p.x as i64 + dx as i64),
        y: clamp(p.y as i64 + dy as i64),
        z: clamp(p.z as i64 + dz as i64),
    }
}

} // verus!
