//! Fixed-point plane geometry: positions, squared distances, the integer
//! square root, and capped movement of a point toward a target.
//!
//! A coordinate of 1000 stands for one world unit, so the world extends
//! `COORD_LIMIT / 1000` units from the origin in every direction.

use vstd::prelude::*;

verus! {

use vstd::arithmetic::div_mod::lemma_fundamental_div_mod;
use vstd::arithmetic::div_mod::lemma_mod_division_less_than_divisor;

/// Largest magnitude a coordinate may have, in milli-units.
pub const COORD_LIMIT: i64 = 1_000_000_000;

/// Largest step `move_toward` accepts, in milli-units.
pub const STEP_LIMIT: u64 = 100_000_000_000_000;

/// A point or displacement of the plane, in milli-units.
#[derive(Copy, Clone, PartialEq, Eq, Structural, Debug)]
pub struct Vec2 {
    pub x: i64,
    pub y: i64,
}

/// The point lies within the world's extent.
pub open spec fn in_bounds(p: Vec2) -> bool {
    -COORD_LIMIT <= p.x <= COORD_LIMIT && -COORD_LIMIT <= p.y <= COORD_LIMIT
}

/// Squared Euclidean distance between two points.
pub open spec fn dist_sq(a: Vec2, b: Vec2) -> int {
    (a.x - b.x) * (a.x - b.x) + (a.y - b.y) * (a.y - b.y)
}

/// `r` is the integer square root of `n`: the greatest integer whose square
/// does not exceed `n`.
pub open spec fn is_sqrt(n: int, r: int) -> bool {
    0 <= r && r * r <= n && n < (r + 1) * (r + 1)
}

/// The integer square root of a nonnegative integer, as a spec-level value.
pub open spec fn sqrt_floor(n: int) -> int {
    choose|r: int| is_sqrt(n, r)
}

/// The floor distance between two points, in milli-units.
pub open spec fn fdist(a: Vec2, b: Vec2) -> int {
    sqrt_floor(dist_sq(a, b))
}

proof fn lemma_sqrt_exists_rec(n: nat) -> (r: int)
    ensures
        is_sqrt(n as int, r),
    decreases n,
{
    if n == 0 {
        assert(is_sqrt(0, 0));
        0
    } else {
        let p = lemma_sqrt_exists_rec((n - 1) as nat);
        assert(is_sqrt(n - 1, p));
        if (p + 1) * (p + 1) <= n {
            assert(n - 1 < (p + 1) * (p + 1));
            assert(n == (p + 1) * (p + 1));
            assert(n < (p + 2) * (p + 2)) by (nonlinear_arith)
                requires n == (p + 1) * (p + 1) && p >= 0;
            assert(is_sqrt(n as int, p + 1));
            p + 1
        } else {
            assert(is_sqrt(n as int, p));
            p
        }
    }
}

/// Every nonnegative integer has an integer square root, and it is unique,
/// so `sqrt_floor` is the one value satisfying `is_sqrt`.
pub proof fn lemma_sqrt_floor(n: int)
    requires
        n >= 0,
    ensures
        is_sqrt(n, sqrt_floor(n)),
        forall|r: int| is_sqrt(n, r) ==> r == sqrt_floor(n),
{
    let w = lemma_sqrt_exists_rec(n as nat);
    assert(is_sqrt(n, w));
    assert(is_sqrt(n, sqrt_floor(n)));
    assert forall|r: int| is_sqrt(n, r) implies r == sqrt_floor(n) by {
        let s = sqrt_floor(n);
        assert(r == s) by (nonlinear_arith)
            requires
                0 <= r && r * r <= n && n < (r + 1) * (r + 1),
                0 <= s && s * s <= n && n < (s + 1) * (s + 1);
    }
}

/// Integer square root by binary search.
pub fn isqrt(n: u64) -> (r: u64)
    ensures
        r == sqrt_floor(n as int),
        is_sqrt(n as int, r as int),
{
    proof {
        lemma_sqrt_floor(n as int);
    }
    let mut lo: u64 = 0;
    let mut hi: u64 = 4_294_967_296;
    proof {
        assert((4_294_967_296 as int) * (4_294_967_296 as int) > n as int) by (nonlinear_arith)
            requires n <= 0xffff_ffff_ffff_ffff;
    }
    while lo + 1 < hi
        invariant
            lo < hi <= 4_294_967_296,
            (lo as int) * (lo as int) <= n as int,
            (hi as int) * (hi as int) > n as int,
        decreases hi - lo,
    {
        let mid: u64 = lo + (hi - lo) / 2;
        assert(lo < mid < hi);
        assert((mid as int) * (mid as int) <= 0xffff_ffff_ffff_ffff) by (nonlinear_arith)
            requires 0 <= mid <= 4_294_967_295;
        if mid * mid <= n {
            lo = mid;
        } else {
            hi = mid;
        }
    }
    assert(is_sqrt(n as int, lo as int));
    lo
}

/// Squared distance as a machine integer; fits because both points are in
/// bounds.
pub fn dist_sq_u64(a: Vec2, b: Vec2) -> (n: u64)
    requires
        in_bounds(a),
        in_bounds(b),
    ensures
        n == dist_sq(a, b),
{
    let dx: i64 = a.x - b.x;
    let dy: i64 = a.y - b.y;
    proof {
        assert(dx * dx <= 4_000_000_000_000_000_000 && dx * dx >= 0) by (nonlinear_arith)
            requires -2_000_000_000 <= dx <= 2_000_000_000;
        assert(dy * dy <= 4_000_000_000_000_000_000 && dy * dy >= 0) by (nonlinear_arith)
            requires -2_000_000_000 <= dy <= 2_000_000_000;
    }
    (dx * dx) as u64 + (dy * dy) as u64
}

/// The floor distance between two in-bounds points, in milli-units.
pub fn dist(a: Vec2, b: Vec2) -> (d: u64)
    requires
        in_bounds(a),
        in_bounds(b),
    ensures
        d == fdist(a, b),
        is_sqrt(dist_sq(a, b), d as int),
{
    let n = dist_sq_u64(a, b);
    isqrt(n)
}

/// Absolute value of an integer.
pub open spec fn abs_i(x: int) -> int {
    if x < 0 {
        -x
    } else {
        x
    }
}

/// One coordinate of a step of length `s` toward a target at floor distance
/// `d`, for `d > s`: the coordinate advances by the truncated share
/// `|tx - x| * s / d` of the remaining gap.
pub open spec fn coord_step(x: int, tx: int, s: int, d: int) -> int {
    if tx >= x {
        x + (tx - x) * s / d
    } else {
        x - (x - tx) * s / d
    }
}

/// Where a point at `p` lands after moving a step of length `s` straight
/// toward `t`, when the floor distance from `p` to `t` is `d`. A step at
/// least as long as the distance arrives exactly at the target; this also
/// covers the degenerate case of coinciding points, where no direction
/// exists.
pub open spec fn step_toward_at(p: Vec2, t: Vec2, s: int, d: int) -> Vec2 {
    if d <= s {
        t
    } else {
        Vec2 { x: coord_step(p.x as int, t.x as int, s, d) as i64, y: coord_step(p.y as int, t.y as int, s, d) as i64 }
    }
}

/// Capped fixed-point movement of `p` toward `t` by a step of length `s`.
pub open spec fn step_toward(p: Vec2, t: Vec2, s: int) -> Vec2 {
    step_toward_at(p, t, s, fdist(p, t))
}

/// The floor distance between two in-bounds points is itself bounded.
pub proof fn lemma_fdist_bound(a: Vec2, b: Vec2)
    requires
        in_bounds(a),
        in_bounds(b),
    ensures
        is_sqrt(dist_sq(a, b), fdist(a, b)),
        0 <= fdist(a, b) <= 2_900_000_000,
{
    assert(dist_sq(a, b) >= 0 && dist_sq(a, b) <= 8_000_000_000_000_000_000) by (nonlinear_arith)
        requires
            in_bounds(a),
            in_bounds(b),
            dist_sq(a, b) == (a.x - b.x) * (a.x - b.x) + (a.y - b.y) * (a.y - b.y);
    lemma_sqrt_floor(dist_sq(a, b));
    let d = fdist(a, b);
    assert(d <= 2_900_000_000) by (nonlinear_arith)
        requires
            d * d <= 8_000_000_000_000_000_000,
            d >= 0;
}

/// A coordinate clamped to the world's extent.
pub open spec fn clamp_i(v: int) -> int {
    if v < -COORD_LIMIT {
        -COORD_LIMIT as int
    } else if v > COORD_LIMIT {
        COORD_LIMIT as int
    } else {
        v
    }
}

/// The point with both coordinates clamped to the world's extent.
pub open spec fn clamped_vec(x: int, y: int) -> Vec2 {
    Vec2 { x: clamp_i(x) as i64, y: clamp_i(y) as i64 }
}

/// Largest displacement `shift_clamped` accepts on one axis.
pub const SHIFT_LIMIT: i64 = 1_000_000_000_000_000;

/// Displace an in-bounds point, clamping the result at the world's edge.
pub fn shift_clamped(p: Vec2, dx: i64, dy: i64) -> (q: Vec2)
    requires
        in_bounds(p),
        -SHIFT_LIMIT <= dx <= SHIFT_LIMIT,
        -SHIFT_LIMIT <= dy <= SHIFT_LIMIT,
    ensures
        q == clamped_vec(p.x + dx, p.y + dy),
        in_bounds(q),
{
    let x: i64 = p.x + dx;
    let y: i64 = p.y + dy;
    let cx: i64 = if x < -COORD_LIMIT {
        -COORD_LIMIT
    } else if x > COORD_LIMIT {
        COORD_LIMIT
    } else {
        x
    };
    let cy: i64 = if y < -COORD_LIMIT {
        -COORD_LIMIT
    } else if y > COORD_LIMIT {
        COORD_LIMIT
    } else {
        y
    };
    Vec2 { x: cx, y: cy }
}

/// Clamp an arbitrary point to the world's extent.
pub fn clamp_point(x: i64, y: i64) -> (q: Vec2)
    ensures
        q == clamped_vec(x as int, y as int),
        in_bounds(q),
{
    let cx: i64 = if x < -COORD_LIMIT {
        -COORD_LIMIT
    } else if x > COORD_LIMIT {
        COORD_LIMIT
    } else {
        x
    };
    let cy: i64 = if y < -COORD_LIMIT {
        -COORD_LIMIT
    } else if y > COORD_LIMIT {
        COORD_LIMIT
    } else {
        y
    };
    Vec2 { x: cx, y: cy }
}

/// Division facts for one coordinate: with `0 < s < d` and `0 <= a <= d`,
/// the truncated share `u = a * s / d` lies between `0` and `a`, and
/// `a * (d - s) <= (a - u) * d <= a * (d - s) + d`.
proof fn lemma_share_bounds(a: int, s: int, d: int)
    requires
        0 <= a <= d,
        0 <= s < d,
    ensures
        0 <= a * s / d <= a,
        a * (d - s) <= (a - a * s / d) * d,
        (a - a * s / d) * d <= a * (d - s) + d,
{
    let u = a * s / d;
    lemma_fundamental_div_mod(a * s, d);
    lemma_mod_division_less_than_divisor(a * s, d);
    assert(a * s >= 0) by (nonlinear_arith)
        requires a >= 0 && s >= 0;
    assert(u * d <= a * s < u * d + d) by (nonlinear_arith)
        requires
            a * s == d * u + (a * s) % d,
            0 <= (a * s) % d < d;
    assert(u >= 0) by (nonlinear_arith)
        requires u * d <= a * s || true, 0 <= a * s, u * d + d > a * s, d > 0;
    assert(a * s <= a * d) by (nonlinear_arith)
        requires a >= 0 && s <= d;
    assert(u <= a) by (nonlinear_arith)
        requires u * d <= a * s, a * s <= a * d, d > 0;
    assert((a - u) * d == a * d - u * d) by (nonlinear_arith);
    assert(a * d - a * s == a * (d - s)) by (nonlinear_arith);
    assert(a * (d - s) <= (a - u) * d) by {
        assert(u * d <= a * s);
    }
    assert((a - u) * d <= a * (d - s) + d) by {
        assert(a * s < u * d + d);
    }
}

/// After a step of length `s` toward a target at floor distance `d > s`,
/// the new squared distance lies between `(d - s)^2` and `(d - s + 3)^2`:
/// the distance shrinks by the step, up to a fixed-point rounding slack of
/// three milli-units.
pub proof fn lemma_step_toward_bounds(p: Vec2, t: Vec2, s: int, d: int)
    requires
        is_sqrt(dist_sq(p, t), d),
        0 < s < d,
    ensures
        (d - s) * (d - s) <= dist_sq(step_toward_at(p, t, s, d), t),
        dist_sq(step_toward_at(p, t, s, d), t) <= (d - s + 3) * (d - s + 3),
{
    let adx = abs_i(t.x - p.x);
    let ady = abs_i(t.y - p.y);
    let dd2 = dist_sq(p, t);
    assert(dd2 == adx * adx + ady * ady) by (nonlinear_arith)
        requires
            adx == abs_i(t.x - p.x),
            ady == abs_i(t.y - p.y),
            dd2 == (p.x - t.x) * (p.x - t.x) + (p.y - t.y) * (p.y - t.y);
    assert(adx <= d && ady <= d) by (nonlinear_arith)
        requires
            adx >= 0,
            ady >= 0,
            adx * adx + ady * ady < (d + 1) * (d + 1),
            d >= 0;
    lemma_share_bounds(adx, s, d);
    lemma_share_bounds(ady, s, d);
    let u = adx * s / d;
    let v = ady * s / d;
    let q = step_toward_at(p, t, s, d);
    let cx = coord_step(p.x as int, t.x as int, s, d);
    let cy = coord_step(p.y as int, t.y as int, s, d);
    assert(cx == if t.x >= p.x {
        p.x + u
    } else {
        p.x - u
    });
    assert(cy == if t.y >= p.y {
        p.y + v
    } else {
        p.y - v
    });
    assert(i64::MIN <= cx <= i64::MAX);
    assert(i64::MIN <= cy <= i64::MAX);
    assert(q.x == cx && q.y == cy);
    assert(abs_i(t.x - q.x) == adx - u && abs_i(t.y - q.y) == ady - v);
    let nx = adx - u;
    let ny = ady - v;
    assert(dist_sq(q, t) == nx * nx + ny * ny) by (nonlinear_arith)
        requires
            abs_i(t.x - q.x) == nx,
            abs_i(t.y - q.y) == ny,
            dist_sq(q, t) == (q.x - t.x) * (q.x - t.x) + (q.y - t.y) * (q.y - t.y);
    // Lower bound: (nx*d)^2 + (ny*d)^2 >= (d-s)^2 * dd2 >= (d-s)^2 * d^2.
    assert(nx * nx * (d * d) >= (adx * (d - s)) * (adx * (d - s))) by (nonlinear_arith)
        requires
            0 <= adx * (d - s) <= nx * d,
            d > 0;
    assert((adx * (d - s)) * (adx * (d - s)) == (adx * adx) * ((d - s) * (d - s))) by (nonlinear_arith);
    assert(ny * ny * (d * d) >= (ady * (d - s)) * (ady * (d - s))) by (nonlinear_arith)
        requires
            0 <= ady * (d - s) <= ny * d,
            d > 0;
    assert((ady * (d - s)) * (ady * (d - s)) == (ady * ady) * ((d - s) * (d - s))) by (nonlinear_arith);
    assert((nx * nx + ny * ny) * (d * d) >= (adx * adx + ady * ady) * ((d - s) * (d - s))) by (nonlinear_arith)
        requires
            nx * nx * (d * d) >= (adx * adx) * ((d - s) * (d - s)),
            ny * ny * (d * d) >= (ady * ady) * ((d - s) * (d - s));
    assert((adx * adx + ady * ady) * ((d - s) * (d - s)) >= (d * d) * ((d - s) * (d - s))) by (nonlinear_arith)
        requires
            adx * adx + ady * ady >= d * d,
            (d - s) * (d - s) >= 0;
    assert(nx * nx + ny * ny >= (d - s) * (d - s)) by (nonlinear_arith)
        requires
            (nx * nx + ny * ny) * (d * d) >= (d * d) * ((d - s) * (d - s)),
            d > 0;
    // Upper bound: (nx*d)^2 <= (adx*(d-s) + d)^2, summed and weakened.
    let e = d - s;
    assert(nx * d * (nx * d) <= (adx * e + d) * (adx * e + d)) by (nonlinear_arith)
        requires
            0 <= nx * d <= adx * e + d;
    assert(ny * d * (ny * d) <= (ady * e + d) * (ady * e + d)) by (nonlinear_arith)
        requires
            0 <= ny * d <= ady * e + d;
    assert(nx * d * (nx * d) == (nx * nx) * (d * d)) by (nonlinear_arith);
    assert(ny * d * (ny * d) == (ny * ny) * (d * d)) by (nonlinear_arith);
    assert((adx * e + d) * (adx * e + d) == (adx * adx) * (e * e) + 2 * adx * e * d + d * d)
        by (nonlinear_arith);
    assert((ady * e + d) * (ady * e + d) == (ady * ady) * (e * e) + 2 * ady * e * d + d * d)
        by (nonlinear_arith);
    assert((nx * nx + ny * ny) * (d * d) == (nx * nx) * (d * d) + (ny * ny) * (d * d))
        by (nonlinear_arith);
    assert((adx * adx + ady * ady) * (e * e) == (adx * adx) * (e * e) + (ady * ady) * (e * e))
        by (nonlinear_arith);
    assert(2 * (adx + ady) * d * e == 2 * adx * e * d + 2 * ady * e * d) by (nonlinear_arith);
    assert((nx * nx + ny * ny) * (d * d) <= (adx * adx + ady * ady) * (e * e) + 2 * (adx + ady) * d
        * e + 2 * (d * d));
    assert((adx * adx + ady * ady) * (e * e) <= (d * d) * (e * e) + 2 * d * (e * e)) by (nonlinear_arith)
        requires
            adx * adx + ady * ady < (d + 1) * (d + 1),
            adx * adx + ady * ady >= 0,
            e * e >= 0,
            d >= 0;
    assert(2 * (adx + ady) * d * e <= 4 * (d * d) * e) by (nonlinear_arith)
        requires
            adx <= d,
            ady <= d,
            d > 0,
            e > 0;
    assert(2 * d * (e * e) <= 2 * (d * d) * e) by (nonlinear_arith)
        requires
            0 < e <= d;
    assert((nx * nx + ny * ny) * (d * d) <= (d * d) * (e * e + 6 * e + 2)) by (nonlinear_arith)
        requires
            (nx * nx + ny * ny) * (d * d) <= (adx * adx + ady * ady) * (e * e) + 2 * (adx + ady)
                * d * e + 2 * (d * d),
            (adx * adx + ady * ady) * (e * e) <= (d * d) * (e * e) + 2 * d * (e * e),
            2 * (adx + ady) * d * e <= 4 * (d * d) * e,
            2 * d * (e * e) <= 2 * (d * d) * e;
    assert(nx * nx + ny * ny <= e * e + 6 * e + 2) by (nonlinear_arith)
        requires
            (nx * nx + ny * ny) * (d * d) <= (d * d) * (e * e + 6 * e + 2),
            d > 0;
    assert(e * e + 6 * e + 2 <= (e + 3) * (e + 3)) by (nonlinear_arith);
}

/// Executable movement of `p` by a step of length `s` straight toward `t`,
/// capped at arrival. The result is pinned to `step_toward`, stays in
/// bounds, and never moves away from the target.
pub fn move_toward(p: Vec2, t: Vec2, s: u64) -> (q: Vec2)
    requires
        in_bounds(p),
        in_bounds(t),
        s <= STEP_LIMIT,
    ensures
        q == step_toward(p, t, s as int),
        in_bounds(q),
        dist_sq(q, t) <= dist_sq(p, t),
{
    let d = dist(p, t);
    proof {
        assert(dist_sq(p, t) <= 8_000_000_000_000_000_000) by (nonlinear_arith)
            requires
                in_bounds(p),
                in_bounds(t),
                dist_sq(p, t) == (p.x - t.x) * (p.x - t.x) + (p.y - t.y) * (p.y - t.y);
        assert(d <= 2_900_000_000) by (nonlinear_arith)
            requires
                (d as int) * (d as int) <= 8_000_000_000_000_000_000,
                d >= 0;
    }
    if d <= s {
        proof {
            assert(dist_sq(t, t) == 0) by (nonlinear_arith);
            assert(dist_sq(p, t) >= 0) by (nonlinear_arith);
        }
        t
    } else {
        let adx: u64 = (if t.x >= p.x {
            t.x - p.x
        } else {
            p.x - t.x
        }) as u64;
        let ady: u64 = (if t.y >= p.y {
            t.y - p.y
        } else {
            p.y - t.y
        }) as u64;
        proof {
            assert((adx as int) * (adx as int) + (ady as int) * (ady as int) == dist_sq(p, t))
                by (nonlinear_arith)
                requires
                    adx as int == abs_i(t.x - p.x),
                    ady as int == abs_i(t.y - p.y),
                    dist_sq(p, t) == (p.x - t.x) * (p.x - t.x) + (p.y - t.y) * (p.y - t.y);
            assert(adx as int <= d as int && ady as int <= d as int) by (nonlinear_arith)
                requires
                    adx as int == abs_i(t.x - p.x),
                    ady as int == abs_i(t.y - p.y),
                    (adx as int) * (adx as int) + (ady as int) * (ady as int) == dist_sq(p, t),
                    dist_sq(p, t) < (d as int + 1) * (d as int + 1),
                    d >= 0;
            lemma_share_bounds(adx as int, s as int, d as int);
            lemma_share_bounds(ady as int, s as int, d as int);
            assert(adx * s <= 0xffff_ffff_ffff_ffff) by (nonlinear_arith)
                requires
                    adx <= 2_000_000_000,
                    s < d <= 2_900_000_000;
            assert(ady * s <= 0xffff_ffff_ffff_ffff) by (nonlinear_arith)
                requires
                    ady <= 2_000_000_000,
                    s < d <= 2_900_000_000;
        }
        let ux: u64 = adx * s / d;
        let uy: u64 = ady * s / d;
        let qx: i64 = if t.x >= p.x {
            p.x + (ux as i64)
        } else {
            p.x - (ux as i64)
        };
        let qy: i64 = if t.y >= p.y {
            p.y + (uy as i64)
        } else {
            p.y - (uy as i64)
        };
        let q = Vec2 { x: qx, y: qy };
        proof {
            assert(q.x == coord_step(p.x as int, t.x as int, s as int, d as int));
            assert(q.y == coord_step(p.y as int, t.y as int, s as int, d as int));
            assert(q == step_toward_at(p, t, s as int, d as int));
            assert((q.x - t.x) * (q.x - t.x) <= (p.x - t.x) * (p.x - t.x)) by (nonlinear_arith)
                requires
                    abs_i(q.x - t.x) == abs_i(p.x - t.x) - ux,
                    0 <= ux <= abs_i(p.x - t.x);
            assert((q.y - t.y) * (q.y - t.y) <= (p.y - t.y) * (p.y - t.y)) by (nonlinear_arith)
                requires
                    abs_i(q.y - t.y) == abs_i(p.y - t.y) - uy,
                    0 <= uy <= abs_i(p.y - t.y);
        }
        q
    }
}

} // verus!
