//! Plane geometry over integer coordinates.
//!
//! The simulation works in whole world units. A trajectory is aimed by
//! scaling the difference vector between two points down to a requested
//! speed with truncating integer division, in place of real-valued
//! normalization.

use vstd::prelude::*;
use vstd::arithmetic::div_mod::lemma_div_is_ordered;
use vstd::arithmetic::div_mod::lemma_div_multiples_vanish;

verus! {

/// A point or vector of the plane, in integer world units.
#[derive(Clone, Copy, PartialEq, Eq, Structural, Debug)]
pub struct Point {
    pub x: i64,
    pub y: i64,
}

/// Largest coordinate magnitude the trajectory helper accepts; the arena
/// lies well within it.
pub const COORD_LIMIT: i64 = 10_000;

/// Both coordinates of `p` are within `COORD_LIMIT` of the origin.
pub open spec fn in_coord_range(p: Point) -> bool {
    &&& -COORD_LIMIT <= p.x <= COORD_LIMIT
    &&& -COORD_LIMIT <= p.y <= COORD_LIMIT
}

/// Floor of the square root: the unique `r` with `r * r <= n < (r+1) * (r+1)`.
pub fn isqrt(n: u64) -> (r: u64)
    requires
        n <= 800_000_000,
    ensures
        r * r <= n < (r + 1) * (r + 1),
{
    let mut r: u64 = 0;
    while (r + 1) * (r + 1) <= n
        invariant
            n <= 800_000_000,
            r * r <= n,
            r <= 30_000,
            (r + 1) * (r + 1) <= 900_060_001,
        decreases 30_000 - r,
    {
        proof {
            assert(r + 1 <= 30_000) by (nonlinear_arith)
                requires
                    (r + 1) * (r + 1) <= 800_000_000u64,
                    r >= 0,
            ;
            assert((r + 2) * (r + 2) <= 900_060_001) by (nonlinear_arith)
                requires
                    r + 1 <= 30_000u64,
                    r >= 0,
            ;
        }
        r = r + 1;
    }
    r
}

/// A velocity that points from `from` toward `to` with magnitude close to
/// `speed`: each component of the difference vector is scaled by
/// `speed / length` in truncating integer arithmetic. Component signs follow
/// the difference vector, no component exceeds `speed` in magnitude, and the
/// dominant component is at least `speed / 2`, so the result never stalls.
pub fn velocity_toward(from: Point, to: Point, speed: i64) -> (v: Point)
    requires
        in_coord_range(from),
        in_coord_range(to),
        !(from.x == to.x && from.y == to.y),
        1 <= speed <= 1000,
    ensures
        -speed <= v.x <= speed,
        -speed <= v.y <= speed,
        to.x > from.x ==> v.x >= 0,
        to.x < from.x ==> v.x <= 0,
        to.x == from.x ==> v.x == 0,
        to.y > from.y ==> v.y >= 0,
        to.y < from.y ==> v.y <= 0,
        to.y == from.y ==> v.y == 0,
        v.x >= speed / 2 || v.x <= -(speed / 2) || v.y >= speed / 2 || v.y <= -(speed / 2),
{
    let dx: i64 = to.x - from.x;
    let dy: i64 = to.y - from.y;
    let adx: i64 = if dx < 0 { -dx } else { dx };
    let ady: i64 = if dy < 0 { -dy } else { dy };
    proof {
        assert(adx * adx <= 20_000 * 20_000) by (nonlinear_arith)
            requires
                0 <= adx <= 20_000,
        ;
        assert(ady * ady <= 20_000 * 20_000) by (nonlinear_arith)
            requires
                0 <= ady <= 20_000,
        ;
        assert(adx * adx >= 0 && ady * ady >= 0) by (nonlinear_arith);
        assert(adx >= 1 ==> adx * adx >= 1) by (nonlinear_arith);
        assert(ady >= 1 ==> ady * ady >= 1) by (nonlinear_arith);
    }
    let n: u64 = ((adx * adx) + (ady * ady)) as u64;
    let len: u64 = isqrt(n);
    proof {
        assert(n == adx * adx + ady * ady);
        assert(n >= 1);
        assert(len >= 1) by (nonlinear_arith)
            requires
                n >= 1,
                len >= 0,
                n < (len + 1) * (len + 1),
        ;
        assert(len <= 30_000) by (nonlinear_arith)
            requires
                len * len <= 800_000_000u64,
                len >= 0,
        ;
        assert(adx <= len && ady <= len) by (nonlinear_arith)
            requires
                adx >= 0,
                ady >= 0,
                len >= 0,
                adx * adx + ady * ady < (len + 1) * (len + 1),
        ;
    }
    let adxu: u64 = adx as u64;
    let adyu: u64 = ady as u64;
    let speedu: u64 = speed as u64;
    proof {
        assert(adxu * speedu <= len * speedu) by (nonlinear_arith)
            requires
                0 <= adxu <= len,
                speedu >= 1,
        ;
        assert(adyu * speedu <= len * speedu) by (nonlinear_arith)
            requires
                0 <= adyu <= len,
                speedu >= 1,
        ;
        assert(len * speedu <= 30_000_000) by (nonlinear_arith)
            requires
                0 <= len <= 30_000,
                0 <= speedu <= 1000,
        ;
    }
    let qxu: u64 = adxu * speedu / len;
    let qyu: u64 = adyu * speedu / len;
    proof {
        lemma_div_is_ordered(adxu * speedu as int, len * speedu as int, len as int);
        lemma_div_is_ordered(adyu * speedu as int, len * speedu as int, len as int);
        lemma_div_multiples_vanish(speedu as int, len as int);
        assert(qxu <= speedu && qyu <= speedu);
        // The dominant component of the difference keeps at least half the
        // requested speed: the length is below twice the dominant magnitude.
        let m: int = if adx >= ady { adx as int } else { ady as int };
        assert(m >= 1);
        assert(adx * adx <= m * m) by (nonlinear_arith)
            requires
                0 <= adx <= m,
        ;
        assert(ady * ady <= m * m) by (nonlinear_arith)
            requires
                0 <= ady <= m,
        ;
        assert(len * len <= m * m + m * m);
        assert(len <= 2 * m) by (nonlinear_arith)
            requires
                m >= 1,
                len >= 0,
                len * len <= m * m + m * m,
        ;
        assert((speedu / 2) * len <= m * speedu) by (nonlinear_arith)
            requires
                speedu >= 1,
                m >= 1,
                1 <= len <= 2 * m,
                speedu / 2 >= 0,
                2 * (speedu / 2) <= speedu,
        ;
        lemma_div_is_ordered((speedu / 2) * len as int, m * speedu as int, len as int);
        lemma_div_multiples_vanish(speedu as int / 2, len as int);
        assert((m * speedu) / (len as int) >= speedu / 2);
        assert(adxu == 0 ==> adxu * speedu == 0);
        assert(adyu == 0 ==> adyu * speedu == 0);
        assert(adxu == 0 ==> qxu == 0);
        assert(adyu == 0 ==> qyu == 0);
    }
    let qx: i64 = qxu as i64;
    let qy: i64 = qyu as i64;
    let vx: i64 = if dx < 0 { -qx } else { qx };
    let vy: i64 = if dy < 0 { -qy } else { qy };
    Point { x: vx, y: vy }
}

} // verus!
