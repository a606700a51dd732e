//! The rectangular playfield and its four fixed edges.

use vstd::prelude::*;
use crate::geom::Point;
use crate::geom::in_coord_range;
use crate::rng::GameRng;

verus! {

/// Fixed coordinate of the upper edge.
pub const UPPER_EDGE_Y: i64 = 500;
/// Fixed coordinate of the lower edge.
pub const LOWER_EDGE_Y: i64 = -500;
/// Fixed coordinate of the left edge.
pub const LEFT_EDGE_X: i64 = -940;
/// Fixed coordinate of the right edge.
pub const RIGHT_EDGE_X: i64 = 940;

/// One of the four fixed edges of the playfield.
#[derive(Clone, Copy, PartialEq, Eq, Structural, Debug)]
pub enum Bound {
    UpperBound,
    LowerBound,
    LeftBound,
    RightBound,
}

impl Bound {
    /// The fixed coordinate of this edge on its own axis (`y` for the upper
    /// and lower edges, `x` for the left and right ones).
    pub open spec fn value_spec(self) -> i64 {
        match self {
            Bound::UpperBound => UPPER_EDGE_Y,
            Bound::LowerBound => LOWER_EDGE_Y,
            Bound::LeftBound => LEFT_EDGE_X,
            Bound::RightBound => RIGHT_EDGE_X,
        }
    }

    /// The fixed coordinate of this edge on its own axis.
    pub fn value(&self) -> (v: i64)
        ensures
            v == self.value_spec(),
    {
        match self {
            Bound::UpperBound => UPPER_EDGE_Y,
            Bound::LowerBound => LOWER_EDGE_Y,
            Bound::LeftBound => LEFT_EDGE_X,
            Bound::RightBound => RIGHT_EDGE_X,
        }
    }

    /// The middle point of this edge: the free axis at zero.
    pub fn midpoint(&self) -> (p: Point)
        ensures
            on_bound(p, *self),
            match *self {
                Bound::UpperBound => p == (Point { x: 0, y: UPPER_EDGE_Y }),
                Bound::LowerBound => p == (Point { x: 0, y: LOWER_EDGE_Y }),
                Bound::LeftBound => p == (Point { x: LEFT_EDGE_X, y: 0 }),
                Bound::RightBound => p == (Point { x: RIGHT_EDGE_X, y: 0 }),
            },
    {
        match self {
            Bound::UpperBound => Point { x: 0, y: UPPER_EDGE_Y },
            Bound::LowerBound => Point { x: 0, y: LOWER_EDGE_Y },
            Bound::LeftBound => Point { x: LEFT_EDGE_X, y: 0 },
            Bound::RightBound => Point { x: RIGHT_EDGE_X, y: 0 },
        }
    }

    /// A uniformly drawn edge.
    pub fn random(rng: &mut GameRng) -> (b: Bound) {
        let r = rng.random_below(4);
        if r == 0 {
            Bound::UpperBound
        } else if r == 1 {
            Bound::LowerBound
        } else if r == 2 {
            Bound::LeftBound
        } else {
            Bound::RightBound
        }
    }

    /// A uniformly drawn edge other than this one.
    pub fn other_random(&self, rng: &mut GameRng) -> (b: Bound)
        ensures
            b != *self,
    {
        let r = rng.random_below(3);
        match self {
            Bound::UpperBound => {
                if r == 0 {
                    Bound::LowerBound
                } else if r == 1 {
                    Bound::LeftBound
                } else {
                    Bound::RightBound
                }
            },
            Bound::LowerBound => {
                if r == 0 {
                    Bound::UpperBound
                } else if r == 1 {
                    Bound::LeftBound
                } else {
                    Bound::RightBound
                }
            },
            Bound::LeftBound => {
                if r == 0 {
                    Bound::UpperBound
                } else if r == 1 {
                    Bound::LowerBound
                } else {
                    Bound::RightBound
                }
            },
            Bound::RightBound => {
                if r == 0 {
                    Bound::UpperBound
                } else if r == 1 {
                    Bound::LowerBound
                } else {
                    Bound::LeftBound
                }
            },
        }
    }
}

/// `p` lies on the given edge: the edge's own axis held at its fixed
/// coordinate, the free axis within the half-open extent spawn points are
/// drawn from.
pub open spec fn on_bound(p: Point, b: Bound) -> bool {
    match b {
        Bound::UpperBound => p.y == UPPER_EDGE_Y && LEFT_EDGE_X <= p.x < RIGHT_EDGE_X,
        Bound::LowerBound => p.y == LOWER_EDGE_Y && LEFT_EDGE_X <= p.x < RIGHT_EDGE_X,
        Bound::LeftBound => p.x == LEFT_EDGE_X && LOWER_EDGE_Y <= p.y < UPPER_EDGE_Y,
        Bound::RightBound => p.x == RIGHT_EDGE_X && LOWER_EDGE_Y <= p.y < UPPER_EDGE_Y,
    }
}

/// A uniformly drawn point of the given edge: the free axis is uniform over
/// the edge's half-open extent, the fixed axis is held at the edge's value.
pub fn random_point_on_bound(rng: &mut GameRng, bound: Bound) -> (p: Point)
    ensures
        on_bound(p, bound),
{
    match bound {
        Bound::UpperBound | Bound::LowerBound => {
            let span: u64 = (RIGHT_EDGE_X - LEFT_EDGE_X) as u64;
            let off = rng.random_below(span);
            Point { x: LEFT_EDGE_X + off as i64, y: bound.value() }
        },
        Bound::LeftBound | Bound::RightBound => {
            let span: u64 = (UPPER_EDGE_Y - LOWER_EDGE_Y) as u64;
            let off = rng.random_below(span);
            Point { x: bound.value(), y: LOWER_EDGE_Y + off as i64 }
        },
    }
}

/// Every point of an edge lies within the coordinate range the trajectory
/// helper accepts.
pub proof fn lemma_on_bound_in_coord_range(p: Point, b: Bound)
    requires
        on_bound(p, b),
    ensures
        in_coord_range(p),
{
}

/// A point is outside the playfield exactly when it lies strictly beyond one
/// of the four edges. A point exactly on an edge counts as inside: all four
/// comparisons are strict, the one fixed convention for boundary points.
pub open spec fn is_outside(p: Point) -> bool {
    p.x < LEFT_EDGE_X || p.x > RIGHT_EDGE_X || p.y > UPPER_EDGE_Y || p.y < LOWER_EDGE_Y
}

/// Membership test against the four configured edges.
pub fn is_out_of_bounds(p: Point) -> (r: bool)
    ensures
        r == is_outside(p),
{
    p.x < LEFT_EDGE_X || p.x > RIGHT_EDGE_X || p.y > UPPER_EDGE_Y || p.y < LOWER_EDGE_Y
}

} // verus!
