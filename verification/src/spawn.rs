//! The spawn controller: a repeating timer and the randomized construction
//! of new obstacles on edge-to-opposite-edge trajectories.

use vstd::prelude::*;
use crate::geom::Point;
use crate::geom::velocity_toward;
use crate::bounds::Bound;
use crate::bounds::on_bound;
use crate::bounds::is_outside;
use crate::bounds::random_point_on_bound;
use crate::bounds::lemma_on_bound_in_coord_range;
use crate::entities::Obstacle;
use crate::rng::GameRng;
use crate::config::WEIGHT_MIN;
use crate::config::WEIGHT_LIMIT;
use crate::config::OBSTACLE_SPEED;
use crate::config::SPAWN_INTERVAL_MS;
use crate::config::MAX_TICK_MS;

verus! {

/// The repeating spawn countdown: elapsed time since the last completed
/// interval, always below the interval.
#[derive(Clone, Copy, PartialEq, Eq, Structural, Debug)]
pub struct SpawnTimer {
    /// Milliseconds since the last interval completion.
    pub elapsed_ms: u64,
}

impl SpawnTimer {
    /// A fresh timer at the start of its interval.
    pub fn new() -> (t: SpawnTimer)
        ensures
            t.elapsed_ms == 0,
    {
        SpawnTimer { elapsed_ms: 0 }
    }

    /// Advance the timer by the tick's delta. The timer fires when an
    /// interval completes within the tick — at most once per tick, however
    /// large the delta — and keeps the remainder.
    pub fn advance(&mut self, delta_ms: u64) -> (fired: bool)
        requires
            old(self).elapsed_ms < SPAWN_INTERVAL_MS,
            delta_ms <= MAX_TICK_MS,
        ensures
            fired == (old(self).elapsed_ms + delta_ms >= SPAWN_INTERVAL_MS),
            final(self).elapsed_ms == (old(self).elapsed_ms + delta_ms) % (
            SPAWN_INTERVAL_MS as int),
            final(self).elapsed_ms < SPAWN_INTERVAL_MS,
    {
        let total = self.elapsed_ms + delta_ms;
        if total >= SPAWN_INTERVAL_MS {
            self.elapsed_ms = total % SPAWN_INTERVAL_MS;
            true
        } else {
            self.elapsed_ms = total;
            false
        }
    }
}

/// The obstacle starts on `from_edge` and its velocity points toward
/// `target`, a point of a *different* edge: each velocity component
/// carries the sign of the difference toward the target, so the
/// trajectory crosses the field rather than running parallel to a wall.
pub open spec fn aims_from_toward(
    o: Obstacle,
    from_edge: Bound,
    target: Point,
    target_edge: Bound,
) -> bool {
    &&& on_bound(o.pos, from_edge)
    &&& target_edge != from_edge
    &&& on_bound(target, target_edge)
    &&& (target.x > o.pos.x ==> o.vel.x >= 0)
    &&& (target.x < o.pos.x ==> o.vel.x <= 0)
    &&& (target.x == o.pos.x ==> o.vel.x == 0)
    &&& (target.y > o.pos.y ==> o.vel.y >= 0)
    &&& (target.y < o.pos.y ==> o.vel.y <= 0)
    &&& (target.y == o.pos.y ==> o.vel.y == 0)
}

/// What the spawner promises of a fresh obstacle: the allocated identifier,
/// a weight within the drawing range, a start point on one of the edges —
/// hence inside the playfield under the boundary convention — aimed at a
/// point of a different edge, and a trajectory that really moves:
/// component magnitudes at most the obstacle speed, the dominant one at
/// least half of it.
pub open spec fn spawned_ok(o: Obstacle, id: u64) -> bool {
    &&& o.id == id
    &&& WEIGHT_MIN <= o.weight < WEIGHT_LIMIT
    &&& (exists|b: Bound, b2: Bound, t: Point| aims_from_toward(o, b, t, b2))
    &&& !is_outside(o.pos)
    &&& -OBSTACLE_SPEED <= o.vel.x <= OBSTACLE_SPEED
    &&& -OBSTACLE_SPEED <= o.vel.y <= OBSTACLE_SPEED
    &&& (o.vel.x >= OBSTACLE_SPEED / 2 || o.vel.x <= -(OBSTACLE_SPEED / 2) || o.vel.y
        >= OBSTACLE_SPEED / 2 || o.vel.y <= -(OBSTACLE_SPEED / 2))
}

/// Create one obstacle: draw a weight from the fixed range, a random spawn
/// edge and a random point on it, then aim at a random point of a random
/// *different* edge so the trajectory crosses the field rather than running
/// parallel to a wall. Two different edges can share a corner point; in
/// that degenerate case the aim is re-pointed at the target edge's middle,
/// which no point of another edge equals.
pub fn spawn_obstacle(rng: &mut GameRng, id: u64) -> (o: Obstacle)
    ensures
        spawned_ok(o, id),
{
    let weight = WEIGHT_MIN + rng.random_below(WEIGHT_LIMIT - WEIGHT_MIN);
    let bound = Bound::random(rng);
    let start = random_point_on_bound(rng, bound);
    let target_bound = bound.other_random(rng);
    let drawn = random_point_on_bound(rng, target_bound);
    let target = if drawn.x == start.x && drawn.y == start.y {
        target_bound.midpoint()
    } else {
        drawn
    };
    proof {
        lemma_on_bound_in_coord_range(start, bound);
        lemma_on_bound_in_coord_range(target, target_bound);
        assert(!(target.x == start.x && target.y == start.y));
    }
    let vel = velocity_toward(start, target, OBSTACLE_SPEED);
    let o = Obstacle { id, weight, pos: start, vel };
    proof {
        assert(aims_from_toward(o, bound, target, target_bound));
    }
    o
}

} // verus!
