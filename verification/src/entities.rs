//! The typed records of the simulation's entity registry.

use vstd::prelude::*;
use crate::geom::Point;
use crate::bounds::Bound;
use crate::config::WEIGHT_MIN;
use crate::config::WEIGHT_LIMIT;

verus! {

/// A numbered moving obstacle. Its weight is fixed at spawn; it exists from
/// spawn until absorption or until it leaves the playfield.
#[derive(Clone, Copy, PartialEq, Eq, Structural, Debug)]
pub struct Obstacle {
    /// Stable identifier, unique among all entities of the registry.
    pub id: u64,
    /// The positive integer attached to the obstacle.
    pub weight: u64,
    /// Current position, as last reported by the physics collaborator.
    pub pos: Point,
    /// Velocity the physics collaborator moves it with.
    pub vel: Point,
}

/// One of the four static boundary walls of a Playing session.
#[derive(Clone, Copy, PartialEq, Eq, Structural, Debug)]
pub struct Wall {
    /// Stable identifier, unique among all entities of the registry.
    pub id: u64,
    /// The edge this wall closes off.
    pub bound: Bound,
}

/// Some wall of the registry carries the given identifier.
pub open spec fn is_wall_id(walls: Seq<Wall>, id: u64) -> bool {
    exists|k: int| 0 <= k < walls.len() && (#[trigger] walls[k]).id == id
}

/// The rendered size and collision footprint derived from a weight: one
/// and a half world units per weight unit, held exactly in half units as
/// `3 * weight`. The player square's side and the obstacle circle's
/// diameter both derive from this.
pub fn size_half_units(weight: u64) -> (s: u64)
    requires
        weight <= u64::MAX / 3,
    ensures
        s == 3 * weight,
{
    3 * weight
}

/// An obstacle's weight lies in the spawner's range.
pub open spec fn obstacle_weight_ok(o: Obstacle) -> bool {
    WEIGHT_MIN <= o.weight < WEIGHT_LIMIT
}

/// Every obstacle's weight lies in the spawner's range.
pub open spec fn obstacles_weights_ok(obs: Seq<Obstacle>) -> bool {
    forall|k: int| 0 <= k < obs.len() ==> obstacle_weight_ok(#[trigger] obs[k])
}

/// Obstacle identifiers are pairwise distinct.
pub open spec fn obstacle_ids_unique(obs: Seq<Obstacle>) -> bool {
    forall|j: int, k: int|
        0 <= j < k < obs.len() ==> (#[trigger] obs[j].id) != (#[trigger] obs[k].id)
}

/// Obstacle identifiers grow strictly along the registry, so they are
/// pairwise distinct; they stay below the allocation counter.
pub open spec fn obstacle_ids_ok(obs: Seq<Obstacle>, next_id: u64) -> bool {
    &&& forall|j: int, k: int|
        0 <= j < k < obs.len() ==> (#[trigger] obs[j].id) < (#[trigger] obs[k].id)
    &&& forall|k: int| 0 <= k < obs.len() ==> (#[trigger] obs[k].id) < next_id
}

/// Wall identifiers are pairwise distinct and below the allocation counter.
pub open spec fn wall_ids_ok(ws: Seq<Wall>, next_id: u64) -> bool {
    &&& forall|j: int, k: int|
        0 <= j < k < ws.len() ==> (#[trigger] ws[j].id) != (#[trigger] ws[k].id)
    &&& forall|k: int| 0 <= k < ws.len() ==> (#[trigger] ws[k].id) < next_id
}

/// No obstacle shares an identifier with a wall or with the player.
pub open spec fn obstacles_sep(obs: Seq<Obstacle>, walls: Seq<Wall>, player_id: u64) -> bool {
    forall|k: int|
        0 <= k < obs.len() ==> ((#[trigger] obs[k]).id != player_id && !is_wall_id(
            walls,
            obs[k].id,
        ))
}

/// Obstacles `a` and `b` occur in `full`, in that order.
pub open spec fn appears_in_order(full: Seq<Obstacle>, a: Obstacle, b: Obstacle) -> bool {
    exists|s: int, t: int| 0 <= s < t < full.len() && full[s] == a && full[t] == b
}

/// `sub` is an in-order selection of `full`: every element of `sub` occurs
/// in `full`, and any two elements of `sub` occur in `full` in the same
/// order. Removing obstacles — by absorption or despawn — always leaves
/// such a selection.
pub open spec fn ordered_selection(sub: Seq<Obstacle>, full: Seq<Obstacle>) -> bool {
    &&& forall|k: int| 0 <= k < sub.len() ==> full.contains(#[trigger] sub[k])
    &&& forall|j: int, k: int|
        0 <= j < k < sub.len() ==> #[trigger] appears_in_order(full, sub[j], sub[k])
}

/// Every sequence selects itself.
pub proof fn lemma_ordered_selection_refl(s: Seq<Obstacle>)
    ensures
        ordered_selection(s, s),
{
    assert forall|k: int| 0 <= k < s.len() implies s.contains(#[trigger] s[k]) by {
        assert(s[k] == s[k]);
    }
    assert forall|j: int, k: int| 0 <= j < k < s.len() implies #[trigger] appears_in_order(
        s,
        s[j],
        s[k],
    ) by {
        assert(0 <= j < k < s.len() && s[j] == s[j] && s[k] == s[k]);
    }
}

/// Removing one element leaves an in-order selection.
pub proof fn lemma_ordered_selection_remove(s: Seq<Obstacle>, i: int)
    requires
        0 <= i < s.len(),
    ensures
        ordered_selection(s.remove(i), s),
{
    s.remove_ensures(i);
    let sub = s.remove(i);
    assert forall|k: int| 0 <= k < sub.len() implies s.contains(#[trigger] sub[k]) by {
        if k < i {
            assert(s[k] == sub[k]);
        } else {
            assert(s[k + 1] == sub[k]);
        }
    }
    assert forall|j: int, k: int| 0 <= j < k < sub.len() implies #[trigger] appears_in_order(
        s,
        sub[j],
        sub[k],
    ) by {
        let x = if j < i { j } else { j + 1 };
        let t = if k < i { k } else { k + 1 };
        assert(0 <= x < t < s.len() && s[x] == sub[j] && s[t] == sub[k]);
    }
}

/// In-order selection is transitive.
pub proof fn lemma_ordered_selection_trans(a: Seq<Obstacle>, b: Seq<Obstacle>, c: Seq<Obstacle>)
    requires
        ordered_selection(a, b),
        ordered_selection(b, c),
    ensures
        ordered_selection(a, c),
{
    assert forall|k: int| 0 <= k < a.len() implies c.contains(#[trigger] a[k]) by {
        let i = choose|i: int| 0 <= i < b.len() && b[i] == a[k];
        assert(b.contains(b[i]));
        let i2 = choose|i2: int| 0 <= i2 < c.len() && c[i2] == b[i];
        assert(c[i2] == a[k]);
    }
    assert forall|j: int, k: int| 0 <= j < k < a.len() implies #[trigger] appears_in_order(
        c,
        a[j],
        a[k],
    ) by {
        assert(appears_in_order(b, a[j], a[k]));
        let (s, t) = choose|s: int, t: int|
            0 <= s < t < b.len() && b[s] == a[j] && b[t] == a[k];
        assert(appears_in_order(c, b[s], b[t]));
        let (s2, t2) = choose|s2: int, t2: int|
            0 <= s2 < t2 < c.len() && c[s2] == b[s] && c[t2] == b[t];
        assert(0 <= s2 < t2 < c.len() && c[s2] == a[j] && c[t2] == a[k]);
    }
}

/// A selection is kept when the full side grows at its end.
pub proof fn lemma_ordered_selection_extend_full(
    sub: Seq<Obstacle>,
    full: Seq<Obstacle>,
    x: Obstacle,
)
    requires
        ordered_selection(sub, full),
    ensures
        ordered_selection(sub, full.push(x)),
{
    let full2 = full.push(x);
    assert forall|k: int| 0 <= k < sub.len() implies full2.contains(#[trigger] sub[k]) by {
        let i = choose|i: int| 0 <= i < full.len() && full[i] == sub[k];
        assert(full2[i] == sub[k]);
    }
    assert forall|j: int, k: int| 0 <= j < k < sub.len() implies #[trigger] appears_in_order(
        full2,
        sub[j],
        sub[k],
    ) by {
        assert(appears_in_order(full, sub[j], sub[k]));
        let (s, t) = choose|s: int, t: int|
            0 <= s < t < full.len() && full[s] == sub[j] && full[t] == sub[k];
        assert(0 <= s < t < full2.len() && full2[s] == sub[j] && full2[t] == sub[k]);
    }
}

/// Appending the same element to both sides keeps an in-order selection.
pub proof fn lemma_ordered_selection_push(sub: Seq<Obstacle>, full: Seq<Obstacle>, x: Obstacle)
    requires
        ordered_selection(sub, full),
    ensures
        ordered_selection(sub.push(x), full.push(x)),
{
    let sub2 = sub.push(x);
    let full2 = full.push(x);
    assert forall|k: int| 0 <= k < sub2.len() implies full2.contains(#[trigger] sub2[k]) by {
        if k < sub.len() {
            let i = choose|i: int| 0 <= i < full.len() && full[i] == sub[k];
            assert(full2[i] == sub2[k]);
        } else {
            assert(full2[full.len() as int] == x && sub2[k] == x);
        }
    }
    assert forall|j: int, k: int| 0 <= j < k < sub2.len() implies #[trigger] appears_in_order(
        full2,
        sub2[j],
        sub2[k],
    ) by {
        if k < sub.len() {
            assert(appears_in_order(full, sub[j], sub[k]));
            let (s, t) = choose|s: int, t: int|
                0 <= s < t < full.len() && full[s] == sub[j] && full[t] == sub[k];
            assert(0 <= s < t < full2.len() && full2[s] == sub2[j] && full2[t] == sub2[k]);
        } else {
            assert(full.contains(sub[j]));
            let s = choose|s: int| 0 <= s < full.len() && full[s] == sub[j];
            let t = full.len() as int;
            assert(0 <= s < t < full2.len() && full2[s] == sub2[j] && full2[t] == sub2[k]);
        }
    }
}

/// The registry invariants carry from a sequence to any in-order selection
/// of it.
pub proof fn lemma_ordered_selection_preserves(
    sub: Seq<Obstacle>,
    full: Seq<Obstacle>,
    next_id: u64,
    walls: Seq<Wall>,
    player_id: u64,
)
    requires
        ordered_selection(sub, full),
        obstacles_weights_ok(full),
        obstacle_ids_ok(full, next_id),
        obstacles_sep(full, walls, player_id),
    ensures
        obstacles_weights_ok(sub),
        obstacle_ids_ok(sub, next_id),
        obstacles_sep(sub, walls, player_id),
{
    assert forall|k: int| 0 <= k < sub.len() implies obstacle_weight_ok(#[trigger] sub[k]) && (
    sub[k].id) < next_id && (sub[k].id != player_id && !is_wall_id(walls, sub[k].id)) by {
        let i = choose|i: int| 0 <= i < full.len() && full[i] == sub[k];
        assert(obstacle_weight_ok(full[i]));
        assert(full[i].id < next_id);
        assert(full[i].id != player_id && !is_wall_id(walls, full[i].id));
    }
    assert forall|j: int, k: int| 0 <= j < k < sub.len() implies (#[trigger] sub[j].id) < (
    #[trigger] sub[k].id) by {
        assert(appears_in_order(full, sub[j], sub[k]));
        let (s, t) = choose|s: int, t: int|
            0 <= s < t < full.len() && full[s] == sub[j] && full[t] == sub[k];
        assert(full[s].id < full[t].id);
    }
}

} // verus!
