//! Contact resolution: the per-tick pass over the player's reported contact
//! list that decides growth, death, despawns and sound intents, and owns the
//! wall-bounce debounce counter.

use vstd::prelude::*;
use crate::geom::Point;
use crate::entities::Obstacle;
use crate::entities::Wall;
use crate::entities::obstacle_weight_ok;
use crate::entities::obstacles_weights_ok;
use crate::entities::obstacle_ids_unique;
use crate::entities::is_wall_id;
use crate::entities::ordered_selection;
use crate::entities::lemma_ordered_selection_refl;
use crate::entities::lemma_ordered_selection_remove;
use crate::entities::lemma_ordered_selection_trans;
use crate::effects::Effect;
use crate::effects::SoundKind;
use crate::config::WEIGHT_LIMIT;
use crate::config::MAX_GROWTH_PER_ABSORPTION;
use crate::config::DEBOUNCE_MIN_MS;
use crate::config::DEBOUNCE_CAP_MS;
use crate::config::MAX_TICK_MS;
use crate::config::BOUNCE_SPEED_THRESHOLD;

verus! {

/// The player's weight gain from absorbing an obstacle of weight `w`:
/// the ceiling of `w / 5`.
pub open spec fn growth_delta(w: int) -> int {
    (w + 4) / 5
}

/// Executable twin of [`growth_delta`], bounded by the largest gain the
/// spawner's weight range allows.
pub fn growth_delta_u64(w: u64) -> (d: u64)
    requires
        w < WEIGHT_LIMIT,
    ensures
        d == growth_delta(w as int),
        d <= MAX_GROWTH_PER_ABSORPTION,
{
    (w + 4) / 5
}

/// The player is moving strictly faster than the bounce-sound threshold.
pub open spec fn speed_exceeds(v: Point) -> bool {
    v.x * v.x + v.y * v.y > BOUNCE_SPEED_THRESHOLD * BOUNCE_SPEED_THRESHOLD
}

/// Executable twin of [`speed_exceeds`], free of overflow for every velocity.
pub fn speed_exceeds_threshold(v: Point) -> (r: bool)
    ensures
        r == speed_exceeds(v),
{
    let x: i128 = v.x as i128;
    let y: i128 = v.y as i128;
    let ax: i128 = if x < 0 { -x } else { x };
    let ay: i128 = if y < 0 { -y } else { y };
    proof {
        assert(ax * ax == x * x && ay * ay == y * y) by (nonlinear_arith)
            requires
                ax == x || ax == -x,
                ay == y || ay == -y,
        ;
        assert(ax * ax >= 0 && ay * ay >= 0) by (nonlinear_arith);
        assert(BOUNCE_SPEED_THRESHOLD * BOUNCE_SPEED_THRESHOLD == 2500);
    }
    if ax > 1_000_000 || ay > 1_000_000 {
        proof {
            assert(ax > 1_000_000 ==> ax * ax > 2500) by (nonlinear_arith);
            assert(ay > 1_000_000 ==> ay * ay > 2500) by (nonlinear_arith);
        }
        true
    } else {
        proof {
            assert(ax * ax <= 1_000_000_000_000 && ay * ay <= 1_000_000_000_000)
                by (nonlinear_arith)
                requires
                    0 <= ax <= 1_000_000,
                    0 <= ay <= 1_000_000,
            ;
        }
        let sx: i128 = ax * ax;
        let sy: i128 = ay * ay;
        sx + sy > 2500
    }
}

/// Index of the first obstacle with identifier `id` at position `i` or
/// later, or `-1` if there is none.
pub open spec fn find_obstacle_from(obs: Seq<Obstacle>, id: u64, i: int) -> int
    decreases obs.len() - i,
{
    if i < 0 || i >= obs.len() {
        -1
    } else if obs[i].id == id {
        i
    } else {
        find_obstacle_from(obs, id, i + 1)
    }
}

/// Index of the first obstacle with identifier `id`, or `-1`.
pub open spec fn find_obstacle(obs: Seq<Obstacle>, id: u64) -> int {
    find_obstacle_from(obs, id, 0)
}

/// What a successful or failed find means.
pub proof fn lemma_find_obstacle_from(obs: Seq<Obstacle>, id: u64, i: int)
    requires
        0 <= i <= obs.len(),
    ensures
        find_obstacle_from(obs, id, i) >= 0 ==> {
            let fi = find_obstacle_from(obs, id, i);
            &&& i <= fi < obs.len()
            &&& obs[fi].id == id
        },
        find_obstacle_from(obs, id, i) == -1 ==> forall|k: int|
            i <= k < obs.len() ==> (#[trigger] obs[k]).id != id,
    decreases obs.len() - i,
{
    if i < obs.len() && obs[i].id != id {
        lemma_find_obstacle_from(obs, id, i + 1);
    }
}

/// What a successful or failed find means, from the front.
pub proof fn lemma_find_obstacle(obs: Seq<Obstacle>, id: u64)
    ensures
        find_obstacle(obs, id) >= 0 ==> {
            let fi = find_obstacle(obs, id);
            &&& 0 <= fi < obs.len()
            &&& obs[fi].id == id
        },
        find_obstacle(obs, id) == -1 ==> forall|k: int|
            0 <= k < obs.len() ==> (#[trigger] obs[k]).id != id,
{
    lemma_find_obstacle_from(obs, id, 0);
}

/// Linear scan for the first obstacle with the given identifier.
pub fn find_obstacle_index(obs: &Vec<Obstacle>, id: u64) -> (r: Option<usize>)
    ensures
        match r {
            Option::Some(k) => {
                &&& find_obstacle(obs@, id) == k as int
                &&& k < obs@.len()
                &&& obs@[k as int].id == id
            },
            Option::None => find_obstacle(obs@, id) == -1,
        },
{
    let mut i: usize = 0;
    while i < obs.len()
        invariant
            i <= obs@.len(),
            find_obstacle(obs@, id) == find_obstacle_from(obs@, id, i as int),
        decreases obs@.len() - i,
    {
        if obs[i].id == id {
            return Option::Some(i);
        }
        i = i + 1;
    }
    Option::None
}

/// Linear scan of the wall registry for the given identifier.
pub fn is_wall_hit(walls: &Vec<Wall>, id: u64) -> (r: bool)
    ensures
        r == is_wall_id(walls@, id),
{
    let mut i: usize = 0;
    while i < walls.len()
        invariant
            i <= walls@.len(),
            forall|k: int| 0 <= k < i ==> (#[trigger] walls@[k]).id != id,
        decreases walls@.len() - i,
    {
        if walls[i].id == id {
            return true;
        }
        i = i + 1;
    }
    false
}

/// Everything one contact pass decides: whether the player died, the
/// player's weight afterwards, the surviving obstacles, the debounce
/// counter afterwards, and the emitted effect trail.
pub ghost struct ResolveOut {
    pub died: bool,
    pub weight: int,
    pub obstacles: Seq<Obstacle>,
    pub elapsed: int,
    pub effects: Seq<Effect>,
}

/// `r` with `eff` prepended to its effect trail.
pub open spec fn prepend_effects(eff: Seq<Effect>, r: ResolveOut) -> ResolveOut {
    ResolveOut {
        died: r.died,
        weight: r.weight,
        obstacles: r.obstacles,
        elapsed: r.elapsed,
        effects: eff + r.effects,
    }
}

/// The contact pass, processing the reported contacts in order. An obstacle
/// contact with weight above the player's is lethal and stops the pass at
/// once — the player cannot grow and die in the same tick once a lethal
/// contact is found — with no weight change. Any other obstacle contact
/// absorbs: the weight rises by the ceiling of a fifth of the obstacle's
/// weight, the obstacle leaves the registry, and an absorb sound, a despawn
/// and a weight display are emitted. A wall contact fires the bounce sound
/// only when the player is fast and the debounce counter strictly exceeds
/// its minimum, and then resets the counter. Any other identifier is
/// ignored.
pub open spec fn resolve_model(
    weight: int,
    obstacles: Seq<Obstacle>,
    elapsed: int,
    fast: bool,
    walls: Seq<Wall>,
    contacts: Seq<u64>,
) -> ResolveOut
    decreases contacts.len(),
{
    if contacts.len() == 0 {
        ResolveOut { died: false, weight, obstacles, elapsed, effects: Seq::empty() }
    } else {
        let id = contacts[0];
        let rest = contacts.drop_first();
        let fi = find_obstacle(obstacles, id);
        if fi >= 0 {
            if obstacles[fi].weight > weight {
                ResolveOut { died: true, weight, obstacles, elapsed, effects: Seq::empty() }
            } else {
                let nw = weight + growth_delta(obstacles[fi].weight as int);
                let step = seq![
                    Effect::PlaySound(SoundKind::AbsorbSound),
                    Effect::Despawn(id),
                    Effect::ShowWeight(nw as u64),
                ];
                prepend_effects(
                    step,
                    resolve_model(nw, obstacles.remove(fi), elapsed, fast, walls, rest),
                )
            }
        } else if is_wall_id(walls, id) {
            if fast && elapsed > DEBOUNCE_MIN_MS {
                prepend_effects(
                    seq![Effect::PlaySound(SoundKind::BounceSound)],
                    resolve_model(weight, obstacles, 0, fast, walls, rest),
                )
            } else {
                resolve_model(weight, obstacles, elapsed, fast, walls, rest)
            }
        } else {
            resolve_model(weight, obstacles, elapsed, fast, walls, rest)
        }
    }
}

/// One tick's contact pass, exactly as [`resolve_model`] states it: the
/// result, the new weight, registry, debounce counter and the appended
/// effects all equal the model's. The weight-headroom precondition is the
/// machine limit that keeps the player's unbounded growth within its type.
pub fn resolve_contacts(
    weight: &mut u64,
    obstacles: &mut Vec<Obstacle>,
    bounce_elapsed_ms: &mut u64,
    velocity: Point,
    walls: &Vec<Wall>,
    contacts: &Vec<u64>,
    effects: &mut Vec<Effect>,
) -> (died: bool)
    requires
        obstacles_weights_ok(old(obstacles)@),
        *old(weight) + MAX_GROWTH_PER_ABSORPTION * contacts@.len() <= u64::MAX,
    ensures
        ({
            let m = resolve_model(
                *old(weight) as int,
                old(obstacles)@,
                *old(bounce_elapsed_ms) as int,
                speed_exceeds(velocity),
                walls@,
                contacts@,
            );
            &&& died == m.died
            &&& *final(weight) == m.weight
            &&& final(obstacles)@ == m.obstacles
            &&& *final(bounce_elapsed_ms) == m.elapsed
            &&& final(effects)@ == old(effects)@ + m.effects
            &&& obstacles_weights_ok(final(obstacles)@)
            &&& *final(weight) >= *old(weight)
        }),
{
    let ghost w0: int = *weight as int;
    let ghost obs0: Seq<Obstacle> = obstacles@;
    let ghost e0: int = *bounce_elapsed_ms as int;
    let ghost eff0: Seq<Effect> = effects@;
    let ghost m: ResolveOut = resolve_model(
        w0,
        obs0,
        e0,
        speed_exceeds(velocity),
        walls@,
        contacts@,
    );
    let fast = speed_exceeds_threshold(velocity);
    let mut died = false;
    let mut i: usize = 0;
    proof {
        assert(contacts@.skip(0) =~= contacts@);
        assert(effects@.subrange(eff0.len() as int, effects@.len() as int) =~= Seq::<
            Effect,
        >::empty());
        assert(m.effects =~= Seq::<Effect>::empty() + m.effects);
    }
    while i < contacts.len() && !died
        invariant
            i <= contacts@.len(),
            obstacles_weights_ok(obstacles@),
            w0 <= *weight,
            *weight <= w0 + MAX_GROWTH_PER_ABSORPTION * i,
            w0 + MAX_GROWTH_PER_ABSORPTION * contacts@.len() <= u64::MAX,
            fast == speed_exceeds(velocity),
            m == resolve_model(w0, obs0, e0, fast, walls@, contacts@),
            eff0.len() <= effects@.len(),
            effects@.subrange(0, eff0.len() as int) == eff0,
            ({
                let acc = effects@.subrange(eff0.len() as int, effects@.len() as int);
                if died {
                    &&& m.died
                    &&& m.weight == *weight
                    &&& m.obstacles == obstacles@
                    &&& m.elapsed == *bounce_elapsed_ms
                    &&& m.effects == acc
                } else {
                    let rest = resolve_model(
                        *weight as int,
                        obstacles@,
                        *bounce_elapsed_ms as int,
                        fast,
                        walls@,
                        contacts@.skip(i as int),
                    );
                    &&& m.died == rest.died
                    &&& m.weight == rest.weight
                    &&& m.obstacles == rest.obstacles
                    &&& m.elapsed == rest.elapsed
                    &&& m.effects == acc + rest.effects
                }
            }),
        decreases contacts@.len() - i,
    {
        let id = contacts[i];
        let ghost tail = contacts@.skip(i as int);
        proof {
            assert(tail.len() > 0);
            assert(tail[0] == contacts@[i as int]);
            assert(tail.drop_first() =~= contacts@.skip(i as int + 1));
        }
        let ghost acc_pre = effects@.subrange(eff0.len() as int, effects@.len() as int);
        match find_obstacle_index(obstacles, id) {
            Option::Some(k) => {
                let w = obstacles[k].weight;
                if w > *weight {
                    died = true;
                    proof {
                        let dead = resolve_model(
                            *weight as int,
                            obstacles@,
                            *bounce_elapsed_ms as int,
                            fast,
                            walls@,
                            tail,
                        );
                        assert(dead.died && dead.effects =~= Seq::<Effect>::empty());
                        assert(m.effects =~= acc_pre);
                    }
                } else {
                    let d = growth_delta_u64(w);
                    *weight = *weight + d;
                    let ghost obs_pre = obstacles@;
                    let _removed = obstacles.remove(k);
                    effects.push(Effect::PlaySound(SoundKind::AbsorbSound));
                    effects.push(Effect::Despawn(id));
                    effects.push(Effect::ShowWeight(*weight));
                    proof {
                        let step = seq![
                            Effect::PlaySound(SoundKind::AbsorbSound),
                            Effect::Despawn(id),
                            Effect::ShowWeight(*weight),
                        ];
                        let acc_now = effects@.subrange(
                            eff0.len() as int,
                            effects@.len() as int,
                        );
                        assert(effects@.subrange(0, eff0.len() as int) =~= eff0);
                        assert(acc_now =~= acc_pre + step);
                        let rest_now = resolve_model(
                            *weight as int,
                            obstacles@,
                            *bounce_elapsed_ms as int,
                            fast,
                            walls@,
                            contacts@.skip(i as int + 1),
                        );
                        assert(m.effects =~= acc_now + rest_now.effects);
                        assert forall|j: int| 0 <= j < obstacles@.len() implies obstacle_weight_ok(
                            #[trigger] obstacles@[j],
                        ) by {
                            if j < k {
                                assert(obstacles@[j] == obs_pre[j]);
                            } else {
                                assert(obstacles@[j] == obs_pre[j + 1]);
                            }
                        }
                    }
                }
            },
            Option::None => {
                if is_wall_hit(walls, id) {
                    if fast && *bounce_elapsed_ms > DEBOUNCE_MIN_MS {
                        *bounce_elapsed_ms = 0;
                        effects.push(Effect::PlaySound(SoundKind::BounceSound));
                        proof {
                            let step = seq![Effect::PlaySound(SoundKind::BounceSound)];
                            let acc_now = effects@.subrange(
                                eff0.len() as int,
                                effects@.len() as int,
                            );
                            assert(effects@.subrange(0, eff0.len() as int) =~= eff0);
                            assert(acc_now =~= acc_pre + step);
                            let rest_now = resolve_model(
                                *weight as int,
                                obstacles@,
                                0,
                                fast,
                                walls@,
                                contacts@.skip(i as int + 1),
                            );
                            assert(m.effects =~= acc_now + rest_now.effects);
                        }
                    }
                }
            },
        }
        i = i + 1;
    }
    proof {
        let acc = effects@.subrange(eff0.len() as int, effects@.len() as int);
        if !died {
            assert(contacts@.skip(i as int) =~= Seq::<u64>::empty());
            assert(m.effects =~= acc);
        }
        assert(effects@ =~= eff0 + acc);
    }
    died
}

/// For every obstacle weight at most the player's weight `p`, a contact
/// with that obstacle leaves the player at `p` plus the ceiling of a fifth
/// of the obstacle's weight, removes the obstacle from the world, and emits
/// the absorb sound and the despawn.
pub proof fn lemma_absorption(
    p: int,
    obs: Seq<Obstacle>,
    elapsed: int,
    fast: bool,
    walls: Seq<Wall>,
    id: u64,
)
    requires
        find_obstacle(obs, id) >= 0,
        obs[find_obstacle(obs, id)].weight <= p,
    ensures
        ({
            let fi = find_obstacle(obs, id);
            let m = resolve_model(p, obs, elapsed, fast, walls, seq![id]);
            &&& !m.died
            &&& m.weight == p + growth_delta(obs[fi].weight as int)
            &&& m.obstacles == obs.remove(fi)
            &&& m.effects.contains(Effect::PlaySound(SoundKind::AbsorbSound))
            &&& m.effects.contains(Effect::Despawn(id))
            &&& obstacle_ids_unique(obs) ==> forall|k: int|
                0 <= k < m.obstacles.len() ==> (#[trigger] m.obstacles[k]).id != id
        }),
{
    reveal_with_fuel(resolve_model, 3);
    let fi = find_obstacle(obs, id);
    lemma_find_obstacle(obs, id);
    let contacts: Seq<u64> = seq![id];
    assert(contacts.drop_first() =~= Seq::<u64>::empty());
    let m = resolve_model(p, obs, elapsed, fast, walls, contacts);
    let step = seq![
        Effect::PlaySound(SoundKind::AbsorbSound),
        Effect::Despawn(id),
        Effect::ShowWeight((p + growth_delta(obs[fi].weight as int)) as u64),
    ];
    assert(m.effects =~= step + Seq::<Effect>::empty());
    assert(m.effects[0] == Effect::PlaySound(SoundKind::AbsorbSound));
    assert(m.effects[1] == Effect::Despawn(id));
    obs.remove_ensures(fi);
    if obstacle_ids_unique(obs) {
        assert forall|k: int| 0 <= k < m.obstacles.len() implies (#[trigger] m.obstacles[k]).id
            != id by {
            if k < fi {
                assert(m.obstacles[k] == obs[k]);
            } else {
                assert(m.obstacles[k] == obs[k + 1]);
            }
        }
    }
}

/// For every obstacle weight strictly above the player's weight `p`, the
/// contact is lethal: the pass reports a death, the player's weight is
/// unchanged by that contact, and nothing else happens in the pass.
pub proof fn lemma_lethal_contact(
    p: int,
    obs: Seq<Obstacle>,
    elapsed: int,
    fast: bool,
    walls: Seq<Wall>,
    id: u64,
)
    requires
        find_obstacle(obs, id) >= 0,
        obs[find_obstacle(obs, id)].weight > p,
    ensures
        ({
            let m = resolve_model(p, obs, elapsed, fast, walls, seq![id]);
            &&& m.died
            &&& m.weight == p
            &&& m.obstacles == obs
            &&& m.elapsed == elapsed
            &&& m.effects == Seq::<Effect>::empty()
        }),
{
    assert(seq![id].drop_first() =~= Seq::<u64>::empty());
}

/// How many bounce sounds an effect trail holds.
pub open spec fn bounce_count(eff: Seq<Effect>) -> int
    decreases eff.len(),
{
    if eff.len() == 0 {
        0
    } else {
        bounce_count(eff.drop_last()) + if eff.last() == Effect::PlaySound(
            SoundKind::BounceSound,
        ) {
            1int
        } else {
            0int
        }
    }
}

/// The bounce count of a one-effect trail.
pub proof fn lemma_bounce_count_single(e: Effect)
    ensures
        bounce_count(seq![e]) == if e == Effect::PlaySound(SoundKind::BounceSound) {
            1int
        } else {
            0int
        },
{
    reveal_with_fuel(bounce_count, 2);
    assert(seq![e].drop_last() =~= Seq::<Effect>::empty());
    assert(seq![e].last() == e);
}

/// Bounce counting distributes over concatenation.
pub proof fn lemma_bounce_count_add(a: Seq<Effect>, b: Seq<Effect>)
    ensures
        bounce_count(a + b) == bounce_count(a) + bounce_count(b),
    decreases b.len(),
{
    if b.len() == 0 {
        assert(a + b =~= a);
    } else {
        lemma_bounce_count_add(a, b.drop_last());
        assert((a + b).drop_last() =~= a + b.drop_last());
        assert((a + b).last() == b.last());
    }
}

/// Within one contact pass, at most one bounce sound fires; it fires only
/// when the debounce counter strictly exceeds its minimum on entry, and
/// firing resets the counter, which then stays at zero for the rest of the
/// pass. A pass without a bounce leaves the counter unchanged.
pub proof fn lemma_model_bounce(
    weight: int,
    obstacles: Seq<Obstacle>,
    elapsed: int,
    fast: bool,
    walls: Seq<Wall>,
    contacts: Seq<u64>,
)
    requires
        0 <= elapsed,
    ensures
        ({
            let m = resolve_model(weight, obstacles, elapsed, fast, walls, contacts);
            &&& 0 <= bounce_count(m.effects) <= 1
            &&& bounce_count(m.effects) == 1 ==> elapsed > DEBOUNCE_MIN_MS && m.elapsed == 0
            &&& bounce_count(m.effects) == 0 ==> m.elapsed == elapsed
        }),
    decreases contacts.len(),
{
    let m = resolve_model(weight, obstacles, elapsed, fast, walls, contacts);
    if contacts.len() == 0 {
    } else {
        let id = contacts[0];
        let rest = contacts.drop_first();
        let fi = find_obstacle(obstacles, id);
        if fi >= 0 {
            if obstacles[fi].weight > weight {
            } else {
                let nw = weight + growth_delta(obstacles[fi].weight as int);
                let step = seq![
                    Effect::PlaySound(SoundKind::AbsorbSound),
                    Effect::Despawn(id),
                    Effect::ShowWeight(nw as u64),
                ];
                let inner = resolve_model(nw, obstacles.remove(fi), elapsed, fast, walls, rest);
                lemma_model_bounce(nw, obstacles.remove(fi), elapsed, fast, walls, rest);
                lemma_bounce_count_add(step, inner.effects);
                let s0 = seq![Effect::PlaySound(SoundKind::AbsorbSound)];
                let s1 = seq![Effect::Despawn(id)];
                let s2 = seq![Effect::ShowWeight(nw as u64)];
                assert(step =~= (s0 + s1) + s2);
                lemma_bounce_count_add(s0 + s1, s2);
                lemma_bounce_count_add(s0, s1);
                lemma_bounce_count_single(Effect::PlaySound(SoundKind::AbsorbSound));
                lemma_bounce_count_single(Effect::Despawn(id));
                lemma_bounce_count_single(Effect::ShowWeight(nw as u64));
                assert(bounce_count(step) == 0);
            }
        } else if is_wall_id(walls, id) {
            if fast && elapsed > DEBOUNCE_MIN_MS {
                let step = seq![Effect::PlaySound(SoundKind::BounceSound)];
                let inner = resolve_model(weight, obstacles, 0, fast, walls, rest);
                lemma_model_bounce(weight, obstacles, 0, fast, walls, rest);
                lemma_bounce_count_add(step, inner.effects);
                lemma_bounce_count_single(Effect::PlaySound(SoundKind::BounceSound));
                assert(bounce_count(step) == 1);
                assert(bounce_count(inner.effects) == 0);
            } else {
                lemma_model_bounce(weight, obstacles, elapsed, fast, walls, rest);
            }
        } else {
            lemma_model_bounce(weight, obstacles, elapsed, fast, walls, rest);
        }
    }
}

/// The obstacles surviving a contact pass are an in-order selection of the
/// obstacles it started from, so the registry invariants carry over.
pub proof fn lemma_model_selection(
    weight: int,
    obstacles: Seq<Obstacle>,
    elapsed: int,
    fast: bool,
    walls: Seq<Wall>,
    contacts: Seq<u64>,
)
    ensures
        ordered_selection(
            resolve_model(weight, obstacles, elapsed, fast, walls, contacts).obstacles,
            obstacles,
        ),
    decreases contacts.len(),
{
    if contacts.len() == 0 {
        lemma_ordered_selection_refl(obstacles);
    } else {
        let id = contacts[0];
        let rest = contacts.drop_first();
        let fi = find_obstacle(obstacles, id);
        lemma_find_obstacle(obstacles, id);
        if fi >= 0 {
            if obstacles[fi].weight > weight {
                lemma_ordered_selection_refl(obstacles);
            } else {
                let nw = weight + growth_delta(obstacles[fi].weight as int);
                lemma_model_selection(nw, obstacles.remove(fi), elapsed, fast, walls, rest);
                lemma_ordered_selection_remove(obstacles, fi);
                lemma_ordered_selection_trans(
                    resolve_model(nw, obstacles.remove(fi), elapsed, fast, walls, rest).obstacles,
                    obstacles.remove(fi),
                    obstacles,
                );
            }
        } else if is_wall_id(walls, id) {
            if fast && elapsed > DEBOUNCE_MIN_MS {
                lemma_model_selection(weight, obstacles, 0, fast, walls, rest);
            } else {
                lemma_model_selection(weight, obstacles, elapsed, fast, walls, rest);
            }
        } else {
            lemma_model_selection(weight, obstacles, elapsed, fast, walls, rest);
        }
    }
}

/// A trail whose effects are all something other than the bounce sound
/// holds no bounce.
pub proof fn lemma_bounce_count_none(eff: Seq<Effect>)
    requires
        forall|k: int|
            0 <= k < eff.len() ==> (#[trigger] eff[k]) != Effect::PlaySound(SoundKind::BounceSound),
    ensures
        bounce_count(eff) == 0,
    decreases eff.len(),
{
    if eff.len() > 0 {
        lemma_bounce_count_none(eff.drop_last());
    }
}

/// The debounce counter after a tick's advance: it grows by the tick's
/// delta and saturates at the cap, far above the minimum interval.
pub open spec fn advance_debounce(e: int, delta: int) -> int {
    if e + delta > DEBOUNCE_CAP_MS {
        DEBOUNCE_CAP_MS as int
    } else {
        e + delta
    }
}

/// Executable twin of [`advance_debounce`].
pub fn advance_debounce_ms(e: u64, delta: u64) -> (r: u64)
    requires
        e <= DEBOUNCE_CAP_MS,
        delta <= MAX_TICK_MS,
    ensures
        r == advance_debounce(e as int, delta as int),
        r <= DEBOUNCE_CAP_MS,
{
    if e + delta > DEBOUNCE_CAP_MS {
        DEBOUNCE_CAP_MS
    } else {
        e + delta
    }
}

/// How one whole Playing tick treats the debounce counter: the counter
/// first advances by the tick's delta; a tick that fires the bounce sound
/// does so only with the advanced counter strictly above the minimum, and
/// resets it to zero; a tick without a bounce keeps the advanced value.
pub open spec fn debounce_step_ok(e_pre: int, delta: int, fired: bool, e_post: int) -> bool {
    &&& (fired ==> advance_debounce(e_pre, delta) > DEBOUNCE_MIN_MS && e_post == 0)
    &&& (!fired ==> e_post == advance_debounce(e_pre, delta))
}

/// Sum of the tick deltas with indices in `[a, b)`.
pub open spec fn delta_sum(deltas: Seq<int>, a: int, b: int) -> int
    decreases b - a,
{
    if b <= a {
        0
    } else {
        delta_sum(deltas, a, b - 1) + deltas[b - 1]
    }
}

/// After a tick fires the bounce sound, the debounce counter never exceeds
/// the time elapsed since: along any bounce-free stretch of ticks it stays
/// below the accumulated deltas.
proof fn lemma_debounce_accum(
    es: Seq<int>,
    deltas: Seq<int>,
    fired: Seq<bool>,
    i: int,
    k: int,
)
    requires
        es.len() == deltas.len() + 1,
        fired.len() == deltas.len(),
        forall|t: int|
            0 <= t < deltas.len() ==> debounce_step_ok(
                es[t],
                #[trigger] deltas[t],
                fired[t],
                es[t + 1],
            ),
        forall|t: int| 0 <= t < deltas.len() ==> #[trigger] deltas[t] >= 0,
        0 <= i < k <= deltas.len(),
        fired[i],
        forall|t: int| i < t < k ==> !(#[trigger] fired[t]),
    ensures
        es[k] <= delta_sum(deltas, i + 1, k),
    decreases k - i,
{
    if k == i + 1 {
        assert(debounce_step_ok(es[i], deltas[i], fired[i], es[i + 1]));
    } else {
        lemma_debounce_accum(es, deltas, fired, i, k - 1);
        assert(debounce_step_ok(es[k - 1], deltas[k - 1], fired[k - 1], es[k]));
    }
}

/// Bounce-sound intents are never emitted twice within the minimum debounce
/// interval, even under continuous qualifying wall contact: along any run
/// of ticks whose debounce behaviour follows [`debounce_step_ok`] — tick
/// `t` takes the counter from `es[t]` to `es[t+1]`, advancing it by
/// `deltas[t]`, with `fired[t]` saying whether the tick emitted a bounce
/// sound — the time between one bounce and the next strictly exceeds the
/// minimum interval.
pub proof fn lemma_bounce_debounce_interval(
    es: Seq<int>,
    deltas: Seq<int>,
    fired: Seq<bool>,
    i: int,
    j: int,
)
    requires
        es.len() == deltas.len() + 1,
        fired.len() == deltas.len(),
        forall|t: int|
            0 <= t < deltas.len() ==> debounce_step_ok(
                es[t],
                #[trigger] deltas[t],
                fired[t],
                es[t + 1],
            ),
        forall|t: int| 0 <= t < deltas.len() ==> #[trigger] deltas[t] >= 0,
        0 <= i < j < deltas.len(),
        fired[i],
        fired[j],
        forall|t: int| i < t < j ==> !(#[trigger] fired[t]),
    ensures
        delta_sum(deltas, i + 1, j + 1) > DEBOUNCE_MIN_MS,
{
    lemma_debounce_accum(es, deltas, fired, i, j);
    assert(debounce_step_ok(es[j], deltas[j], fired[j], es[j + 1]));
    assert(delta_sum(deltas, i + 1, j + 1) == delta_sum(deltas, i + 1, j) + deltas[j]);
}

} // verus!
