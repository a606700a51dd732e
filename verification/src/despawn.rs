//! Despawning of obstacles that have left the playfield.

use vstd::prelude::*;
use crate::bounds::is_outside;
use crate::bounds::is_out_of_bounds;
use crate::entities::Obstacle;
use crate::entities::ordered_selection;
use crate::entities::lemma_ordered_selection_refl;
use crate::entities::lemma_ordered_selection_push;
use crate::entities::lemma_ordered_selection_extend_full;
use crate::effects::Effect;
use crate::effects::SoundKind;
use crate::contact::bounce_count;

verus! {

/// The obstacles that stay in the world: those whose reported position is
/// not outside the playfield, in their original order.
pub open spec fn surviving(obs: Seq<Obstacle>) -> Seq<Obstacle>
    decreases obs.len(),
{
    if obs.len() == 0 {
        Seq::empty()
    } else {
        let rest = surviving(obs.drop_last());
        if is_outside(obs.last().pos) {
            rest
        } else {
            rest.push(obs.last())
        }
    }
}

/// The despawn effects of one pass: one per obstacle that left the field,
/// in registry order.
pub open spec fn despawn_trail(obs: Seq<Obstacle>) -> Seq<Effect>
    decreases obs.len(),
{
    if obs.len() == 0 {
        Seq::empty()
    } else {
        let rest = despawn_trail(obs.drop_last());
        if is_outside(obs.last().pos) {
            rest.push(Effect::Despawn(obs.last().id))
        } else {
            rest
        }
    }
}

/// The survivors are an in-order selection of the original registry, so
/// the registry invariants carry over.
pub proof fn lemma_surviving_selection(obs: Seq<Obstacle>)
    ensures
        ordered_selection(surviving(obs), obs),
    decreases obs.len(),
{
    if obs.len() == 0 {
        lemma_ordered_selection_refl(obs);
    } else {
        let butlast = obs.drop_last();
        lemma_surviving_selection(butlast);
        assert(butlast.push(obs.last()) =~= obs);
        if is_outside(obs.last().pos) {
            lemma_ordered_selection_extend_full(surviving(butlast), butlast, obs.last());
        } else {
            lemma_ordered_selection_push(surviving(butlast), butlast, obs.last());
        }
    }
}

/// A despawn trail holds no bounce sound.
pub proof fn lemma_despawn_trail_no_bounce(obs: Seq<Obstacle>)
    ensures
        bounce_count(despawn_trail(obs)) == 0,
    decreases obs.len(),
{
    if obs.len() > 0 {
        lemma_despawn_trail_no_bounce(obs.drop_last());
        let rest = despawn_trail(obs.drop_last());
        if is_outside(obs.last().pos) {
            let e = Effect::Despawn(obs.last().id);
            assert(rest.push(e).drop_last() =~= rest);
            assert(rest.push(e).last() == e);
            assert(e != Effect::PlaySound(SoundKind::BounceSound));
        }
    }
}

/// Remove every out-of-bounds obstacle, in order, emitting one despawn
/// effect per removed obstacle.
pub fn despawn_out_of_bounds(obstacles: &mut Vec<Obstacle>, effects: &mut Vec<Effect>)
    ensures
        final(obstacles)@ == surviving(old(obstacles)@),
        final(effects)@ == old(effects)@ + despawn_trail(old(obstacles)@),
{
    let ghost obs0 = obstacles@;
    let ghost eff0 = effects@;
    let mut kept: Vec<Obstacle> = Vec::new();
    let mut i: usize = 0;
    proof {
        assert(obs0.take(0) =~= Seq::<Obstacle>::empty());
        assert(effects@ =~= eff0 + despawn_trail(obs0.take(0)));
    }
    while i < obstacles.len()
        invariant
            i <= obs0.len(),
            obstacles@ == obs0,
            kept@ == surviving(obs0.take(i as int)),
            effects@ == eff0 + despawn_trail(obs0.take(i as int)),
        decreases obs0.len() - i,
    {
        proof {
            assert(obs0.take(i as int + 1).drop_last() =~= obs0.take(i as int));
            assert(obs0.take(i as int + 1).last() == obs0[i as int]);
        }
        let o = obstacles[i];
        if is_out_of_bounds(o.pos) {
            effects.push(Effect::Despawn(o.id));
            proof {
                assert(effects@ =~= eff0 + despawn_trail(obs0.take(i as int + 1)));
            }
        } else {
            kept.push(o);
        }
        i = i + 1;
    }
    proof {
        assert(obs0.take(obs0.len() as int) =~= obs0);
    }
    *obstacles = kept;
}

} // verus!
