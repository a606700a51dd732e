//! Decoding a tick's input queue: the movement controller's velocity
//! command, the gravity flips, and the restart request.

use vstd::prelude::*;
use crate::effects::InputCommand;
use crate::config::MOVE_SPEED;
use crate::config::MAX_TICK_MS;

verus! {

/// The direction the movement controller ends the tick with: `-1` for
/// left, `1` for right, `0` when the queue holds no directional command.
/// The last directional command of the queue wins (overwrite semantics);
/// when both directions appear in one tick, whichever the queue holds last
/// determines the outcome — an inherent tie-break of the control scheme.
pub open spec fn last_direction(inputs: Seq<InputCommand>) -> int
    decreases inputs.len(),
{
    if inputs.len() == 0 {
        0
    } else if inputs.last() == InputCommand::MoveLeft {
        -1
    } else if inputs.last() == InputCommand::MoveRight {
        1
    } else {
        last_direction(inputs.drop_last())
    }
}

/// The horizontal velocity the movement controller commands for one
/// directional unit: the speed constant scaled by the tick's delta time.
pub open spec fn move_velocity(delta_ms: int) -> int {
    (MOVE_SPEED * delta_ms) / 1000
}

/// The velocity command of the tick, if the queue holds any directional
/// command: the last one wins.
pub fn movement_command(inputs: &Vec<InputCommand>, delta_ms: u64) -> (r: Option<i64>)
    requires
        delta_ms <= MAX_TICK_MS,
    ensures
        last_direction(inputs@) == 0 ==> r is None,
        last_direction(inputs@) != 0 ==> r == Option::Some(
            (last_direction(inputs@) * move_velocity(delta_ms as int)) as i64,
        ),
{
    let unit: i64 = MOVE_SPEED * (delta_ms as i64) / 1000;
    let mut dir: i64 = 0;
    let mut i: usize = 0;
    while i < inputs.len()
        invariant
            i <= inputs@.len(),
            dir == last_direction(inputs@.take(i as int)),
            dir == -1 || dir == 0 || dir == 1,
        decreases inputs@.len() - i,
    {
        let c = inputs[i];
        proof {
            assert(inputs@.take(i as int + 1).drop_last() =~= inputs@.take(i as int));
            assert(inputs@.take(i as int + 1).last() == inputs@[i as int]);
        }
        if c == InputCommand::MoveLeft {
            dir = -1;
        } else if c == InputCommand::MoveRight {
            dir = 1;
        }
        i = i + 1;
    }
    proof {
        assert(inputs@.take(inputs@.len() as int) =~= inputs@);
    }
    if dir == 0 {
        Option::None
    } else {
        Option::Some(dir * unit)
    }
}

/// Whether the queue's gravity flips leave the gravity inverted: each flip
/// exactly inverts the sign, so only the parity matters.
pub open spec fn flip_parity(inputs: Seq<InputCommand>) -> bool
    decreases inputs.len(),
{
    if inputs.len() == 0 {
        false
    } else {
        (inputs.last() == InputCommand::FlipGravity) != flip_parity(inputs.drop_last())
    }
}

/// Executable twin of [`flip_parity`].
pub fn flip_parity_of(inputs: &Vec<InputCommand>) -> (r: bool)
    ensures
        r == flip_parity(inputs@),
{
    let mut parity = false;
    let mut i: usize = 0;
    while i < inputs.len()
        invariant
            i <= inputs@.len(),
            parity == flip_parity(inputs@.take(i as int)),
        decreases inputs@.len() - i,
    {
        proof {
            assert(inputs@.take(i as int + 1).drop_last() =~= inputs@.take(i as int));
            assert(inputs@.take(i as int + 1).last() == inputs@[i as int]);
        }
        if inputs[i] == InputCommand::FlipGravity {
            parity = !parity;
        }
        i = i + 1;
    }
    proof {
        assert(inputs@.take(inputs@.len() as int) =~= inputs@);
    }
    parity
}

/// The queue asks for a restart.
pub open spec fn has_restart(inputs: Seq<InputCommand>) -> bool {
    exists|k: int| 0 <= k < inputs.len() && inputs[k] == InputCommand::Restart
}

/// Executable twin of [`has_restart`].
pub fn has_restart_cmd(inputs: &Vec<InputCommand>) -> (r: bool)
    ensures
        r == has_restart(inputs@),
{
    let mut i: usize = 0;
    while i < inputs.len()
        invariant
            i <= inputs@.len(),
            forall|k: int| 0 <= k < i ==> inputs@[k] != InputCommand::Restart,
        decreases inputs@.len() - i,
    {
        if inputs[i] == InputCommand::Restart {
            return true;
        }
        i = i + 1;
    }
    false
}

} // verus!
