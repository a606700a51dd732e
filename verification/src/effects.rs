//! The discrete interfaces of the core: the commands it consumes and the
//! effects it emits for the host layer to perform.

use vstd::prelude::*;
use crate::entities::Obstacle;

verus! {

/// A decoded input command, one per input poll while held.
#[derive(Clone, Copy, PartialEq, Eq, Structural, Debug)]
pub enum InputCommand {
    MoveLeft,
    MoveRight,
    FlipGravity,
    Restart,
}

/// The sounds the core can ask the audio collaborator to play.
#[derive(Clone, Copy, PartialEq, Eq, Structural, Debug)]
pub enum SoundKind {
    AbsorbSound,
    BounceSound,
    GameOverSound,
}

/// An intent emitted by the simulation for the presentation and physics
/// collaborators; the core performs none of them itself.
#[derive(Clone, Copy, PartialEq, Eq, Structural, Debug)]
pub enum Effect {
    /// Set the player body's horizontal velocity (world units per second).
    SetPlayerVelocityX(i64),
    /// Register the newly spawned obstacle with physics and rendering.
    SpawnObstacle(Obstacle),
    /// Remove one entity, by identifier, from the world.
    Despawn(u64),
    /// Update the player's displayed weight text and derived size.
    ShowWeight(u64),
    /// Play the named sound once.
    PlaySound(SoundKind),
    /// Tear down every Playing-scoped entity (player, walls, obstacles).
    ClearPlayingScope,
    /// Build the game-over presentation from the scores; `new_high` marks a
    /// round that raised the high score.
    ShowGameOverScreen { current: u64, high: u64, new_high: bool },
    /// Tear down the game-over presentation.
    ClearGameOverScope,
    /// Create the fresh round's walls and player from the simulation state.
    SetupPlaying,
}

} // verus!
