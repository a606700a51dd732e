use absorb_arena::lifecycle::Simulation;
use absorb_arena::lifecycle::GameState;
use absorb_arena::geom::Point;
use absorb_arena::effects::Effect;
use absorb_arena::effects::SoundKind;
use absorb_arena::effects::InputCommand;
use absorb_arena::bounds::Bound;

fn still() -> Point {
    Point { x: 0, y: 0 }
}

fn no_inputs() -> Vec<InputCommand> {
    Vec::new()
}

/// Absorb one obstacle of the given weight in an otherwise quiet tick.
fn absorb_one(sim: &mut Simulation, weight: u64) -> Vec<Effect> {
    let id = sim.insert_obstacle(weight, Point { x: 100, y: 100 }, still());
    sim.tick(16, &no_inputs(), still(), &vec![id])
}

/// Grow the player to exactly the wanted weight by absorbing weight-5
/// obstacles, each adding ceil(5 / 5) = 1.
fn grow_to(sim: &mut Simulation, wanted: u64) {
    assert!(wanted >= sim.player_weight);
    while sim.player_weight < wanted {
        let before = sim.player_weight;
        absorb_one(sim, 5);
        assert_eq!(sim.player_weight, before + 1);
    }
}

/// End the round on a lethal contact: weight 99 tops every reachable
/// player weight in these scenarios.
fn die(sim: &mut Simulation) -> Vec<Effect> {
    absorb_one(sim, 99)
}

#[test]
fn absorbing_smaller_obstacle_grows_player() {
    // Player at the starting weight 15 contacts an obstacle of weight 10:
    // the weight becomes 17, the obstacle despawns, and the absorb sound
    // fires.
    let mut sim = Simulation::new(42);
    assert_eq!(sim.player_weight, 15);
    let id = sim.insert_obstacle(10, Point { x: 50, y: -50 }, still());
    let effects = sim.tick(16, &no_inputs(), still(), &vec![id]);
    assert_eq!(sim.player_weight, 17);
    assert!(sim.obstacles.iter().all(|o| o.id != id));
    assert!(effects.contains(&Effect::PlaySound(SoundKind::AbsorbSound)));
    assert!(effects.contains(&Effect::Despawn(id)));
    assert!(effects.contains(&Effect::ShowWeight(17)));
    assert_eq!(sim.state, GameState::Playing);
}

#[test]
fn equal_weight_obstacle_is_absorbed() {
    // The lethal rule is strict: an obstacle exactly at the player's
    // weight is absorbed, adding ceil(15 / 5) = 3.
    let mut sim = Simulation::new(42);
    let effects = absorb_one(&mut sim, 15);
    assert_eq!(sim.player_weight, 18);
    assert_eq!(sim.state, GameState::Playing);
    assert!(effects.contains(&Effect::PlaySound(SoundKind::AbsorbSound)));
}

#[test]
fn larger_obstacle_ends_the_round() {
    // Player at weight 15 contacts an obstacle of weight 40: the round
    // ends, the score captures 15, the game-over sound fires, and every
    // Playing-scoped entity is torn down.
    let mut sim = Simulation::new(7);
    let id = sim.insert_obstacle(40, Point { x: 50, y: -50 }, still());
    let effects = sim.tick(16, &no_inputs(), still(), &vec![id]);
    assert_eq!(sim.state, GameState::GameOver);
    assert_eq!(sim.score.current, 15);
    assert_eq!(sim.player_weight, 15);
    assert!(effects.contains(&Effect::PlaySound(SoundKind::GameOverSound)));
    assert!(effects.contains(&Effect::ClearPlayingScope));
    assert!(effects.contains(&Effect::ShowGameOverScreen {
        current: 15,
        high: 15,
        new_high: true,
    }));
    assert!(sim.obstacles.is_empty());
    assert!(sim.walls.is_empty());
}

#[test]
fn lethal_contact_stops_the_tick() {
    // A lethal contact short-circuits the remaining contacts of the tick:
    // the obstacle listed after it is not absorbed.
    let mut sim = Simulation::new(7);
    let lethal = sim.insert_obstacle(40, Point { x: 50, y: -50 }, still());
    let small = sim.insert_obstacle(10, Point { x: -50, y: 50 }, still());
    let _ = sim.tick(16, &no_inputs(), still(), &vec![lethal, small]);
    assert_eq!(sim.state, GameState::GameOver);
    assert_eq!(sim.score.current, 15);
}

#[test]
fn absorptions_before_lethal_contact_count() {
    // Contacts are processed in report order: an absorption listed before
    // the lethal contact still grows the player, and the captured score is
    // the weight at the lethal moment.
    let mut sim = Simulation::new(7);
    let small = sim.insert_obstacle(10, Point { x: -50, y: 50 }, still());
    let lethal = sim.insert_obstacle(90, Point { x: 50, y: -50 }, still());
    let _ = sim.tick(16, &no_inputs(), still(), &vec![small, lethal]);
    assert_eq!(sim.state, GameState::GameOver);
    assert_eq!(sim.score.current, 17);
}

#[test]
fn new_high_score_is_recorded() {
    // A round ending at 50 against a prior high of 30 raises the high
    // score and marks the round as a new high.
    let mut sim = Simulation::new(3);
    grow_to(&mut sim, 30);
    die(&mut sim);
    assert_eq!(sim.score.current, 30);
    assert_eq!(sim.score.high, 30);
    let _ = sim.tick(16, &vec![InputCommand::Restart], still(), &Vec::new());
    assert_eq!(sim.state, GameState::Playing);
    grow_to(&mut sim, 50);
    let effects = die(&mut sim);
    assert_eq!(sim.score.current, 50);
    assert_eq!(sim.score.high, 50);
    assert!(effects.contains(&Effect::ShowGameOverScreen {
        current: 50,
        high: 50,
        new_high: true,
    }));
}

#[test]
fn lower_round_keeps_the_high_score() {
    // A round ending at 20 against a prior high of 30 leaves the high
    // score at 30 and the presentation shows it without the new-high mark.
    let mut sim = Simulation::new(3);
    grow_to(&mut sim, 30);
    die(&mut sim);
    assert_eq!(sim.score.high, 30);
    let _ = sim.tick(16, &vec![InputCommand::Restart], still(), &Vec::new());
    grow_to(&mut sim, 20);
    let effects = die(&mut sim);
    assert_eq!(sim.score.current, 20);
    assert_eq!(sim.score.high, 30);
    assert!(effects.contains(&Effect::ShowGameOverScreen {
        current: 20,
        high: 30,
        new_high: false,
    }));
}

#[test]
fn high_score_never_decreases_across_rounds() {
    let mut sim = Simulation::new(11);
    let mut last_high = sim.score.high;
    for round in 0..4 {
        grow_to(&mut sim, 15 + 5 * (4 - round));
        die(&mut sim);
        assert!(sim.score.high >= last_high);
        last_high = sim.score.high;
        let _ = sim.tick(16, &vec![InputCommand::Restart], still(), &Vec::new());
    }
    assert_eq!(sim.score.high, 35);
}

#[test]
fn restart_resets_weight_and_layout() {
    // Re-entering Playing resets the player weight to the starting
    // constant and rebuilds the same wall structure as the first round.
    let mut sim = Simulation::new(9);
    let first_layout: Vec<Bound> = sim.walls.iter().map(|w| w.bound).collect();
    grow_to(&mut sim, 40);
    die(&mut sim);
    assert_eq!(sim.state, GameState::GameOver);
    let effects = sim.tick(16, &vec![InputCommand::Restart], still(), &Vec::new());
    assert_eq!(sim.state, GameState::Playing);
    assert_eq!(sim.player_weight, 15);
    assert_eq!(sim.score.current, 0);
    assert_eq!(sim.score.high, 40);
    let layout: Vec<Bound> = sim.walls.iter().map(|w| w.bound).collect();
    assert_eq!(layout, first_layout);
    assert!(sim.obstacles.is_empty());
    assert!(effects.contains(&Effect::ClearGameOverScope));
    assert!(effects.contains(&Effect::SetupPlaying));
}

#[test]
fn game_over_ignores_other_commands() {
    let mut sim = Simulation::new(9);
    die(&mut sim);
    let effects = sim.tick(
        500,
        &vec![
            InputCommand::MoveLeft,
            InputCommand::MoveRight,
            InputCommand::FlipGravity,
        ],
        still(),
        &Vec::new(),
    );
    assert_eq!(sim.state, GameState::GameOver);
    assert!(effects.is_empty());
    assert_eq!(sim.score.current, 15);
}
