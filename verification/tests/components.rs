use absorb_arena::bounds::Bound;
use absorb_arena::bounds::is_out_of_bounds;
use absorb_arena::bounds::random_point_on_bound;
use absorb_arena::geom::Point;
use absorb_arena::geom::isqrt;
use absorb_arena::geom::velocity_toward;
use absorb_arena::contact::growth_delta_u64;
use absorb_arena::contact::speed_exceeds_threshold;
use absorb_arena::spawn::SpawnTimer;
use absorb_arena::spawn::spawn_obstacle;
use absorb_arena::rng::GameRng;
use absorb_arena::lifecycle::Simulation;
use absorb_arena::lifecycle::GameState;
use absorb_arena::effects::Effect;
use absorb_arena::effects::SoundKind;
use absorb_arena::effects::InputCommand;

fn still() -> Point {
    Point { x: 0, y: 0 }
}

#[test]
fn points_strictly_inside_are_not_outside() {
    assert!(!is_out_of_bounds(Point { x: 0, y: 0 }));
    assert!(!is_out_of_bounds(Point { x: 939, y: 499 }));
    assert!(!is_out_of_bounds(Point { x: -939, y: -499 }));
}

#[test]
fn points_beyond_any_edge_are_outside() {
    assert!(is_out_of_bounds(Point { x: -941, y: 0 }));
    assert!(is_out_of_bounds(Point { x: 941, y: 0 }));
    assert!(is_out_of_bounds(Point { x: 0, y: 501 }));
    assert!(is_out_of_bounds(Point { x: 0, y: -501 }));
}

#[test]
fn boundary_points_count_as_inside() {
    // The documented convention: all four comparisons are strict, so a
    // point exactly on an edge is not outside.
    assert!(!is_out_of_bounds(Point { x: -940, y: 0 }));
    assert!(!is_out_of_bounds(Point { x: 940, y: 0 }));
    assert!(!is_out_of_bounds(Point { x: 0, y: 500 }));
    assert!(!is_out_of_bounds(Point { x: 0, y: -500 }));
    assert!(!is_out_of_bounds(Point { x: 940, y: 500 }));
}

#[test]
fn edge_values_match_the_arena() {
    assert_eq!(Bound::UpperBound.value(), 500);
    assert_eq!(Bound::LowerBound.value(), -500);
    assert_eq!(Bound::LeftBound.value(), -940);
    assert_eq!(Bound::RightBound.value(), 940);
}

#[test]
fn isqrt_exact_values() {
    assert_eq!(isqrt(0), 0);
    assert_eq!(isqrt(1), 1);
    assert_eq!(isqrt(2), 1);
    assert_eq!(isqrt(25), 5);
    assert_eq!(isqrt(24), 4);
    assert_eq!(isqrt(1_000_000), 1000);
}

#[test]
fn velocity_toward_axis_and_diagonal() {
    let v = velocity_toward(Point { x: 0, y: 0 }, Point { x: 10, y: 0 }, 100);
    assert_eq!((v.x, v.y), (100, 0));
    let v = velocity_toward(Point { x: 0, y: 0 }, Point { x: 0, y: -10 }, 100);
    assert_eq!((v.x, v.y), (0, -100));
    // A 3-4-5 triangle scales exactly.
    let v = velocity_toward(Point { x: 0, y: 0 }, Point { x: 30, y: 40 }, 100);
    assert_eq!((v.x, v.y), (60, 80));
    let v = velocity_toward(Point { x: 30, y: 40 }, Point { x: 0, y: 0 }, 100);
    assert_eq!((v.x, v.y), (-60, -80));
}

#[test]
fn size_derives_from_weight() {
    // 1.5 world units per weight unit, exact in half units.
    assert_eq!(absorb_arena::entities::size_half_units(15), 45);
    assert_eq!(absorb_arena::entities::size_half_units(1), 3);
    assert_eq!(absorb_arena::entities::size_half_units(100), 300);
}

#[test]
fn growth_is_ceiling_of_a_fifth() {
    assert_eq!(growth_delta_u64(1), 1);
    assert_eq!(growth_delta_u64(5), 1);
    assert_eq!(growth_delta_u64(6), 2);
    assert_eq!(growth_delta_u64(10), 2);
    assert_eq!(growth_delta_u64(11), 3);
    assert_eq!(growth_delta_u64(99), 20);
}

#[test]
fn bounce_speed_threshold_is_strict() {
    assert!(!speed_exceeds_threshold(Point { x: 50, y: 0 }));
    assert!(speed_exceeds_threshold(Point { x: 51, y: 0 }));
    assert!(!speed_exceeds_threshold(Point { x: 30, y: 40 }));
    assert!(speed_exceeds_threshold(Point { x: 30, y: 41 }));
    assert!(speed_exceeds_threshold(Point { x: -60, y: 0 }));
}

#[test]
fn spawn_timer_fires_on_the_interval() {
    let mut t = SpawnTimer::new();
    assert!(!t.advance(499));
    assert_eq!(t.elapsed_ms, 499);
    assert!(t.advance(1));
    assert_eq!(t.elapsed_ms, 0);
    // A large delta fires once and keeps the remainder.
    assert!(t.advance(1100));
    assert_eq!(t.elapsed_ms, 100);
}

#[test]
fn spawned_obstacles_stay_in_range() {
    // Every spawned obstacle draws its weight from [1, 100), starts on an
    // edge (inside the field), and really moves. This would fail if the
    // random source handed its bound back unchanged: the weight would be
    // 100.
    let mut rng = GameRng::from_seed(123);
    for id in 0..200u64 {
        let o = spawn_obstacle(&mut rng, id);
        assert_eq!(o.id, id);
        assert!(o.weight >= 1 && o.weight < 100);
        assert!(!is_out_of_bounds(o.pos));
        let on_some_edge = o.pos.y == 500
            || o.pos.y == -500
            || o.pos.x == -940
            || o.pos.x == 940;
        assert!(on_some_edge);
        assert!(o.vel.x != 0 || o.vel.y != 0);
        assert!(o.vel.x.abs() <= 100 && o.vel.y.abs() <= 100);
        assert!(o.vel.x.abs() >= 50 || o.vel.y.abs() >= 50);
    }
}

#[test]
fn same_seed_spawns_the_same_obstacles() {
    let mut a = GameRng::from_seed(77);
    let mut b = GameRng::from_seed(77);
    for id in 0..20u64 {
        let oa = spawn_obstacle(&mut a, id);
        let ob = spawn_obstacle(&mut b, id);
        assert_eq!(oa, ob);
    }
}

#[test]
fn random_points_lie_on_their_edge() {
    let mut rng = GameRng::from_seed(5);
    for _ in 0..50 {
        let p = random_point_on_bound(&mut rng, Bound::UpperBound);
        assert_eq!(p.y, 500);
        assert!(p.x >= -940 && p.x < 940);
        let q = random_point_on_bound(&mut rng, Bound::LeftBound);
        assert_eq!(q.x, -940);
        assert!(q.y >= -500 && q.y < 500);
    }
}

#[test]
fn other_random_edge_differs() {
    let mut rng = GameRng::from_seed(6);
    for _ in 0..50 {
        let b = Bound::random(&mut rng);
        let o = b.other_random(&mut rng);
        assert_ne!(b, o);
    }
}

#[test]
fn movement_last_command_wins() {
    let mut sim = Simulation::new(1);
    let effects = sim.tick(
        1000,
        &vec![InputCommand::MoveLeft, InputCommand::MoveRight],
        still(),
        &Vec::new(),
    );
    assert!(effects.contains(&Effect::SetPlayerVelocityX(10_000)));
    let effects = sim.tick(
        1000,
        &vec![InputCommand::MoveRight, InputCommand::MoveLeft],
        still(),
        &Vec::new(),
    );
    assert!(effects.contains(&Effect::SetPlayerVelocityX(-10_000)));
    let effects = sim.tick(1000, &Vec::new(), still(), &Vec::new());
    assert!(effects
        .iter()
        .all(|e| !matches!(e, Effect::SetPlayerVelocityX(_))));
}

#[test]
fn movement_scales_with_delta_time() {
    let mut sim = Simulation::new(1);
    let effects = sim.tick(16, &vec![InputCommand::MoveRight], still(), &Vec::new());
    // 10_000 * 16 / 1000 = 160.
    assert!(effects.contains(&Effect::SetPlayerVelocityX(160)));
}

#[test]
fn gravity_flip_inverts_and_returns() {
    let mut sim = Simulation::new(1);
    assert_eq!((sim.gravity.x, sim.gravity.y), (0, -1000));
    let _ = sim.tick(16, &vec![InputCommand::FlipGravity], still(), &Vec::new());
    assert_eq!((sim.gravity.x, sim.gravity.y), (0, 1000));
    let _ = sim.tick(16, &vec![InputCommand::FlipGravity], still(), &Vec::new());
    assert_eq!((sim.gravity.x, sim.gravity.y), (0, -1000));
    // Two flips within one tick cancel out.
    let _ = sim.tick(
        16,
        &vec![InputCommand::FlipGravity, InputCommand::FlipGravity],
        still(),
        &Vec::new(),
    );
    assert_eq!((sim.gravity.x, sim.gravity.y), (0, -1000));
}

#[test]
fn out_of_bounds_obstacles_despawn() {
    let mut sim = Simulation::new(2);
    let inside = sim.insert_obstacle(10, Point { x: 0, y: 0 }, still());
    let outside = sim.insert_obstacle(10, Point { x: 2000, y: 0 }, still());
    let effects = sim.tick(16, &Vec::new(), still(), &Vec::new());
    assert!(effects.contains(&Effect::Despawn(outside)));
    assert!(sim.obstacles.iter().any(|o| o.id == inside));
    assert!(sim.obstacles.iter().all(|o| o.id != outside));
}

#[test]
fn ticking_spawns_on_the_interval() {
    let mut sim = Simulation::new(8);
    let effects = sim.tick(499, &Vec::new(), still(), &Vec::new());
    assert!(effects
        .iter()
        .all(|e| !matches!(e, Effect::SpawnObstacle(_))));
    assert!(sim.obstacles.is_empty());
    let effects = sim.tick(1, &Vec::new(), still(), &Vec::new());
    assert!(effects
        .iter()
        .any(|e| matches!(e, Effect::SpawnObstacle(_))));
    assert_eq!(sim.obstacles.len(), 1);
}

#[test]
fn bounce_sound_is_debounced() {
    let mut sim = Simulation::new(4);
    let wall_id = sim.walls[0].id;
    let fast = Point { x: 200, y: 0 };
    // The counter starts at zero; after 600 ms it exceeds the 500 ms
    // minimum, so the first qualifying contact bounces.
    let effects = sim.tick(600, &Vec::new(), fast, &vec![wall_id]);
    assert!(effects.contains(&Effect::PlaySound(SoundKind::BounceSound)));
    assert_eq!(sim.bounce_elapsed_ms, 0);
    // Sustained contact right after stays silent: the counter was reset.
    let effects = sim.tick(100, &Vec::new(), fast, &vec![wall_id]);
    assert!(!effects.contains(&Effect::PlaySound(SoundKind::BounceSound)));
    let effects = sim.tick(300, &Vec::new(), fast, &vec![wall_id]);
    assert!(!effects.contains(&Effect::PlaySound(SoundKind::BounceSound)));
    // Once strictly more than 500 ms have passed since the bounce, the
    // next qualifying contact bounces again.
    let effects = sim.tick(101, &Vec::new(), fast, &vec![wall_id]);
    assert!(effects.contains(&Effect::PlaySound(SoundKind::BounceSound)));
}

#[test]
fn slow_wall_contact_stays_silent() {
    let mut sim = Simulation::new(4);
    let wall_id = sim.walls[0].id;
    let slow = Point { x: 50, y: 0 };
    let effects = sim.tick(600, &Vec::new(), slow, &vec![wall_id]);
    assert!(!effects.contains(&Effect::PlaySound(SoundKind::BounceSound)));
    assert_eq!(sim.state, GameState::Playing);
}

#[test]
fn unknown_contacts_are_ignored() {
    let mut sim = Simulation::new(4);
    let ghost_id = 987_654;
    let effects = sim.tick(16, &Vec::new(), still(), &vec![ghost_id]);
    assert_eq!(sim.state, GameState::Playing);
    assert_eq!(sim.player_weight, 15);
    assert!(effects.iter().all(|e| !matches!(e, Effect::PlaySound(_))));
}
