//! The two-state lifecycle and the per-tick orchestration: one simulation
//! context value bundles every piece of shared state and is stepped once
//! per rendered frame.

use vstd::prelude::*;
use crate::geom::Point;
use crate::bounds::Bound;
use crate::entities::Obstacle;
use crate::entities::Wall;
use crate::entities::obstacles_weights_ok;
use crate::entities::obstacle_ids_ok;
use crate::entities::wall_ids_ok;
use crate::entities::obstacles_sep;
use crate::entities::is_wall_id;
use crate::entities::obstacle_weight_ok;
use crate::entities::lemma_ordered_selection_preserves;
use crate::motion::movement_command;
use crate::motion::flip_parity_of;
use crate::motion::has_restart;
use crate::motion::has_restart_cmd;
use crate::motion::last_direction;
use crate::motion::move_velocity;
use crate::motion::flip_parity;
use crate::despawn::despawn_out_of_bounds;
use crate::despawn::surviving;
use crate::despawn::despawn_trail;
use crate::despawn::lemma_surviving_selection;
use crate::despawn::lemma_despawn_trail_no_bounce;
use crate::contact::resolve_contacts;
use crate::contact::resolve_model;
use crate::contact::speed_exceeds;
use crate::contact::advance_debounce;
use crate::contact::advance_debounce_ms;
use crate::contact::debounce_step_ok;
use crate::contact::bounce_count;
use crate::contact::lemma_model_bounce;
use crate::contact::lemma_model_selection;
use crate::contact::lemma_bounce_count_add;
use crate::contact::lemma_bounce_count_single;
use crate::contact::lemma_bounce_count_none;
use crate::config::WEIGHT_MIN;
use crate::config::WEIGHT_LIMIT;
use crate::spawn::spawned_ok;
use crate::effects::Effect;
use crate::effects::SoundKind;
use crate::effects::InputCommand;
use crate::score::ScoreTracker;
use crate::score::raised_high;
use crate::score::recorded;
use crate::spawn::SpawnTimer;
use crate::spawn::spawn_obstacle;
use crate::rng::GameRng;
use crate::config::STARTING_WEIGHT;
use crate::config::MAX_GROWTH_PER_ABSORPTION;
use crate::config::SPAWN_INTERVAL_MS;
use crate::config::DEBOUNCE_CAP_MS;
use crate::config::MAX_TICK_MS;
use crate::config::GRAVITY_X;
use crate::config::GRAVITY_Y;

verus! {

/// The two states of the game's lifecycle; exactly one is active at a time.
#[derive(Clone, Copy, PartialEq, Eq, Structural, Debug)]
pub enum GameState {
    Playing,
    GameOver,
}

/// The wall layout of a Playing session: four walls, one per edge, in a
/// fixed order.
pub open spec fn walls_standard(ws: Seq<Wall>) -> bool {
    &&& ws.len() == 4
    &&& ws[0].bound == Bound::UpperBound
    &&& ws[1].bound == Bound::LowerBound
    &&& ws[2].bound == Bound::LeftBound
    &&& ws[3].bound == Bound::RightBound
}

/// The movement controller's effect trail for one tick's queue: nothing
/// without a directional command, else one velocity command carrying the
/// last direction scaled by the speed constant and the delta time.
pub open spec fn move_effects(inputs: Seq<InputCommand>, delta_ms: int) -> Seq<Effect> {
    if last_direction(inputs) == 0 {
        Seq::empty()
    } else {
        seq![
            Effect::SetPlayerVelocityX(
                (last_direction(inputs) * move_velocity(delta_ms)) as i64,
            ),
        ]
    }
}

/// The gravity vector after a tick's flip commands: exactly negated when
/// the queue holds an odd number of flips, untouched otherwise.
pub open spec fn gravity_after(g: Point, flipped: bool) -> Point {
    if flipped {
        Point { x: (-g.x) as i64, y: (-g.y) as i64 }
    } else {
        g
    }
}

/// Whether the spawn timer completes an interval within this tick.
pub open spec fn spawn_fires(pre: Simulation, delta_ms: u64) -> bool {
    pre.spawn_timer.elapsed_ms + delta_ms >= SPAWN_INTERVAL_MS
}

/// The spawn phase's outcome: exactly one well-formed obstacle under the
/// pre-tick allocation counter when the timer fired, none otherwise.
pub open spec fn spawn_outcome_ok(pre: Simulation, delta_ms: u64, spawned: Seq<Obstacle>) -> bool {
    if spawn_fires(pre, delta_ms) {
        spawned.len() == 1 && spawned_ok(spawned[0], pre.next_id)
    } else {
        spawned.len() == 0
    }
}

/// The spawn phase's effect trail: one registration per spawned obstacle.
pub open spec fn spawn_effects(spawned: Seq<Obstacle>) -> Seq<Effect> {
    if spawned.len() == 0 {
        Seq::empty()
    } else {
        seq![Effect::SpawnObstacle(spawned[0])]
    }
}

/// The effect trail of the Playing → GameOver transition, given the score
/// tracker before it and the player's weight at the lethal moment.
pub open spec fn end_round_effects(score: ScoreTracker, w: u64) -> Seq<Effect> {
    seq![
        Effect::PlaySound(SoundKind::GameOverSound),
        Effect::ClearPlayingScope,
        (Effect::ShowGameOverScreen {
            current: w,
            high: raised_high(score.high, w),
            new_high: w > score.high,
        }),
    ]
}

/// What one Playing tick does, for the given spawn outcome: the spawn
/// timer wraps by its interval; the gravity is negated exactly on odd flip
/// parity; the timer's firing adds exactly the spawned obstacle to the
/// registry and nothing else; the out-of-bounds obstacles of the grown
/// registry leave per `surviving` with their despawn trail; the debounce
/// counter advances by the delta and the contact pass then runs
/// `resolve_model` over the surviving registry; and its death verdict
/// decides the transition — ending the round captures the weight at the
/// lethal moment as the score and tears the session down, while a
/// survived tick carries exactly the pass's weight, registry and counter
/// into the next tick. The effect trail is the concatenation of the
/// phases' trails, in order.
pub open spec fn playing_tick_post(
    pre: Simulation,
    post: Simulation,
    delta_ms: u64,
    inputs: Seq<InputCommand>,
    velocity: Point,
    contacts: Seq<u64>,
    effects: Seq<Effect>,
    spawned: Seq<Obstacle>,
) -> bool {
    let reg1 = pre.obstacles@ + spawned;
    let reg2 = surviving(reg1);
    let e1 = advance_debounce(pre.bounce_elapsed_ms as int, delta_ms as int);
    let m = resolve_model(
        pre.player_weight as int,
        reg2,
        e1,
        speed_exceeds(velocity),
        pre.walls@,
        contacts,
    );
    let base_effects = move_effects(inputs, delta_ms as int) + spawn_effects(spawned)
        + despawn_trail(reg1) + m.effects;
    &&& spawn_outcome_ok(pre, delta_ms, spawned)
    &&& post.spawn_timer.elapsed_ms == (pre.spawn_timer.elapsed_ms + delta_ms) % (
    SPAWN_INTERVAL_MS as int)
    &&& post.gravity == gravity_after(pre.gravity, flip_parity(inputs))
    &&& post.next_id == if spawn_fires(pre, delta_ms) {
        (pre.next_id + 1) as u64
    } else {
        pre.next_id
    }
    &&& post.player_id == pre.player_id
    &&& post.player_weight == m.weight
    &&& post.bounce_elapsed_ms == m.elapsed
    &&& if m.died {
        &&& post.state == GameState::GameOver
        &&& post.score == recorded(pre.score, m.weight as u64)
        &&& post.obstacles@.len() == 0
        &&& post.walls@.len() == 0
        &&& effects == base_effects + end_round_effects(pre.score, m.weight as u64)
    } else {
        &&& post.state == GameState::Playing
        &&& post.score == pre.score
        &&& post.obstacles@ == m.obstacles
        &&& post.walls@ == pre.walls@
        &&& effects == base_effects
    }
}

/// The whole simulation context, threaded through each phase of a tick.
pub struct Simulation {
    /// The active lifecycle state.
    pub state: GameState,
    /// Current-round and all-time-high scores.
    pub score: ScoreTracker,
    /// Identifier of the player entity of the current Playing session.
    pub player_id: u64,
    /// The player's weight; positive, growing only by absorption within a
    /// session and reset on re-entering Playing.
    pub player_weight: u64,
    /// The global gravity vector the physics collaborator applies.
    pub gravity: Point,
    /// The repeating spawn countdown.
    pub spawn_timer: SpawnTimer,
    /// Elapsed time since the last wall-bounce sound, saturating at a cap.
    pub bounce_elapsed_ms: u64,
    /// The obstacle registry, keyed by stable identifiers.
    pub obstacles: Vec<Obstacle>,
    /// The wall registry of the current Playing session.
    pub walls: Vec<Wall>,
    /// The allocation counter: every identifier handed out so far is below
    /// it.
    pub next_id: u64,
    /// The seedable random source all spawning draws from.
    pub rng: GameRng,
}

impl Simulation {
    /// Well-formedness: weights in range, identifiers unique and separated,
    /// timers within their bounds, gravity one of its two orientations, and
    /// each state's entity scope as the lifecycle demands.
    pub open spec fn wf(self) -> bool {
        &&& self.player_weight >= 1
        &&& obstacles_weights_ok(self.obstacles@)
        &&& obstacle_ids_ok(self.obstacles@, self.next_id)
        &&& wall_ids_ok(self.walls@, self.next_id)
        &&& self.player_id < self.next_id
        &&& obstacles_sep(self.obstacles@, self.walls@, self.player_id)
        &&& self.spawn_timer.elapsed_ms < SPAWN_INTERVAL_MS
        &&& self.bounce_elapsed_ms <= DEBOUNCE_CAP_MS
        &&& self.gravity.x == 0
        &&& (self.gravity.y == GRAVITY_Y || self.gravity.y == -GRAVITY_Y)
        &&& (self.state == GameState::Playing ==> walls_standard(self.walls@))
        &&& (self.state == GameState::GameOver ==> self.obstacles@.len() == 0
            && self.walls@.len() == 0)
    }

    /// A fresh process: entering Playing for the first time, with both
    /// score cells at zero, the standard wall layout, a player at the
    /// starting weight, and gravity straight down.
    pub fn new(seed: u64) -> (s: Simulation)
        ensures
            s.wf(),
            s.state == GameState::Playing,
            s.player_weight == STARTING_WEIGHT,
            s.score.current == 0,
            s.score.high == 0,
            s.obstacles@.len() == 0,
            walls_standard(s.walls@),
            s.gravity == (Point { x: GRAVITY_X, y: GRAVITY_Y }),
            s.spawn_timer.elapsed_ms == 0,
            s.bounce_elapsed_ms == 0,
    {
        let mut walls: Vec<Wall> = Vec::new();
        walls.push(Wall { id: 0, bound: Bound::UpperBound });
        walls.push(Wall { id: 1, bound: Bound::LowerBound });
        walls.push(Wall { id: 2, bound: Bound::LeftBound });
        walls.push(Wall { id: 3, bound: Bound::RightBound });
        let s = Simulation {
            state: GameState::Playing,
            score: ScoreTracker::new(),
            player_id: 4,
            player_weight: STARTING_WEIGHT,
            gravity: Point { x: GRAVITY_X, y: GRAVITY_Y },
            spawn_timer: SpawnTimer::new(),
            bounce_elapsed_ms: 0,
            obstacles: Vec::new(),
            walls,
            next_id: 5,
            rng: GameRng::from_seed(seed),
        };
        s
    }

    /// Exit Playing on a death decision and enter GameOver: capture the
    /// round's score from the player's weight at the lethal moment, emit
    /// the game-over sound, tear down every Playing-scoped entity, raise
    /// the high score if beaten, and build the game-over presentation.
    pub fn end_round(&mut self, effects: &mut Vec<Effect>)
        requires
            old(self).wf(),
            old(self).state == GameState::Playing,
        ensures
            final(self).wf(),
            final(self).state == GameState::GameOver,
            final(self).score == recorded(old(self).score, old(self).player_weight),
            final(self).obstacles@.len() == 0,
            final(self).walls@.len() == 0,
            final(self).player_weight == old(self).player_weight,
            final(self).bounce_elapsed_ms == old(self).bounce_elapsed_ms,
            final(self).next_id == old(self).next_id,
            final(self).player_id == old(self).player_id,
            final(self).spawn_timer == old(self).spawn_timer,
            final(self).gravity == old(self).gravity,
            final(effects)@ == old(effects)@ + end_round_effects(
                old(self).score,
                old(self).player_weight,
            ),
    {
        let ghost eff0 = effects@;
        let new_high = self.score.record_round(self.player_weight);
        effects.push(Effect::PlaySound(SoundKind::GameOverSound));
        self.obstacles = Vec::new();
        self.walls = Vec::new();
        effects.push(Effect::ClearPlayingScope);
        effects.push(
            Effect::ShowGameOverScreen {
                current: self.score.current,
                high: self.score.high,
                new_high,
            },
        );
        self.state = GameState::GameOver;
        proof {
            assert(effects@ =~= eff0 + end_round_effects(
                old(self).score,
                old(self).player_weight,
            ));
        }
    }

    /// Exit GameOver on a restart command and re-enter Playing: tear down
    /// the game-over presentation, reset the per-round score cell, and
    /// build a fresh layout — the standard walls, a new player at the
    /// starting weight, both timers at zero — structurally identical to
    /// the first round's. The high score and the gravity orientation
    /// persist across rounds.
    pub fn start_round(&mut self, effects: &mut Vec<Effect>)
        requires
            old(self).wf(),
            old(self).state == GameState::GameOver,
            old(self).next_id <= u64::MAX - 8,
        ensures
            final(self).wf(),
            final(self).state == GameState::Playing,
            final(self).player_weight == STARTING_WEIGHT,
            final(self).score.current == 0,
            final(self).score.high == old(self).score.high,
            final(self).obstacles@.len() == 0,
            walls_standard(final(self).walls@),
            final(self).spawn_timer.elapsed_ms == 0,
            final(self).bounce_elapsed_ms == 0,
            final(self).gravity == old(self).gravity,
            final(self).next_id == old(self).next_id + 5,
            final(effects)@ == old(effects)@ + seq![
                Effect::ClearGameOverScope,
                Effect::SetupPlaying,
            ],
    {
        let ghost eff0 = effects@;
        self.score.reset_round();
        self.player_weight = STARTING_WEIGHT;
        let base = self.next_id;
        let mut walls: Vec<Wall> = Vec::new();
        walls.push(Wall { id: base, bound: Bound::UpperBound });
        walls.push(Wall { id: base + 1, bound: Bound::LowerBound });
        walls.push(Wall { id: base + 2, bound: Bound::LeftBound });
        walls.push(Wall { id: base + 3, bound: Bound::RightBound });
        self.walls = walls;
        self.player_id = base + 4;
        self.next_id = base + 5;
        self.spawn_timer = SpawnTimer::new();
        self.bounce_elapsed_ms = 0;
        self.state = GameState::Playing;
        effects.push(Effect::ClearGameOverScope);
        effects.push(Effect::SetupPlaying);
        proof {
            assert(effects@ =~= eff0 + seq![
                Effect::ClearGameOverScope,
                Effect::SetupPlaying,
            ]);
        }
    }

    /// Register an externally built obstacle under a fresh identifier: the
    /// deterministic counterpart of the random spawner, for hosts and tests
    /// that need a known world.
    pub fn insert_obstacle(&mut self, weight: u64, pos: Point, vel: Point) -> (id: u64)
        requires
            old(self).wf(),
            old(self).state == GameState::Playing,
            WEIGHT_MIN <= weight < WEIGHT_LIMIT,
            old(self).next_id < u64::MAX,
        ensures
            final(self).wf(),
            id == old(self).next_id,
            final(self).obstacles@ == old(self).obstacles@.push(
                Obstacle { id, weight, pos, vel },
            ),
            final(self).next_id == old(self).next_id + 1,
            final(self).state == old(self).state,
            final(self).score == old(self).score,
            final(self).player_weight == old(self).player_weight,
            final(self).walls@ == old(self).walls@,
            final(self).bounce_elapsed_ms == old(self).bounce_elapsed_ms,
            final(self).spawn_timer == old(self).spawn_timer,
    {
        let id = self.next_id;
        let o = Obstacle { id, weight, pos, vel };
        proof {
            lemma_push_fresh_obstacle(
                self.obstacles@,
                self.walls@,
                self.player_id,
                self.next_id,
                o,
            );
        }
        self.obstacles.push(o);
        self.next_id = id + 1;
        id
    }

    /// One simulation step. While Playing: decode the tick's inputs into
    /// the movement velocity command and the gravity flips, advance the
    /// spawn timer and spawn at most one obstacle, despawn the obstacles
    /// that left the field, advance the bounce debounce counter, resolve
    /// the contact list the physics collaborator reported, and drive the
    /// Playing → GameOver transition if a contact was lethal. While
    /// GameOver the tick is inert until a restart command drives
    /// GameOver → Playing. The weight-headroom and identifier-headroom
    /// preconditions are the machine limits that keep unbounded growth and
    /// allocation within their types.
    #[verifier::rlimit(100)]
    pub fn tick(
        &mut self,
        delta_ms: u64,
        inputs: &Vec<InputCommand>,
        player_velocity: Point,
        contacts: &Vec<u64>,
    ) -> (effects: Vec<Effect>)
        requires
            old(self).wf(),
            delta_ms <= MAX_TICK_MS,
            old(self).player_weight + MAX_GROWTH_PER_ABSORPTION * contacts@.len() <= u64::MAX,
            old(self).next_id <= u64::MAX - 8,
        ensures
            final(self).wf(),
            // The high score never decreases, tick over tick.
            final(self).score.high >= old(self).score.high,
            final(self).next_id >= old(self).next_id,
            // GameOver is inert without a restart command.
            (old(self).state == GameState::GameOver && !has_restart(inputs@)) ==> *final(self)
                == *old(self) && effects@ == Seq::<Effect>::empty(),
            // A restart re-enters Playing with a fresh layout and weight.
            (old(self).state == GameState::GameOver && has_restart(inputs@)) ==> {
                &&& final(self).state == GameState::Playing
                &&& final(self).player_weight == STARTING_WEIGHT
                &&& final(self).score.current == 0
                &&& final(self).score.high == old(self).score.high
                &&& final(self).obstacles@.len() == 0
                &&& walls_standard(final(self).walls@)
                &&& effects@ == seq![Effect::ClearGameOverScope, Effect::SetupPlaying]
            },
            // A Playing tick does exactly what its phases say, for some
            // spawn outcome: the existential covers the one random draw.
            old(self).state == GameState::Playing ==> exists|spawned: Seq<Obstacle>|
                playing_tick_post(
                    *old(self),
                    *final(self),
                    delta_ms,
                    inputs@,
                    player_velocity,
                    contacts@,
                    effects@,
                    spawned,
                ),
            old(self).state == GameState::Playing ==> {
                // Within a session the weight only grows and no score is
                // touched; a lethal contact captures the weight at the
                // lethal moment as the round's score, raises the high
                // score if beaten, and tears the session down.
                &&& (final(self).state == GameState::Playing ==> final(self).player_weight
                    >= old(self).player_weight && final(self).score == old(self).score)
                &&& (final(self).state == GameState::GameOver ==> {
                    &&& final(self).score.current == final(self).player_weight
                    &&& final(self).score.current >= old(self).player_weight
                    &&& final(self).score.high == raised_high(
                        old(self).score.high,
                        final(self).score.current,
                    )
                    &&& final(self).obstacles@.len() == 0
                    &&& effects@.contains(Effect::PlaySound(SoundKind::GameOverSound))
                    &&& effects@.contains(
                        (Effect::ShowGameOverScreen {
                            current: final(self).score.current,
                            high: final(self).score.high,
                            new_high: final(self).score.current > old(self).score.high,
                        }),
                    )
                })
                // At most one bounce sound per tick, gated and reset by
                // the debounce counter.
                &&& 0 <= bounce_count(effects@) <= 1
                &&& debounce_step_ok(
                    old(self).bounce_elapsed_ms as int,
                    delta_ms as int,
                    bounce_count(effects@) == 1,
                    final(self).bounce_elapsed_ms as int,
                )
            },
    {
        let mut effects: Vec<Effect> = Vec::new();
        proof {
            assert(effects@ =~= Seq::<Effect>::empty());
        }
        match self.state {
            GameState::GameOver => {
                if has_restart_cmd(inputs) {
                    self.start_round(&mut effects);
                    proof {
                        assert(effects@ =~= seq![
                            Effect::ClearGameOverScope,
                            Effect::SetupPlaying,
                        ]);
                    }
                }
                effects
            },
            GameState::Playing => {
                // Movement: the last directional command of the queue wins.
                match movement_command(inputs, delta_ms) {
                    Option::Some(v) => {
                        let ghost pre = effects@;
                        effects.push(Effect::SetPlayerVelocityX(v));
                        proof {
                            assert(effects@ =~= pre + seq![Effect::SetPlayerVelocityX(v)]);
                            lemma_bounce_count_add(pre, seq![Effect::SetPlayerVelocityX(v)]);
                            lemma_bounce_count_single(Effect::SetPlayerVelocityX(v));
                        }
                    },
                    Option::None => {},
                }
                proof {
                    assert(effects@ =~= move_effects(inputs@, delta_ms as int));
                }
                // Gravity: each flip command inverts the vector once.
                if flip_parity_of(inputs) {
                    self.gravity = Point { x: -self.gravity.x, y: -self.gravity.y };
                }
                proof {
                    assert(self.gravity == gravity_after(
                        old(self).gravity,
                        flip_parity(inputs@),
                    ));
                }
                // Spawn: at most one obstacle per tick.
                let ghost mut spawned: Seq<Obstacle> = Seq::empty();
                let fired = self.spawn_timer.advance(delta_ms);
                if fired {
                    let o = spawn_obstacle(&mut self.rng, self.next_id);
                    proof {
                        spawned = seq![o];
                        lemma_push_fresh_obstacle(
                            self.obstacles@,
                            self.walls@,
                            self.player_id,
                            self.next_id,
                            o,
                        );
                    }
                    self.obstacles.push(o);
                    self.next_id = self.next_id + 1;
                    let ghost pre = effects@;
                    effects.push(Effect::SpawnObstacle(o));
                    proof {
                        assert(effects@ =~= pre + seq![Effect::SpawnObstacle(o)]);
                        lemma_bounce_count_add(pre, seq![Effect::SpawnObstacle(o)]);
                        lemma_bounce_count_single(Effect::SpawnObstacle(o));
                    }
                }
                proof {
                    assert(spawn_outcome_ok(*old(self), delta_ms, spawned));
                    assert(self.obstacles@ =~= old(self).obstacles@ + spawned);
                    assert(effects@ =~= move_effects(inputs@, delta_ms as int) + spawn_effects(
                        spawned,
                    ));
                }
                // Despawn the obstacles that left the field.
                let ghost reg1 = self.obstacles@;
                let ghost pre_despawn_eff = effects@;
                despawn_out_of_bounds(&mut self.obstacles, &mut effects);
                proof {
                    lemma_surviving_selection(reg1);
                    lemma_ordered_selection_preserves(
                        self.obstacles@,
                        reg1,
                        self.next_id,
                        self.walls@,
                        self.player_id,
                    );
                    lemma_bounce_count_add(pre_despawn_eff, despawn_trail(reg1));
                    lemma_despawn_trail_no_bounce(reg1);
                    assert(effects@ == move_effects(inputs@, delta_ms as int) + spawn_effects(
                        spawned,
                    ) + despawn_trail(reg1));
                }
                // Advance the debounce counter, then resolve the reported
                // contacts.
                self.bounce_elapsed_ms = advance_debounce_ms(self.bounce_elapsed_ms, delta_ms);
                let ghost w_mid = self.player_weight;
                let ghost obs_mid = self.obstacles@;
                let ghost e_mid = self.bounce_elapsed_ms;
                let ghost eff_mid = effects@;
                let died = resolve_contacts(
                    &mut self.player_weight,
                    &mut self.obstacles,
                    &mut self.bounce_elapsed_ms,
                    player_velocity,
                    &self.walls,
                    contacts,
                    &mut effects,
                );
                let ghost m = resolve_model(
                    w_mid as int,
                    obs_mid,
                    e_mid as int,
                    speed_exceeds(player_velocity),
                    self.walls@,
                    contacts@,
                );
                proof {
                    lemma_model_selection(
                        w_mid as int,
                        obs_mid,
                        e_mid as int,
                        speed_exceeds(player_velocity),
                        self.walls@,
                        contacts@,
                    );
                    lemma_ordered_selection_preserves(
                        self.obstacles@,
                        obs_mid,
                        self.next_id,
                        self.walls@,
                        self.player_id,
                    );
                    lemma_model_bounce(
                        w_mid as int,
                        obs_mid,
                        e_mid as int,
                        speed_exceeds(player_velocity),
                        self.walls@,
                        contacts@,
                    );
                    lemma_bounce_count_add(eff_mid, m.effects);
                    assert(bounce_count(eff_mid) == 0);
                    assert(obs_mid == surviving(reg1));
                    assert(e_mid == advance_debounce(
                        old(self).bounce_elapsed_ms as int,
                        delta_ms as int,
                    ));
                    assert(effects@ == move_effects(inputs@, delta_ms as int) + spawn_effects(
                        spawned,
                    ) + despawn_trail(reg1) + m.effects);
                }
                // Lifecycle transition: a death decision ends the round.
                if died {
                    proof {
                        assert(self.player_weight == (m.weight) as u64);
                    }
                    let ghost pre_end = effects@;
                    self.end_round(&mut effects);
                    proof {
                        let tail = end_round_effects(old(self).score, (m.weight) as u64);
                        assert(effects@ =~= pre_end + tail);
                        lemma_bounce_count_add(pre_end, tail);
                        lemma_bounce_count_none(tail);
                        assert(effects@[pre_end.len() as int] == tail[0]);
                        assert(effects@[pre_end.len() as int + 2] == tail[2]);
                    }
                }
                proof {
                    let pre = *old(self);
                    let post = *self;
                    let reg2 = surviving(reg1);
                    let e1 = advance_debounce(pre.bounce_elapsed_ms as int, delta_ms as int);
                    let mm = resolve_model(
                        pre.player_weight as int,
                        reg2,
                        e1,
                        speed_exceeds(player_velocity),
                        pre.walls@,
                        contacts@,
                    );
                    assert(mm == m);
                    assert(spawn_outcome_ok(pre, delta_ms, spawned));
                    assert(post.spawn_timer.elapsed_ms == (pre.spawn_timer.elapsed_ms
                        + delta_ms) % (SPAWN_INTERVAL_MS as int));
                    assert(post.gravity == gravity_after(pre.gravity, flip_parity(inputs@)));
                    assert(post.player_id == pre.player_id);
                    assert(post.player_weight == mm.weight);
                    assert(post.bounce_elapsed_ms == mm.elapsed);
                    assert(playing_tick_post(
                        *old(self),
                        *self,
                        delta_ms,
                        inputs@,
                        player_velocity,
                        contacts@,
                        effects@,
                        spawned,
                    ));
                    assert(exists|sp: Seq<Obstacle>|
                        playing_tick_post(
                            *old(self),
                            *self,
                            delta_ms,
                            inputs@,
                            player_velocity,
                            contacts@,
                            effects@,
                            sp,
                        ));
                }
                effects
            },
        }
    }
}

/// The registry invariants survive pushing a freshly allocated obstacle.
proof fn lemma_push_fresh_obstacle(
    obs: Seq<Obstacle>,
    walls: Seq<Wall>,
    player_id: u64,
    next_id: u64,
    o: Obstacle,
)
    requires
        obstacles_weights_ok(obs),
        obstacle_ids_ok(obs, next_id),
        wall_ids_ok(walls, next_id),
        player_id < next_id,
        obstacles_sep(obs, walls, player_id),
        o.id == next_id,
        obstacle_weight_ok(o),
        next_id < u64::MAX,
    ensures
        obstacles_weights_ok(obs.push(o)),
        obstacle_ids_ok(obs.push(o), (next_id + 1) as u64),
        obstacles_sep(obs.push(o), walls, player_id),
{
    let obs2 = obs.push(o);
    assert forall|k: int| 0 <= k < obs2.len() implies obstacle_weight_ok(#[trigger] obs2[k]) by {
        if k < obs.len() {
            assert(obs2[k] == obs[k]);
        }
    }
    assert forall|j: int, k: int| 0 <= j < k < obs2.len() implies (#[trigger] obs2[j].id) < (
    #[trigger] obs2[k].id) by {
        if k < obs.len() {
            assert(obs2[j] == obs[j] && obs2[k] == obs[k]);
        } else {
            assert(obs2[j] == obs[j] && obs2[k] == o);
        }
    }
    assert forall|k: int| 0 <= k < obs2.len() implies (#[trigger] obs2[k].id) < next_id + 1 by {
        if k < obs.len() {
            assert(obs2[k] == obs[k]);
        }
    }
    assert forall|k: int| 0 <= k < obs2.len() implies ((#[trigger] obs2[k]).id != player_id
        && !is_wall_id(walls, obs2[k].id)) by {
        if k < obs.len() {
            assert(obs2[k] == obs[k]);
        } else {
            assert(obs2[k] == o);
            if is_wall_id(walls, o.id) {
                let t = choose|t: int| 0 <= t < walls.len() && walls[t].id == o.id;
                assert(walls[t].id < next_id);
            }
        }
    }
}

/// Re-entering Playing produces a wall layout identical in structure to
/// the first round's: any two well-formed Playing states agree on the
/// number of walls and on which edge each wall closes off, whatever round
/// they belong to.
pub proof fn lemma_playing_layout_identical(a: Simulation, b: Simulation)
    requires
        a.wf(),
        b.wf(),
        a.state == GameState::Playing,
        b.state == GameState::Playing,
    ensures
        a.walls@.len() == b.walls@.len(),
        forall|k: int| 0 <= k < a.walls@.len() ==> a.walls@[k].bound == b.walls@[k].bound,
{
    assert(walls_standard(a.walls@) && walls_standard(b.walls@));
    assert forall|k: int| 0 <= k < a.walls@.len() implies a.walls@[k].bound == b.walls@[k].bound by {
        assert(0 <= k < 4);
    }
}

} // verus!
