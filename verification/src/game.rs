//! The game orchestrator: the Title/Playing/LevelComplete state machine,
//! the fixed-timestep accumulator, pickup and enemy-contact resolution,
//! scoring and respawn.  The simulation emits discrete event tags; a
//! presentation layer outside the library turns them into sound and music.

use vstd::prelude::*;

use crate::config::{CfgM, Config};
use crate::enemy::{enemy_init, enemy_step, Enemy, EnemyM};
use crate::geom::{
    rect_of, rects_overlap, Recti, Vec2i, R4, V2, COORD_LIMIT, SIZE_LIMIT, SUBPIXEL,
};
use crate::input::InputState;
use crate::physics::rects_view;
use crate::player::{
    min_i, player_init, player_step, step_first_jump, step_gravity, step_move, step_timers,
    Player, PlayerM,
};
use crate::world::{div_nn, pt_ok, pts_ok, pts_view, spec_goal_rect, World, WorldM, GRID_LIMIT};

verus! {

/// The orchestrator's phase.  No other phases exist.
#[derive(Clone, Copy, PartialEq, Eq, Structural, Debug)]
pub enum GameState {
    Title,
    Playing,
    LevelComplete,
}

/// A discrete event emitted by one simulation step, in the order the
/// underlying effects fired.
#[derive(Clone, Copy, PartialEq, Eq, Structural, Debug)]
pub enum GameEvent {
    Jumped,
    CoinCollected,
    PowerupCollected,
    EnemyStomped,
    PlayerHurt,
    GoalReached,
    MusicStarted,
    MusicStopped,
}

/// Mathematical model of `Game`.
pub struct GameM {
    pub state: GameState,
    pub acc: int,
    pub cfg: CfgM,
    pub world: WorldM,
    pub player: PlayerM,
    pub enemies: Seq<EnemyM>,
    pub coin_spawns: Seq<V2>,
    pub mushroom_spawns: Seq<V2>,
    pub score: int,
    pub high: int,
    pub input: InputState,
}

/// The whole game state: phase, frame accumulator, configuration, level,
/// actors, the immutable collectible spawn templates, scores, and the
/// latched input buffer.
pub struct Game {
    pub state: GameState,
    pub accumulator_us: i64,
    pub config: Config,
    pub world: World,
    pub player: Player,
    pub enemies: Vec<Enemy>,
    pub coin_spawns: Vec<Vec2i>,
    pub mushroom_spawns: Vec<Vec2i>,
    pub score: u32,
    pub high_score: u32,
    pub input: InputState,
}

/// The view of an enemy list as a sequence of enemy models.
pub open spec fn enemies_view(s: Seq<Enemy>) -> Seq<EnemyM> {
    s.map_values(|e: Enemy| e@)
}

impl View for Game {
    type V = GameM;

    open spec fn view(&self) -> GameM {
        GameM {
            state: self.state,
            acc: self.accumulator_us as int,
            cfg: self.config@,
            world: self.world@,
            player: self.player@,
            enemies: enemies_view(self.enemies@),
            coin_spawns: pts_view(self.coin_spawns@),
            mushroom_spawns: pts_view(self.mushroom_spawns@),
            score: self.score as int,
            high: self.high_score as int,
            input: self.input,
        }
    }
}

impl GameM {
    /// Validity of the whole game state.
    pub open spec fn wf(self) -> bool {
        &&& self.cfg.wf()
        &&& self.world.wf()
        &&& self.player.wf(self.cfg)
        &&& (forall|i: int|
            0 <= i < self.enemies.len() ==> (#[trigger] self.enemies[i]).wf(self.cfg))
        &&& self.enemies.len() == self.world.enemy_spawns.len()
        &&& pts_ok(self.coin_spawns)
        &&& pts_ok(self.mushroom_spawns)
        &&& 0 <= self.score <= u32::MAX as int
        &&& 0 <= self.high <= u32::MAX as int
        &&& 0 <= self.acc
        &&& self.input.wf()
    }
}

/// Addition saturating at the unsigned 32-bit ceiling.
pub open spec fn sat_u32(v: int) -> int {
    if v > u32::MAX as int {
        u32::MAX as int
    } else {
        v
    }
}

/// Adds points to the score, saturating, and folds the result into the
/// running high score.
pub open spec fn add_score_m(g: GameM, points: int) -> GameM {
    let s = sat_u32(g.score + points);
    GameM {
        score: s,
        high: if g.high < s {
            s
        } else {
            g.high
        },
        ..g
    }
}

/// The points for `n` coins: 200 each, saturating.
pub open spec fn coin_points(n: int) -> int {
    if n > 21474836 {
        u32::MAX as int
    } else {
        n * 200
    }
}

/// The points for `n` mushrooms: 1000 each, saturating.
pub open spec fn mushroom_points(n: int) -> int {
    if n > 4294967 {
        u32::MAX as int
    } else {
        n * 1000
    }
}

/// A coin's pickup rectangle: the square of radius one fifth of a tile
/// around its centre point.
pub open spec fn coin_rect(p: V2, c: CfgM) -> R4 {
    let r = c.tile_size / 5;
    R4 { x: p.x - r, y: p.y - r, w: 2 * r, h: 2 * r }
}

/// A mushroom's rectangle: its position with the configured extents.
pub open spec fn mushroom_rect(p: V2, c: CfgM) -> R4 {
    R4 { x: p.x, y: p.y, w: c.mushroom_size.x, h: c.mushroom_size.y }
}

/// The coins among the first `n` that survive a pickup pass against the
/// player rectangle, in order.
pub open spec fn coins_kept_upto(coins: Seq<V2>, prect: R4, c: CfgM, n: int) -> Seq<V2>
    decreases n,
{
    if n <= 0 {
        Seq::empty()
    } else {
        let prev = coins_kept_upto(coins, prect, c, n - 1);
        if rects_overlap(prect, coin_rect(coins[n - 1], c)) {
            prev
        } else {
            prev.push(coins[n - 1])
        }
    }
}

/// The mushrooms among the first `n` that survive a pickup pass.
pub open spec fn mushrooms_kept_upto(ms: Seq<V2>, prect: R4, c: CfgM, n: int) -> Seq<V2>
    decreases n,
{
    if n <= 0 {
        Seq::empty()
    } else {
        let prev = mushrooms_kept_upto(ms, prect, c, n - 1);
        if rects_overlap(prect, mushroom_rect(ms[n - 1], c)) {
            prev
        } else {
            prev.push(ms[n - 1])
        }
    }
}

/// One pickup pass over the coins: overlapped coins vanish, 200 points
/// each, one `CoinCollected` event if any were taken.
pub open spec fn collect_coins_m(g: GameM) -> (GameM, Seq<GameEvent>) {
    let prect = rect_of(g.player.pos, g.player.size);
    let kept = coins_kept_upto(g.world.coins, prect, g.cfg, g.world.coins.len() as int);
    let n = g.world.coins.len() - kept.len();
    let g1 = GameM { world: WorldM { coins: kept, ..g.world }, ..g };
    if n > 0 {
        (add_score_m(g1, coin_points(n as int)), seq![GameEvent::CoinCollected])
    } else {
        (g1, Seq::empty())
    }
}

/// One pickup pass over the mushrooms: overlapped mushrooms vanish, the
/// player becomes powered, 1000 points each, one `PowerupCollected` event
/// if any were taken.
pub open spec fn collect_mushrooms_m(g: GameM) -> (GameM, Seq<GameEvent>) {
    let prect = rect_of(g.player.pos, g.player.size);
    let kept = mushrooms_kept_upto(g.world.mushrooms, prect, g.cfg, g.world.mushrooms.len() as int);
    let n = g.world.mushrooms.len() - kept.len();
    let g1 = GameM { world: WorldM { mushrooms: kept, ..g.world }, ..g };
    if n > 0 {
        (
            add_score_m(
                GameM { player: PlayerM { powered: true, ..g1.player }, ..g1 },
                mushroom_points(n as int),
            ),
            seq![GameEvent::PowerupCollected],
        )
    } else {
        (g1, Seq::empty())
    }
}

/// The index of the first live enemy whose rectangle overlaps `prect`, at
/// or after `i`.
pub open spec fn first_hit_enemy(enemies: Seq<EnemyM>, prect: R4, i: int) -> Option<int>
    decreases enemies.len() - i,
{
    if i < 0 || i >= enemies.len() {
        Option::None
    } else if enemies[i].alive && rects_overlap(prect, rect_of(enemies[i].pos, enemies[i].size)) {
        Option::Some(i)
    } else {
        first_hit_enemy(enemies, prect, i + 1)
    }
}

/// Restores the level in place: collectibles back to their spawn templates,
/// player and enemies rebuilt from their spawn points.  Score, phase and
/// accumulator are untouched.
pub open spec fn reset_level_m(g: GameM) -> GameM {
    let w1 = WorldM { coins: g.coin_spawns, mushrooms: g.mushroom_spawns, ..g.world };
    GameM {
        player: player_init(g.world.player_spawn, g.cfg),
        world: w1,
        enemies: Seq::new(
            g.world.enemy_spawns.len(),
            |i: int| enemy_init(g.world.enemy_spawns[i], w1, g.cfg),
        ),
        ..g
    }
}

/// A fresh run: score zeroed, level reset.  The high score persists.
pub open spec fn restart_run_m(g: GameM) -> GameM {
    reset_level_m(GameM { score: 0, ..g })
}

/// Death: the hurt cue, a zeroed score, the level reset in place.  The
/// phase does not change.
pub open spec fn player_died_m(g: GameM) -> (GameM, Seq<GameEvent>) {
    (restart_run_m(g), seq![GameEvent::PlayerHurt])
}

/// Player-enemy contact, resolved against the first overlapping live enemy
/// only: a stomp kills it and bounces the player; an invulnerable player is
/// unharmed; a powered player loses the power and is knocked back; an
/// unpowered player dies.
pub open spec fn resolve_enemy_contact_m(g: GameM) -> (GameM, Seq<GameEvent>) {
    let prect = rect_of(g.player.pos, g.player.size);
    match first_hit_enemy(g.enemies, prect, 0) {
        Option::None => (g, Seq::empty()),
        Option::Some(i) => {
            let e = g.enemies[i];
            if g.player.vel.y > 0 && g.player.pos.y + g.player.size.y <= e.pos.y + 6 * SUBPIXEL {
                let g1 = GameM {
                    enemies: g.enemies.update(i, EnemyM { alive: false, ..e }),
                    player: PlayerM {
                        vel: V2 { x: g.player.vel.x, y: -g.cfg.stomp_bounce },
                        ..g.player
                    },
                    ..g
                };
                (add_score_m(g1, 100), seq![GameEvent::EnemyStomped])
            } else if g.player.invuln > 0 {
                (g, Seq::empty())
            } else if g.player.powered {
                let pcx = g.player.pos.x + g.player.size.x / 2;
                let ecx = e.pos.x + e.size.x / 2;
                let away_right = ecx < pcx;
                let p1 = PlayerM {
                    powered: false,
                    invuln: g.cfg.hurt_invuln_time,
                    vel: V2 {
                        x: if away_right {
                            g.cfg.hurt_knockback_x
                        } else {
                            -g.cfg.hurt_knockback_x
                        },
                        y: -g.cfg.hurt_knockback_y,
                    },
                    pos: V2 {
                        x: if away_right {
                            g.player.pos.x + 4 * SUBPIXEL
                        } else {
                            g.player.pos.x - 4 * SUBPIXEL
                        },
                        y: g.player.pos.y,
                    },
                    on_ground: false,
                    ..g.player
                };
                (GameM { player: p1, ..g }, seq![GameEvent::PlayerHurt])
            } else {
                player_died_m(g)
            }
        },
    }
}

/// Goal check: touching the goal pole is worth 500 points, stops the music,
/// and ends the level.
pub open spec fn check_goal_m(g: GameM) -> (GameM, Seq<GameEvent>) {
    let prect = rect_of(g.player.pos, g.player.size);
    if rects_overlap(prect, spec_goal_rect(g.world, g.cfg)) {
        (
            GameM { state: GameState::LevelComplete, ..add_score_m(g, 500) },
            seq![GameEvent::MusicStopped, GameEvent::GoalReached],
        )
    } else {
        (g, Seq::empty())
    }
}

/// Falling 200 pixels below the world's bottom edge counts as death.
pub open spec fn check_fall_off_m(g: GameM) -> (GameM, Seq<GameEvent>) {
    if g.player.pos.y > g.world.height * g.cfg.tile_size + 200 * SUBPIXEL {
        player_died_m(g)
    } else {
        (g, Seq::empty())
    }
}

/// One fixed simulation step from the latched input: the phase transitions
/// of the orchestrator, and in `Playing` the player step, the enemy steps,
/// pickups, enemy contact, the goal and the fall-off check, in that order.
pub open spec fn game_step(g: GameM, inp: InputState) -> (GameM, Seq<GameEvent>) {
    match g.state {
        GameState::Title => {
            if inp.start_pressed {
                (
                    GameM { state: GameState::Playing, ..restart_run_m(g) },
                    seq![GameEvent::MusicStarted],
                )
            } else {
                (g, Seq::empty())
            }
        },
        GameState::Playing => {
            if inp.quit_pressed {
                (GameM { state: GameState::Title, ..g }, seq![GameEvent::MusicStopped])
            } else if inp.restart_pressed {
                (restart_run_m(g), seq![GameEvent::MusicStarted])
            } else {
                let (p1, jumped) = player_step(g.player, inp, g.world.solids, g.cfg, 1);
                let ev1: Seq<GameEvent> = if jumped {
                    seq![GameEvent::Jumped]
                } else {
                    Seq::empty()
                };
                let g1 = GameM {
                    player: p1,
                    enemies: g.enemies.map_values(|e: EnemyM| enemy_step(e, g.world, g.cfg, 1)),
                    ..g
                };
                let (g2, ev2) = collect_coins_m(g1);
                let (g3, ev3) = collect_mushrooms_m(g2);
                let (g4, ev4) = resolve_enemy_contact_m(g3);
                let (g5, ev5) = check_goal_m(g4);
                let (g6, ev6) = check_fall_off_m(g5);
                (g6, ev1 + ev2 + ev3 + ev4 + ev5 + ev6)
            }
        },
        GameState::LevelComplete => {
            if inp.quit_pressed {
                (GameM { state: GameState::Title, ..g }, seq![GameEvent::MusicStopped])
            } else if inp.restart_pressed {
                (
                    GameM { state: GameState::Playing, ..restart_run_m(g) },
                    seq![GameEvent::MusicStarted],
                )
            } else {
                (g, Seq::empty())
            }
        },
    }
}

/// The latched input after a frame's capture: the horizontal intent is
/// replaced, the edges are OR-accumulated so a press between steps is not
/// lost.
pub open spec fn latch_m(cur: InputState, frame: InputState) -> InputState {
    InputState {
        move_x: frame.move_x,
        jump_pressed: cur.jump_pressed || frame.jump_pressed,
        jump_released: cur.jump_released || frame.jump_released,
        start_pressed: cur.start_pressed || frame.start_pressed,
        restart_pressed: cur.restart_pressed || frame.restart_pressed,
        quit_pressed: cur.quit_pressed || frame.quit_pressed,
    }
}

/// Drains the accumulator in whole fixed steps: each step consumes the
/// latched input (clearing its edges) and advances the simulation once; the
/// fractional remainder persists.
pub open spec fn pump(g: GameM) -> (GameM, Seq<GameEvent>)
    decreases g.acc,
{
    if g.acc < g.cfg.fixed_dt_us || g.cfg.fixed_dt_us < 1 || g.acc < 0 {
        (g, Seq::empty())
    } else {
        let inp = g.input;
        let g1 = GameM { input: g.input.spec_cleared(), ..g };
        let (g2, ev) = game_step(g1, inp);
        let g3 = GameM { acc: g2.acc - g.cfg.fixed_dt_us, ..g2 };
        let (g4, ev2) = pump(g3);
        (g4, ev + ev2)
    }
}

/// A fresh copy of a point list.
fn copy_points(src: &Vec<Vec2i>) -> (r: Vec<Vec2i>)
    ensures
        r@ == src@,
{
    let mut r: Vec<Vec2i> = Vec::new();
    let n = src.len();
    for i in 0..n
        invariant
            n == src@.len(),
            r@ == src@.subrange(0, i as int),
    {
        r.push(src[i]);
        proof {
            assert(r@ =~= src@.subrange(0, i as int + 1));
        }
    }
    proof {
        assert(r@ =~= src@);
    }
    r
}

/// The freshly built game for a loaded level: in the title phase, the
/// collectible spawn templates copied from the level, actors on their spawn
/// points, scores at zero.
pub open spec fn game_init(w: WorldM, c: CfgM) -> GameM {
    GameM {
        state: GameState::Title,
        acc: 0,
        cfg: c,
        world: w,
        player: player_init(w.player_spawn, c),
        enemies: Seq::new(w.enemy_spawns.len(), |i: int| enemy_init(w.enemy_spawns[i], w, c)),
        coin_spawns: w.coins,
        mushroom_spawns: w.mushrooms,
        score: 0,
        high: 0,
        input: InputState::spec_idle(),
    }
}

impl Game {
    /// Builds the game around a loaded level.
    pub fn new(world: World, config: Config) -> (g: Game)
        requires
            world@.wf(),
            config@.wf(),
        ensures
            g@ == game_init(world@, config@),
            g@.wf(),
    {
        let player = Player::new(world.player_spawn, &config);
        let mut enemies: Vec<Enemy> = Vec::new();
        let n = world.enemy_spawns.len();
        for i in 0..n
            invariant
                world@.wf(),
                config@.wf(),
                n == world.enemy_spawns@.len(),
                enemies@.len() == i,
                forall|j: int|
                    0 <= j < i ==> (#[trigger] enemies@[j])@ == enemy_init(
                        world@.enemy_spawns[j],
                        world@,
                        config@,
                    ) && enemies@[j]@.wf(config@),
        {
            proof {
                assert(pt_ok(world@.enemy_spawns[i as int]));
            }
            enemies.push(Enemy::new(world.enemy_spawns[i], &world, &config));
        }
        proof {
            assert(enemies_view(enemies@) =~= Seq::new(
                world@.enemy_spawns.len(),
                |i: int| enemy_init(world@.enemy_spawns[i], world@, config@),
            ));
        }
        let coin_spawns = copy_points(&world.coins);
        let mushroom_spawns = copy_points(&world.mushrooms);
        Game {
            state: GameState::Title,
            accumulator_us: 0,
            config,
            world,
            player,
            enemies,
            coin_spawns,
            mushroom_spawns,
            score: 0,
            high_score: 0,
            input: InputState::idle(),
        }
    }

    /// Folds one rendered frame's raw input into the latched buffer: the
    /// horizontal intent is replaced, edges are OR-accumulated.
    pub fn latch_input(&mut self, frame: &InputState)
        requires
            frame.wf(),
        ensures
            final(self)@ == (GameM { input: latch_m(old(self)@.input, *frame), ..old(self)@ }),
    {
        self.input.move_x = frame.move_x;
        self.input.jump_pressed = self.input.jump_pressed || frame.jump_pressed;
        self.input.jump_released = self.input.jump_released || frame.jump_released;
        self.input.start_pressed = self.input.start_pressed || frame.start_pressed;
        self.input.restart_pressed = self.input.restart_pressed || frame.restart_pressed;
        self.input.quit_pressed = self.input.quit_pressed || frame.quit_pressed;
    }

    /// Takes a snapshot of the latched input for one simulation step and
    /// clears the edges, so an edge fires at most once.
    fn consume_fixed_input(&mut self) -> (snap: InputState)
        ensures
            snap == old(self)@.input,
            final(self)@ == (GameM { input: old(self)@.input.spec_cleared(), ..old(self)@ }),
    {
        let snap = self.input;
        self.input.jump_pressed = false;
        self.input.jump_released = false;
        self.input.start_pressed = false;
        self.input.restart_pressed = false;
        self.input.quit_pressed = false;
        snap
    }

    /// Adds points to the score, saturating, and updates the high score.
    fn add_score(&mut self, points: u32)
        ensures
            final(self)@ == add_score_m(old(self)@, points as int),
    {
        self.score = if self.score > u32::MAX - points {
            u32::MAX
        } else {
            self.score + points
        };
        if self.high_score < self.score {
            self.high_score = self.score;
        }
    }

    /// Restores the level in place from the spawn templates.
    fn reset_level(&mut self)
        requires
            old(self)@.wf(),
        ensures
            final(self)@ == reset_level_m(old(self)@),
            final(self)@.wf(),
    {
        let ghost g0 = self@;
        self.player.reset(self.world.player_spawn, &self.config);
        self.world.coins = copy_points(&self.coin_spawns);
        self.world.mushrooms = copy_points(&self.mushroom_spawns);
        let ghost w1 = self@.world;
        let mut enemies: Vec<Enemy> = Vec::new();
        let n = self.world.enemy_spawns.len();
        for i in 0..n
            invariant
                self@.world.wf(),
                self@.cfg.wf(),
                self@.world == w1,
                self@ == (GameM { player: self@.player, world: w1, ..g0 }),
                self@.player == player_init(g0.world.player_spawn, g0.cfg),
                n == self.world.enemy_spawns@.len(),
                enemies@.len() == i,
                forall|j: int|
                    0 <= j < i ==> (#[trigger] enemies@[j])@ == enemy_init(
                        w1.enemy_spawns[j],
                        w1,
                        self@.cfg,
                    ) && enemies@[j]@.wf(self@.cfg),
        {
            proof {
                assert(pt_ok(self@.world.enemy_spawns[i as int]));
            }
            enemies.push(Enemy::new(self.world.enemy_spawns[i], &self.world, &self.config));
        }
        self.enemies = enemies;
        proof {
            assert(self@.enemies =~= Seq::new(
                g0.world.enemy_spawns.len(),
                |i: int| enemy_init(g0.world.enemy_spawns[i], w1, g0.cfg),
            ));
        }
    }

    /// A fresh run: score zeroed, level reset.
    fn restart_run(&mut self)
        requires
            old(self)@.wf(),
        ensures
            final(self)@ == restart_run_m(old(self)@),
            final(self)@.wf(),
    {
        self.score = 0;
        self.reset_level();
    }

    /// Death: the hurt cue, score zeroed, level reset in place.
    fn player_died(&mut self, events: &mut Vec<GameEvent>)
        requires
            old(self)@.wf(),
        ensures
            final(self)@ == player_died_m(old(self)@).0,
            final(events)@ == old(events)@ + player_died_m(old(self)@).1,
            final(self)@.wf(),
    {
        events.push(GameEvent::PlayerHurt);
        self.score = 0;
        self.reset_level();
    }

    /// Removes every coin overlapped by the player, scores 200 points each,
    /// and emits one `CoinCollected` event if any were taken.
    fn collect_coins(&mut self, events: &mut Vec<GameEvent>)
        requires
            old(self)@.wf(),
        ensures
            final(self)@ == collect_coins_m(old(self)@).0,
            final(events)@ == old(events)@ + collect_coins_m(old(self)@).1,
            final(self)@.wf(),
    {
        let ghost g0 = self@;
        let prect = self.player.rect();
        proof {
            vstd::arithmetic::div_mod::lemma_div_is_ordered(256, self.config.tile_size as int, 5);
            vstd::arithmetic::div_mod::lemma_div_is_ordered(
                self.config.tile_size as int,
                0x1_0000,
                5,
            );
        }
        let radius = div_nn(self.config.tile_size, 5);
        let n = self.world.coins.len();
        let mut kept: Vec<Vec2i> = Vec::new();
        let mut collected: usize = 0;
        for i in 0..n
            invariant
                self@ == g0,
                g0.wf(),
                prect@ == rect_of(g0.player.pos, g0.player.size),
                radius as int == g0.cfg.tile_size / 5,
                0 < radius <= 0x1_0000,
                n == self.world.coins@.len(),
                pts_view(kept@) == coins_kept_upto(g0.world.coins, prect@, g0.cfg, i as int),
                pts_ok(pts_view(kept@)),
                collected == i - kept@.len(),
                kept@.len() <= i,
        {
            proof {
                assert(pt_ok(g0.world.coins[i as int]));
            }
            let c0 = self.world.coins[i];
            let crect = Recti {
                x: c0.x - radius,
                y: c0.y - radius,
                w: 2 * radius,
                h: 2 * radius,
            };
            if crate::geom::rects_intersect(prect, crect) {
                collected = collected + 1;
            } else {
                kept.push(c0);
                proof {
                    assert(pts_view(kept@) =~= coins_kept_upto(
                        g0.world.coins,
                        prect@,
                        g0.cfg,
                        i as int,
                    ).push(c0@));
                }
            }
        }
        self.world.coins = kept;
        if collected > 0 {
            let points: u32 = if collected > 21474836 {
                u32::MAX
            } else {
                (collected * 200) as u32
            };
            self.add_score(points);
            events.push(GameEvent::CoinCollected);
        }
    }

    /// Removes every mushroom overlapped by the player, powers the player
    /// up, scores 1000 points each, and emits one `PowerupCollected` event
    /// if any were taken.
    fn collect_mushrooms(&mut self, events: &mut Vec<GameEvent>)
        requires
            old(self)@.wf(),
        ensures
            final(self)@ == collect_mushrooms_m(old(self)@).0,
            final(events)@ == old(events)@ + collect_mushrooms_m(old(self)@).1,
            final(self)@.wf(),
    {
        let ghost g0 = self@;
        let prect = self.player.rect();
        let n = self.world.mushrooms.len();
        let mut kept: Vec<Vec2i> = Vec::new();
        let mut collected: usize = 0;
        for i in 0..n
            invariant
                self@ == g0,
                g0.wf(),
                prect@ == rect_of(g0.player.pos, g0.player.size),
                n == self.world.mushrooms@.len(),
                pts_view(kept@) == mushrooms_kept_upto(g0.world.mushrooms, prect@, g0.cfg, i as int),
                pts_ok(pts_view(kept@)),
                collected == i - kept@.len(),
                kept@.len() <= i,
        {
            proof {
                assert(pt_ok(g0.world.mushrooms[i as int]));
            }
            let m0 = self.world.mushrooms[i];
            let mrect = Recti {
                x: m0.x,
                y: m0.y,
                w: self.config.mushroom_size.x,
                h: self.config.mushroom_size.y,
            };
            if crate::geom::rects_intersect(prect, mrect) {
                collected = collected + 1;
            } else {
                kept.push(m0);
                proof {
                    assert(pts_view(kept@) =~= mushrooms_kept_upto(
                        g0.world.mushrooms,
                        prect@,
                        g0.cfg,
                        i as int,
                    ).push(m0@));
                }
            }
        }
        self.world.mushrooms = kept;
        if collected > 0 {
            self.player.set_powered(true);
            let points: u32 = if collected > 4294967 {
                u32::MAX
            } else {
                (collected * 1000) as u32
            };
            self.add_score(points);
            events.push(GameEvent::PowerupCollected);
        }
    }

    /// Resolves player-enemy contact against the first overlapping live
    /// enemy only, as `resolve_enemy_contact_m` states.
    #[verifier::rlimit(50)]
    fn handle_player_enemy_collisions(&mut self, events: &mut Vec<GameEvent>)
        requires
            old(self)@.wf(),
            -(COORD_LIMIT + SIZE_LIMIT) <= old(self)@.player.pos.x <= COORD_LIMIT + SIZE_LIMIT,
        ensures
            final(self)@ == resolve_enemy_contact_m(old(self)@).0,
            final(events)@ == old(events)@ + resolve_enemy_contact_m(old(self)@).1,
            final(self)@.wf(),
    {
        let ghost g0 = self@;
        let prect = self.player.rect();
        let n = self.enemies.len();
        let mut hit: Option<usize> = None;
        for i in 0..n
            invariant
                self@ == g0,
                g0.wf(),
                prect@ == rect_of(g0.player.pos, g0.player.size),
                n == self.enemies@.len(),
                match hit {
                    Option::Some(k) => first_hit_enemy(g0.enemies, prect@, 0) == Option::Some(
                        k as int,
                    ) && k < n,
                    Option::None => first_hit_enemy(g0.enemies, prect@, 0) == first_hit_enemy(
                        g0.enemies,
                        prect@,
                        i as int,
                    ),
                },
        {
            if hit.is_none() {
                let e = self.enemies[i];
                if e.alive && crate::geom::rects_intersect(prect, e.rect()) {
                    hit = Some(i);
                }
            }
        }
        match hit {
            None => {},
            Some(i) => {
                let e = self.enemies[i];
                let player_bottom = self.player.pos.y + self.player.size.y;
                if self.player.vel.y > 0 && player_bottom <= e.pos.y + 6 * SUBPIXEL {
                    let mut de = e;
                    de.alive = false;
                    self.enemies.set(i, de);
                    self.player.vel.y = -self.config.stomp_bounce;
                    proof {
                        assert(self@.enemies =~= g0.enemies.update(
                            i as int,
                            EnemyM { alive: false, ..g0.enemies[i as int] },
                        ));
                    }
                    self.add_score(100);
                    events.push(GameEvent::EnemyStomped);
                } else if self.player.invuln_timer > 0 {
                    // An invulnerable player passes through unharmed.
                } else if self.player.powered {
                    let pcx = self.player.pos.x + div_nn(self.player.size.x, 2);
                    let ecx = e.pos.x + div_nn(e.size.x, 2);
                    let away_right = ecx < pcx;
                    self.player.powered = false;
                    self.player.invuln_timer = self.config.hurt_invuln_time;
                    self.player.vel.x = if away_right {
                        self.config.hurt_knockback_x
                    } else {
                        -self.config.hurt_knockback_x
                    };
                    self.player.vel.y = -self.config.hurt_knockback_y;
                    self.player.pos.x = if away_right {
                        self.player.pos.x + 4 * SUBPIXEL
                    } else {
                        self.player.pos.x - 4 * SUBPIXEL
                    };
                    self.player.on_ground = false;
                    events.push(GameEvent::PlayerHurt);
                } else {
                    self.player_died(events);
                }
            },
        }
    }

    /// Scores and ends the level when the player touches the goal pole.
    fn check_goal(&mut self, events: &mut Vec<GameEvent>)
        requires
            old(self)@.wf(),
        ensures
            final(self)@ == check_goal_m(old(self)@).0,
            final(events)@ == old(events)@ + check_goal_m(old(self)@).1,
            final(self)@.wf(),
    {
        let goal_rect = self.world.goal_trigger_rect(&self.config);
        if crate::geom::rects_intersect(self.player.rect(), goal_rect) {
            self.add_score(500);
            events.push(GameEvent::MusicStopped);
            events.push(GameEvent::GoalReached);
            self.state = GameState::LevelComplete;
        }
    }

    /// Treats falling 200 pixels below the world as death.
    fn check_fall_off(&mut self, events: &mut Vec<GameEvent>)
        requires
            old(self)@.wf(),
        ensures
            final(self)@ == check_fall_off_m(old(self)@).0,
            final(events)@ == old(events)@ + check_fall_off_m(old(self)@).1,
            final(self)@.wf(),
    {
        proof {
            crate::physics::lemma_mul_bound(
                self.world.height as int,
                self.config.tile_size as int,
                GRID_LIMIT as int,
                0x1_0000,
            );
        }
        let fall_limit = self.world.height as i64 * self.config.tile_size + 200 * SUBPIXEL;
        if self.player.pos.y > fall_limit {
            self.player_died(events);
        }
    }

    /// One fixed simulation step from the given input, exactly as
    /// `game_step` states; returns the events the step emitted, in order.
    #[verifier::rlimit(100)]
    pub fn fixed_update(&mut self, input: InputState) -> (events: Vec<GameEvent>)
        requires
            old(self)@.wf(),
            input.wf(),
        ensures
            final(self)@ == game_step(old(self)@, input).0,
            events@ == game_step(old(self)@, input).1,
            final(self)@.wf(),
    {
        let ghost g0 = self@;
        let mut events: Vec<GameEvent> = Vec::new();
        match self.state {
            GameState::Title => {
                if input.start_pressed {
                    self.state = GameState::Playing;
                    self.restart_run();
                    events.push(GameEvent::MusicStarted);
                }
                events
            },
            GameState::Playing => {
                if input.quit_pressed {
                    events.push(GameEvent::MusicStopped);
                    self.state = GameState::Title;
                    return events;
                }
                if input.restart_pressed {
                    self.restart_run();
                    events.push(GameEvent::MusicStarted);
                    return events;
                }
                proof {
                    crate::player::lemma_player_step_pos(
                        g0.player,
                        input,
                        g0.world.solids,
                        g0.cfg,
                        1,
                    );
                }
                let jumped = self.player.update(&input, &self.world, &self.config, 1);
                if jumped {
                    events.push(GameEvent::Jumped);
                }
                let ghost p1 = self@.player;
                let n = self.enemies.len();
                for i in 0..n
                    invariant
                        g0.wf(),
                        self@ == (GameM { enemies: self@.enemies, ..GameM { player: p1, ..g0 } }),
                        p1.wf(g0.cfg),
                        n == self.enemies@.len(),
                        n == g0.enemies.len(),
                        forall|j: int|
                            0 <= j < i ==> (#[trigger] self.enemies@[j])@ == enemy_step(
                                g0.enemies[j],
                                g0.world,
                                g0.cfg,
                                1,
                            ) && self.enemies@[j]@.wf(g0.cfg),
                        forall|j: int| i <= j < n ==> #[trigger] self.enemies@[j]@ == g0.enemies[j],
                {
                    let mut e = self.enemies[i];
                    e.update(&self.world, &self.config, 1);
                    self.enemies.set(i, e);
                }
                proof {
                    assert(self@.enemies =~= g0.enemies.map_values(
                        |e: EnemyM| enemy_step(e, g0.world, g0.cfg, 1),
                    ));
                }
                let ghost g1 = self@;
                self.collect_coins(&mut events);
                let ghost g2 = self@;
                self.collect_mushrooms(&mut events);
                let ghost g3 = self@;
                self.handle_player_enemy_collisions(&mut events);
                let ghost g4 = self@;
                self.check_goal(&mut events);
                let ghost g5 = self@;
                self.check_fall_off(&mut events);
                proof {
                    assert(events@ =~= game_step(g0, input).1);
                }
                events
            },
            GameState::LevelComplete => {
                if input.quit_pressed {
                    events.push(GameEvent::MusicStopped);
                    self.state = GameState::Title;
                    return events;
                }
                if input.restart_pressed {
                    self.restart_run();
                    self.state = GameState::Playing;
                    events.push(GameEvent::MusicStarted);
                }
                events
            },
        }
    }

    /// Advances the game by one rendered frame's elapsed time: the time is
    /// clamped to the catch-up limit, accumulated, and drained in whole
    /// fixed steps, exactly as `pump` states.  Returns every event the
    /// steps emitted, in order.  The accumulator arrives settled below one
    /// second, which `Game::new` establishes and every call re-establishes
    /// (the remainder is smaller than one fixed step).
    #[verifier::rlimit(100)]
    pub fn update(&mut self, frame_dt_us: i64) -> (events: Vec<GameEvent>)
        requires
            old(self)@.wf(),
            old(self)@.acc <= 1_000_000,
            frame_dt_us >= 0,
        ensures
            ({
                let clamped = min_i(frame_dt_us as int, old(self)@.cfg.max_frame_time_us);
                let gmid = GameM { acc: old(self)@.acc + clamped, ..old(self)@ };
                &&& final(self)@ == pump(gmid).0
                &&& events@ == pump(gmid).1
            }),
            final(self)@.wf(),
            0 <= final(self)@.acc < final(self)@.cfg.fixed_dt_us,
    {
        let add = if frame_dt_us < self.config.max_frame_time_us {
            frame_dt_us
        } else {
            self.config.max_frame_time_us
        };
        self.accumulator_us = self.accumulator_us + add;
        let ghost gmid = self@;
        let mut events: Vec<GameEvent> = Vec::new();
        while self.accumulator_us >= self.config.fixed_dt_us
            invariant
                self@.wf(),
                pump(gmid).0 == pump(self@).0,
                pump(gmid).1 == events@ + pump(self@).1,
            decreases self.accumulator_us,
        {
            let ghost gc = self@;
            let snap = self.consume_fixed_input();
            let mut ev = self.fixed_update(snap);
            events.append(&mut ev);
            self.accumulator_us = self.accumulator_us - self.config.fixed_dt_us;
            proof {
                let g1 = GameM { input: gc.input.spec_cleared(), ..gc };
                let (g2, stepped_ev) = game_step(g1, gc.input);
                assert(self@ == (GameM { acc: g2.acc - gc.cfg.fixed_dt_us, ..g2 }));
                assert(pump(gc).1 == stepped_ev + pump(self@).1);
                assert(events@ + pump(self@).1 =~= pump(gmid).1);
            }
        }
        proof {
            assert(pump(self@) == (self@, Seq::<GameEvent>::empty()));
            assert(events@ =~= events@ + pump(self@).1);
        }
        events
    }
}

/// An invulnerable player touching a live enemy from the side (no stomp) is
/// entirely unaffected: no score change, no state change, the enemy stays
/// alive, the player's power is exactly what it was.
pub proof fn law_invulnerable_contact_is_ignored(g: GameM)
    requires
        g.player.invuln > 0,
        !(g.player.vel.y > 0 && g.player.pos.y + g.player.size.y <= match first_hit_enemy(
            g.enemies,
            rect_of(g.player.pos, g.player.size),
            0,
        ) {
            Option::Some(i) => g.enemies[i].pos.y + 6 * SUBPIXEL,
            Option::None => g.player.pos.y + g.player.size.y,
        }),
    ensures
        resolve_enemy_contact_m(g) == (g, Seq::<GameEvent>::empty()),
{
}

/// The collectible spawn templates never change across a simulation step:
/// resets copy them, nothing writes them.
pub proof fn law_templates_preserved(g: GameM, inp: InputState)
    ensures
        game_step(g, inp).0.coin_spawns == g.coin_spawns,
        game_step(g, inp).0.mushroom_spawns == g.mushroom_spawns,
{
}

/// The collectible round trip: resetting the level restores exactly the
/// coin and mushroom positions the level was parsed with, whatever was
/// collected in between.
pub proof fn law_reset_restores_collectibles(g: GameM)
    ensures
        reset_level_m(g).world.coins == g.coin_spawns,
        reset_level_m(g).world.mushrooms == g.mushroom_spawns,
{
}

} // verus!
