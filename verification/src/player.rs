//! The player state machine: grounded/airborne and powered/invulnerable
//! status kept as timers and flags, with coyote time, jump buffering and the
//! variable jump cut.

use vstd::prelude::*;

use crate::config::{CfgM, Config};
use crate::geom::{Recti, Vec2i, R4, V2, COORD_LIMIT, SIZE_LIMIT, SPEED_LIMIT, TICKS_LIMIT};
use crate::input::InputState;
use crate::physics::{self, kernel_move, rects_view, solids_wf, spec_approach};
use crate::world::{div_nn, World};

verus! {

/// Actor positions stay inside this magnitude: the kernel's output range
/// plus room for the hurt knockback nudge.
pub const ACTOR_POS_LIMIT: i64 = COORD_LIMIT + SIZE_LIMIT + 0x1_0000;

/// Mathematical model of `Player`.
pub struct PlayerM {
    pub pos: V2,
    pub vel: V2,
    pub on_ground: bool,
    pub size: V2,
    pub facing: int,
    pub coyote: int,
    pub buffer: int,
    pub powered: bool,
    pub invuln: int,
}

/// The player actor.
#[derive(Clone, Copy)]
pub struct Player {
    pub pos: Vec2i,
    pub vel: Vec2i,
    pub on_ground: bool,
    pub size: Vec2i,
    pub facing: i64,
    pub coyote_timer: i64,
    pub jump_buffer_timer: i64,
    pub powered: bool,
    pub invuln_timer: i64,
}

impl View for Player {
    type V = PlayerM;

    open spec fn view(&self) -> PlayerM {
        PlayerM {
            pos: self.pos@,
            vel: self.vel@,
            on_ground: self.on_ground,
            size: self.size@,
            facing: self.facing as int,
            coyote: self.coyote_timer as int,
            buffer: self.jump_buffer_timer as int,
            powered: self.powered,
            invuln: self.invuln_timer as int,
        }
    }
}

impl PlayerM {
    /// Validity: bounded position and velocity, the configured extents, a
    /// unit facing sign, and non-negative bounded timers.
    pub open spec fn wf(self, c: CfgM) -> bool {
        &&& -(ACTOR_POS_LIMIT as int) <= self.pos.x <= ACTOR_POS_LIMIT as int
        &&& -(ACTOR_POS_LIMIT as int) <= self.pos.y <= ACTOR_POS_LIMIT as int
        &&& -(SPEED_LIMIT as int) <= self.vel.x <= SPEED_LIMIT as int
        &&& -(SPEED_LIMIT as int) <= self.vel.y <= SPEED_LIMIT as int
        &&& self.size == c.player_size
        &&& (self.facing == 1 || self.facing == -1)
        &&& 0 <= self.coyote <= TICKS_LIMIT as int
        &&& 0 <= self.buffer <= TICKS_LIMIT as int
        &&& 0 <= self.invuln <= TICKS_LIMIT as int
    }
}

/// A timer decremented by `dt`, floored at zero.
pub open spec fn dec0(t: int, dt: int) -> int {
    if t - dt > 0 {
        t - dt
    } else {
        0
    }
}

/// The smaller of two integers.
pub open spec fn min_i(a: int, b: int) -> int {
    if a < b {
        a
    } else {
        b
    }
}

/// The jump cut: an ascending velocity scaled by the configured rational
/// multiplier, rounded toward zero.
pub open spec fn cut_velocity(vy: int, c: CfgM) -> int {
    -((-vy) * c.jump_cut_num / c.jump_cut_den)
}

/// An actor spawned on tile `spawn` stands centred on the tile with its feet
/// on the tile's bottom edge.
pub open spec fn spawn_pos(spawn: V2, size: V2, tile: int) -> V2 {
    V2 { x: spawn.x + (tile - size.x) / 2, y: spawn.y + tile - size.y }
}

/// The freshly spawned player: at rest, facing right, powered down, all
/// timers clear.
pub open spec fn player_init(spawn: V2, c: CfgM) -> PlayerM {
    PlayerM {
        pos: spawn_pos(spawn, c.player_size, c.tile_size),
        vel: V2 { x: 0, y: 0 },
        on_ground: false,
        size: c.player_size,
        facing: 1,
        coyote: 0,
        buffer: 0,
        powered: false,
        invuln: 0,
    }
}

/// Stages 1-6 of a player step: timer bookkeeping, the jump cut, facing,
/// and horizontal acceleration toward the intent, all before any jump or
/// motion.
pub open spec fn step_timers(p: PlayerM, inp: InputState, c: CfgM, dt: int) -> PlayerM {
    let invuln = dec0(p.invuln, dt);
    let buffer = if inp.jump_pressed {
        c.jump_buffer_time
    } else {
        dec0(p.buffer, dt)
    };
    let vy = if inp.jump_released && p.vel.y < 0 {
        cut_velocity(p.vel.y, c)
    } else {
        p.vel.y
    };
    let coyote = if p.on_ground {
        c.coyote_time
    } else {
        dec0(p.coyote, dt)
    };
    let facing = if inp.move_x != 0 {
        if inp.move_x > 0 {
            1
        } else {
            -1
        }
    } else {
        p.facing
    };
    let target = inp.move_x * c.move_speed;
    let accel = if inp.move_x != 0 {
        c.move_accel
    } else {
        c.move_decel
    };
    let vx = spec_approach(p.vel.x, target, accel * dt);
    PlayerM {
        vel: V2 { x: vx, y: vy },
        facing,
        coyote,
        buffer,
        invuln,
        ..p
    }
}

/// Stage 7: the pre-move jump trigger.  With both the jump buffer and the
/// coyote window open, the jump fires: upward velocity, both timers
/// consumed, airborne.
pub open spec fn step_first_jump(p: PlayerM, c: CfgM) -> (PlayerM, bool) {
    if p.buffer > 0 && p.coyote > 0 {
        (
            PlayerM {
                vel: V2 { x: p.vel.x, y: -c.jump_speed },
                on_ground: false,
                coyote: 0,
                buffer: 0,
                ..p
            },
            true,
        )
    } else {
        (p, false)
    }
}

/// Stage 8: gravity, clamped at terminal velocity.
pub open spec fn step_gravity(p: PlayerM, c: CfgM, dt: int) -> PlayerM {
    PlayerM { vel: V2 { x: p.vel.x, y: min_i(p.vel.y + c.gravity * dt, c.terminal_velocity) }, ..p }
}

/// Stage 9: the collision/motion kernel.
pub open spec fn step_move(p: PlayerM, solids: Seq<R4>, dt: int) -> PlayerM {
    let (pos, vel, on_ground) = kernel_move(p.pos, p.size, p.vel, solids, dt);
    PlayerM { pos, vel, on_ground, ..p }
}

/// Stage 10: the post-move jump trigger.  A jump buffered before landing
/// fires the instant the kernel reports ground contact within the same
/// step.
pub open spec fn step_landing_jump(p: PlayerM, c: CfgM) -> (PlayerM, bool) {
    if p.buffer > 0 && p.on_ground {
        (
            PlayerM {
                vel: V2 { x: p.vel.x, y: -c.jump_speed },
                on_ground: false,
                coyote: 0,
                buffer: 0,
                ..p
            },
            true,
        )
    } else {
        (p, false)
    }
}

/// One whole player step: the ten stages in order.  Returns the new player
/// and whether a jump was triggered this step.
pub open spec fn player_step(p: PlayerM, inp: InputState, solids: Seq<R4>, c: CfgM, dt: int) -> (
    PlayerM,
    bool,
) {
    let t = step_timers(p, inp, c, dt);
    let (j1p, jumped1) = step_first_jump(t, c);
    let g = step_gravity(j1p, c, dt);
    let m = step_move(g, solids, dt);
    let (j2p, jumped2) = step_landing_jump(m, c);
    (j2p, jumped1 || jumped2)
}

/// The cut velocity of an ascending player keeps its sign and loses
/// magnitude.
proof fn lemma_cut_bound(vy: int, c: CfgM)
    requires
        c.wf(),
        -(SPEED_LIMIT as int) <= vy < 0,
    ensures
        vy <= cut_velocity(vy, c) <= 0,
{
    let m = -vy;
    vstd::arithmetic::mul::lemma_mul_inequality(c.jump_cut_num, c.jump_cut_den, m);
    vstd::arithmetic::div_mod::lemma_div_is_ordered(
        m * c.jump_cut_num,
        m * c.jump_cut_den,
        c.jump_cut_den,
    );
    vstd::arithmetic::div_mod::lemma_div_by_multiple(m, c.jump_cut_den);
    vstd::arithmetic::mul::lemma_mul_is_commutative(m, c.jump_cut_num);
    vstd::arithmetic::mul::lemma_mul_is_commutative(m, c.jump_cut_den);
    vstd::arithmetic::div_mod::lemma_div_pos_is_pos(m * c.jump_cut_num, c.jump_cut_den);
    vstd::arithmetic::mul::lemma_mul_nonnegative(m, c.jump_cut_num);
}

impl Player {
    /// A player freshly placed on the spawn tile.
    pub fn new(spawn: Vec2i, config: &Config) -> (p: Player)
        requires
            config@.wf(),
            crate::world::pt_ok(spawn@),
        ensures
            p@ == player_init(spawn@, config@),
            p@.wf(config@),
    {
        let size = config.player_size;
        let pos = Vec2i {
            x: spawn.x + div_nn(config.tile_size - size.x, 2),
            y: spawn.y + config.tile_size - size.y,
        };
        Player {
            pos,
            vel: Vec2i { x: 0, y: 0 },
            on_ground: false,
            size,
            facing: 1,
            coyote_timer: 0,
            jump_buffer_timer: 0,
            powered: false,
            invuln_timer: 0,
        }
    }

    /// Puts the player back to its freshly spawned state.
    pub fn reset(&mut self, spawn: Vec2i, config: &Config)
        requires
            config@.wf(),
            crate::world::pt_ok(spawn@),
        ensures
            final(self)@ == player_init(spawn@, config@),
            final(self)@.wf(config@),
    {
        *self = Player::new(spawn, config);
    }

    /// Advances the player by one step of `dt` ticks, exactly as
    /// `player_step` states, and reports whether a jump was triggered.
    pub fn update(
        &mut self,
        input: &InputState,
        world: &World,
        config: &Config,
        dt: i64,
    ) -> (jumped: bool)
        requires
            old(self)@.wf(config@),
            config@.wf(),
            input.wf(),
            world@.wf(),
            0 <= dt <= TICKS_LIMIT,
        ensures
            (final(self)@, jumped) == player_step(
                old(self)@,
                *input,
                rects_view(world.solids@),
                config@,
                dt as int,
            ),
            final(self)@.wf(config@),
    {
        let ghost p0 = self@;
        let ghost svs = rects_view(world.solids@);
        self.invuln_timer = if self.invuln_timer - dt > 0 {
            self.invuln_timer - dt
        } else {
            0
        };
        if input.jump_pressed {
            self.jump_buffer_timer = config.jump_buffer_time;
        } else {
            self.jump_buffer_timer = if self.jump_buffer_timer - dt > 0 {
                self.jump_buffer_timer - dt
            } else {
                0
            };
        }
        if input.jump_released && self.vel.y < 0 {
            proof {
                lemma_cut_bound(self.vel.y as int, config@);
                physics::lemma_mul_bound(
                    -self.vel.y as int,
                    config.jump_cut_num as int,
                    SPEED_LIMIT as int,
                    1024,
                );
            }
            let m = -self.vel.y;
            self.vel.y = -div_nn(m * config.jump_cut_num, config.jump_cut_den);
        }
        if self.on_ground {
            self.coyote_timer = config.coyote_time;
        } else {
            self.coyote_timer = if self.coyote_timer - dt > 0 {
                self.coyote_timer - dt
            } else {
                0
            };
        }
        if input.move_x != 0 {
            self.facing = if input.move_x > 0 {
                1
            } else {
                -1
            };
        }
        proof {
            physics::lemma_mul_bound(
                input.move_x as int,
                config.move_speed as int,
                1,
                SPEED_LIMIT as int,
            );
        }
        let target = input.move_x * config.move_speed;
        let accel = if input.move_x != 0 {
            config.move_accel
        } else {
            config.move_decel
        };
        proof {
            physics::lemma_mul_bound(accel as int, dt as int, SPEED_LIMIT as int, TICKS_LIMIT as int);
            physics::lemma_approach_no_overshoot(
                self.vel.x as int,
                target as int,
                accel as int * dt as int,
            );
        }
        self.vel.x = physics::approach(self.vel.x, target, accel * dt);
        let mut jumped = false;
        if self.jump_buffer_timer > 0 && self.coyote_timer > 0 {
            self.vel.y = -config.jump_speed;
            self.on_ground = false;
            self.coyote_timer = 0;
            self.jump_buffer_timer = 0;
            jumped = true;
        }
        proof {
            physics::lemma_mul_bound(
                config.gravity as int,
                dt as int,
                SPEED_LIMIT as int,
                TICKS_LIMIT as int,
            );
        }
        let fallen = self.vel.y + config.gravity * dt;
        self.vel.y = if fallen < config.terminal_velocity {
            fallen
        } else {
            config.terminal_velocity
        };
        let (pos, vel, on_ground) = physics::move_with_collisions(
            self.pos,
            self.size,
            self.vel,
            &world.solids,
            dt,
        );
        self.pos = pos;
        self.vel = vel;
        self.on_ground = on_ground;
        if self.jump_buffer_timer > 0 && self.on_ground {
            self.vel.y = -config.jump_speed;
            self.on_ground = false;
            self.coyote_timer = 0;
            self.jump_buffer_timer = 0;
            jumped = true;
        }
        jumped
    }

    /// The player's extents.
    pub fn size(&self) -> (s: Vec2i)
        ensures
            s == self.size,
    {
        self.size
    }

    /// The centre of the player's rectangle.
    pub fn center(&self) -> (c: Vec2i)
        requires
            -(ACTOR_POS_LIMIT as int) <= self@.pos.x <= ACTOR_POS_LIMIT as int,
            -(ACTOR_POS_LIMIT as int) <= self@.pos.y <= ACTOR_POS_LIMIT as int,
            0 <= self@.size.x <= SIZE_LIMIT as int,
            0 <= self@.size.y <= SIZE_LIMIT as int,
        ensures
            c@.x == self@.pos.x + self@.size.x / 2,
            c@.y == self@.pos.y + self@.size.y / 2,
    {
        Vec2i { x: self.pos.x + div_nn(self.size.x, 2), y: self.pos.y + div_nn(self.size.y, 2) }
    }

    /// The player's current rectangle.
    pub fn rect(&self) -> (r: Recti)
        ensures
            r@ == crate::geom::rect_of(self@.pos, self@.size),
    {
        crate::geom::rect_at(self.pos, self.size)
    }

    /// The facing sign: `1` right, `-1` left.
    pub fn facing_dir(&self) -> (d: i64)
        ensures
            d as int == self@.facing,
    {
        self.facing
    }

    /// Whether the mushroom power is held.
    pub fn is_powered(&self) -> (b: bool)
        ensures
            b == self@.powered,
    {
        self.powered
    }

    /// Sets or clears the mushroom power.
    pub fn set_powered(&mut self, powered: bool)
        ensures
            final(self)@ == (PlayerM { powered, ..old(self)@ }),
    {
        self.powered = powered;
    }

    /// Whether the hurt invulnerability window is open.
    pub fn is_invulnerable(&self) -> (b: bool)
        ensures
            b == (self@.invuln > 0),
    {
        self.invuln_timer > 0
    }

    /// Opens the invulnerability window for `duration` ticks (a negative
    /// duration closes it).
    pub fn start_invulnerability(&mut self, duration: i64)
        ensures
            final(self)@ == (PlayerM {
                invuln: if duration >= 0 {
                    duration as int
                } else {
                    0
                },
                ..old(self)@
            }),
    {
        self.invuln_timer = if duration >= 0 {
            duration
        } else {
            0
        };
    }
}

/// A stepped player's position carries the motion kernel's output bounds:
/// it lies within the saturation range plus one extent.
pub proof fn lemma_player_step_pos(p: PlayerM, inp: InputState, solids: Seq<R4>, c: CfgM, dt: int)
    requires
        p.wf(c),
        c.wf(),
        solids_wf(solids),
    ensures
        ({
            let (p2, jumped) = player_step(p, inp, solids, c, dt);
            &&& -(COORD_LIMIT + SIZE_LIMIT) <= p2.pos.x <= COORD_LIMIT + SIZE_LIMIT
            &&& -(COORD_LIMIT + SIZE_LIMIT) <= p2.pos.y <= COORD_LIMIT + SIZE_LIMIT
        }),
{
    let t = step_timers(p, inp, c, dt);
    let (j1p, jumped1) = step_first_jump(t, c);
    let g = step_gravity(j1p, c, dt);
    physics::lemma_kernel_bounds(g.pos, g.size, g.vel, solids, dt);
}

/// Pressing jump fills the jump buffer to its full window; if nothing
/// consumes it this step, the buffered request survives the step.
pub proof fn law_jump_press_fills_buffer(
    p: PlayerM,
    inp: InputState,
    solids: Seq<R4>,
    c: CfgM,
    dt: int,
)
    requires
        inp.jump_pressed,
    ensures
        step_timers(p, inp, c, dt).buffer == c.jump_buffer_time,
        !player_step(p, inp, solids, c, dt).1 ==> player_step(p, inp, solids, c, dt).0.buffer
            == c.jump_buffer_time,
{
}

/// Without a press and without a jump firing, the buffer decays by exactly
/// `dt`, floored at zero.
pub proof fn law_buffer_decays(p: PlayerM, inp: InputState, solids: Seq<R4>, c: CfgM, dt: int)
    requires
        !inp.jump_pressed,
        !player_step(p, inp, solids, c, dt).1,
    ensures
        player_step(p, inp, solids, c, dt).0.buffer == dec0(p.buffer, dt),
{
}

/// The coyote window: a jump request arriving while the coyote timer is
/// still open fires immediately, before any motion.
pub proof fn law_coyote_jump(p: PlayerM, inp: InputState, solids: Seq<R4>, c: CfgM, dt: int)
    requires
        step_timers(p, inp, c, dt).buffer > 0,
        step_timers(p, inp, c, dt).coyote > 0,
    ensures
        player_step(p, inp, solids, c, dt).1,
        step_first_jump(step_timers(p, inp, c, dt), c).0.vel.y == -c.jump_speed,
{
}

/// Jump buffering across a landing: if the buffer is still open after this
/// step's decay and the kernel reports ground contact during the step's
/// motion, the jump fires on this very step, consuming both windows and
/// leaving the player moving upward at the jump speed.
pub proof fn law_buffered_jump_on_landing(
    p: PlayerM,
    inp: InputState,
    solids: Seq<R4>,
    c: CfgM,
    dt: int,
)
    requires
        ({
            let t = step_timers(p, inp, c, dt);
            let (j1p, jumped1) = step_first_jump(t, c);
            let m = step_move(step_gravity(j1p, c, dt), solids, dt);
            m.buffer > 0 && m.on_ground
        }),
    ensures
        player_step(p, inp, solids, c, dt).1,
        player_step(p, inp, solids, c, dt).0.vel.y == -c.jump_speed,
        !player_step(p, inp, solids, c, dt).0.on_ground,
        player_step(p, inp, solids, c, dt).0.buffer == 0,
{
}

/// Releasing the jump while still ascending multiplies the upward velocity
/// by the jump-cut ratio, exactly once, before gravity is applied.
pub proof fn law_jump_cut_applied_once(p: PlayerM, inp: InputState, c: CfgM, dt: int)
    requires
        inp.jump_released,
        p.vel.y < 0,
    ensures
        step_timers(p, inp, c, dt).vel.y == -((-p.vel.y) * c.jump_cut_num / c.jump_cut_den),
{
}

} // verus!
