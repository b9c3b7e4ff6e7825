//! The enemy patrol automaton: constant-speed walking under gravity, turning
//! on walls, on ledges, and at the world's horizontal bounds.

use vstd::prelude::*;

use crate::config::{CfgM, Config};
use crate::geom::{
    Recti, Vec2i, R4, V2, ACTOR_POS_LIMIT, SPEED_LIMIT, SUBPIXEL, TICKS_LIMIT,
};
use crate::physics::{self, kernel_move, rects_view};
use crate::player::min_i;
use crate::world::{div_nn, spec_ground_y, World, WorldM, GRID_LIMIT};

verus! {

/// Mathematical model of `Enemy`.
pub struct EnemyM {
    pub pos: V2,
    pub vel: V2,
    pub dir: int,
    pub alive: bool,
    pub size: V2,
    pub on_ground: bool,
}

/// A patrolling enemy.
#[derive(Clone, Copy)]
pub struct Enemy {
    pub pos: Vec2i,
    pub vel: Vec2i,
    pub dir: i64,
    pub alive: bool,
    pub size: Vec2i,
    pub on_ground: bool,
}

impl View for Enemy {
    type V = EnemyM;

    open spec fn view(&self) -> EnemyM {
        EnemyM {
            pos: self.pos@,
            vel: self.vel@,
            dir: self.dir as int,
            alive: self.alive,
            size: self.size@,
            on_ground: self.on_ground,
        }
    }
}

impl EnemyM {
    /// Validity: bounded position and velocity, the configured extents and a
    /// unit patrol direction.
    pub open spec fn wf(self, c: CfgM) -> bool {
        &&& -(ACTOR_POS_LIMIT as int) <= self.pos.x <= ACTOR_POS_LIMIT as int
        &&& -(ACTOR_POS_LIMIT as int) <= self.pos.y <= ACTOR_POS_LIMIT as int
        &&& -(SPEED_LIMIT as int) <= self.vel.x <= SPEED_LIMIT as int
        &&& -(SPEED_LIMIT as int) <= self.vel.y <= SPEED_LIMIT as int
        &&& self.size == c.enemy_size
        &&& (self.dir == 1 || self.dir == -1)
    }
}

/// Where an enemy spawned on tile `tile_pos` first stands: centred on the
/// tile's column, feet on the terrain under the tile (or hanging from the
/// tile's bottom edge if the column has no ground).
pub open spec fn enemy_spawn_base(tile_pos: V2, w: WorldM, c: CfgM) -> int {
    let sample_x = tile_pos.x + c.tile_size / 2;
    match spec_ground_y(w, sample_x, tile_pos.y, c.tile_size) {
        Option::Some(y) => y,
        Option::None => tile_pos.y + c.tile_size,
    }
}

/// The freshly spawned enemy: standing on the terrain under its spawn tile,
/// at rest, patrolling leftward.
pub open spec fn enemy_init(tile_pos: V2, w: WorldM, c: CfgM) -> EnemyM {
    EnemyM {
        pos: V2 {
            x: tile_pos.x + (c.tile_size - c.enemy_size.x) / 2,
            y: enemy_spawn_base(tile_pos, w, c) - c.enemy_size.y,
        },
        vel: V2 { x: 0, y: 0 },
        dir: -1,
        alive: true,
        size: c.enemy_size,
        on_ground: false,
    }
}

/// Whether the ledge probe one pixel beyond the leading foot finds ground
/// at or above the probe point, i.e. whether the next step is supported.
pub open spec fn ledge_supported(pos: V2, size: V2, dir: int, w: WorldM, c: CfgM) -> bool {
    let foot_x = if dir >= 0 {
        pos.x + size.x + SUBPIXEL as int
    } else {
        pos.x - SUBPIXEL as int
    };
    let foot_y = pos.y + size.y + SUBPIXEL as int;
    match spec_ground_y(w, foot_x, foot_y, c.tile_size) {
        Option::Some(gy) => gy <= foot_y,
        Option::None => false,
    }
}

/// One enemy step: gravity, patrol velocity, kernel-resolved motion, then
/// turning on a wall hit or an unsupported ledge, and finally the
/// last-resort clamp to the world's horizontal bounds.  A dead enemy is
/// inert.
pub open spec fn enemy_step(e: EnemyM, w: WorldM, c: CfgM, dt: int) -> EnemyM {
    if !e.alive {
        e
    } else {
        let vy = min_i(e.vel.y + c.gravity * dt, c.terminal_velocity);
        let vx = c.enemy_speed * e.dir;
        let (pos, vel, on_ground) = kernel_move(e.pos, e.size, V2 { x: vx, y: vy }, w.solids, dt);
        let hit_wall = vx != 0 && vel.x == 0;
        let turned = if hit_wall {
            EnemyM {
                pos,
                vel: V2 { x: c.enemy_speed * -e.dir, y: vel.y },
                dir: -e.dir,
                on_ground,
                ..e
            }
        } else if on_ground && !ledge_supported(pos, e.size, e.dir, w, c) {
            EnemyM {
                pos,
                vel: V2 { x: c.enemy_speed * -e.dir, y: vel.y },
                dir: -e.dir,
                on_ground,
                ..e
            }
        } else {
            EnemyM { pos, vel, on_ground, ..e }
        };
        let world_w = w.width * c.tile_size;
        if turned.pos.x <= 0 {
            EnemyM { pos: V2 { x: 0, y: turned.pos.y }, dir: 1, ..turned }
        } else if turned.pos.x + e.size.x >= world_w {
            EnemyM {
                pos: V2 {
                    x: if world_w - e.size.x >= 0 {
                        world_w - e.size.x
                    } else {
                        0
                    },
                    y: turned.pos.y,
                },
                dir: -1,
                ..turned
            }
        } else {
            turned
        }
    }
}

/// The patrol velocity `speed * dir` for a unit direction sign.
fn scaled_dir(speed: i64, dir: i64) -> (r: i64)
    requires
        0 <= speed <= SPEED_LIMIT,
        dir == 1 || dir == -1,
    ensures
        r as int == speed as int * dir as int,
        -SPEED_LIMIT <= r <= SPEED_LIMIT,
{
    proof {
        vstd::arithmetic::mul::lemma_mul_basics(speed as int);
        vstd::arithmetic::mul::lemma_mul_unary_negation(speed as int, 1);
    }
    if dir >= 0 {
        speed
    } else {
        -speed
    }
}

impl Enemy {
    /// An enemy freshly placed under its spawn tile.
    pub fn new(tile_pos: Vec2i, world: &World, config: &Config) -> (e: Enemy)
        requires
            config@.wf(),
            world@.wf(),
            crate::world::pt_ok(tile_pos@),
        ensures
            e@ == enemy_init(tile_pos@, world@, config@),
            e@.wf(config@),
    {
        let size = config.enemy_size;
        let tile = config.tile_size;
        let x = tile_pos.x + div_nn(tile - size.x, 2);
        let sample_x = tile_pos.x + div_nn(tile, 2);
        let base_y = match world.ground_y_for_x(sample_x, tile_pos.y, config) {
            Some(y) => y,
            None => tile_pos.y + tile,
        };
        Enemy {
            pos: Vec2i { x, y: base_y - size.y },
            vel: Vec2i { x: 0, y: 0 },
            dir: -1,
            alive: true,
            size,
            on_ground: false,
        }
    }

    /// Puts the enemy back to its freshly spawned state.
    pub fn reset(&mut self, tile_pos: Vec2i, world: &World, config: &Config)
        requires
            config@.wf(),
            world@.wf(),
            crate::world::pt_ok(tile_pos@),
        ensures
            final(self)@ == enemy_init(tile_pos@, world@, config@),
            final(self)@.wf(config@),
    {
        *self = Enemy::new(tile_pos, world, config);
    }

    /// Advances the enemy by one step of `dt` ticks, exactly as `enemy_step`
    /// states.
    pub fn update(&mut self, world: &World, config: &Config, dt: i64)
        requires
            old(self)@.wf(config@),
            config@.wf(),
            world@.wf(),
            0 <= dt <= TICKS_LIMIT,
        ensures
            final(self)@ == enemy_step(old(self)@, world@, config@, dt as int),
            final(self)@.wf(config@),
    {
        if !self.alive {
            return ;
        }
        proof {
            physics::lemma_mul_bound(
                config.gravity as int,
                dt as int,
                SPEED_LIMIT as int,
                TICKS_LIMIT as int,
            );
        }
        let fallen = self.vel.y + config.gravity * dt;
        self.vel.y = if fallen < config.terminal_velocity {
            fallen
        } else {
            config.terminal_velocity
        };
        self.vel.x = scaled_dir(config.enemy_speed, self.dir);
        let desired_x = self.vel.x;
        let (pos, vel, on_ground) = physics::move_with_collisions(
            self.pos,
            self.size,
            self.vel,
            &world.solids,
            dt,
        );
        let hit_wall = desired_x != 0 && vel.x == 0;
        self.pos = pos;
        self.vel = vel;
        self.on_ground = on_ground;
        if hit_wall {
            self.dir = -self.dir;
            self.vel.x = scaled_dir(config.enemy_speed, self.dir);
        } else if self.on_ground {
            let foot_x = if self.dir >= 0 {
                self.pos.x + self.size.x + SUBPIXEL
            } else {
                self.pos.x - SUBPIXEL
            };
            let foot_y = self.pos.y + self.size.y + SUBPIXEL;
            let supported = match world.ground_y_for_x(foot_x, foot_y, config) {
                Some(gy) => gy <= foot_y,
                None => false,
            };
            if !supported {
                self.dir = -self.dir;
                self.vel.x = scaled_dir(config.enemy_speed, self.dir);
            }
        }
        proof {
            physics::lemma_mul_bound(
                world.width as int,
                config.tile_size as int,
                GRID_LIMIT as int,
                0x1_0000,
            );
        }
        let world_w = world.width as i64 * config.tile_size;
        if self.pos.x <= 0 {
            self.pos.x = 0;
            self.dir = 1;
        } else if self.pos.x + self.size.x >= world_w {
            self.pos.x = if world_w - self.size.x >= 0 {
                world_w - self.size.x
            } else {
                0
            };
            self.dir = -1;
        }
    }

    /// The enemy's current rectangle.
    pub fn rect(&self) -> (r: Recti)
        ensures
            r@ == crate::geom::rect_of(self@.pos, self@.size),
    {
        crate::geom::rect_at(self.pos, self.size)
    }
}

/// An enemy that is grounded, not blocked by a wall, and whose ledge probe
/// finds no supporting ground ahead turns around instead of stepping off:
/// its patrol direction flips within the same step.
pub proof fn law_enemy_turns_at_ledge(e: EnemyM, w: WorldM, c: CfgM, dt: int)
    requires
        e.alive,
        ({
            let vy = min_i(e.vel.y + c.gravity * dt, c.terminal_velocity);
            let vx = c.enemy_speed * e.dir;
            let (pos, vel, on_ground) = kernel_move(
                e.pos,
                e.size,
                V2 { x: vx, y: vy },
                w.solids,
                dt,
            );
            &&& !(vx != 0 && vel.x == 0)
            &&& on_ground
            &&& !ledge_supported(pos, e.size, e.dir, w, c)
            &&& 0 < pos.x
            &&& pos.x + e.size.x < w.width * c.tile_size
        }),
    ensures
        enemy_step(e, w, c, dt).dir == -e.dir,
        enemy_step(e, w, c, dt).vel.x == c.enemy_speed * -e.dir,
{
}

} // verus!
