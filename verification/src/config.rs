//! The immutable tuning constants of the simulation.
//!
//! Lengths are subpixels, velocities subpixels per tick, accelerations
//! subpixels per tick squared, timers whole ticks; the frame accumulator
//! bounds are microseconds.  The jump cut is a rational multiplier
//! `jump_cut_num / jump_cut_den` applied to the upward velocity.

use vstd::prelude::*;

use crate::geom::{Vec2i, V2, SPEED_LIMIT, TICKS_LIMIT};

verus! {

/// Tunable constants, loaded once and never mutated.
#[derive(Clone, Copy, PartialEq, Eq, Structural, Debug)]
pub struct Config {
    /// Length of one simulation step, in microseconds.
    pub fixed_dt_us: i64,
    /// Upper clamp on a frame's elapsed time, in microseconds.
    pub max_frame_time_us: i64,
    /// Edge length of a solid tile, in subpixels.
    pub tile_size: i64,
    pub player_size: Vec2i,
    pub move_speed: i64,
    pub move_accel: i64,
    pub move_decel: i64,
    pub gravity: i64,
    pub terminal_velocity: i64,
    pub jump_speed: i64,
    /// Ticks of grace after leaving the ground during which a jump still fires.
    pub coyote_time: i64,
    /// Ticks a jump request is remembered while airborne.
    pub jump_buffer_time: i64,
    pub jump_cut_num: i64,
    pub jump_cut_den: i64,
    pub stomp_bounce: i64,
    pub enemy_size: Vec2i,
    pub enemy_speed: i64,
    pub mushroom_size: Vec2i,
    /// Ticks of invulnerability after a powered player is hurt.
    pub hurt_invuln_time: i64,
    pub hurt_knockback_x: i64,
    pub hurt_knockback_y: i64,
}

/// Mathematical model of `Config`.
pub struct CfgM {
    pub fixed_dt_us: int,
    pub max_frame_time_us: int,
    pub tile_size: int,
    pub player_size: V2,
    pub move_speed: int,
    pub move_accel: int,
    pub move_decel: int,
    pub gravity: int,
    pub terminal_velocity: int,
    pub jump_speed: int,
    pub coyote_time: int,
    pub jump_buffer_time: int,
    pub jump_cut_num: int,
    pub jump_cut_den: int,
    pub stomp_bounce: int,
    pub enemy_size: V2,
    pub enemy_speed: int,
    pub mushroom_size: V2,
    pub hurt_invuln_time: int,
    pub hurt_knockback_x: int,
    pub hurt_knockback_y: int,
}

impl View for Config {
    type V = CfgM;

    open spec fn view(&self) -> CfgM {
        CfgM {
            fixed_dt_us: self.fixed_dt_us as int,
            max_frame_time_us: self.max_frame_time_us as int,
            tile_size: self.tile_size as int,
            player_size: self.player_size@,
            move_speed: self.move_speed as int,
            move_accel: self.move_accel as int,
            move_decel: self.move_decel as int,
            gravity: self.gravity as int,
            terminal_velocity: self.terminal_velocity as int,
            jump_speed: self.jump_speed as int,
            coyote_time: self.coyote_time as int,
            jump_buffer_time: self.jump_buffer_time as int,
            jump_cut_num: self.jump_cut_num as int,
            jump_cut_den: self.jump_cut_den as int,
            stomp_bounce: self.stomp_bounce as int,
            enemy_size: self.enemy_size@,
            enemy_speed: self.enemy_speed as int,
            mushroom_size: self.mushroom_size@,
            hurt_invuln_time: self.hurt_invuln_time as int,
            hurt_knockback_x: self.hurt_knockback_x as int,
            hurt_knockback_y: self.hurt_knockback_y as int,
        }
    }
}

impl CfgM {
    /// Sanity bounds on the constants; every speed, size and timer is
    /// non-negative and small enough that the simulation arithmetic never
    /// overflows.
    pub open spec fn wf(self) -> bool {
        &&& 1 <= self.fixed_dt_us <= 1_000_000
        &&& 0 <= self.max_frame_time_us <= 10_000_000
        &&& 256 <= self.tile_size <= 0x1_0000
        &&& 0 < self.player_size.x <= 0x10_0000
        &&& 0 < self.player_size.y <= 0x10_0000
        &&& 0 < self.enemy_size.x <= 0x10_0000
        &&& 0 < self.enemy_size.y <= 0x10_0000
        &&& 0 < self.mushroom_size.x <= 0x10_0000
        &&& 0 < self.mushroom_size.y <= 0x10_0000
        &&& self.player_size.x <= self.tile_size
        &&& self.player_size.y <= self.tile_size
        &&& self.enemy_size.x <= self.tile_size
        &&& self.enemy_size.y <= self.tile_size
        &&& self.mushroom_size.x <= self.tile_size
        &&& self.mushroom_size.y <= self.tile_size
        &&& 0 <= self.move_speed <= SPEED_LIMIT as int
        &&& 0 <= self.move_accel <= SPEED_LIMIT as int
        &&& 0 <= self.move_decel <= SPEED_LIMIT as int
        &&& 0 <= self.gravity <= SPEED_LIMIT as int
        &&& 0 <= self.terminal_velocity <= SPEED_LIMIT as int
        &&& 0 <= self.jump_speed <= SPEED_LIMIT as int
        &&& 0 <= self.stomp_bounce <= SPEED_LIMIT as int
        &&& 1 <= self.enemy_speed <= SPEED_LIMIT as int
        &&& 0 <= self.hurt_knockback_x <= SPEED_LIMIT as int
        &&& 0 <= self.hurt_knockback_y <= SPEED_LIMIT as int
        &&& 0 <= self.coyote_time <= TICKS_LIMIT as int
        &&& 0 <= self.jump_buffer_time <= TICKS_LIMIT as int
        &&& 0 <= self.hurt_invuln_time <= TICKS_LIMIT as int
        &&& 0 <= self.jump_cut_num <= self.jump_cut_den
        &&& 1 <= self.jump_cut_den <= 1024
    }
}

impl Default for Config {
    /// The stock tuning: a 32 pixel tile, 60 simulation ticks per second,
    /// and the platformer feel constants expressed per tick.
    fn default() -> (c: Config)
        ensures
            c@.wf(),
            c.fixed_dt_us == 16667,
            c.max_frame_time_us == 250000,
            c.tile_size == 8192,
            c.player_size == (Vec2i { x: 5632, y: 7168 }),
            c.move_speed == 939,
            c.move_accel == 114,
            c.move_decel == 142,
            c.gravity == 85,
            c.terminal_velocity == 3328,
            c.jump_speed == 1792,
            c.coyote_time == 6,
            c.jump_buffer_time == 7,
            c.jump_cut_num == 1,
            c.jump_cut_den == 2,
            c.stomp_bounce == 1365,
            c.enemy_size == (Vec2i { x: 6144, y: 5120 }),
            c.enemy_speed == 277,
            c.mushroom_size == (Vec2i { x: 6144, y: 5632 }),
            c.hurt_invuln_time == 45,
            c.hurt_knockback_x == 853,
            c.hurt_knockback_y == 1109,
    {
        Config {
            fixed_dt_us: 16667,
            max_frame_time_us: 250000,
            tile_size: 8192,
            player_size: Vec2i { x: 5632, y: 7168 },
            move_speed: 939,
            move_accel: 114,
            move_decel: 142,
            gravity: 85,
            terminal_velocity: 3328,
            jump_speed: 1792,
            coyote_time: 6,
            jump_buffer_time: 7,
            jump_cut_num: 1,
            jump_cut_den: 2,
            stomp_bounce: 1365,
            enemy_size: Vec2i { x: 6144, y: 5120 },
            enemy_speed: 277,
            mushroom_size: Vec2i { x: 6144, y: 5632 },
            hurt_invuln_time: 45,
            hurt_knockback_x: 853,
            hurt_knockback_y: 1109,
        }
    }
}

} // verus!
