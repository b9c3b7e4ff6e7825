//! The player and enemy state machines, stepped directly.

use mario_rust::config::Config;
use mario_rust::enemy::Enemy;
use mario_rust::input::InputState;
use mario_rust::player::Player;
use mario_rust::world::World;

const TILE: i64 = 8192;

fn press_jump() -> InputState {
    InputState { jump_pressed: true, ..InputState::idle() }
}

#[test]
fn idle_player_settles_on_the_floor() {
    let cfg = Config::default();
    let w = World::from_ascii(b"P.G\n###", &cfg).unwrap();
    let mut p = Player::new(w.player_spawn, &cfg);
    assert_eq!(p.pos.y, TILE - cfg.player_size.y);
    let jumped = p.update(&InputState::idle(), &w, &cfg, 1);
    assert!(!jumped);
    assert!(p.on_ground);
    assert_eq!(p.pos.y, TILE - cfg.player_size.y);
    assert_eq!(p.vel.y, 0);
}

#[test]
fn grounded_jump_fires_at_once() {
    let cfg = Config::default();
    let w = World::from_ascii(b"P.G\n###", &cfg).unwrap();
    let mut p = Player::new(w.player_spawn, &cfg);
    p.update(&InputState::idle(), &w, &cfg, 1);
    assert!(p.on_ground);
    let jumped = p.update(&press_jump(), &w, &cfg, 1);
    assert!(jumped);
    assert!(!p.on_ground);
    // Upward at jump speed, after one tick of gravity.
    assert_eq!(p.vel.y, -cfg.jump_speed + cfg.gravity);
}

#[test]
fn jump_buffered_before_landing_fires_on_the_landing_step() {
    let cfg = Config::default();
    let w = World::from_ascii(b"P.G\n###", &cfg).unwrap();
    let mut p = Player::new(w.player_spawn, &cfg);
    // Hang the player half a pixel above its standing spot.
    p.pos.y = TILE - cfg.player_size.y - 500;
    p.on_ground = false;
    // The press arrives while still airborne.
    let j1 = p.update(&press_jump(), &w, &cfg, 1);
    assert!(!j1);
    let j2 = p.update(&InputState::idle(), &w, &cfg, 1);
    assert!(!j2);
    // Landing happens on this step, and the buffered jump fires with it.
    let j3 = p.update(&InputState::idle(), &w, &cfg, 1);
    assert!(j3);
    assert_eq!(p.vel.y, -cfg.jump_speed);
    assert!(!p.on_ground);
    assert_eq!(p.jump_buffer_timer, 0);
}

#[test]
fn coyote_window_allows_a_late_jump() {
    let cfg = Config::default();
    let w = World::from_ascii(b"P.G\n###", &cfg).unwrap();
    let mut p = Player::new(w.player_spawn, &cfg);
    // High in the air but flagged as grounded, as if the ledge was just left.
    p.pos.y = TILE - cfg.player_size.y - 50000;
    p.on_ground = true;
    let j1 = p.update(&InputState::idle(), &w, &cfg, 1);
    assert!(!j1);
    assert!(!p.on_ground);
    assert!(p.coyote_timer > 0);
    // Within the coyote window the jump still fires, before any landing.
    let j2 = p.update(&press_jump(), &w, &cfg, 1);
    assert!(j2);
}

#[test]
fn jump_cut_halves_ascent_exactly_once() {
    let cfg = Config::default();
    let w = World::from_ascii(b"P.G\n###", &cfg).unwrap();
    let mut p = Player::new(w.player_spawn, &cfg);
    p.pos.y = TILE - cfg.player_size.y - 100000;
    p.on_ground = false;
    p.vel.y = -1000;
    let release = InputState { jump_released: true, ..InputState::idle() };
    p.update(&release, &w, &cfg, 1);
    // Halved once to -500, then one tick of gravity.
    assert_eq!(p.vel.y, -500 + cfg.gravity);
}

#[test]
fn facing_follows_horizontal_intent() {
    let cfg = Config::default();
    let w = World::from_ascii(b"P.G\n###", &cfg).unwrap();
    let mut p = Player::new(w.player_spawn, &cfg);
    assert_eq!(p.facing_dir(), 1);
    let left = InputState { move_x: -1, ..InputState::idle() };
    p.update(&left, &w, &cfg, 1);
    assert_eq!(p.facing_dir(), -1);
    assert_eq!(p.vel.x, -cfg.move_accel);
    p.update(&InputState::idle(), &w, &cfg, 1);
    // Zero intent decelerates and leaves the facing alone.
    assert_eq!(p.facing_dir(), -1);
    assert_eq!(p.vel.x, 0);
}

#[test]
fn enemy_patrols_without_falling_off_its_ledge() {
    let cfg = Config::default();
    let w = World::from_ascii(b"P....G\n######\n......\n..E...\n.###..", &cfg).unwrap();
    assert_eq!(w.enemy_spawns.len(), 1);
    let mut e = Enemy::new(w.enemy_spawns[0], &w, &cfg);
    let standing_y = 4 * TILE - cfg.enemy_size.y;
    assert_eq!(e.pos.y, standing_y);
    assert_eq!(e.dir, -1);
    let mut turned_right = false;
    let mut turned_left_again = false;
    for _ in 0..2000 {
        e.update(&w, &cfg, 1);
        assert!(e.alive);
        // Never leaves the platform's top: no free fall off the ledge.
        assert_eq!(e.pos.y, standing_y);
        assert!(e.pos.x >= TILE - 256);
        assert!(e.pos.x + cfg.enemy_size.x <= 4 * TILE + 256);
        if e.dir == 1 {
            turned_right = true;
        }
        if turned_right && e.dir == -1 {
            turned_left_again = true;
        }
    }
    assert!(turned_right);
    assert!(turned_left_again);
}

#[test]
fn enemy_turns_at_a_wall() {
    let cfg = Config::default();
    // A pit walled on both sides; the enemy bounces between the walls.
    let w = World::from_ascii(b"P....G\n######\n#....#\n#.E..#\n######", &cfg).unwrap();
    let mut e = Enemy::new(w.enemy_spawns[0], &w, &cfg);
    let mut hit_left = false;
    let mut hit_right = false;
    for _ in 0..2000 {
        e.update(&w, &cfg, 1);
        assert!(e.pos.x >= TILE);
        assert!(e.pos.x + cfg.enemy_size.x <= 5 * TILE);
        if e.dir == 1 {
            hit_left = true;
        }
        if hit_left && e.dir == -1 {
            hit_right = true;
        }
    }
    assert!(hit_left);
    assert!(hit_right);
}
