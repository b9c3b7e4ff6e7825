//! The orchestrator: phases, scoring, pickups, enemy contact, death and
//! the fixed-timestep accumulator.

use mario_rust::config::Config;
use mario_rust::game::{Game, GameEvent, GameState};
use mario_rust::input::InputState;
use mario_rust::world::World;

const TILE: i64 = 8192;

fn started_game(level: &[u8]) -> Game {
    let cfg = Config::default();
    let world = World::from_ascii(level, &cfg).unwrap();
    let mut game = Game::new(world, cfg);
    let start = InputState { start_pressed: true, ..InputState::idle() };
    let events = game.fixed_update(start);
    assert_eq!(events, vec![GameEvent::MusicStarted]);
    assert_eq!(game.state, GameState::Playing);
    game
}

#[test]
fn title_waits_for_start() {
    let cfg = Config::default();
    let world = World::from_ascii(b"P.G\n###", &cfg).unwrap();
    let mut game = Game::new(world, cfg);
    assert_eq!(game.state, GameState::Title);
    let events = game.fixed_update(InputState::idle());
    assert_eq!(game.state, GameState::Title);
    assert!(events.is_empty());
}

#[test]
fn quit_returns_to_title_without_reset() {
    let mut game = started_game(b"P.C.G\n#####");
    game.score = 7;
    let quit = InputState { quit_pressed: true, ..InputState::idle() };
    let events = game.fixed_update(quit);
    assert_eq!(events, vec![GameEvent::MusicStopped]);
    assert_eq!(game.state, GameState::Title);
    assert_eq!(game.score, 7);
}

#[test]
fn first_step_grounds_the_player_and_walking_collects_the_coin() {
    let mut game = started_game(b"P.C.G\n#####");
    let events = game.fixed_update(InputState::idle());
    assert!(events.is_empty());
    assert!(game.player.on_ground);
    assert_eq!(game.player.pos.y, TILE - game.config.player_size.y);
    assert_eq!(game.score, 0);

    let right = InputState { move_x: 1, ..InputState::idle() };
    let mut collected = false;
    for _ in 0..300 {
        let events = game.fixed_update(right);
        if events.contains(&GameEvent::CoinCollected) {
            collected = true;
            break;
        }
    }
    assert!(collected);
    assert_eq!(game.score, 200);
    assert_eq!(game.high_score, 200);
    assert!(game.world.coins.is_empty());
}

#[test]
fn mushroom_powers_up_and_scores() {
    let mut game = started_game(b"P.M.G\n#####");
    assert_eq!(game.world.mushrooms.len(), 1);
    // Stand the player on the mushroom's spot.
    game.player.pos.x = game.world.mushrooms[0].x;
    game.player.pos.y = game.world.mushrooms[0].y;
    let events = game.fixed_update(InputState::idle());
    assert!(events.contains(&GameEvent::PowerupCollected));
    assert!(game.player.is_powered());
    assert_eq!(game.score, 1000);
    assert!(game.world.mushrooms.is_empty());
}

#[test]
fn reaching_the_goal_completes_the_level() {
    let mut game = started_game(b"P.G\n###");
    let pole = game.world.goal_trigger_rect(&game.config);
    game.player.pos.x = pole.x;
    game.player.pos.y = pole.y + pole.h - game.config.player_size.y;
    let events = game.fixed_update(InputState::idle());
    assert!(events.contains(&GameEvent::MusicStopped));
    assert!(events.contains(&GameEvent::GoalReached));
    assert_eq!(game.state, GameState::LevelComplete);
    assert_eq!(game.score, 500);
}

#[test]
fn stomp_kills_the_enemy_and_bounces() {
    let mut game = started_game(b"P.E.G\n#####");
    let enemy_top = TILE - game.config.enemy_size.y;
    // Falling onto the enemy from just above its head.
    game.player.pos.x = game.enemies[0].pos.x;
    game.player.pos.y = enemy_top - game.config.player_size.y + 400;
    game.player.vel.y = 0;
    let events = game.fixed_update(InputState::idle());
    assert!(events.contains(&GameEvent::EnemyStomped));
    assert!(!game.enemies[0].alive);
    assert_eq!(game.player.vel.y, -game.config.stomp_bounce);
    assert_eq!(game.score, 100);
}

#[test]
fn invulnerable_side_contact_changes_nothing() {
    let mut game = started_game(b"P.E.G\n#####");
    game.player.pos.x = game.enemies[0].pos.x - 3000;
    game.player.invuln_timer = 45;
    game.player.powered = false;
    let score_before = game.score;
    let events = game.fixed_update(InputState::idle());
    assert!(!events.contains(&GameEvent::PlayerHurt));
    assert!(!events.contains(&GameEvent::EnemyStomped));
    assert_eq!(game.score, score_before);
    assert!(game.enemies[0].alive);
    assert!(!game.player.is_powered());
    assert_eq!(game.state, GameState::Playing);
}

#[test]
fn powered_side_contact_knocks_back_instead_of_killing() {
    let mut game = started_game(b"P.E.G\n#####");
    game.player.pos.x = game.enemies[0].pos.x - 3000;
    game.player.powered = true;
    let events = game.fixed_update(InputState::idle());
    assert!(events.contains(&GameEvent::PlayerHurt));
    assert!(!game.player.is_powered());
    assert!(game.player.is_invulnerable());
    assert!(game.enemies[0].alive);
    // Knocked away from the enemy, which stands to the right.
    assert_eq!(game.player.vel.x, -game.config.hurt_knockback_x);
    assert_eq!(game.player.vel.y, -game.config.hurt_knockback_y);
}

#[test]
fn unpowered_side_contact_is_death_and_resets_in_place() {
    let mut game = started_game(b"P.C.E.G\n#######");
    game.score = 200;
    game.world.coins.clear();
    game.player.pos.x = game.enemies[0].pos.x - 3000;
    let events = game.fixed_update(InputState::idle());
    assert!(events.contains(&GameEvent::PlayerHurt));
    assert_eq!(game.score, 0);
    assert_eq!(game.state, GameState::Playing);
    // The level is restored in place: coins back, player at its spawn.
    assert_eq!(game.world.coins, game.coin_spawns);
    assert_eq!(game.player.pos.y, TILE - game.config.player_size.y);
    assert!(!game.player.is_powered());
}

#[test]
fn falling_off_the_world_is_death() {
    let mut game = started_game(b"P.G\n###");
    game.player.pos.y = 2 * TILE + 200 * 256 + 1000;
    game.player.pos.x = 10 * TILE;
    let events = game.fixed_update(InputState::idle());
    assert!(events.contains(&GameEvent::PlayerHurt));
    assert_eq!(game.player.pos.x, (TILE - game.config.player_size.x) / 2);
}

#[test]
fn restart_restores_the_parsed_collectibles() {
    let mut game = started_game(b"P.CMC.G\n#######");
    let cfg = Config::default();
    let fresh = World::from_ascii(b"P.CMC.G\n#######", &cfg).unwrap();
    // Stand in for a cleared level by emptying the live sets.
    game.world.coins.clear();
    game.world.mushrooms.clear();
    game.score = 400;
    let restart = InputState { restart_pressed: true, ..InputState::idle() };
    let events = game.fixed_update(restart);
    assert_eq!(events, vec![GameEvent::MusicStarted]);
    assert_eq!(game.state, GameState::Playing);
    assert_eq!(game.score, 0);
    // The round trip: the reset live sets equal the fresh parse's sets.
    assert_eq!(game.world.coins, fresh.coins);
    assert_eq!(game.world.mushrooms, fresh.mushrooms);
    assert_eq!(game.coin_spawns, fresh.coins);
    assert_eq!(game.mushroom_spawns, fresh.mushrooms);
}

#[test]
fn high_score_survives_death_and_restart() {
    let mut game = started_game(b"P.E.G\n#####");
    game.score = 0;
    game.player.pos.x = game.enemies[0].pos.x - 3000;
    // Earn a stomp first.
    game.player.pos.y = TILE - game.config.enemy_size.y - game.config.player_size.y + 400;
    game.player.pos.x = game.enemies[0].pos.x;
    game.fixed_update(InputState::idle());
    assert_eq!(game.high_score, 100);
    let restart = InputState { restart_pressed: true, ..InputState::idle() };
    game.fixed_update(restart);
    assert_eq!(game.score, 0);
    assert_eq!(game.high_score, 100);
}

#[test]
fn accumulator_drains_in_whole_fixed_steps() {
    let mut game = started_game(b"P.G\n###");
    assert_eq!(game.accumulator_us, 0);
    // 20 ms: one 16.667 ms step runs, 3.333 ms remain.
    game.update(20_000);
    assert_eq!(game.accumulator_us, 20_000 - game.config.fixed_dt_us);
    // A huge stall is clamped to the catch-up limit.
    game.update(10_000_000);
    assert!(game.accumulator_us < game.config.fixed_dt_us);
}

#[test]
fn input_edges_latch_and_fire_once() {
    let mut game = started_game(b"P.G\n###");
    game.fixed_update(InputState::idle());
    assert!(game.player.on_ground);
    let jump = InputState { jump_pressed: true, ..InputState::idle() };
    game.latch_input(&jump);
    assert!(game.input.jump_pressed);
    game.latch_input(&InputState::idle());
    // The edge survives a frame with no press.
    assert!(game.input.jump_pressed);
    // Two fixed steps: the first consumes the edge and jumps.
    let events = game.update(2 * game.config.fixed_dt_us);
    assert!(events.contains(&GameEvent::Jumped));
    assert!(!game.input.jump_pressed);
    assert_eq!(events.iter().filter(|e| **e == GameEvent::Jumped).count(), 1);
}
