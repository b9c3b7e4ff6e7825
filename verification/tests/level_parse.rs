//! Level parsing: the character classes, the load errors, and the placed
//! collectibles.

use mario_rust::config::Config;
use mario_rust::geom::Vec2i;
use mario_rust::level::LoadError;
use mario_rust::world::World;

const TILE: i64 = 8192;

#[test]
fn minimal_level_parses() {
    let cfg = Config::default();
    let w = World::from_ascii(b"P.G\n###", &cfg).unwrap();
    assert_eq!(w.width, 3);
    assert_eq!(w.height, 2);
    assert_eq!(w.player_spawn, Vec2i { x: 0, y: 0 });
    assert_eq!(w.goal_tile, Vec2i { x: 2 * TILE, y: 0 });
    assert_eq!(w.solids.len(), 3);
    assert_eq!(w.solids[0].x, 0);
    assert_eq!(w.solids[0].y, TILE);
    assert_eq!(w.solids[0].w, TILE);
    assert_eq!(w.solids[0].h, TILE);
}

#[test]
fn empty_level_is_refused() {
    let cfg = Config::default();
    assert_eq!(World::from_ascii(b"", &cfg).unwrap_err(), LoadError::EmptyLevel);
    assert_eq!(World::from_ascii(b"\n \n\t\n", &cfg).unwrap_err(), LoadError::EmptyLevel);
}

#[test]
fn unexpected_character_is_refused() {
    let cfg = Config::default();
    assert_eq!(
        World::from_ascii(b"PXG\n###", &cfg).unwrap_err(),
        LoadError::UnexpectedTile(b'X')
    );
}

#[test]
fn duplicate_and_missing_markers_are_refused() {
    let cfg = Config::default();
    assert_eq!(
        World::from_ascii(b"PP.G\n####", &cfg).unwrap_err(),
        LoadError::DuplicatePlayerSpawn
    );
    assert_eq!(
        World::from_ascii(b"PG.G\n####", &cfg).unwrap_err(),
        LoadError::DuplicateGoal
    );
    assert_eq!(World::from_ascii(b"..G\n###", &cfg).unwrap_err(), LoadError::MissingPlayerSpawn);
    assert_eq!(World::from_ascii(b"P..\n###", &cfg).unwrap_err(), LoadError::MissingGoal);
}

#[test]
fn first_defect_in_row_major_order_wins() {
    let cfg = Config::default();
    // The stray character comes before the second goal marker.
    assert_eq!(
        World::from_ascii(b"PG\nXG", &cfg).unwrap_err(),
        LoadError::UnexpectedTile(b'X')
    );
}

#[test]
fn coin_centres_and_grid_queries() {
    let cfg = Config::default();
    let w = World::from_ascii(b"P.C.G\n#####", &cfg).unwrap();
    assert_eq!(w.coins.len(), 1);
    assert_eq!(w.coins[0], Vec2i { x: 2 * TILE + TILE / 2, y: TILE / 2 });
    assert!(w.is_solid_tile(0, 1));
    assert!(!w.is_solid_tile(0, 0));
    assert!(!w.is_solid_tile(-1, 1));
    assert!(!w.is_solid_tile(5, 1));
    // The column's first solid at or below the start row.
    assert_eq!(w.ground_y_for_x(TILE / 2, 0, &cfg), Some(TILE));
    assert_eq!(w.ground_y_for_x(-1, 0, &cfg), None);
    assert_eq!(w.ground_y_for_x(TILE / 2, 2 * TILE, &cfg), None);
}

#[test]
fn mushrooms_settle_on_the_terrain() {
    let cfg = Config::default();
    let w = World::from_ascii(b"M....\nP.G..\n#####", &cfg).unwrap();
    assert_eq!(w.mushrooms.len(), 1);
    // Centred on the tile, feet on the floor two rows down.
    let expected_x = (TILE - cfg.mushroom_size.x) / 2;
    let expected_y = 2 * TILE - cfg.mushroom_size.y;
    assert_eq!(w.mushrooms[0], Vec2i { x: expected_x, y: expected_y });
}

#[test]
fn ragged_rows_take_the_longest_width() {
    let cfg = Config::default();
    let w = World::from_ascii(b"P.G\n######", &cfg).unwrap();
    assert_eq!(w.width, 6);
    assert_eq!(w.height, 2);
    assert_eq!(w.solids.len(), 6);
}

#[test]
fn trailing_whitespace_and_blank_rows_are_cleaned() {
    let cfg = Config::default();
    let w = World::from_ascii(b"P.G  \r\n\n###\t\n", &cfg).unwrap();
    assert_eq!(w.width, 3);
    assert_eq!(w.height, 2);
}

#[test]
fn goal_trigger_stands_on_the_ground() {
    let cfg = Config::default();
    let w = World::from_ascii(b"P.G\n###", &cfg).unwrap();
    let pole = w.goal_trigger_rect(&cfg);
    let center = 2 * TILE + TILE / 2;
    let pole_w = TILE * 18 / 100;
    assert_eq!(pole.w, pole_w);
    assert_eq!(pole.h, 3 * TILE);
    assert_eq!(pole.x, center - pole_w / 2);
    assert_eq!(pole.y, TILE - 3 * TILE);
}

#[test]
fn built_in_fallback_layout_is_valid() {
    // The layout the shell falls back to when the level file is missing or
    // broken; it must always parse.
    let level = b"\
................................\n\
................................\n\
................................\n\
................................\n\
.......C.........C.......C......\n\
......#####.....#####...#####...\n\
..P....M....E................G..\n\
#######...########..######...###\n";
    let cfg = Config::default();
    let w = World::from_ascii(level, &cfg).unwrap();
    assert_eq!(w.width, 32);
    assert_eq!(w.height, 8);
    assert_eq!(w.coins.len(), 3);
    assert_eq!(w.mushrooms.len(), 1);
    assert_eq!(w.enemy_spawns.len(), 1);
    assert_eq!(w.player_spawn, Vec2i { x: 2 * TILE, y: 6 * TILE });
    assert_eq!(w.goal_tile, Vec2i { x: 29 * TILE, y: 6 * TILE });
}

#[test]
fn camera_clamps_into_the_world() {
    let cfg = Config::default();
    let w = World::from_ascii(b"P.........G\n###########", &cfg).unwrap();
    // World is 11 x 2 tiles; a screen two tiles wide clamps per axis.
    let screen_w = 2 * TILE;
    let screen_h = TILE;
    let c = w.camera_for_focus(Vec2i { x: 0, y: 0 }, &cfg, screen_w, screen_h);
    assert_eq!(c.x, TILE);
    assert_eq!(c.y, TILE / 2);
    let c2 = w.camera_for_focus(Vec2i { x: 100 * TILE, y: 100 * TILE }, &cfg, screen_w, screen_h);
    assert_eq!(c2.x, 11 * TILE - TILE);
    assert_eq!(c2.y, 2 * TILE - TILE / 2);
    // A screen wider than the world centres on the world's midpoint.
    let c3 = w.camera_for_focus(Vec2i { x: 0, y: 0 }, &cfg, 100 * TILE, 100 * TILE);
    assert_eq!(c3.x, 11 * TILE / 2);
    assert_eq!(c3.y, TILE);
}
