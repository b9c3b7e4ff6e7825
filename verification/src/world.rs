//! The static level geometry, the collectible state, and the terrain
//! queries the actors and the camera rely on.

use vstd::prelude::*;

use crate::config::{CfgM, Config};
use crate::geom::{Recti, Vec2i, R4, V2, COORD_LIMIT};
use crate::physics::{clamp_i, rects_view, solids_wf};

verus! {

/// Upper bound on the tile grid's width and height, in tiles.
pub const GRID_LIMIT: i64 = 0x4000;

/// A point whose coordinates fit well inside the kernel's coordinate range.
pub open spec fn pt_ok(p: V2) -> bool {
    &&& -(COORD_LIMIT as int) <= p.x <= COORD_LIMIT as int
    &&& -(COORD_LIMIT as int) <= p.y <= COORD_LIMIT as int
}

/// Every point of the sequence is in range.
pub open spec fn pts_ok(s: Seq<V2>) -> bool {
    forall|i: int| 0 <= i < s.len() ==> pt_ok(#[trigger] s[i])
}

/// Mathematical model of `World`.
pub struct WorldM {
    pub solids: Seq<R4>,
    pub tiles: Seq<bool>,
    pub coins: Seq<V2>,
    pub mushrooms: Seq<V2>,
    pub enemy_spawns: Seq<V2>,
    pub player_spawn: V2,
    pub goal_tile: V2,
    pub width: int,
    pub height: int,
}

/// The level's static geometry plus the live collectible state.  Solid tiles
/// are kept twice: as a rectangle list for the sweep kernel and as a boolean
/// grid for column occupancy queries.
#[derive(Debug)]
pub struct World {
    pub solids: Vec<Recti>,
    pub solid_tiles: Vec<bool>,
    pub coins: Vec<Vec2i>,
    pub mushrooms: Vec<Vec2i>,
    pub enemy_spawns: Vec<Vec2i>,
    pub player_spawn: Vec2i,
    pub goal_tile: Vec2i,
    pub width: usize,
    pub height: usize,
}

/// The view of a point list as a sequence of model points.
pub open spec fn pts_view(s: Seq<Vec2i>) -> Seq<V2> {
    s.map_values(|p: Vec2i| p@)
}

impl View for World {
    type V = WorldM;

    open spec fn view(&self) -> WorldM {
        WorldM {
            solids: rects_view(self.solids@),
            tiles: self.solid_tiles@,
            coins: pts_view(self.coins@),
            mushrooms: pts_view(self.mushrooms@),
            enemy_spawns: pts_view(self.enemy_spawns@),
            player_spawn: self.player_spawn@,
            goal_tile: self.goal_tile@,
            width: self.width as int,
            height: self.height as int,
        }
    }
}

impl WorldM {
    /// A structurally sound world: a non-empty bounded grid backed by a
    /// matching tile vector, well-formed solids, and every stored point in
    /// coordinate range.
    pub open spec fn wf(self) -> bool {
        &&& 1 <= self.width <= GRID_LIMIT as int
        &&& 1 <= self.height <= GRID_LIMIT as int
        &&& self.tiles.len() == self.width * self.height
        &&& solids_wf(self.solids)
        &&& pts_ok(self.coins)
        &&& pts_ok(self.mushrooms)
        &&& pts_ok(self.enemy_spawns)
        &&& pt_ok(self.player_spawn)
        &&& pt_ok(self.goal_tile)
    }
}

/// Whether the grid cell `(col, row)` holds a solid tile; anything outside
/// the grid is non-solid.
pub open spec fn tile_solid(w: WorldM, col: int, row: int) -> bool {
    &&& 0 <= col < w.width
    &&& 0 <= row < w.height
    &&& w.tiles[row * w.width + col]
}

/// The first solid row in column `col` at or below `row`, if any.
pub open spec fn ground_row_from(w: WorldM, col: int, row: int) -> Option<int>
    decreases w.height - row,
{
    if row >= w.height {
        None
    } else if tile_solid(w, col, row) {
        Some(row)
    } else {
        ground_row_from(w, col, row + 1)
    }
}

/// The top edge of the first solid tile in the column containing `x`, at or
/// below the row containing `start_y` (clamped to the grid's top), or `None`
/// if that column has no solid tile from there down.
pub open spec fn spec_ground_y(w: WorldM, x: int, start_y: int, tile: int) -> Option<int> {
    if x < 0 {
        None
    } else {
        let col = x / tile;
        let start_row = if start_y < 0 {
            0
        } else {
            start_y / tile
        };
        match ground_row_from(w, col, start_row) {
            Option::Some(r) => Option::Some(r * tile),
            Option::None => Option::None,
        }
    }
}

/// The goal trigger: a pole three tiles high, centred on the goal tile,
/// standing on the terrain under the goal marker (or hanging from the goal
/// tile's bottom edge if its column has no ground).
pub open spec fn spec_goal_rect(w: WorldM, c: CfgM) -> R4 {
    let tile = c.tile_size;
    let center_x = w.goal_tile.x + tile / 2;
    let base_y = match spec_ground_y(w, center_x, w.goal_tile.y, tile) {
        Option::Some(y) => y,
        Option::None => w.goal_tile.y + tile,
    };
    let pole_h = 3 * tile;
    let pole_w = tile * 18 / 100;
    R4 { x: center_x - pole_w / 2, y: base_y - pole_h, w: pole_w, h: pole_h }
}

/// Per-axis camera clamp: keep the camera centre inside the world when the
/// world is wider than the screen, else centre on the world's midpoint.
pub open spec fn spec_camera_axis(world_extent: int, screen_extent: int, focus: int) -> int {
    if world_extent > screen_extent {
        clamp_i(focus, screen_extent / 2, world_extent - screen_extent / 2)
    } else {
        world_extent / 2
    }
}

/// The view of an optional coordinate.
pub open spec fn opt_view(o: Option<i64>) -> Option<int> {
    match o {
        Option::Some(v) => Option::Some(v as int),
        Option::None => Option::None,
    }
}

/// A row-and-column pair indexes inside the flattened grid.
pub proof fn lemma_grid_index(row: int, col: int, width: int, height: int)
    by (nonlinear_arith)
    requires
        0 <= row < height,
        0 <= col < width,
    ensures
        0 <= row * width + col < width * height,
{
}

/// Division of non-negative machine integers, stated over the mathematical
/// quotient.
pub fn div_nn(a: i64, b: i64) -> (r: i64)
    requires
        a >= 0,
        b > 0,
    ensures
        r as int == a as int / b as int,
        0 <= r <= a,
{
    let q = (a as u64) / (b as u64);
    proof {
        vstd::arithmetic::div_mod::lemma_div_is_ordered_by_denominator(a as int, 1, b as int);
        vstd::arithmetic::div_mod::lemma_div_basics(a as int);
        vstd::arithmetic::div_mod::lemma_div_pos_is_pos(a as int, b as int);
    }
    q as i64
}

impl World {
    /// Bounds-checked grid lookup: out-of-range coordinates are never solid.
    pub fn is_solid_tile(&self, col: i64, row: i64) -> (b: bool)
        requires
            self@.wf(),
        ensures
            b == tile_solid(self@, col as int, row as int),
    {
        if col < 0 || row < 0 {
            return false;
        }
        if col >= self.width as i64 || row >= self.height as i64 {
            return false;
        }
        let c = col as usize;
        let r = row as usize;
        proof {
            lemma_grid_index(r as int, c as int, self.width as int, self.height as int);
            crate::physics::lemma_mul_bound(
                r as int,
                self.width as int,
                GRID_LIMIT as int,
                GRID_LIMIT as int,
            );
            assert(r * self.width + c < self.solid_tiles@.len());
        }
        self.solid_tiles[r * self.width + c]
    }

    /// Scans the column containing `world_x` downward from the row
    /// containing `start_y` and returns the top edge of the first solid
    /// tile, if any.
    pub fn ground_y_for_x(&self, world_x: i64, start_y: i64, config: &Config) -> (r: Option<i64>)
        requires
            self@.wf(),
            config@.wf(),
        ensures
            opt_view(r) == spec_ground_y(self@, world_x as int, start_y as int, config@.tile_size),
            r matches Option::Some(y) ==> 0 <= y <= COORD_LIMIT,
    {
        let tile = config.tile_size;
        if world_x < 0 {
            return None;
        }
        let col = div_nn(world_x, tile);
        let start_row: i64 = if start_y < 0 {
            0
        } else {
            div_nn(start_y, tile)
        };
        let ghost gspec = spec_ground_y(self@, world_x as int, start_y as int, config@.tile_size);
        let mut row = start_row;
        loop
            invariant
                self@.wf(),
                config@.wf(),
                tile == config.tile_size,
                start_row <= row,
                0 <= row,
                gspec == spec_ground_y(self@, world_x as int, start_y as int, config@.tile_size),
                gspec == match ground_row_from(self@, col as int, row as int) {
                    Option::Some(r0) => Option::Some(r0 * tile as int),
                    Option::None => Option::None,
                },
            decreases self.height as int - row,
        {
            if row >= self.height as i64 {
                return None;
            }
            if self.is_solid_tile(col, row) {
                proof {
                    lemma_mul_row_tile(row as int, tile as int);
                }
                return Some(row * tile);
            }
            row = row + 1;
        }
    }

    /// The goal's trigger rectangle, as `spec_goal_rect` states.
    pub fn goal_trigger_rect(&self, config: &Config) -> (r: Recti)
        requires
            self@.wf(),
            config@.wf(),
        ensures
            r@ == spec_goal_rect(self@, config@),
    {
        let tile = config.tile_size;
        let goal_center_x = self.goal_tile.x + div_nn(tile, 2);
        let base_y = match self.ground_y_for_x(goal_center_x, self.goal_tile.y, config) {
            Some(y) => y,
            None => self.goal_tile.y + tile,
        };
        let pole_h = 3 * tile;
        let pole_w = div_nn(tile * 18, 100);
        let pole_x = goal_center_x - div_nn(pole_w, 2);
        let pole_y = base_y - pole_h;
        Recti { x: pole_x, y: pole_y, w: pole_w, h: pole_h }
    }

    /// Clamps a camera focus point into the world per axis, given the screen
    /// extents in subpixels.
    pub fn camera_for_focus(
        &self,
        focus: Vec2i,
        config: &Config,
        screen_w: i64,
        screen_h: i64,
    ) -> (c: Vec2i)
        requires
            self@.wf(),
            config@.wf(),
            0 < screen_w <= COORD_LIMIT,
            0 < screen_h <= COORD_LIMIT,
            -COORD_LIMIT <= focus.x <= COORD_LIMIT * 2,
            -COORD_LIMIT <= focus.y <= COORD_LIMIT * 2,
        ensures
            c@.x == spec_camera_axis(
                self@.width * config@.tile_size,
                screen_w as int,
                focus@.x,
            ),
            c@.y == spec_camera_axis(
                self@.height * config@.tile_size,
                screen_h as int,
                focus@.y,
            ),
    {
        proof {
            crate::physics::lemma_mul_bound(
                self.width as int,
                config.tile_size as int,
                GRID_LIMIT as int,
                0x1_0000,
            );
            crate::physics::lemma_mul_bound(
                self.height as int,
                config.tile_size as int,
                GRID_LIMIT as int,
                0x1_0000,
            );
        }
        let world_w = self.width as i64 * config.tile_size;
        let world_h = self.height as i64 * config.tile_size;
        let cx = if world_w > screen_w {
            crate::physics::clamp64(focus.x, div_nn(screen_w, 2), world_w - div_nn(screen_w, 2))
        } else {
            div_nn(world_w, 2)
        };
        let cy = if world_h > screen_h {
            crate::physics::clamp64(focus.y, div_nn(screen_h, 2), world_h - div_nn(screen_h, 2))
        } else {
            div_nn(world_h, 2)
        };
        Vec2i { x: cx, y: cy }
    }
}

/// A grid row times a tile size stays in coordinate range.
proof fn lemma_mul_row_tile(row: int, tile: int)
    by (nonlinear_arith)
    requires
        0 <= row <= GRID_LIMIT as int,
        0 < tile <= 0x1_0000,
    ensures
        0 <= row * tile <= COORD_LIMIT as int,
{
}

} // verus!
