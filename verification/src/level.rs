//! Parsing an ASCII level grid into a `World`: one character class per
//! tile, exactly one player spawn and one goal, anything else a load error.

use vstd::prelude::*;

use crate::config::{CfgM, Config};
use crate::geom::{Recti, Vec2i, R4, V2};
use crate::world::{div_nn, pt_ok, World, WorldM, GRID_LIMIT};

verus! {

/// Why a level failed to load.
#[derive(Clone, Copy, PartialEq, Eq, Structural, Debug)]
pub enum LoadError {
    /// No rows or no columns survive cleaning.
    EmptyLevel,
    /// The grid exceeds the supported tile dimensions.
    TooLarge,
    /// A character that names no tile class, with the offending byte.
    UnexpectedTile(u8),
    DuplicatePlayerSpawn,
    DuplicateGoal,
    MissingPlayerSpawn,
    MissingGoal,
}

/// Trailing whitespace stripped from a row.
pub open spec fn is_ws(b: u8) -> bool {
    b == 32 || b == 9 || b == 13
}

/// A row with its trailing whitespace removed.
pub open spec fn trim_end(s: Seq<u8>) -> Seq<u8>
    decreases s.len(),
{
    if s.len() > 0 && is_ws(s.last()) {
        trim_end(s.drop_last())
    } else {
        s
    }
}

/// Splits the byte stream at newlines, trims each row's trailing
/// whitespace, and drops rows that end up empty: the fold from position `i`
/// with the current partial row `cur` and the rows collected so far.
pub open spec fn split_rec(s: Seq<u8>, i: int, cur: Seq<u8>, acc: Seq<Seq<u8>>) -> Seq<Seq<u8>>
    decreases s.len() - i,
{
    if i < 0 || i >= s.len() {
        if trim_end(cur).len() > 0 {
            acc.push(trim_end(cur))
        } else {
            acc
        }
    } else if s[i] == 10 {
        let t = trim_end(cur);
        split_rec(
            s,
            i + 1,
            Seq::empty(),
            if t.len() > 0 {
                acc.push(t)
            } else {
                acc
            },
        )
    } else {
        split_rec(s, i + 1, cur.push(s[i]), acc)
    }
}

/// The cleaned rows of a level source.
pub open spec fn clean_lines(s: Seq<u8>) -> Seq<Seq<u8>> {
    split_rec(s, 0, Seq::empty(), Seq::empty())
}

/// The effective width: the longest of the first `n` rows.
pub open spec fn width_upto(lines: Seq<Seq<u8>>, n: int) -> int
    decreases n,
{
    if n <= 0 {
        0
    } else {
        let prev = width_upto(lines, n - 1);
        if lines[n - 1].len() > prev {
            lines[n - 1].len() as int
        } else {
            prev
        }
    }
}

/// Whether a byte names a tile class that carries no spawn bookkeeping.
pub open spec fn is_plain_tile(b: u8) -> bool {
    b == 35 || b == 67 || b == 77 || b == 69 || b == 46
}

/// The spawn bookkeeping of the row-major scan: the unique player and goal
/// cells found so far, or the first defect.
pub struct ScanSt {
    pub p: Option<(int, int)>,
    pub g: Option<(int, int)>,
    pub err: Option<LoadError>,
}

/// One cell of the scan: plain tiles pass, `P` and `G` are recorded once
/// and refused twice, anything else is an unexpected tile.  After a defect
/// the scan is inert.
pub open spec fn scan_cell(st: ScanSt, ch: u8, col: int, row: int) -> ScanSt {
    if st.err is Some {
        st
    } else if is_plain_tile(ch) {
        st
    } else if ch == 80 {
        if st.p is Some {
            ScanSt { err: Option::Some(LoadError::DuplicatePlayerSpawn), ..st }
        } else {
            ScanSt { p: Option::Some((col, row)), ..st }
        }
    } else if ch == 71 {
        if st.g is Some {
            ScanSt { err: Option::Some(LoadError::DuplicateGoal), ..st }
        } else {
            ScanSt { g: Option::Some((col, row)), ..st }
        }
    } else {
        ScanSt { err: Option::Some(LoadError::UnexpectedTile(ch)), ..st }
    }
}

/// The scan folded over one row from column `c`.
pub open spec fn scan_row(st: ScanSt, line: Seq<u8>, row: int, c: int) -> ScanSt
    decreases line.len() - c,
{
    if c < 0 || c >= line.len() {
        st
    } else {
        scan_row(scan_cell(st, line[c], c, row), line, row, c + 1)
    }
}

/// The scan folded over the rows from row `r`.
pub open spec fn scan_lines(st: ScanSt, lines: Seq<Seq<u8>>, r: int) -> ScanSt
    decreases lines.len() - r,
{
    if r < 0 || r >= lines.len() {
        st
    } else {
        scan_lines(scan_row(st, lines[r], r, 0), lines, r + 1)
    }
}

/// The scan of a whole level.
pub open spec fn scan_of(lines: Seq<Seq<u8>>) -> ScanSt {
    scan_lines(ScanSt { p: Option::None, g: Option::None, err: Option::None }, lines, 0)
}

/// Whether the cell `(row, col)` of the cleaned rows holds a solid tile.
pub open spec fn cell_solid(lines: Seq<Seq<u8>>, row: int, col: int) -> bool {
    0 <= row < lines.len() && 0 <= col < lines[row].len() && lines[row][col] == 35
}

/// The flattened solid-tile grid.
pub open spec fn grid_of(lines: Seq<Seq<u8>>, width: int, height: int) -> Seq<bool> {
    Seq::new((width * height) as nat, |k: int| cell_solid(lines, k / width, k % width))
}

/// The solid rectangles of one row's first `c` cells, in column order.
pub open spec fn solids_row_upto(line: Seq<u8>, row: int, tile: int, c: int) -> Seq<R4>
    decreases c,
{
    if c <= 0 {
        Seq::empty()
    } else {
        let prev = solids_row_upto(line, row, tile, c - 1);
        if line[c - 1] == 35 {
            prev.push(R4 { x: (c - 1) * tile, y: row * tile, w: tile, h: tile })
        } else {
            prev
        }
    }
}

/// The solid rectangles of the first `r` rows, row-major.
pub open spec fn solids_rows(lines: Seq<Seq<u8>>, tile: int, r: int) -> Seq<R4>
    decreases r,
{
    if r <= 0 {
        Seq::empty()
    } else {
        solids_rows(lines, tile, r - 1) + solids_row_upto(
            lines[r - 1],
            r - 1,
            tile,
            lines[r - 1].len() as int,
        )
    }
}

/// The points of one row's first `c` cells matching byte `what`, each
/// offset by `(ox, oy)` from the cell's top-left corner, in column order.
pub open spec fn marks_row_upto(
    line: Seq<u8>,
    row: int,
    tile: int,
    what: u8,
    ox: int,
    oy: int,
    c: int,
) -> Seq<V2>
    decreases c,
{
    if c <= 0 {
        Seq::empty()
    } else {
        let prev = marks_row_upto(line, row, tile, what, ox, oy, c - 1);
        if line[c - 1] == what {
            prev.push(V2 { x: (c - 1) * tile + ox, y: row * tile + oy })
        } else {
            prev
        }
    }
}

/// The points of the first `r` rows matching byte `what`, row-major.
pub open spec fn marks_rows(
    lines: Seq<Seq<u8>>,
    tile: int,
    what: u8,
    ox: int,
    oy: int,
    r: int,
) -> Seq<V2>
    decreases r,
{
    if r <= 0 {
        Seq::empty()
    } else {
        marks_rows(lines, tile, what, ox, oy, r - 1) + marks_row_upto(
            lines[r - 1],
            r - 1,
            tile,
            what,
            ox,
            oy,
            lines[r - 1].len() as int,
        )
    }
}

/// Coin centres: the middle of every `C` cell.
pub open spec fn coins_of(lines: Seq<Seq<u8>>, tile: int) -> Seq<V2> {
    marks_rows(lines, tile, 67, tile / 2, tile / 2, lines.len() as int)
}

/// Mushroom spawn tiles: the top-left corner of every `M` cell.
pub open spec fn mushroom_tiles_of(lines: Seq<Seq<u8>>, tile: int) -> Seq<V2> {
    marks_rows(lines, tile, 77, 0, 0, lines.len() as int)
}

/// Enemy spawn tiles: the top-left corner of every `E` cell.
pub open spec fn enemy_spawns_of(lines: Seq<Seq<u8>>, tile: int) -> Seq<V2> {
    marks_rows(lines, tile, 69, 0, 0, lines.len() as int)
}

/// Where a mushroom spawned on tile `tp` finally sits: centred on the
/// tile's column, resting on the terrain under the tile (or hanging from
/// the tile's bottom edge if its column has no ground).
pub open spec fn mushroom_place(tp: V2, w: WorldM, c: CfgM) -> V2 {
    let base_y = match crate::world::spec_ground_y(w, tp.x + c.tile_size / 2, tp.y, c.tile_size) {
        Option::Some(y) => y,
        Option::None => tp.y + c.tile_size,
    };
    V2 { x: tp.x + (c.tile_size - c.mushroom_size.x) / 2, y: base_y - c.mushroom_size.y }
}

/// The scan's outcome: the player and goal cells, or the scan's first
/// defect, or a missing marker.
pub open spec fn marker_result(lines: Seq<Seq<u8>>) -> Result<((int, int), (int, int)), LoadError> {
    let st = scan_of(lines);
    if st.err is Some {
        Result::Err(st.err.unwrap())
    } else if st.p is None {
        Result::Err(LoadError::MissingPlayerSpawn)
    } else if st.g is None {
        Result::Err(LoadError::MissingGoal)
    } else {
        Result::Ok((st.p.unwrap(), st.g.unwrap()))
    }
}

/// The first reason the cleaned rows fail to load, if any: an empty or
/// oversized grid, then the scan's first defect, then a missing player
/// spawn, then a missing goal.
pub open spec fn parse_error(lines: Seq<Seq<u8>>) -> Option<LoadError> {
    let h = lines.len() as int;
    let w = width_upto(lines, h);
    if h == 0 || w == 0 {
        Option::Some(LoadError::EmptyLevel)
    } else if h > GRID_LIMIT as int || w > GRID_LIMIT as int {
        Option::Some(LoadError::TooLarge)
    } else {
        match marker_result(lines) {
            Result::Err(e) => Option::Some(e),
            Result::Ok(pg) => Option::None,
        }
    }
}

/// The world a successfully parsed level denotes, before mushroom
/// placement.
pub open spec fn parsed_world_bare(lines: Seq<Seq<u8>>, c: CfgM) -> WorldM {
    let h = lines.len() as int;
    let w = width_upto(lines, h);
    let st = scan_of(lines);
    WorldM {
        solids: solids_rows(lines, c.tile_size, h),
        tiles: grid_of(lines, w, h),
        coins: coins_of(lines, c.tile_size),
        mushrooms: Seq::empty(),
        enemy_spawns: enemy_spawns_of(lines, c.tile_size),
        player_spawn: V2 {
            x: st.p.unwrap().0 * c.tile_size,
            y: st.p.unwrap().1 * c.tile_size,
        },
        goal_tile: V2 { x: st.g.unwrap().0 * c.tile_size, y: st.g.unwrap().1 * c.tile_size },
        width: w,
        height: h,
    }
}

/// The world a successfully parsed level denotes.
pub open spec fn parsed_world(lines: Seq<Seq<u8>>, c: CfgM) -> WorldM {
    let bare = parsed_world_bare(lines, c);
    WorldM {
        mushrooms: mushroom_tiles_of(lines, c.tile_size).map_values(
            |tp: V2| mushroom_place(tp, bare, c),
        ),
        ..bare
    }
}

/// The view of a row list as a sequence of byte sequences.
pub open spec fn lines_view(s: Seq<Vec<u8>>) -> Seq<Seq<u8>> {
    s.map_values(|l: Vec<u8>| l@)
}

/// Trimming ignores an all-whitespace suffix.
proof fn lemma_trim_suffix(s: Seq<u8>, m: int)
    requires
        0 <= m <= s.len(),
        forall|j: int| m <= j < s.len() ==> is_ws(#[trigger] s[j]),
    ensures
        trim_end(s) == trim_end(s.subrange(0, m)),
    decreases s.len() - m,
{
    if m == s.len() {
        assert(s.subrange(0, m) =~= s);
    } else {
        assert(is_ws(s[s.len() - 1]));
        assert(s.drop_last() =~= s.subrange(0, s.len() - 1));
        lemma_trim_suffix(s.drop_last(), m);
        assert(s.drop_last().subrange(0, m) =~= s.subrange(0, m));
    }
}

/// A defective scan state stays as it is across a row.
proof fn lemma_scan_row_sticky(st: ScanSt, line: Seq<u8>, row: int, c: int)
    requires
        st.err is Some,
    ensures
        scan_row(st, line, row, c) == st,
    decreases line.len() - c,
{
    if 0 <= c < line.len() {
        lemma_scan_row_sticky(st, line, row, c + 1);
    }
}

/// A defective scan state stays as it is across the remaining rows.
proof fn lemma_scan_lines_sticky(st: ScanSt, lines: Seq<Seq<u8>>, r: int)
    requires
        st.err is Some,
    ensures
        scan_lines(st, lines, r) == st,
    decreases lines.len() - r,
{
    if 0 <= r < lines.len() {
        lemma_scan_row_sticky(st, lines[r], r, 0);
        lemma_scan_lines_sticky(st, lines, r + 1);
    }
}

/// No row is longer than the effective width.
proof fn lemma_width_bound(lines: Seq<Seq<u8>>, n: int, j: int)
    requires
        0 <= j < n <= lines.len(),
    ensures
        lines[j].len() <= width_upto(lines, n),
    decreases n,
{
    if j < n - 1 {
        lemma_width_bound(lines, n - 1, j);
    }
}

/// Strips trailing whitespace from a row.
fn trim_ws_end(line: Vec<u8>) -> (r: Vec<u8>)
    ensures
        r@ == trim_end(line@),
{
    let mut v = line;
    let ghost v0 = v@;
    let mut m = v.len();
    while m > 0 && (v[m - 1] == 32 || v[m - 1] == 9 || v[m - 1] == 13)
        invariant
            0 <= m <= v.len(),
            v@ == v0,
            forall|j: int| m <= j < v@.len() ==> is_ws(#[trigger] v@[j]),
        decreases m,
    {
        m = m - 1;
    }
    proof {
        lemma_trim_suffix(v@, m as int);
    }
    v.truncate(m);
    proof {
        if m > 0 {
            assert(!is_ws(v@[m - 1]));
        }
        assert(trim_end(v@) == v@);
    }
    v
}

/// Splits a level source at newlines, trims each row, and drops empty
/// rows.
fn split_clean_lines(contents: &[u8]) -> (r: Vec<Vec<u8>>)
    ensures
        lines_view(r@) == clean_lines(contents@),
{
    let mut acc: Vec<Vec<u8>> = Vec::new();
    let mut cur: Vec<u8> = Vec::new();
    proof {
        assert(lines_view(acc@) =~= Seq::<Seq<u8>>::empty());
    }
    let n = contents.len();
    for i in 0..n
        invariant
            n == contents@.len(),
            split_rec(contents@, i as int, cur@, lines_view(acc@)) == clean_lines(contents@),
    {
        let b = contents[i];
        if b == 10 {
            let t = trim_ws_end(cur);
            cur = Vec::new();
            if t.len() > 0 {
                let ghost acc0 = lines_view(acc@);
                let ghost tv = t@;
                acc.push(t);
                proof {
                    assert(lines_view(acc@) =~= acc0.push(tv));
                }
            }
        } else {
            cur.push(b);
        }
    }
    let t = trim_ws_end(cur);
    if t.len() > 0 {
        let ghost acc0 = lines_view(acc@);
        let ghost tv = t@;
        acc.push(t);
        proof {
            assert(lines_view(acc@) =~= acc0.push(tv));
        }
    }
    acc
}

/// Scans the rows for the unique player and goal markers, refusing
/// duplicates, unrecognised characters, and missing markers, exactly as
/// `marker_result` states.
fn scan_markers(lines: &Vec<Vec<u8>>, width: usize, height: usize) -> (r: Result<
    ((usize, usize), (usize, usize)),
    LoadError,
>)
    requires
        height == lines@.len(),
        height <= 0x4000,
        1 <= width <= 0x4000,
        width as int == width_upto(lines_view(lines@), height as int),
    ensures
        match r {
            Result::Ok(pg) => {
                &&& marker_result(lines_view(lines@)) == Result::<
                    ((int, int), (int, int)),
                    LoadError,
                >::Ok(((pg.0.0 as int, pg.0.1 as int), (pg.1.0 as int, pg.1.1 as int)))
                &&& pg.0.0 < width && pg.0.1 < height
                &&& pg.1.0 < width && pg.1.1 < height
            },
            Result::Err(e) => marker_result(lines_view(lines@)) == Result::<
                ((int, int), (int, int)),
                LoadError,
            >::Err(e),
        },
{
    let ghost lv = lines_view(lines@);
    let mut p_at: Option<(usize, usize)> = None;
    let mut g_at: Option<(usize, usize)> = None;
    for r in 0..height
        invariant
            lv == lines_view(lines@),
            height == lv.len(),
            height <= 0x4000,
            1 <= width <= 0x4000,
            width as int == width_upto(lv, height as int),
            scan_of(lv) == scan_lines(
                ScanSt { p: opt_pair_view(p_at), g: opt_pair_view(g_at), err: Option::None },
                lv,
                r as int,
            ),
            pair_in_grid(p_at, width as int, height as int),
            pair_in_grid(g_at, width as int, height as int),
    {
        let line_len = lines[r].len();
        proof {
            lemma_width_bound(lv, height as int, r as int);
        }
        for c in 0..line_len
            invariant
                lv == lines_view(lines@),
                height == lv.len(),
                height <= 0x4000,
                1 <= width <= 0x4000,
                r < height,
                line_len == lv[r as int].len(),
                line_len <= width,
                width as int == width_upto(lv, height as int),
                scan_of(lv) == scan_lines(
                    scan_row(
                        ScanSt {
                            p: opt_pair_view(p_at),
                            g: opt_pair_view(g_at),
                            err: Option::None,
                        },
                        lv[r as int],
                        r as int,
                        c as int,
                    ),
                    lv,
                    r as int + 1,
                ),
                pair_in_grid(p_at, width as int, height as int),
                pair_in_grid(g_at, width as int, height as int),
        {
            let ch = lines[r][c];
            let ghost st_cur = ScanSt {
                p: opt_pair_view(p_at),
                g: opt_pair_view(g_at),
                err: Option::None,
            };
            if ch == 35 || ch == 67 || ch == 77 || ch == 69 || ch == 46 {
                // A plain tile: nothing to record.
            } else if ch == 80 {
                if p_at.is_some() {
                    proof {
                        assert(lv[r as int][c as int] == ch);
                        let bad = ScanSt {
                            err: Option::Some(LoadError::DuplicatePlayerSpawn),
                            ..st_cur
                        };
                        assert(scan_cell(st_cur, ch, c as int, r as int) == bad);
                        lemma_scan_row_sticky(bad, lv[r as int], r as int, c as int + 1);
                        lemma_scan_lines_sticky(bad, lv, r as int + 1);
                        assert(scan_row(st_cur, lv[r as int], r as int, c as int) == bad);
                        assert(scan_of(lv) == bad);
                    }
                    return Err(LoadError::DuplicatePlayerSpawn);
                }
                p_at = Some((c, r));
            } else if ch == 71 {
                if g_at.is_some() {
                    proof {
                        assert(lv[r as int][c as int] == ch);
                        let bad = ScanSt { err: Option::Some(LoadError::DuplicateGoal), ..st_cur };
                        assert(scan_cell(st_cur, ch, c as int, r as int) == bad);
                        lemma_scan_row_sticky(bad, lv[r as int], r as int, c as int + 1);
                        lemma_scan_lines_sticky(bad, lv, r as int + 1);
                        assert(scan_row(st_cur, lv[r as int], r as int, c as int) == bad);
                        assert(scan_of(lv) == bad);
                    }
                    return Err(LoadError::DuplicateGoal);
                }
                g_at = Some((c, r));
            } else {
                proof {
                    assert(lv[r as int][c as int] == ch);
                    let bad = ScanSt { err: Option::Some(LoadError::UnexpectedTile(ch)), ..st_cur };
                    assert(scan_cell(st_cur, ch, c as int, r as int) == bad);
                    lemma_scan_row_sticky(bad, lv[r as int], r as int, c as int + 1);
                    lemma_scan_lines_sticky(bad, lv, r as int + 1);
                    assert(scan_row(st_cur, lv[r as int], r as int, c as int) == bad);
                    assert(scan_of(lv) == bad);
                }
                return Err(LoadError::UnexpectedTile(ch));
            }
        }
    }
    let pg = match p_at {
        Some(pc) => pc,
        None => {
            return Err(LoadError::MissingPlayerSpawn);
        },
    };
    let gg = match g_at {
        Some(gc) => gc,
        None => {
            return Err(LoadError::MissingGoal);
        },
    };
    Ok((pg, gg))
}

impl World {
    /// Parses an ASCII level grid: `#` solid, `C` coin, `M` mushroom spawn,
    /// `E` enemy spawn, `P` the player spawn, `G` the goal, `.` empty.  The
    /// result is exactly `parsed_world` of the cleaned rows, or the first
    /// load error exactly as `parse_error` states.
    #[verifier::rlimit(100)]
    pub fn from_ascii(contents: &[u8], config: &Config) -> (r: Result<World, LoadError>)
        requires
            config@.wf(),
        ensures
            match r {
                Result::Ok(w) => {
                    &&& parse_error(clean_lines(contents@)) is None
                    &&& w@ == parsed_world(clean_lines(contents@), config@)
                    &&& w@.wf()
                },
                Result::Err(e) => parse_error(clean_lines(contents@)) == Option::Some(e),
            },
    {
        let lines = split_clean_lines(contents);
        let ghost lv = lines_view(lines@);
        let height = lines.len();
        let mut width: usize = 0;
        for r in 0..height
            invariant
                lv == lines_view(lines@),
                height == lines@.len(),
                width as int == width_upto(lv, r as int),
        {
            if lines[r].len() > width {
                width = lines[r].len();
            }
        }
        if height == 0 || width == 0 {
            return Err(LoadError::EmptyLevel);
        }
        if height > 0x4000 || width > 0x4000 {
            return Err(LoadError::TooLarge);
        }
        let tile = config.tile_size;

        // Row-major scan for the unique player and goal markers and for
        // unrecognised characters.
        let (p_cell, g_cell) = match scan_markers(&lines, width, height) {
            Ok(pg) => pg,
            Err(e) => {
                return Err(e);
            },
        };
        let (p_col, p_row) = p_cell;
        let (g_col, g_row) = g_cell;

        // The flattened solid-tile grid, row-major over the full width.
        let mut tiles: Vec<bool> = Vec::new();
        proof {
            assert(0 * width as int == 0) by (nonlinear_arith);
        }
        for r in 0..height
            invariant
                lv == lines_view(lines@),
                height == lv.len(),
                height <= 0x4000,
                1 <= width <= 0x4000,
                tiles@.len() == r * width,
                forall|k: int|
                    0 <= k < r * width ==> #[trigger] tiles@[k] == cell_solid(
                        lv,
                        k / width as int,
                        k % width as int,
                    ),
        {
            let line_len = lines[r].len();
            for c in 0..width
                invariant
                    lv == lines_view(lines@),
                    height == lv.len(),
                height <= 0x4000,
                    1 <= width <= 0x4000,
                    r < height,
                    line_len == lv[r as int].len(),
                    tiles@.len() == r * width + c,
                    forall|k: int|
                        0 <= k < r * width + c ==> #[trigger] tiles@[k] == cell_solid(
                            lv,
                            k / width as int,
                            k % width as int,
                        ),
            {
                let solid = c < line_len && lines[r][c] == 35;
                tiles.push(solid);
                proof {
                    vstd::arithmetic::div_mod::lemma_fundamental_div_mod_converse(
                        r as int * width as int + c as int,
                        width as int,
                        r as int,
                        c as int,
                    );
                }
            }
            proof {
                assert((r as int + 1) * width as int == r as int * width as int + width as int)
                    by (nonlinear_arith);
            }
        }
        proof {
            crate::physics::lemma_mul_bound(height as int, width as int, 0x4000, 0x4000);
            vstd::arithmetic::mul::lemma_mul_is_commutative(height as int, width as int);
            assert(tiles@ =~= grid_of(lv, width as int, height as int));
        }

        // Row-major collection of solids, coins, mushroom tiles and enemy
        // spawns, visiting only each row's own cells.
        let half = div_nn(tile, 2);
        let mut solids: Vec<Recti> = Vec::new();
        let mut coins: Vec<Vec2i> = Vec::new();
        let mut mtiles: Vec<Vec2i> = Vec::new();
        let mut espawns: Vec<Vec2i> = Vec::new();
        for r in 0..height
            invariant
                lv == lines_view(lines@),
                height == lv.len(),
                height <= 0x4000,
                1 <= width <= 0x4000,
                width as int == width_upto(lv, height as int),
                256 <= tile <= 0x1_0000,
                half as int == tile as int / 2,
                0 <= half <= tile,
                crate::physics::rects_view(solids@) == solids_rows(lv, tile as int, r as int),
                crate::world::pts_view(coins@) == marks_rows(
                    lv,
                    tile as int,
                    67,
                    tile as int / 2,
                    tile as int / 2,
                    r as int,
                ),
                crate::world::pts_view(mtiles@) == marks_rows(lv, tile as int, 77, 0, 0, r as int),
                crate::world::pts_view(espawns@) == marks_rows(lv, tile as int, 69, 0, 0, r as int),
        {
            let line_len = lines[r].len();
            proof {
                lemma_width_bound(lv, height as int, r as int);
            }
            for c in 0..line_len
                invariant
                    lv == lines_view(lines@),
                    height == lv.len(),
                height <= 0x4000,
                    1 <= width <= 0x4000,
                    r < height,
                    line_len == lv[r as int].len(),
                    line_len <= width,
                    256 <= tile <= 0x1_0000,
                    half as int == tile as int / 2,
                    0 <= half <= tile,
                    crate::physics::rects_view(solids@) == solids_rows(lv, tile as int, r as int)
                        + solids_row_upto(lv[r as int], r as int, tile as int, c as int),
                    crate::world::pts_view(coins@) == marks_rows(
                        lv,
                        tile as int,
                        67,
                        tile as int / 2,
                        tile as int / 2,
                        r as int,
                    ) + marks_row_upto(
                        lv[r as int],
                        r as int,
                        tile as int,
                        67,
                        tile as int / 2,
                        tile as int / 2,
                        c as int,
                    ),
                    crate::world::pts_view(mtiles@) == marks_rows(lv, tile as int, 77, 0, 0, r as int)
                        + marks_row_upto(lv[r as int], r as int, tile as int, 77, 0, 0, c as int),
                    crate::world::pts_view(espawns@) == marks_rows(
                        lv,
                        tile as int,
                        69,
                        0,
                        0,
                        r as int,
                    ) + marks_row_upto(lv[r as int], r as int, tile as int, 69, 0, 0, c as int),
            {
                proof {
                    crate::physics::lemma_mul_bound(c as int, tile as int, 0x4000, 0x1_0000);
                    crate::physics::lemma_mul_bound(r as int, tile as int, 0x4000, 0x1_0000);
                }
                let ch = lines[r][c];
                let wx = c as i64 * tile;
                let wy = r as i64 * tile;
                if ch == 35 {
                    let ghost before = crate::physics::rects_view(solids@);
                    solids.push(Recti { x: wx, y: wy, w: tile, h: tile });
                    proof {
                        assert(crate::physics::rects_view(solids@) =~= before.push(
                            R4 {
                                x: c as int * tile as int,
                                y: r as int * tile as int,
                                w: tile as int,
                                h: tile as int,
                            },
                        ));
                    }
                } else if ch == 67 {
                    let ghost before = crate::world::pts_view(coins@);
                    coins.push(Vec2i { x: wx + half, y: wy + half });
                    proof {
                        assert(crate::world::pts_view(coins@) =~= before.push(
                            V2 {
                                x: c as int * tile as int + tile as int / 2,
                                y: r as int * tile as int + tile as int / 2,
                            },
                        ));
                    }
                } else if ch == 77 {
                    let ghost before = crate::world::pts_view(mtiles@);
                    mtiles.push(Vec2i { x: wx, y: wy });
                    proof {
                        assert(crate::world::pts_view(mtiles@) =~= before.push(
                            V2 { x: c as int * tile as int, y: r as int * tile as int },
                        ));
                    }
                } else if ch == 69 {
                    let ghost before = crate::world::pts_view(espawns@);
                    espawns.push(Vec2i { x: wx, y: wy });
                    proof {
                        assert(crate::world::pts_view(espawns@) =~= before.push(
                            V2 { x: c as int * tile as int, y: r as int * tile as int },
                        ));
                    }
                }
            }
        }

        proof {
            crate::physics::lemma_mul_bound(p_col as int, tile as int, 0x4000, 0x1_0000);
            crate::physics::lemma_mul_bound(p_row as int, tile as int, 0x4000, 0x1_0000);
            crate::physics::lemma_mul_bound(g_col as int, tile as int, 0x4000, 0x1_0000);
            crate::physics::lemma_mul_bound(g_row as int, tile as int, 0x4000, 0x1_0000);
        }
        let player_spawn = Vec2i { x: p_col as i64 * tile, y: p_row as i64 * tile };
        let goal_tile = Vec2i { x: g_col as i64 * tile, y: g_row as i64 * tile };
        let mut world = World {
            solids,
            solid_tiles: tiles,
            coins,
            mushrooms: Vec::new(),
            enemy_spawns: espawns,
            player_spawn,
            goal_tile,
            width,
            height,
        };
        let ghost bare = parsed_world_bare(lv, config@);
        proof {
            assert(world@.mushrooms =~= Seq::<V2>::empty());
            assert(world@ == bare);
            lemma_parsed_components_ok(lv, config@);
        }

        // Mushrooms settle on the terrain under their spawn tile.
        let ghost mts = mushroom_tiles_of(lv, config@.tile_size);
        let mut placed: Vec<Vec2i> = Vec::new();
        let mtiles2 = mtiles;
        let n_mt = mtiles2.len();
        for i in 0..n_mt
            invariant
                world@ == bare,
                world@.wf(),
                config@.wf(),
                tile == config.tile_size,
                bare == parsed_world_bare(lv, config@),
                1 <= lv.len() <= GRID_LIMIT as int,
                1 <= width_upto(lv, lv.len() as int) <= GRID_LIMIT as int,
                n_mt == mtiles2@.len(),
                crate::world::pts_view(mtiles2@) == mts,
                mts == mushroom_tiles_of(lv, config@.tile_size),
                crate::world::pts_ok(mts),
                pts_grid_ok(mts),
                placed@.len() == i,
                forall|j: int|
                    0 <= j < i ==> (#[trigger] placed@[j])@ == mushroom_place(
                        mts[j],
                        bare,
                        config@,
                    ),
        {
            let tp = mtiles2[i];
            proof {
                assert(pt_ok(mts[i as int]));
            }
            let sample_x = tp.x + div_nn(tile, 2);
            let base_y = match world.ground_y_for_x(sample_x, tp.y, config) {
                Some(y) => y,
                None => tp.y + tile,
            };
            let x = tp.x + div_nn(tile - config.mushroom_size.x, 2);
            let y = base_y - config.mushroom_size.y;
            placed.push(Vec2i { x, y });
        }
        world.mushrooms = placed;
        proof {
            assert(world@.mushrooms =~= mts.map_values(|tp: V2| mushroom_place(tp, bare, config@)));
            assert(world@ == parsed_world(lv, config@));
            lemma_parsed_components_ok(lv, config@);
            lemma_placed_ok(mts, bare, config@);
        }
        Ok(world)
    }
}

/// Every point of the sequence lies inside the tile grid's coordinate
/// range.
pub open spec fn pts_grid_ok(s: Seq<V2>) -> bool {
    forall|i: int|
        0 <= i < s.len() ==> 0 <= (#[trigger] s[i]).x <= 0x4000_0000 && 0 <= s[i].y
            <= 0x4000_0000
}

/// The view of an optional grid coordinate pair.
pub open spec fn opt_pair_view(o: Option<(usize, usize)>) -> Option<(int, int)> {
    match o {
        Option::Some(p) => Option::Some((p.0 as int, p.1 as int)),
        Option::None => Option::None,
    }
}

/// A recorded marker sits inside the grid.
pub open spec fn pair_in_grid(o: Option<(usize, usize)>, width: int, height: int) -> bool {
    match o {
        Option::Some(p) => 0 <= p.0 < width && 0 <= p.1 < height,
        Option::None => true,
    }
}

/// Every solid and marker a parse builds is well formed and in range.
proof fn lemma_parsed_components_ok(lines: Seq<Seq<u8>>, c: CfgM)
    requires
        c.wf(),
        1 <= lines.len() <= GRID_LIMIT as int,
        1 <= width_upto(lines, lines.len() as int) <= GRID_LIMIT as int,
    ensures
        crate::physics::solids_wf(solids_rows(lines, c.tile_size, lines.len() as int)),
        crate::world::pts_ok(coins_of(lines, c.tile_size)),
        crate::world::pts_ok(mushroom_tiles_of(lines, c.tile_size)),
        crate::world::pts_ok(enemy_spawns_of(lines, c.tile_size)),
        pts_grid_ok(mushroom_tiles_of(lines, c.tile_size)),
{
    lemma_solids_rows_ok(lines, c.tile_size, lines.len() as int);
    lemma_marks_rows_ok(lines, c.tile_size, 67, c.tile_size / 2, c.tile_size / 2, lines.len() as int);
    lemma_marks_rows_ok(lines, c.tile_size, 77, 0, 0, lines.len() as int);
    lemma_marks_rows_ok(lines, c.tile_size, 69, 0, 0, lines.len() as int);
}

/// The solids of the first `r` rows are well-formed rectangles.
proof fn lemma_solids_rows_ok(lines: Seq<Seq<u8>>, tile: int, r: int)
    requires
        256 <= tile <= 0x1_0000,
        0 <= r <= lines.len(),
        lines.len() <= GRID_LIMIT as int,
        width_upto(lines, lines.len() as int) <= GRID_LIMIT as int,
    ensures
        crate::physics::solids_wf(solids_rows(lines, tile, r)),
    decreases r,
{
    if r > 0 {
        lemma_solids_rows_ok(lines, tile, r - 1);
        lemma_width_bound(lines, lines.len() as int, r - 1);
        lemma_solids_row_ok(lines[r - 1], r - 1, tile, lines[r - 1].len() as int);
        let whole = solids_rows(lines, tile, r);
        let prev = solids_rows(lines, tile, r - 1);
        let row = solids_row_upto(lines[r - 1], r - 1, tile, lines[r - 1].len() as int);
        assert forall|i: int| 0 <= i < whole.len() implies #[trigger] whole[i].wf() by {
            if i < prev.len() {
                assert(whole[i] == prev[i]);
            } else {
                assert(whole[i] == row[i - prev.len()]);
            }
        }
    }
}

/// The solids of one row's prefix are well-formed rectangles.
proof fn lemma_solids_row_ok(line: Seq<u8>, row: int, tile: int, c: int)
    requires
        256 <= tile <= 0x1_0000,
        0 <= row <= GRID_LIMIT as int,
        line.len() <= GRID_LIMIT as int,
        0 <= c <= line.len(),
    ensures
        crate::physics::solids_wf(solids_row_upto(line, row, tile, c)),
        solids_row_upto(line, row, tile, c).len() <= c,
    decreases c,
{
    if c > 0 {
        lemma_solids_row_ok(line, row, tile, c - 1);
        crate::physics::lemma_mul_bound(c - 1, tile, GRID_LIMIT as int, 0x1_0000);
        crate::physics::lemma_mul_bound(row, tile, GRID_LIMIT as int, 0x1_0000);
    }
}

/// The marker points of the first `r` rows are in coordinate range.
proof fn lemma_marks_rows_ok(lines: Seq<Seq<u8>>, tile: int, what: u8, ox: int, oy: int, r: int)
    requires
        256 <= tile <= 0x1_0000,
        0 <= ox <= tile,
        0 <= oy <= tile,
        0 <= r <= lines.len(),
        lines.len() <= GRID_LIMIT as int,
        width_upto(lines, lines.len() as int) <= GRID_LIMIT as int,
    ensures
        crate::world::pts_ok(marks_rows(lines, tile, what, ox, oy, r)),
        pts_grid_ok(marks_rows(lines, tile, what, ox, oy, r)),
    decreases r,
{
    if r > 0 {
        lemma_marks_rows_ok(lines, tile, what, ox, oy, r - 1);
        lemma_width_bound(lines, lines.len() as int, r - 1);
        lemma_marks_row_ok(lines[r - 1], r - 1, tile, what, ox, oy, lines[r - 1].len() as int);
        let whole = marks_rows(lines, tile, what, ox, oy, r);
        let prev = marks_rows(lines, tile, what, ox, oy, r - 1);
        let row = marks_row_upto(lines[r - 1], r - 1, tile, what, ox, oy, lines[r - 1].len() as int);
        assert forall|i: int|
            0 <= i < whole.len() implies pt_ok(#[trigger] whole[i]) && 0 <= whole[i].x
            <= 0x4000_0000 && 0 <= whole[i].y <= 0x4000_0000 by {
            if i < prev.len() {
                assert(whole[i] == prev[i]);
            } else {
                assert(whole[i] == row[i - prev.len()]);
            }
        }
    }
}

/// The marker points of one row's prefix are in coordinate range.
proof fn lemma_marks_row_ok(line: Seq<u8>, row: int, tile: int, what: u8, ox: int, oy: int, c: int)
    requires
        256 <= tile <= 0x1_0000,
        0 <= ox <= tile,
        0 <= oy <= tile,
        0 <= row < GRID_LIMIT as int,
        line.len() <= GRID_LIMIT as int,
        0 <= c <= line.len(),
    ensures
        crate::world::pts_ok(marks_row_upto(line, row, tile, what, ox, oy, c)),
        pts_grid_ok(marks_row_upto(line, row, tile, what, ox, oy, c)),
    decreases c,
{
    if c > 0 {
        lemma_marks_row_ok(line, row, tile, what, ox, oy, c - 1);
        crate::physics::lemma_mul_bound(c - 1, tile, GRID_LIMIT as int - 1, 0x1_0000);
        crate::physics::lemma_mul_bound(row, tile, GRID_LIMIT as int - 1, 0x1_0000);
    }
}

/// Every placed mushroom is in coordinate range.
proof fn lemma_placed_ok(mts: Seq<V2>, w: WorldM, c: CfgM)
    requires
        c.wf(),
        w.wf(),
        pts_grid_ok(mts),
    ensures
        crate::world::pts_ok(mts.map_values(|tp: V2| mushroom_place(tp, w, c))),
{
    let placed = mts.map_values(|tp: V2| mushroom_place(tp, w, c));
    assert forall|i: int| 0 <= i < placed.len() implies pt_ok(#[trigger] placed[i]) by {
        assert(0 <= mts[i].x <= 0x4000_0000 && 0 <= mts[i].y <= 0x4000_0000);
        lemma_place_ok(mts[i], w, c);
        assert(placed[i] == mushroom_place(mts[i], w, c));
    }
}

/// One placed mushroom is in coordinate range.
proof fn lemma_place_ok(tp: V2, w: WorldM, c: CfgM)
    requires
        c.wf(),
        w.wf(),
        0 <= tp.x <= 0x4000_0000,
        0 <= tp.y <= 0x4000_0000,
    ensures
        pt_ok(mushroom_place(tp, w, c)),
{
    match crate::world::spec_ground_y(w, tp.x + c.tile_size / 2, tp.y, c.tile_size) {
        Option::Some(y) => {
            lemma_ground_y_range(w, tp.x + c.tile_size / 2, tp.y, c.tile_size);
        },
        Option::None => {},
    }
}

/// A ground query's answer is a row top inside the grid.
proof fn lemma_ground_y_range(w: WorldM, x: int, start_y: int, tile: int)
    requires
        w.wf(),
        0 < tile <= 0x1_0000,
    ensures
        match crate::world::spec_ground_y(w, x, start_y, tile) {
            Option::Some(y) => 0 <= y <= crate::geom::COORD_LIMIT as int,
            Option::None => true,
        },
{
    if x >= 0 {
        let col = x / tile;
        let start_row = if start_y < 0 {
            0
        } else {
            start_y / tile
        };
        vstd::arithmetic::div_mod::lemma_div_pos_is_pos(x, tile);
        if start_y >= 0 {
            vstd::arithmetic::div_mod::lemma_div_pos_is_pos(start_y, tile);
        }
        lemma_ground_row_range(w, col, start_row);
        match crate::world::ground_row_from(w, col, start_row) {
            Option::Some(r) => {
                crate::physics::lemma_mul_bound(r, tile, GRID_LIMIT as int, 0x1_0000);
            },
            Option::None => {},
        }
    }
}

/// A found ground row lies inside the grid.
proof fn lemma_ground_row_range(w: WorldM, col: int, row: int)
    requires
        w.wf(),
        0 <= row,
    ensures
        match crate::world::ground_row_from(w, col, row) {
            Option::Some(r) => 0 <= r < w.height,
            Option::None => true,
        },
    decreases w.height - row,
{
    if row < w.height && !crate::world::tile_solid(w, col, row) {
        lemma_ground_row_range(w, col, row + 1);
    }
}

} // verus!
