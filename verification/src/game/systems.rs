use vstd::prelude::*;

use crate::game::map::{in_grid, tile_index};
use crate::{MAX_MAP_HEIGHT, MAX_MAP_WIDTH};

verus! {

/// A wall tile value: any nonzero texture is a wall.
pub trait Tile {
    /// Whether the tile is a wall.
    spec fn is_solid_spec(&self) -> bool;

    /// Whether the tile is a wall.
    fn is_solid(&self) -> (r: bool)
        ensures
            r == self.is_solid_spec(),
    ;
}

impl Tile for u16 {
    open spec fn is_solid_spec(&self) -> bool {
        *self != 0
    }

    fn is_solid(&self) -> (r: bool) {
        *self != 0
    }
}

impl Tile for u32 {
    open spec fn is_solid_spec(&self) -> bool {
        *self != 0
    }

    fn is_solid(&self) -> (r: bool) {
        *self != 0
    }
}

/// Whether cell `(x, y)` stops the player: a cell off the grid always does,
/// a cell on it does when the map holds a wall there.
pub open spec fn cell_blocks<T: Tile>(map: Seq<T>, x: int, y: int) -> bool {
    !in_grid(x, y) || (tile_index(x, y) < map.len() && map[tile_index(x, y)].is_solid_spec())
}

/// Whether any cell of the rectangle `min_x..=max_x` by `min_y..=max_y`
/// stops the player; an empty rectangle stops nothing.
pub fn cells_blocked<T: Tile>(min_x: i32, max_x: i32, min_y: i32, max_y: i32, map: &[T]) -> (r: bool)
    ensures
        r == exists|x: int, y: int|
            min_x <= x <= max_x && min_y <= y <= max_y && #[trigger] cell_blocks(map@, x, y),
{
    let mut x: i64 = min_x as i64;
    while x <= max_x as i64
        invariant
            min_x <= x,
            x <= max_x + 1 || x == min_x,
            forall|xx: int, yy: int|
                min_x <= xx < x && min_y <= yy <= max_y ==> !#[trigger] cell_blocks(map@, xx, yy),
        decreases max_x + 1 - x,
    {
        let mut y: i64 = min_y as i64;
        while y <= max_y as i64
            invariant
                min_x <= x <= max_x,
                min_y <= y,
                y <= max_y + 1 || y == min_y,
                forall|xx: int, yy: int|
                    min_x <= xx < x && min_y <= yy <= max_y ==> !#[trigger] cell_blocks(map@, xx, yy),
                forall|yy: int| min_y <= yy < y ==> !#[trigger] cell_blocks(map@, x as int, yy),
            decreases max_y + 1 - y,
        {
            if x < 0 || x >= MAX_MAP_WIDTH as i64 || y < 0 || y >= MAX_MAP_HEIGHT as i64 {
                assert(cell_blocks(map@, x as int, y as int));
                return true;
            }
            let map_index = (y as usize) * (MAX_MAP_WIDTH as usize) + (x as usize);
            assert(map_index == tile_index(x as int, y as int));
            if map_index < map.len() && map[map_index].is_solid() {
                assert(cell_blocks(map@, x as int, y as int));
                return true;
            }
            y += 1;
        }
        x += 1;
    }
    false
}

/// Whether the ray has hit a wall at cell `(map_x, map_y)`: the cell lies on
/// the grid and holds a nonzero wall texture.
pub fn is_wall_hit(map_x: i32, map_y: i32, map_walls: &[u16]) -> (r: bool)
    requires
        in_grid(map_x as int, map_y as int) ==> tile_index(map_x as int, map_y as int) < map_walls@.len(),
    ensures
        r == (in_grid(map_x as int, map_y as int) && map_walls@[tile_index(map_x as int, map_y as int)] != 0),
{
    if map_x >= 0 && map_x < MAX_MAP_WIDTH as i32 && map_y >= 0 && map_y < MAX_MAP_HEIGHT as i32 {
        let map_index = (map_y * MAX_MAP_WIDTH as i32 + map_x) as usize;
        map_walls[map_index] != 0
    } else {
        false
    }
}

/// The player cannot leave the map: a rectangle of cells that reaches off
/// the grid is always blocked, whatever the map holds.
pub proof fn lemma_off_grid_blocks<T: Tile>(map: Seq<T>, min_x: int, max_x: int, min_y: int, max_y: int, x: int, y: int)
    requires
        min_x <= x <= max_x,
        min_y <= y <= max_y,
        !in_grid(x, y),
    ensures
        exists|cx: int, cy: int| min_x <= cx <= max_x && min_y <= cy <= max_y && #[trigger] cell_blocks(map, cx, cy),
{
    assert(cell_blocks(map, x, y));
}

/// On a `u16` wall map, a cell on the grid blocks exactly when its wall
/// texture is nonzero (a tile past the end of the map is open).
pub proof fn lemma_u16_cell_blocks(map: Seq<u16>, x: int, y: int)
    requires
        in_grid(x, y),
    ensures
        cell_blocks(map, x, y) <==> (y * 8 + x < map.len() && map[y * 8 + x] != 0),
{
}

/// On a `u32` map, a cell on the grid blocks exactly when its value is
/// nonzero (a tile past the end of the map is open).
pub proof fn lemma_u32_cell_blocks(map: Seq<u32>, x: int, y: int)
    requires
        in_grid(x, y),
    ensures
        cell_blocks(map, x, y) <==> (y * 8 + x < map.len() && map[y * 8 + x] != 0),
{
}

/// A rectangle that holds an on-grid cell with any nonzero wall texture of a
/// `u16` map is blocked: `cells_blocked` answers true for it.
pub proof fn lemma_u16_wall_in_rect_blocks(map: Seq<u16>, min_x: int, max_x: int, min_y: int, max_y: int, x: int, y: int)
    requires
        min_x <= x <= max_x,
        min_y <= y <= max_y,
        in_grid(x, y),
        y * 8 + x < map.len(),
        map[y * 8 + x] != 0,
    ensures
        exists|cx: int, cy: int| min_x <= cx <= max_x && min_y <= cy <= max_y && #[trigger] cell_blocks(map, cx, cy),
{
    assert(cell_blocks(map, x, y));
}

} // verus!
