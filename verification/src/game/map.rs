use vstd::prelude::*;
use vstd::string::StrSliceExecFns;

use crate::game::definitions::VentOrientation;
use crate::{MAX_MAP_HEIGHT, MAX_MAP_TILES, MAX_MAP_WIDTH};

verus! {

/// Wall texture of a vent tile that was placed.
pub const VENT_WALL: u16 = 14;

/// Wall texture of a solid wall.
pub const SOLID_WALL: u16 = 1;

/// Floor texture that a loaded layout gives every cell it covers.
pub const LAYOUT_FLOOR: u16 = 2;

/// Ceiling texture that a loaded layout gives every cell it covers.
pub const LAYOUT_CEILING: u16 = 3;

/// A record of one wall change: tile index, wall, floor and ceiling texture.
pub type DirtyTile = (u32, u32, u32, u32);

/// What a `MapManager` holds, as mathematical values.
pub struct MapView {
    pub walls: Seq<u16>,
    pub floor: Seq<u16>,
    pub ceiling: Seq<u16>,
    pub dirty: Seq<DirtyTile>,
}

impl MapView {
    /// Every layer covers the whole grid.
    pub open spec fn valid(self) -> bool {
        &&& self.walls.len() == MAX_MAP_TILES
        &&& self.floor.len() == MAX_MAP_TILES
        &&& self.ceiling.len() == MAX_MAP_TILES
    }
}

/// Index of cell `(x, y)` in the row-major tile layers.
pub open spec fn tile_index(x: int, y: int) -> int {
    y * (MAX_MAP_WIDTH as int) + x
}

/// Whether `(x, y)` is a cell of the grid.
pub open spec fn in_grid(x: int, y: int) -> bool {
    0 <= x < MAX_MAP_WIDTH && 0 <= y < MAX_MAP_HEIGHT
}

/// The wall texture at `(x, y)`; outside the grid every cell counts as solid (1).
pub open spec fn wall_or_edge(walls: Seq<u16>, x: int, y: int) -> u16 {
    if in_grid(x, y) {
        walls[tile_index(x, y)]
    } else {
        1
    }
}

/// Whether a vent fits at `(x, y)` and along which axis: a vent needs open
/// cells on one axis and walls (or the grid's edge) on the other.
pub open spec fn vent_check(walls: Seq<u16>, x: int, y: int) -> (bool, VentOrientation) {
    let top = wall_or_edge(walls, x, y - 1);
    let bottom = wall_or_edge(walls, x, y + 1);
    let left = wall_or_edge(walls, x - 1, y);
    let right = wall_or_edge(walls, x + 1, y);
    if top == 0 && bottom == 0 && left != 0 && right != 0 {
        (true, VentOrientation::Vertical)
    } else if left == 0 && right == 0 && top != 0 && bottom != 0 {
        (true, VentOrientation::Horizontal)
    } else {
        (false, VentOrientation::NoOrientation)
    }
}

/// The rows of a layout, each as its sequence of characters.
pub open spec fn layout_rows(layout: Seq<&str>) -> Seq<Seq<char>> {
    layout.map_values(|row: &str| row@)
}

/// Number of layout rows that a load reads.
pub open spec fn loaded_rows(rows: Seq<Seq<char>>) -> int {
    if rows.len() < MAX_MAP_HEIGHT {
        rows.len() as int
    } else {
        MAX_MAP_HEIGHT as int
    }
}

/// Number of characters of a row that a load reads.
pub open spec fn loaded_cols(row: Seq<char>) -> int {
    if row.len() < MAX_MAP_WIDTH {
        row.len() as int
    } else {
        MAX_MAP_WIDTH as int
    }
}

/// Whether a load of `rows` covers the cell `(x, y)`.
pub open spec fn is_loaded(rows: Seq<Seq<char>>, x: int, y: int) -> bool {
    0 <= y < loaded_rows(rows) && 0 <= x < loaded_cols(rows[y])
}

/// The wall that a layout character gives before vents are resolved.
pub open spec fn char_wall(c: char) -> u16 {
    if c == '1' {
        1
    } else {
        0
    }
}

/// Walls after the cells of a layout were read, before vents are resolved.
pub open spec fn base_walls(walls: Seq<u16>, rows: Seq<Seq<char>>) -> Seq<u16> {
    Seq::new(
        walls.len(),
        |i: int|
            if is_loaded(rows, i % 8, i / 8) {
                char_wall(rows[i / 8][i % 8])
            } else {
                walls[i]
            },
    )
}

/// A layer where each covered cell holds `value` and every other cell keeps its texture.
pub open spec fn fill_loaded(layer: Seq<u16>, rows: Seq<Seq<char>>, value: u16) -> Seq<u16> {
    Seq::new(layer.len(), |i: int| if is_loaded(rows, i % 8, i / 8) { value } else { layer[i] })
}

/// The vent cells (`'V'`) among the first `n` characters of row `y`, left to right.
pub open spec fn row_vents(row: Seq<char>, y: int, n: int) -> Seq<(u32, u32)>
    decreases n,
{
    if n <= 0 {
        seq![]
    } else if row[n - 1] == 'V' {
        row_vents(row, y, n - 1).push(((n - 1) as u32, y as u32))
    } else {
        row_vents(row, y, n - 1)
    }
}

/// The vent cells of the first `ny` rows of a layout, in reading order.
pub open spec fn layout_vents(rows: Seq<Seq<char>>, ny: int) -> Seq<(u32, u32)>
    decreases ny,
{
    if ny <= 0 {
        seq![]
    } else {
        layout_vents(rows, ny - 1) + row_vents(rows[ny - 1], ny - 1, loaded_cols(rows[ny - 1]))
    }
}

/// Resolves vent cells one after another: a cell where a vent fits becomes a
/// vent wall and is reported with its orientation, any other becomes a solid
/// wall. Each check sees the cells that the earlier ones resolved.
pub open spec fn vent_pass(walls: Seq<u16>, vents: Seq<(u32, u32)>) -> (Seq<u16>, Seq<(u32, u32, VentOrientation)>)
    decreases vents.len(),
{
    if vents.len() == 0 {
        (walls, seq![])
    } else {
        let prev = vent_pass(walls, vents.drop_last());
        let x = vents.last().0 as int;
        let y = vents.last().1 as int;
        let check = vent_check(prev.0, x, y);
        if check.0 {
            (prev.0.update(tile_index(x, y), VENT_WALL), prev.1.push((x as u32, y as u32, check.1)))
        } else {
            (prev.0.update(tile_index(x, y), SOLID_WALL), prev.1)
        }
    }
}

/// The walls after loading `rows` over `walls`, and the vents that were placed.
pub open spec fn load_result(walls: Seq<u16>, rows: Seq<Seq<char>>) -> (Seq<u16>, Seq<(u32, u32, VentOrientation)>) {
    vent_pass(base_walls(walls, rows), layout_vents(rows, loaded_rows(rows)))
}

/// The map after `set_wall(x, y, texture_id)`.
pub open spec fn set_wall_spec(m: MapView, x: int, y: int, texture_id: u16) -> MapView {
    if in_grid(x, y) {
        let i = tile_index(x, y);
        MapView {
            walls: m.walls.update(i, texture_id),
            dirty: m.dirty.push((i as u32, texture_id as u32, m.floor[i] as u32, m.ceiling[i] as u32)),
            ..m
        }
    } else {
        m
    }
}

/// The map as the renderer reads it: four words per tile, holding the wall,
/// floor and ceiling textures and a zero.
pub open spec fn packed_map(m: MapView) -> Seq<u32> {
    Seq::new(
        4 * m.walls.len(),
        |j: int|
            if j % 4 == 0 {
                m.walls[j / 4] as u32
            } else if j % 4 == 1 {
                m.floor[j / 4] as u32
            } else if j % 4 == 2 {
                m.ceiling[j / 4] as u32
            } else {
                0u32
            },
    )
}

/// The map after `load_from_layout` of `rows`.
pub open spec fn load_spec(m: MapView, rows: Seq<Seq<char>>) -> MapView {
    MapView {
        walls: load_result(m.walls, rows).0,
        floor: fill_loaded(m.floor, rows, LAYOUT_FLOOR),
        ceiling: fill_loaded(m.ceiling, rows, LAYOUT_CEILING),
        dirty: m.dirty,
    }
}

/// The map after `clear_map_flag`: every recorded change is dropped.
pub open spec fn clear_spec(m: MapView) -> MapView {
    MapView { dirty: Seq::empty(), ..m }
}

/// The change flag: whether any wall change is recorded.
pub open spec fn change_flag(m: MapView) -> bool {
    m.dirty.len() > 0
}

/// The map that `MapManager::default` builds.
pub open spec fn default_view() -> MapView {
    MapView {
        walls: Seq::new(MAX_MAP_TILES as nat, |i: int| 0u16),
        floor: Seq::new(MAX_MAP_TILES as nat, |i: int| 0u16),
        ceiling: Seq::new(MAX_MAP_TILES as nat, |i: int| 0u16),
        dirty: Seq::empty(),
    }
}

/// One call that changes a map.
pub enum MapOp {
    SetWall(int, int, u16),
    Load(Seq<Seq<char>>),
    ClearFlag,
}

/// The map after one call.
pub open spec fn apply_op(m: MapView, op: MapOp) -> MapView {
    match op {
        MapOp::SetWall(x, y, t) => set_wall_spec(m, x, y, t),
        MapOp::Load(rows) => load_spec(m, rows),
        MapOp::ClearFlag => clear_spec(m),
    }
}

/// The map after a sequence of calls, first to last.
pub open spec fn apply_ops(m: MapView, ops: Seq<MapOp>) -> MapView
    decreases ops.len(),
{
    if ops.len() == 0 {
        m
    } else {
        apply_op(apply_ops(m, ops.drop_last()), ops.last())
    }
}

/// The tile layers of the map: walls, floor and ceiling textures per cell,
/// and the list of wall changes not yet taken up by the renderer.
pub struct MapManager {
    walls_data: Vec<u16>,
    floor_data: Vec<u16>,
    ceiling_data: Vec<u16>,
    dirty_tiles: Vec<DirtyTile>,
}

impl View for MapManager {
    type V = MapView;

    closed spec fn view(&self) -> MapView {
        MapView {
            walls: self.walls_data@,
            floor: self.floor_data@,
            ceiling: self.ceiling_data@,
            dirty: self.dirty_tiles@,
        }
    }
}

impl Default for MapManager {
    /// An empty grid: every wall, floor and ceiling texture is 0 and no change is recorded.
    fn default() -> (m: Self)
        ensures
            m@ == default_view(),
            m@.valid(),
    {
        MapManager {
            walls_data: Self::zeroed_layer(),
            floor_data: Self::zeroed_layer(),
            ceiling_data: Self::zeroed_layer(),
            dirty_tiles: Vec::new(),
        }
    }
}

impl MapManager {
    /// Every layer covers the whole grid.
    #[verifier::type_invariant]
    spec fn well_formed(self) -> bool {
        self@.valid()
    }

    fn zeroed_layer() -> (layer: Vec<u16>)
        ensures
            layer@ == Seq::new(MAX_MAP_TILES as nat, |i: int| 0u16),
    {
        let mut layer: Vec<u16> = Vec::new();
        let mut i: u32 = 0;
        while i < MAX_MAP_TILES
            invariant
                i <= MAX_MAP_TILES,
                layer@ == Seq::new(i as nat, |k: int| 0u16),
            decreases MAX_MAP_TILES - i,
        {
            layer.push(0);
            i += 1;
            assert(layer@ =~= Seq::new(i as nat, |k: int| 0u16));
        }
        layer
    }

    /// Reads a layout, one string per row and one character per cell, into
    /// the grid: at most `MAX_MAP_HEIGHT` rows and `MAX_MAP_WIDTH` characters
    /// of each row are read. A covered cell gets floor 2, ceiling 3 and wall 1
    /// for `'1'`, else wall 0. Then each `'V'` cell, in reading order, becomes a
    /// vent wall (14) where a vent fits, or a solid wall (1) where none does.
    /// Returns the vents placed, each with its cell and orientation.
    pub fn load_from_layout(&mut self, layout: &[&str]) -> (placed: Vec<(u32, u32, VentOrientation)>)
        ensures
            final(self)@.valid(),
            final(self)@ == load_spec(old(self)@, layout_rows(layout@)),
            placed@ == load_result(old(self)@.walls, layout_rows(layout@)).1,
            forall|i: int|
                0 <= i < MAX_MAP_TILES ==> ((#[trigger] is_vent_mark(layout_rows(layout@), i % 8, i / 8) && final(self)@.walls[i] == VENT_WALL) <==> exists|j: int|
                    0 <= j < placed@.len() && tile_index((#[trigger] placed@[j]).0 as int, placed@[j].1 as int) == i),
            forall|i: int, j: int|
                0 <= i < j < placed@.len() ==> tile_index((#[trigger] placed@[i]).0 as int, placed@[i].1 as int)
                    < tile_index((#[trigger] placed@[j]).0 as int, placed@[j].1 as int),
    {
        proof {
            use_type_invariant(&*self);
        }
        let ghost rows = layout_rows(layout@);
        let ghost old_walls = self.walls_data@;
        let ghost old_floor = self.floor_data@;
        let ghost old_ceiling = self.ceiling_data@;
        let mut vents_to_place: Vec<(u32, u32)> = Vec::new();

        let row_count: usize = if layout.len() < MAX_MAP_HEIGHT as usize {
            layout.len()
        } else {
            MAX_MAP_HEIGHT as usize
        };
        let mut y: usize = 0;
        while y < row_count
            invariant
                row_count == loaded_rows(rows),
                row_count <= MAX_MAP_HEIGHT,
                rows == layout_rows(layout@),
                y <= row_count,
                self@.valid(),
                self@.dirty == old(self)@.dirty,
                old_walls == old(self)@.walls,
                old_floor == old(self)@.floor,
                old_ceiling == old(self)@.ceiling,
                vents_to_place@ == layout_vents(rows, y as int),
                forall|k: int|
                    0 <= k < vents_to_place@.len() ==> (#[trigger] vents_to_place@[k]).0 < MAX_MAP_WIDTH
                        && vents_to_place@[k].1 < MAX_MAP_HEIGHT,
                forall|i: int|
                    0 <= i < MAX_MAP_TILES ==> #[trigger] self.walls_data@[i] == (if is_loaded(rows, i % 8, i / 8) && i / 8 < y {
                        char_wall(rows[i / 8][i % 8])
                    } else {
                        old_walls[i]
                    }),
                forall|i: int|
                    0 <= i < MAX_MAP_TILES ==> #[trigger] self.floor_data@[i] == (if is_loaded(rows, i % 8, i / 8) && i / 8 < y {
                        LAYOUT_FLOOR
                    } else {
                        old_floor[i]
                    }),
                forall|i: int|
                    0 <= i < MAX_MAP_TILES ==> #[trigger] self.ceiling_data@[i] == (if is_loaded(rows, i % 8, i / 8) && i / 8 < y {
                        LAYOUT_CEILING
                    } else {
                        old_ceiling[i]
                    }),
            decreases row_count - y,
        {
            let row: &str = layout[y];
            assert(row@ == rows[y as int]);
            let char_count = row.unicode_len();
            let col_count: usize = if char_count < MAX_MAP_WIDTH as usize {
                char_count
            } else {
                MAX_MAP_WIDTH as usize
            };
            assert(col_count == loaded_cols(rows[y as int]));
            let mut x: usize = 0;
            while x < col_count
                invariant
                    row_count == loaded_rows(rows),
                    row_count <= MAX_MAP_HEIGHT,
                    col_count <= MAX_MAP_WIDTH,
                    rows == layout_rows(layout@),
                    y < row_count,
                    row@ == rows[y as int],
                    col_count == loaded_cols(rows[y as int]),
                    x <= col_count,
                    self@.valid(),
                    self@.dirty == old(self)@.dirty,
                    old_walls == old(self)@.walls,
                    old_floor == old(self)@.floor,
                    old_ceiling == old(self)@.ceiling,
                    vents_to_place@ == layout_vents(rows, y as int) + row_vents(rows[y as int], y as int, x as int),
                    forall|k: int|
                        0 <= k < vents_to_place@.len() ==> (#[trigger] vents_to_place@[k]).0 < MAX_MAP_WIDTH
                            && vents_to_place@[k].1 < MAX_MAP_HEIGHT,
                    forall|i: int|
                        0 <= i < MAX_MAP_TILES ==> #[trigger] self.walls_data@[i] == (if is_loaded(rows, i % 8, i / 8) && (i / 8 < y || (i / 8 == y && i % 8 < x)) {
                            char_wall(rows[i / 8][i % 8])
                        } else {
                            old_walls[i]
                        }),
                    forall|i: int|
                        0 <= i < MAX_MAP_TILES ==> #[trigger] self.floor_data@[i] == (if is_loaded(rows, i % 8, i / 8) && (i / 8 < y || (i / 8 == y && i % 8 < x)) {
                            LAYOUT_FLOOR
                        } else {
                            old_floor[i]
                        }),
                    forall|i: int|
                        0 <= i < MAX_MAP_TILES ==> #[trigger] self.ceiling_data@[i] == (if is_loaded(rows, i % 8, i / 8) && (i / 8 < y || (i / 8 == y && i % 8 < x)) {
                            LAYOUT_CEILING
                        } else {
                            old_ceiling[i]
                        }),
                decreases col_count - x,
            {
                let ch = row.get_char(x);
                assert(y < 8 && x < 8);
                let i = y * 8 + x;
                assert(i / 8 == y && i % 8 == x);
                self.walls_data[i] = 0;
                self.floor_data[i] = LAYOUT_FLOOR;
                self.ceiling_data[i] = LAYOUT_CEILING;
                let ghost before = vents_to_place@;
                if ch == '1' {
                    self.walls_data[i] = 1;
                } else if ch == 'V' {
                    vents_to_place.push((x as u32, y as u32));
                }
                assert(vents_to_place@ =~= layout_vents(rows, y as int) + row_vents(rows[y as int], y as int, x + 1));
                x += 1;
            }
            assert(layout_vents(rows, y + 1) == layout_vents(rows, y as int) + row_vents(rows[y as int], y as int, loaded_cols(rows[y as int])));
            y += 1;
        }
        assert(self.walls_data@ =~= base_walls(old_walls, rows));
        assert(self.floor_data@ =~= fill_loaded(old_floor, rows, LAYOUT_FLOOR));
        assert(self.ceiling_data@ =~= fill_loaded(old_ceiling, rows, LAYOUT_CEILING));

        let ghost base = self.walls_data@;
        let mut placed: Vec<(u32, u32, VentOrientation)> = Vec::new();
        let mut k: usize = 0;
        while k < vents_to_place.len()
            invariant
                k <= vents_to_place@.len(),
                vents_to_place@ == layout_vents(rows, loaded_rows(rows)),
                forall|j: int|
                    0 <= j < vents_to_place@.len() ==> (#[trigger] vents_to_place@[j]).0 < MAX_MAP_WIDTH
                        && vents_to_place@[j].1 < MAX_MAP_HEIGHT,
                self@.valid(),
                self@.dirty == old(self)@.dirty,
                self@.floor == fill_loaded(old(self)@.floor, rows, LAYOUT_FLOOR),
                self@.ceiling == fill_loaded(old(self)@.ceiling, rows, LAYOUT_CEILING),
                (self.walls_data@, placed@) == vent_pass(base, vents_to_place@.take(k as int)),
            decreases vents_to_place@.len() - k,
        {
            let (x, y) = vents_to_place[k];
            let (vent_valid, vent_orientation) = self.check_vent_placement(x, y);
            let i = (y * MAX_MAP_WIDTH + x) as usize;
            if vent_valid {
                self.walls_data[i] = VENT_WALL;
                placed.push((x, y, vent_orientation));
            } else {
                self.walls_data[i] = SOLID_WALL;
            }
            assert(vents_to_place@.take(k + 1).drop_last() =~= vents_to_place@.take(k as int));
            k += 1;
        }
        assert(vents_to_place@.take(vents_to_place@.len() as int) =~= vents_to_place@);
        assert(self.walls_data@ == load_result(old_walls, rows).0);
        assert(placed@ == load_result(old_walls, rows).1);
        proof {
            lemma_load_reports_every_vent(old_walls, rows);
            let r = load_result(old_walls, rows);
            assert forall|i: int| 0 <= i < MAX_MAP_TILES implies ((#[trigger] is_vent_mark(rows, i % 8, i / 8)
                && self@.walls[i] == VENT_WALL) <==> exists|j: int|
                0 <= j < placed@.len() && tile_index((#[trigger] placed@[j]).0 as int, placed@[j].1 as int) == i) by {
                assert(self@.walls[i] == r.0[i]);
                if exists|j: int| 0 <= j < r.1.len() && tile_index((#[trigger] r.1[j]).0 as int, r.1[j].1 as int) == i {
                    let j = choose|j: int| 0 <= j < r.1.len() && tile_index((#[trigger] r.1[j]).0 as int, r.1[j].1 as int) == i;
                    assert(placed@[j] == r.1[j]);
                }
            }
        }
        placed
    }

    /// Whether any wall changed since the last `clear_map_flag`.
    pub fn get_map_change_flag(&self) -> (r: bool)
        ensures
            r == change_flag(self@),
    {
        self.dirty_tiles.len() > 0
    }

    /// Marks every recorded wall change as taken up.
    pub fn clear_map_flag(&mut self)
        ensures
            final(self)@ == clear_spec(old(self)@),
            final(self)@.valid(),
    {
        proof {
            use_type_invariant(&*self);
        }
        self.dirty_tiles = Vec::new();
    }

    /// The layers in the renderer's layout: per tile the wall, floor and
    /// ceiling texture and a zero, as words.
    pub fn get_map_data(&self) -> (map_data: Vec<u32>)
        ensures
            map_data@ == packed_map(self@),
            map_data@.len() == 4 * MAX_MAP_TILES,
            forall|i: int|
                0 <= i < MAX_MAP_TILES ==> {
                    &&& #[trigger] map_data@[4 * i] == self@.walls[i] as u32
                    &&& map_data@[4 * i + 1] == self@.floor[i] as u32
                    &&& map_data@[4 * i + 2] == self@.ceiling[i] as u32
                    &&& map_data@[4 * i + 3] == 0
                },
    {
        proof {
            use_type_invariant(self);
        }
        let mut map_data: Vec<u32> = Vec::new();
        let walls_data = self.get_walls_data();
        let floor_data = self.get_floor_data();
        let ceiling_data = self.get_ceiling_data();
        let mut i: usize = 0;
        while i < walls_data.len()
            invariant
                self@.valid(),
                walls_data@ == self@.walls,
                floor_data@ == self@.floor,
                ceiling_data@ == self@.ceiling,
                i <= walls_data@.len(),
                map_data@ =~= packed_map(self@).take(4 * i),
            decreases walls_data@.len() - i,
        {
            map_data.push(walls_data[i] as u32);
            map_data.push(floor_data[i] as u32);
            map_data.push(ceiling_data[i] as u32);
            map_data.push(0);
            assert(map_data@ =~= packed_map(self@).take(4 * (i + 1)));
            i += 1;
        }
        assert(packed_map(self@).take(4 * i) =~= packed_map(self@));
        proof {
            lemma_packed_map_words(self@);
        }
        map_data
    }

    /// Whether a vent fits at `(x, y)` given the current walls, and along which axis.
    pub fn check_vent_placement(&self, x: u32, y: u32) -> (r: (bool, VentOrientation))
        requires
            x < MAX_MAP_WIDTH,
            y < MAX_MAP_HEIGHT,
        ensures
            r == vent_check(self@.walls, x as int, y as int),
            ({
                let w = self@.walls;
                let top_open = y > 0 && w[(y - 1) * 8 + x] == 0;
                let bottom_open = y < 7 && w[(y + 1) * 8 + x] == 0;
                let left_open = x > 0 && w[y * 8 + x - 1] == 0;
                let right_open = x < 7 && w[y * 8 + x + 1] == 0;
                &&& (r == (true, VentOrientation::Vertical)) <==> (top_open && bottom_open && !left_open
                    && !right_open)
                &&& (r == (true, VentOrientation::Horizontal)) <==> (left_open && right_open && !top_open
                    && !bottom_open)
                &&& !r.0 <==> r == (false, VentOrientation::NoOrientation)
            }),
    {
        proof {
            use_type_invariant(self);
        }
        let top = if y > 0 {
            self.walls_data[((y - 1) * MAX_MAP_WIDTH + x) as usize]
        } else {
            1
        };
        let bottom = if y < MAX_MAP_HEIGHT - 1 {
            self.walls_data[((y + 1) * MAX_MAP_WIDTH + x) as usize]
        } else {
            1
        };
        let left = if x > 0 {
            self.walls_data[(y * MAX_MAP_WIDTH + (x - 1)) as usize]
        } else {
            1
        };
        let right = if x < MAX_MAP_WIDTH - 1 {
            self.walls_data[(y * MAX_MAP_WIDTH + (x + 1)) as usize]
        } else {
            1
        };

        let mut orientation = VentOrientation::NoOrientation;
        let mut valid_placement = false;

        if top == 0 && bottom == 0 && left != 0 && right != 0 {
            orientation = VentOrientation::Vertical;
            valid_placement = true;
        } else if left == 0 && right == 0 && top != 0 && bottom != 0 {
            orientation = VentOrientation::Horizontal;
            valid_placement = true;
        }
        proof {
            lemma_vent_fit(self@.walls, x as int, y as int);
        }
        (valid_placement, orientation)
    }

    /// Sets the wall texture of cell `(x, y)` and records the change; a cell
    /// outside the grid is ignored.
    pub fn set_wall(&mut self, x: u32, y: u32, texture_id: u16)
        ensures
            final(self)@.valid(),
            final(self)@ == set_wall_spec(old(self)@, x as int, y as int, texture_id),
    {
        proof {
            use_type_invariant(&*self);
        }
        if x < MAX_MAP_WIDTH && y < MAX_MAP_HEIGHT {
            let index = (y * MAX_MAP_WIDTH + x) as usize;
            self.walls_data[index] = texture_id;
            let record = (index as u32, texture_id as u32, self.floor_data[index] as u32, self.ceiling_data[index] as u32);
            // The records are not part of the layers' invariant; take them out to extend them.
            let mut dirty: Vec<DirtyTile> = Vec::new();
            std::mem::swap(&mut dirty, &mut self.dirty_tiles);
            dirty.push(record);
            self.dirty_tiles = dirty;
        }
    }

    /// The wall texture of every cell, row by row.
    pub fn get_walls_data(&self) -> (r: &[u16])
        ensures
            r@ == self@.walls,
    {
        self.walls_data.as_slice()
    }

    /// The floor texture of every cell, row by row.
    pub fn get_floor_data(&self) -> (r: &[u16])
        ensures
            r@ == self@.floor,
    {
        self.floor_data.as_slice()
    }

    /// The ceiling texture of every cell, row by row.
    pub fn get_ceiling_data(&self) -> (r: &[u16])
        ensures
            r@ == self@.ceiling,
    {
        self.ceiling_data.as_slice()
    }

    /// The wall changes recorded since the last `clear_map_flag`, oldest first.
    pub fn get_dirty_tiles(&self) -> (r: &[DirtyTile])
        ensures
            r@ == self@.dirty,
    {
        self.dirty_tiles.as_slice()
    }
}

} // verus!

verus! {

/// The cell index of a vent entry.
pub open spec fn cell_index(c: (u32, u32)) -> int {
    tile_index(c.0 as int, c.1 as int)
}

/// Whether cell `(x, y)` of `rows` is read by a load and holds a vent mark.
pub open spec fn is_vent_mark(rows: Seq<Seq<char>>, x: int, y: int) -> bool {
    is_loaded(rows, x, y) && rows[y][x] == 'V'
}

proof fn lemma_row_vents(row: Seq<char>, y: int, n: int)
    requires
        0 <= n <= loaded_cols(row),
        0 <= y < MAX_MAP_HEIGHT,
    ensures
        forall|k: int|
            0 <= k < row_vents(row, y, n).len() ==> {
                let e = #[trigger] row_vents(row, y, n)[k];
                &&& e.1 == y
                &&& e.0 < n
                &&& row[e.0 as int] == 'V'
            },
        forall|i: int, j: int|
            0 <= i < j < row_vents(row, y, n).len() ==> (#[trigger] row_vents(row, y, n)[i]).0
                < (#[trigger] row_vents(row, y, n)[j]).0,
        forall|x: int| 0 <= x < n && row[x] == 'V' ==> #[trigger] row_vents(row, y, n).contains((x as u32, y as u32)),
    decreases n,
{
    if n > 0 {
        lemma_row_vents(row, y, n - 1);
        let prev = row_vents(row, y, n - 1);
        let cur = row_vents(row, y, n);
        assert forall|x: int| 0 <= x < n && row[x] == 'V' implies #[trigger] cur.contains((x as u32, y as u32)) by {
            if x < n - 1 {
                assert(prev.contains((x as u32, y as u32)));
                let k = choose|k: int| 0 <= k < prev.len() && prev[k] == (x as u32, y as u32);
                assert(cur[k] == prev[k]);
            } else {
                assert(cur[cur.len() - 1] == (x as u32, y as u32));
            }
        }
    }
}

proof fn lemma_layout_vents(rows: Seq<Seq<char>>, ny: int)
    requires
        0 <= ny <= loaded_rows(rows),
    ensures
        forall|k: int|
            0 <= k < layout_vents(rows, ny).len() ==> {
                let e = #[trigger] layout_vents(rows, ny)[k];
                &&& is_vent_mark(rows, e.0 as int, e.1 as int)
                &&& e.1 < ny
            },
        forall|i: int, j: int|
            0 <= i < j < layout_vents(rows, ny).len() ==> cell_index(#[trigger] layout_vents(rows, ny)[i])
                < cell_index(#[trigger] layout_vents(rows, ny)[j]),
        forall|x: int, y: int|
            is_vent_mark(rows, x, y) && y < ny ==> #[trigger] layout_vents(rows, ny).contains((x as u32, y as u32)),
    decreases ny,
{
    if ny > 0 {
        let y = ny - 1;
        lemma_layout_vents(rows, y);
        lemma_row_vents(rows[y], y, loaded_cols(rows[y]));
        let prev = layout_vents(rows, y);
        let rv = row_vents(rows[y], y, loaded_cols(rows[y]));
        let cur = layout_vents(rows, ny);
        assert(cur == prev + rv);
        assert forall|k: int| 0 <= k < cur.len() implies {
            let e = #[trigger] cur[k];
            &&& is_vent_mark(rows, e.0 as int, e.1 as int)
            &&& e.1 < ny
        } by {
            if k >= prev.len() {
                assert(cur[k] == rv[k - prev.len()]);
            }
        }
        assert forall|i: int, j: int| 0 <= i < j < cur.len() implies cell_index(#[trigger] cur[i])
            < cell_index(#[trigger] cur[j]) by {
            if j < prev.len() {
                assert(cur[i] == prev[i] && cur[j] == prev[j]);
            } else if i >= prev.len() {
                assert(cur[i] == rv[i - prev.len()] && cur[j] == rv[j - prev.len()]);
            } else {
                assert(cur[i] == prev[i] && cur[j] == rv[j - prev.len()]);
                assert(prev[i].1 < y);
            }
        }
        assert forall|x: int, yy: int| is_vent_mark(rows, x, yy) && yy < ny implies #[trigger] cur.contains(
            (x as u32, yy as u32),
        ) by {
            if yy < y {
                assert(prev.contains((x as u32, yy as u32)));
                let k = choose|k: int| 0 <= k < prev.len() && prev[k] == (x as u32, yy as u32);
                assert(cur[k] == prev[k]);
            } else {
                assert(rv.contains((x as u32, y as u32)));
                let k = choose|k: int| 0 <= k < rv.len() && rv[k] == (x as u32, y as u32);
                assert(cur[prev.len() + k] == rv[k]);
            }
        }
    }
}

proof fn lemma_vent_pass(walls: Seq<u16>, vents: Seq<(u32, u32)>)
    requires
        walls.len() == MAX_MAP_TILES,
        forall|k: int| 0 <= k < vents.len() ==> in_grid((#[trigger] vents[k]).0 as int, vents[k].1 as int),
        forall|i: int, j: int|
            0 <= i < j < vents.len() ==> cell_index(#[trigger] vents[i]) != cell_index(#[trigger] vents[j]),
    ensures
        ({
            let r = vent_pass(walls, vents);
            &&& r.0.len() == MAX_MAP_TILES
            &&& forall|k: int|
                0 <= k < vents.len() ==> r.0[cell_index(#[trigger] vents[k])] == VENT_WALL || r.0[cell_index(
                    vents[k],
                )] == SOLID_WALL
            &&& forall|i: int|
                0 <= i < MAX_MAP_TILES && (forall|k: int| 0 <= k < vents.len() ==> cell_index(#[trigger] vents[k]) != i)
                    ==> r.0[i] == walls[i]
            &&& forall|j: int|
                0 <= j < r.1.len() ==> {
                    let p = #[trigger] r.1[j];
                    &&& vents.contains((p.0, p.1))
                    &&& p.2 != VentOrientation::NoOrientation
                    &&& r.0[cell_index((p.0, p.1))] == VENT_WALL
                }
        }),
    decreases vents.len(),
{
    if vents.len() > 0 {
        let init = vents.drop_last();
        lemma_vent_pass(walls, init);
        let prev = vent_pass(walls, init);
        let r = vent_pass(walls, vents);
        let last = vents.last();
        let li = cell_index(last);
        assert(vents[vents.len() - 1] == last);
        assert forall|k: int| 0 <= k < vents.len() implies r.0[cell_index(#[trigger] vents[k])] == VENT_WALL
            || r.0[cell_index(vents[k])] == SOLID_WALL by {
            if k < vents.len() - 1 {
                assert(init[k] == vents[k]);
                assert(cell_index(vents[k]) != li);
            }
        }
        assert forall|i: int|
            0 <= i < MAX_MAP_TILES && (forall|k: int| 0 <= k < vents.len() ==> cell_index(#[trigger] vents[k]) != i)
                implies r.0[i] == walls[i] by {
            assert forall|k: int| 0 <= k < init.len() implies cell_index(#[trigger] init[k]) != i by {
                assert(init[k] == vents[k]);
            }
            assert(cell_index(vents[vents.len() - 1]) != i);
        }
        assert forall|j: int| 0 <= j < r.1.len() implies {
            let p = #[trigger] r.1[j];
            &&& vents.contains((p.0, p.1))
            &&& p.2 != VentOrientation::NoOrientation
            &&& r.0[cell_index((p.0, p.1))] == VENT_WALL
        } by {
            let p = r.1[j];
            if j < prev.1.len() {
                assert(r.1[j] == prev.1[j]);
                assert(init.contains((p.0, p.1)));
                let k = choose|k: int| 0 <= k < init.len() && init[k] == (p.0, p.1);
                assert(vents[k] == init[k]);
                assert(cell_index(vents[k]) != li);
            } else {
                assert(vents[vents.len() - 1] == (p.0, p.1));
            }
        }
    }
}

/// What a load leaves in each cell: a covered `'V'` cell holds a vent wall
/// (14) or a solid wall (1), any other covered cell holds 1 for `'1'` and 0
/// otherwise, and a cell that the layout does not cover keeps its wall. Every
/// vent reported lies on a `'V'` cell, holds a vent wall and has an orientation.
pub proof fn lemma_load_cells(walls: Seq<u16>, rows: Seq<Seq<char>>)
    requires
        walls.len() == MAX_MAP_TILES,
    ensures
        ({
            let r = load_result(walls, rows);
            &&& r.0.len() == MAX_MAP_TILES
            &&& forall|i: int|
                0 <= i < MAX_MAP_TILES && !is_vent_mark(rows, i % 8, i / 8) ==> #[trigger] r.0[i] == (if is_loaded(
                    rows,
                    i % 8,
                    i / 8,
                ) {
                    char_wall(rows[i / 8][i % 8])
                } else {
                    walls[i]
                })
            &&& forall|i: int|
                0 <= i < MAX_MAP_TILES && is_vent_mark(rows, i % 8, i / 8) ==> #[trigger] r.0[i] == VENT_WALL
                    || r.0[i] == SOLID_WALL
            &&& forall|j: int|
                0 <= j < r.1.len() ==> {
                    let p = #[trigger] r.1[j];
                    &&& is_vent_mark(rows, p.0 as int, p.1 as int)
                    &&& p.2 != VentOrientation::NoOrientation
                    &&& r.0[tile_index(p.0 as int, p.1 as int)] == VENT_WALL
                }
        }),
{
    let ny = loaded_rows(rows);
    let vents = layout_vents(rows, ny);
    let base = base_walls(walls, rows);
    lemma_layout_vents(rows, ny);
    assert forall|k: int| 0 <= k < vents.len() implies in_grid((#[trigger] vents[k]).0 as int, vents[k].1 as int) by {
        let e = vents[k];
        assert(is_vent_mark(rows, e.0 as int, e.1 as int));
    }
    assert forall|i: int, j: int| 0 <= i < j < vents.len() implies cell_index(#[trigger] vents[i]) != cell_index(
        #[trigger] vents[j],
    ) by {}
    lemma_vent_pass(base, vents);
    let r = load_result(walls, rows);
    assert forall|i: int| 0 <= i < MAX_MAP_TILES && !is_vent_mark(rows, i % 8, i / 8) implies #[trigger] r.0[i] == (
    if is_loaded(rows, i % 8, i / 8) {
        char_wall(rows[i / 8][i % 8])
    } else {
        walls[i]
    }) by {
        {
            assert forall|k: int| 0 <= k < vents.len() implies cell_index(#[trigger] vents[k]) != i by {
                let e = vents[k];
                assert(is_vent_mark(rows, e.0 as int, e.1 as int));
                if cell_index(e) == i {
                    assert(i % 8 == e.0 && i / 8 == e.1);
                }
            }
            assert(r.0[i] == base[i]);
        }
    }
    assert forall|i: int| 0 <= i < MAX_MAP_TILES && is_vent_mark(rows, i % 8, i / 8) implies #[trigger] r.0[i]
        == VENT_WALL || r.0[i] == SOLID_WALL by {
        assert(vents.contains(((i % 8) as u32, (i / 8) as u32)));
        let k = choose|k: int| 0 <= k < vents.len() && vents[k] == ((i % 8) as u32, (i / 8) as u32);
        assert(cell_index(vents[k]) == i);
    }
    assert forall|j: int| 0 <= j < r.1.len() implies {
        let p = #[trigger] r.1[j];
        &&& is_vent_mark(rows, p.0 as int, p.1 as int)
        &&& p.2 != VentOrientation::NoOrientation
        &&& r.0[tile_index(p.0 as int, p.1 as int)] == VENT_WALL
    } by {
        let p = r.1[j];
        let k = choose|k: int| 0 <= k < vents.len() && vents[k] == (p.0, p.1);
        assert(vents[k] == (p.0, p.1));
    }
}

/// `set_wall` inside the grid writes exactly one wall cell, records the
/// change with the cell's floor and ceiling, and leaves floor and ceiling as
/// they were; outside the grid it changes nothing.
pub proof fn lemma_set_wall_effect(m: MapView, x: int, y: int, texture_id: u16)
    requires
        m.valid(),
    ensures
        ({
            let r = set_wall_spec(m, x, y, texture_id);
            &&& r.valid()
            &&& r.floor == m.floor
            &&& r.ceiling == m.ceiling
            &&& in_grid(x, y) ==> {
                &&& r.walls[tile_index(x, y)] == texture_id
                &&& forall|i: int| 0 <= i < MAX_MAP_TILES && i != tile_index(x, y) ==> #[trigger] r.walls[i] == m.walls[i]
                &&& r.dirty == m.dirty.push(
                    (
                        tile_index(x, y) as u32,
                        texture_id as u32,
                        m.floor[tile_index(x, y)] as u32,
                        m.ceiling[tile_index(x, y)] as u32,
                    ),
                )
            }
            &&& !in_grid(x, y) ==> r == m
        }),
{
}

/// The change flag is raised by every `set_wall` inside the grid, left as it
/// was by a `set_wall` outside it and by a load, and lowered by
/// `clear_map_flag`.
pub proof fn lemma_change_flag(m: MapView, x: int, y: int, texture_id: u16, rows: Seq<Seq<char>>)
    requires
        m.valid(),
    ensures
        in_grid(x, y) ==> change_flag(set_wall_spec(m, x, y, texture_id)),
        !in_grid(x, y) ==> change_flag(set_wall_spec(m, x, y, texture_id)) == change_flag(m),
        change_flag(load_spec(m, rows)) == change_flag(m),
        !change_flag(clear_spec(m)),
{
}

/// Loading the same layout again changes nothing: the walls and the vents
/// placed are those of the first load.
pub proof fn lemma_load_idempotent(walls: Seq<u16>, rows: Seq<Seq<char>>)
    requires
        walls.len() == MAX_MAP_TILES,
    ensures
        load_result(load_result(walls, rows).0, rows) == load_result(walls, rows),
{
    let first = load_result(walls, rows).0;
    lemma_load_cells(walls, rows);
    assert forall|i: int| 0 <= i < MAX_MAP_TILES implies #[trigger] base_walls(first, rows)[i] == base_walls(
        walls,
        rows,
    )[i] by {
        if !is_loaded(rows, i % 8, i / 8) {
            assert(first[i] == walls[i]);
        }
    }
    assert(base_walls(first, rows) =~= base_walls(walls, rows));
}

/// Whether a call reads the layout cell `(x, y)`.
pub open spec fn covers(op: MapOp, x: int, y: int) -> bool {
    match op {
        MapOp::Load(rows) => is_loaded(rows, x, y),
        _ => false,
    }
}

/// The change records that a run of `set_wall` calls on a fresh map leaves:
/// one per call inside the grid, in call order, with floor and ceiling 0.
pub open spec fn set_wall_records(ops: Seq<MapOp>) -> Seq<DirtyTile>
    decreases ops.len(),
{
    if ops.len() == 0 {
        seq![]
    } else {
        let prev = set_wall_records(ops.drop_last());
        match ops.last() {
            MapOp::SetWall(x, y, t) => if in_grid(x, y) {
                prev.push((tile_index(x, y) as u32, t as u32, 0u32, 0u32))
            } else {
                prev
            },
            _ => prev,
        }
    }
}

/// Every call keeps each layer covering the whole grid.
pub proof fn lemma_ops_valid(m: MapView, ops: Seq<MapOp>)
    requires
        m.valid(),
    ensures
        apply_ops(m, ops).valid(),
    decreases ops.len(),
{
    if ops.len() > 0 {
        lemma_ops_valid(m, ops.drop_last());
        let prev = apply_ops(m, ops.drop_last());
        match ops.last() {
            MapOp::Load(rows) => lemma_load_cells(prev.walls, rows),
            _ => {},
        }
    }
}

/// On a map built by `default` and then any calls, every floor texture is 0
/// or 2, and it is 2 exactly on the cells that some load covered;
/// `set_wall` and `clear_map_flag` never change the floor.
pub proof fn lemma_floor_after_calls(ops: Seq<MapOp>)
    ensures
        apply_ops(default_view(), ops).floor.len() == MAX_MAP_TILES,
        forall|i: int|
            0 <= i < MAX_MAP_TILES ==> {
                let f = #[trigger] apply_ops(default_view(), ops).floor[i];
                &&& (f == 0 || f == LAYOUT_FLOOR)
                &&& (f == LAYOUT_FLOOR <==> exists|k: int| 0 <= k < ops.len() && #[trigger] covers(ops[k], i % 8, i / 8))
            },
    decreases ops.len(),
{
    lemma_ops_valid(default_view(), ops);
    if ops.len() > 0 {
        let init = ops.drop_last();
        lemma_floor_after_calls(init);
        let prev = apply_ops(default_view(), init);
        let cur = apply_ops(default_view(), ops);
        assert forall|i: int| 0 <= i < MAX_MAP_TILES implies {
            let f = #[trigger] cur.floor[i];
            &&& (f == 0 || f == LAYOUT_FLOOR)
            &&& (f == LAYOUT_FLOOR <==> exists|k: int| 0 <= k < ops.len() && #[trigger] covers(ops[k], i % 8, i / 8))
        } by {
            let pf = prev.floor[i];
            assert(cur == apply_op(prev, ops.last()));
            match ops.last() {
                MapOp::Load(rows) => {
                    assert(cur.floor[i] == (if is_loaded(rows, i % 8, i / 8) { LAYOUT_FLOOR } else { pf }));
                    assert(ops[ops.len() - 1] == ops.last());
                    assert(covers(ops[ops.len() - 1], i % 8, i / 8) == is_loaded(rows, i % 8, i / 8));
                },
                _ => {
                    assert(cur.floor[i] == pf);
                    assert(!covers(ops.last(), i % 8, i / 8));
                },
            }
            assert(pf == LAYOUT_FLOOR <==> exists|k: int| 0 <= k < init.len() && #[trigger] covers(init[k], i % 8, i / 8));
            if exists|k: int| 0 <= k < init.len() && #[trigger] covers(init[k], i % 8, i / 8) {
                let k = choose|k: int| 0 <= k < init.len() && #[trigger] covers(init[k], i % 8, i / 8);
                assert(ops[k] == init[k]);
                assert(covers(ops[k], i % 8, i / 8));
            }
            if exists|k: int| 0 <= k < ops.len() && #[trigger] covers(ops[k], i % 8, i / 8) {
                let k = choose|k: int| 0 <= k < ops.len() && #[trigger] covers(ops[k], i % 8, i / 8);
                if k < init.len() {
                    assert(init[k] == ops[k]);
                    assert(covers(init[k], i % 8, i / 8));
                } else {
                    assert(ops[k] == ops.last());
                }
            }
        }
    }
}

/// On a map built by `default` and then only `set_wall` calls, the change
/// records are exactly the calls inside the grid, in call order, each with
/// its tile index, texture, and floor and ceiling 0; calls outside the grid
/// leave no record and repeated calls on one tile each leave one.
pub proof fn lemma_records_after_set_walls(ops: Seq<MapOp>)
    requires
        forall|k: int| 0 <= k < ops.len() ==> #[trigger] ops[k] is SetWall,
    ensures
        apply_ops(default_view(), ops).dirty == set_wall_records(ops),
        apply_ops(default_view(), ops).floor == default_view().floor,
        apply_ops(default_view(), ops).ceiling == default_view().ceiling,
    decreases ops.len(),
{
    if ops.len() > 0 {
        let init = ops.drop_last();
        assert forall|k: int| 0 <= k < init.len() implies #[trigger] init[k] is SetWall by {
            assert(init[k] == ops[k]);
        }
        lemma_records_after_set_walls(init);
        assert(ops[ops.len() - 1] is SetWall);
    }
}

proof fn lemma_vent_pass_reports(walls: Seq<u16>, vents: Seq<(u32, u32)>)
    requires
        walls.len() == MAX_MAP_TILES,
        forall|k: int| 0 <= k < vents.len() ==> in_grid((#[trigger] vents[k]).0 as int, vents[k].1 as int),
        forall|i: int, j: int|
            0 <= i < j < vents.len() ==> cell_index(#[trigger] vents[i]) < cell_index(#[trigger] vents[j]),
    ensures
        ({
            let r = vent_pass(walls, vents);
            &&& forall|k: int|
                0 <= k < vents.len() && r.0[cell_index(#[trigger] vents[k])] == VENT_WALL ==> exists|j: int|
                    0 <= j < r.1.len() && (#[trigger] r.1[j]).0 == vents[k].0 && r.1[j].1 == vents[k].1
            &&& forall|i: int, j: int|
                0 <= i < j < r.1.len() ==> cell_index(((#[trigger] r.1[i]).0, r.1[i].1)) < cell_index(
                    ((#[trigger] r.1[j]).0, r.1[j].1),
                )
        }),
    decreases vents.len(),
{
    if vents.len() > 0 {
        let init = vents.drop_last();
        assert forall|i: int, j: int| 0 <= i < j < init.len() implies cell_index(#[trigger] init[i]) != cell_index(
            #[trigger] init[j],
        ) by {
            assert(init[i] == vents[i] && init[j] == vents[j]);
        }
        assert forall|i: int, j: int| 0 <= i < j < vents.len() implies cell_index(#[trigger] vents[i]) != cell_index(
            #[trigger] vents[j],
        ) by {}
        lemma_vent_pass(walls, init);
        lemma_vent_pass(walls, vents);
        lemma_vent_pass_reports(walls, init);
        let prev = vent_pass(walls, init);
        let r = vent_pass(walls, vents);
        let last = vents.last();
        let li = cell_index(last);
        assert(vents[vents.len() - 1] == last);
        let check = vent_check(prev.0, last.0 as int, last.1 as int);
        assert forall|j: int| 0 <= j < prev.1.len() implies r.1[j] == prev.1[j] by {}
        assert forall|k: int|
            0 <= k < vents.len() && r.0[cell_index(#[trigger] vents[k])] == VENT_WALL implies exists|j: int|
                0 <= j < r.1.len() && (#[trigger] r.1[j]).0 == vents[k].0 && r.1[j].1 == vents[k].1 by {
            if k < vents.len() - 1 {
                assert(init[k] == vents[k]);
                assert(cell_index(vents[k]) < li);
                assert(prev.0[cell_index(init[k])] == VENT_WALL);
                let j = choose|j: int| 0 <= j < prev.1.len() && (#[trigger] prev.1[j]).0 == init[k].0 && prev.1[j].1 == init[k].1;
                assert(r.1[j] == prev.1[j]);
            } else {
                assert(check.0);
                assert(r.1[r.1.len() - 1] == (last.0, last.1, check.1));
            }
        }
        assert forall|i: int, j: int| 0 <= i < j < r.1.len() implies cell_index(((#[trigger] r.1[i]).0, r.1[i].1))
            < cell_index(((#[trigger] r.1[j]).0, r.1[j].1)) by {
            if j >= prev.1.len() {
                let p = prev.1[i];
                assert(r.1[i] == p);
                assert(init.contains((p.0, p.1)));
                let k = choose|k: int| 0 <= k < init.len() && init[k] == (p.0, p.1);
                assert(vents[k] == init[k]);
                assert(r.1[j] == (last.0, last.1, check.1));
            } else {
                assert(r.1[i] == prev.1[i] && r.1[j] == prev.1[j]);
            }
        }
    }
}

/// A load reports exactly the vents it places: a `'V'` cell that the load
/// reads appears in the returned list if and only if its wall ends as a vent
/// wall (14), and the list names each such cell once, in reading order.
pub proof fn lemma_load_reports_every_vent(walls: Seq<u16>, rows: Seq<Seq<char>>)
    requires
        walls.len() == MAX_MAP_TILES,
    ensures
        ({
            let r = load_result(walls, rows);
            &&& forall|i: int|
                0 <= i < MAX_MAP_TILES ==> ((is_vent_mark(rows, i % 8, i / 8) && #[trigger] r.0[i] == VENT_WALL)
                    <==> exists|j: int| 0 <= j < r.1.len() && tile_index((#[trigger] r.1[j]).0 as int, r.1[j].1 as int) == i)
            &&& forall|i: int, j: int|
                0 <= i < j < r.1.len() ==> tile_index((#[trigger] r.1[i]).0 as int, r.1[i].1 as int) < tile_index(
                    (#[trigger] r.1[j]).0 as int,
                    r.1[j].1 as int,
                )
        }),
{
    let ny = loaded_rows(rows);
    let vents = layout_vents(rows, ny);
    let base = base_walls(walls, rows);
    let r = load_result(walls, rows);
    lemma_layout_vents(rows, ny);
    lemma_load_cells(walls, rows);
    assert forall|k: int| 0 <= k < vents.len() implies in_grid((#[trigger] vents[k]).0 as int, vents[k].1 as int) by {
        let e = vents[k];
        assert(is_vent_mark(rows, e.0 as int, e.1 as int));
    }
    lemma_vent_pass_reports(base, vents);
    assert forall|i: int| 0 <= i < MAX_MAP_TILES implies ((is_vent_mark(rows, i % 8, i / 8) && #[trigger] r.0[i]
        == VENT_WALL) <==> exists|j: int| 0 <= j < r.1.len() && tile_index((#[trigger] r.1[j]).0 as int, r.1[j].1 as int) == i) by {
        if is_vent_mark(rows, i % 8, i / 8) && r.0[i] == VENT_WALL {
            let c = ((i % 8) as u32, (i / 8) as u32);
            assert(vents.contains(c));
            let k = choose|k: int| 0 <= k < vents.len() && vents[k] == c;
            assert(cell_index(vents[k]) == i);
            let j = choose|j: int| 0 <= j < r.1.len() && (#[trigger] r.1[j]).0 == vents[k].0 && r.1[j].1 == vents[k].1;
            assert(tile_index(r.1[j].0 as int, r.1[j].1 as int) == i);
        }
        if exists|j: int| 0 <= j < r.1.len() && tile_index((#[trigger] r.1[j]).0 as int, r.1[j].1 as int) == i {
            let j = choose|j: int| 0 <= j < r.1.len() && tile_index((#[trigger] r.1[j]).0 as int, r.1[j].1 as int) == i;
            let p = r.1[j];
            assert(is_vent_mark(rows, p.0 as int, p.1 as int));
            assert(p.0 as int == i % 8 && p.1 as int == i / 8);
        }
    }
}

/// A vent fits at an in-grid cell exactly when one axis is open on both
/// sides and the other axis is walled on both sides, a side off the grid
/// counting as a wall: vertically when the cells above and below hold 0 and
/// those left and right do not, horizontally the other way round.
pub proof fn lemma_vent_fit(walls: Seq<u16>, x: int, y: int)
    requires
        walls.len() == MAX_MAP_TILES,
        in_grid(x, y),
    ensures
        ({
            let top_open = y > 0 && walls[(y - 1) * 8 + x] == 0;
            let bottom_open = y < 7 && walls[(y + 1) * 8 + x] == 0;
            let left_open = x > 0 && walls[y * 8 + x - 1] == 0;
            let right_open = x < 7 && walls[y * 8 + x + 1] == 0;
            let r = vent_check(walls, x, y);
            &&& (r == (true, VentOrientation::Vertical)) <==> (top_open && bottom_open && !left_open && !right_open)
            &&& (r == (true, VentOrientation::Horizontal)) <==> (left_open && right_open && !top_open
                && !bottom_open)
            &&& (r == (false, VentOrientation::NoOrientation)) <==> !((top_open && bottom_open && !left_open
                && !right_open) || (left_open && right_open && !top_open && !bottom_open))
            &&& (top_open || bottom_open) && (left_open || right_open) ==> !r.0
        }),
{
}

/// The packed map holds, for every tile `i`, its wall, floor and ceiling
/// texture at words `4i`, `4i+1`, `4i+2` and a zero at word `4i+3`.
pub proof fn lemma_packed_map_words(m: MapView)
    requires
        m.valid(),
    ensures
        packed_map(m).len() == 4 * MAX_MAP_TILES,
        forall|i: int|
            0 <= i < MAX_MAP_TILES ==> {
                &&& #[trigger] packed_map(m)[4 * i] == m.walls[i] as u32
                &&& packed_map(m)[4 * i + 1] == m.floor[i] as u32
                &&& packed_map(m)[4 * i + 2] == m.ceiling[i] as u32
                &&& packed_map(m)[4 * i + 3] == 0
            },
{
    assert forall|i: int| 0 <= i < MAX_MAP_TILES implies {
        &&& #[trigger] packed_map(m)[4 * i] == m.walls[i] as u32
        &&& packed_map(m)[4 * i + 1] == m.floor[i] as u32
        &&& packed_map(m)[4 * i + 2] == m.ceiling[i] as u32
        &&& packed_map(m)[4 * i + 3] == 0
    } by {
        assert((4 * i) % 4 == 0 && (4 * i) / 4 == i);
        assert((4 * i + 1) % 4 == 1 && (4 * i + 1) / 4 == i);
        assert((4 * i + 2) % 4 == 2 && (4 * i + 2) / 4 == i);
        assert((4 * i + 3) % 4 == 3 && (4 * i + 3) / 4 == i);
    }
}

} // verus!
