use voidseek::game::definitions::VentOrientation;
use voidseek::game::map::MapManager;
use voidseek::{MAX_MAP_TILES, MAX_MAP_WIDTH};

const START_LAYOUT: [&str; 8] = [
    "11111111",
    "1.1....1",
    "1.1.11.1",
    "1.1.1..1",
    "1...V..1",
    "1.111.11",
    "1......1",
    "11111111",
];

fn idx(x: usize, y: usize) -> usize {
    y * MAX_MAP_WIDTH as usize + x
}

#[test]
fn default_map_is_empty() {
    let map = MapManager::default();
    assert_eq!(map.get_walls_data().len(), MAX_MAP_TILES as usize);
    assert!(map.get_walls_data().iter().all(|&w| w == 0));
    assert!(map.get_floor_data().iter().all(|&w| w == 0));
    assert!(map.get_ceiling_data().iter().all(|&w| w == 0));
    assert!(map.get_dirty_tiles().is_empty());
    assert!(!map.get_map_change_flag());
}

#[test]
fn start_layout_places_one_horizontal_vent() {
    let mut map = MapManager::default();
    let placed = map.load_from_layout(&START_LAYOUT);
    assert_eq!(placed, vec![(4, 4, VentOrientation::Horizontal)]);
    let walls = map.get_walls_data();
    assert_eq!(walls[idx(4, 4)], 14);
    assert_eq!(walls[idx(0, 0)], 1);
    assert_eq!(walls[idx(1, 1)], 0);
    assert_eq!(walls[idx(2, 1)], 1);
    assert!(map.get_floor_data().iter().all(|&f| f == 2));
    assert!(map.get_ceiling_data().iter().all(|&c| c == 3));
    assert!(map.get_dirty_tiles().is_empty());
}

#[test]
fn vertical_vent_between_side_walls() {
    let mut map = MapManager::default();
    let placed = map.load_from_layout(&["1.1", "1V1", "1.1"]);
    assert_eq!(placed, vec![(1, 1, VentOrientation::Vertical)]);
    assert_eq!(map.get_walls_data()[idx(1, 1)], 14);
}

#[test]
fn vent_without_corridor_becomes_wall() {
    let mut map = MapManager::default();
    let placed = map.load_from_layout(&["...", ".V.", "..."]);
    assert!(placed.is_empty());
    assert_eq!(map.get_walls_data()[idx(1, 1)], 1);
}

#[test]
fn vent_at_grid_edge_counts_edge_as_wall() {
    let mut map = MapManager::default();
    // Top edge is solid, the cell below is open: neither axis fits.
    let placed = map.load_from_layout(&["V", "."]);
    assert!(placed.is_empty());
    assert_eq!(map.get_walls_data()[idx(0, 0)], 1);
    // Corner cell with both horizontal neighbours off-grid/solid and vertical open.
    let mut map = MapManager::default();
    let placed = map.load_from_layout(&[".1", "V1", ".1"]);
    assert_eq!(placed, vec![(0, 1, VentOrientation::Vertical)]);
}

#[test]
fn later_vent_sees_earlier_decision() {
    let mut map = MapManager::default();
    // The first vent fails (open all round) and becomes a wall, which then
    // closes the left side of the second vent: it fits vertically.
    let placed = map.load_from_layout(&["...1", ".VV1", "...1"]);
    assert_eq!(placed, vec![(2, 1, VentOrientation::Vertical)]);
    assert_eq!(map.get_walls_data()[idx(1, 1)], 1);
    assert_eq!(map.get_walls_data()[idx(2, 1)], 14);
}

#[test]
fn layout_is_clipped_to_grid() {
    let mut map = MapManager::default();
    let rows: Vec<&str> = (0..10).map(|_| "1111111111").collect();
    let placed = map.load_from_layout(&rows);
    assert!(placed.is_empty());
    assert!(map.get_walls_data().iter().all(|&w| w == 1));
}

#[test]
fn uncovered_cells_keep_their_textures() {
    let mut map = MapManager::default();
    map.set_wall(7, 7, 9);
    map.load_from_layout(&["1"]);
    assert_eq!(map.get_walls_data()[idx(0, 0)], 1);
    assert_eq!(map.get_floor_data()[idx(0, 0)], 2);
    assert_eq!(map.get_walls_data()[idx(7, 7)], 9);
    assert_eq!(map.get_floor_data()[idx(7, 7)], 0);
    assert_eq!(map.get_ceiling_data()[idx(1, 0)], 0);
}

#[test]
fn multibyte_characters_count_as_one_cell() {
    let mut map = MapManager::default();
    map.load_from_layout(&["é1"]);
    assert_eq!(map.get_walls_data()[idx(0, 0)], 0);
    assert_eq!(map.get_walls_data()[idx(1, 0)], 1);
}

#[test]
fn set_wall_records_change() {
    let mut map = MapManager::default();
    map.load_from_layout(&START_LAYOUT);
    map.set_wall(3, 2, 7);
    assert_eq!(map.get_walls_data()[idx(3, 2)], 7);
    assert_eq!(map.get_dirty_tiles(), &[(19, 7, 2, 3)]);
    assert!(map.get_map_change_flag());
    map.clear_map_flag();
    assert!(!map.get_map_change_flag());
    assert!(map.get_dirty_tiles().is_empty());
    assert_eq!(map.get_walls_data()[idx(3, 2)], 7);
}

#[test]
fn set_wall_outside_grid_is_ignored() {
    let mut map = MapManager::default();
    map.set_wall(8, 0, 5);
    map.set_wall(0, 8, 5);
    assert!(map.get_walls_data().iter().all(|&w| w == 0));
    assert!(map.get_dirty_tiles().is_empty());
}

#[test]
fn check_vent_placement_reports_axis() {
    let mut map = MapManager::default();
    map.load_from_layout(&START_LAYOUT);
    assert_eq!(map.check_vent_placement(4, 4), (true, VentOrientation::Horizontal));
    assert_eq!(map.check_vent_placement(1, 2), (true, VentOrientation::Vertical));
    assert_eq!(map.check_vent_placement(0, 0), (false, VentOrientation::NoOrientation));
}

#[test]
fn map_data_packs_four_words_per_tile() {
    let mut map = MapManager::default();
    map.load_from_layout(&START_LAYOUT);
    let data = map.get_map_data();
    assert_eq!(data.len(), 4 * MAX_MAP_TILES as usize);
    assert_eq!(&data[0..4], &[1, 2, 3, 0]);
    assert_eq!(&data[4 * idx(1, 1)..4 * idx(1, 1) + 4], &[0, 2, 3, 0]);
    assert_eq!(&data[4 * idx(4, 4)..4 * idx(4, 4) + 4], &[14, 2, 3, 0]);
}

#[test]
fn loading_twice_gives_same_map() {
    let mut map = MapManager::default();
    let first = map.load_from_layout(&START_LAYOUT);
    let walls_first = map.get_walls_data().to_vec();
    let second = map.load_from_layout(&START_LAYOUT);
    assert_eq!(first, second);
    assert_eq!(map.get_walls_data(), &walls_first[..]);
}

#[test]
fn floor_is_two_exactly_where_a_load_covered() {
    let mut map = MapManager::default();
    map.load_from_layout(&["11", "1"]);
    map.set_wall(5, 5, 3);
    map.load_from_layout(&["", "", "", "...."]);
    map.clear_map_flag();
    let floor = map.get_floor_data();
    for y in 0..8 {
        for x in 0..8 {
            let covered = (y == 0 && x < 2) || (y == 1 && x < 1) || (y == 3 && x < 4);
            assert_eq!(floor[idx(x, y)], if covered { 2 } else { 0 });
        }
    }
}

#[test]
fn records_follow_in_grid_set_wall_calls() {
    let mut map = MapManager::default();
    map.set_wall(1, 0, 4);
    map.set_wall(9, 0, 4);
    map.set_wall(1, 0, 5);
    map.set_wall(7, 7, 6);
    assert_eq!(map.get_dirty_tiles(), &[(1, 4, 0, 0), (1, 5, 0, 0), (63, 6, 0, 0)]);
}
