use voidseek::engine::backend::atlas::AtlasLayers;
use voidseek::engine::renderer::{dispatch_count, RENDER_WIDTH};
use voidseek::game::definitions::Input;
use voidseek::game::input::InputKeys;
use voidseek::game::systems::{cells_blocked, is_wall_hit};

fn open_map() -> Vec<u16> {
    let mut m = vec![0u16; 64];
    m[2 * 8 + 3] = 1;
    m
}

#[test]
fn cells_blocked_by_wall_and_edges() {
    let m = open_map();
    assert!(!cells_blocked(1, 2, 1, 2, &m));
    assert!(cells_blocked(2, 3, 2, 2, &m));
    assert!(cells_blocked(-1, 0, 3, 3, &m));
    assert!(cells_blocked(7, 8, 0, 0, &m));
    assert!(cells_blocked(0, 0, 7, 8, &m));
    // An empty rectangle blocks nothing, even off the grid.
    assert!(!cells_blocked(5, 4, -3, -3, &m));
}

#[test]
fn cells_blocked_short_map_treats_missing_tiles_as_open() {
    let m: Vec<u32> = vec![0, 0, 5];
    assert!(!cells_blocked(0, 1, 0, 0, &m));
    assert!(cells_blocked(2, 2, 0, 0, &m));
    assert!(!cells_blocked(0, 7, 1, 7, &m));
}

#[test]
fn wall_hit_only_on_grid_walls() {
    let m = open_map();
    assert!(is_wall_hit(3, 2, &m));
    assert!(!is_wall_hit(2, 2, &m));
    assert!(!is_wall_hit(-1, 2, &m));
    assert!(!is_wall_hit(3, 8, &m));
}

#[test]
fn change_input_sets_one_key() {
    let mut keys = InputKeys::default();
    keys.change_input(Input::Forward, true);
    keys.change_input(Input::Interact, true);
    assert!(keys.forward && keys.interact);
    assert!(!keys.backward && !keys.left && !keys.right);
    keys.change_input(Input::Forward, false);
    assert!(!keys.forward && keys.interact);
}

#[test]
fn dispatch_covers_all_columns() {
    assert_eq!(dispatch_count(RENDER_WIDTH), 15);
    assert_eq!(dispatch_count(64), 1);
    assert_eq!(dispatch_count(65), 2);
    assert_eq!(dispatch_count(0), 0);
}

#[test]
fn atlas_collects_layers() {
    let mut atlas = AtlasLayers::new();
    atlas.set_layer_count(2);
    atlas.add_layer(0, 1, 2, &[1, 2, 3, 4, 5, 6, 7, 8]);
    atlas.add_layer(1, 1, 2, &[9, 9, 9, 9, 9, 9, 9, 9]);
    assert_eq!(atlas.layers(), 2);
    assert_eq!(atlas.texture_width(), 1);
    assert_eq!(atlas.texture_height(), 2);
    assert_eq!(atlas.bytes_per_row(), 4);
    assert_eq!(atlas.rgba_data().len(), 16);
    assert_eq!(atlas.rgba_data()[8], 9);
    atlas.clear_pixels();
    assert!(atlas.rgba_data().is_empty());
    assert_eq!(atlas.layers(), 2);
}

#[test]
fn interact_press_is_used_once_and_only_with_a_player() {
    let mut keys = InputKeys::default();
    keys.change_input(Input::Interact, true);
    assert!(!keys.take_interact(false));
    assert!(keys.interact);
    assert!(keys.take_interact(true));
    assert!(!keys.interact);
    assert!(!keys.take_interact(true));
}

#[test]
fn word_bytes_four_per_word_in_machine_order() {
    let bytes = voidseek::engine::renderer::word_bytes(&[0x0403_0201, 8]);
    assert_eq!(bytes.len(), 8);
    let expected: Vec<u8> = [0x0403_0201u32, 8].iter().flat_map(|w| w.to_ne_bytes()).collect();
    assert_eq!(bytes, expected);
}
