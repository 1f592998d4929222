use std::collections::HashSet;

use rogue_core::components::Color;
use rogue_core::grid::generate_map;

#[test]
fn map_20_by_15_has_300_tiles() {
    let map = generate_map(20, 15);
    assert_eq!(map.len(), 300);
}

#[test]
fn exactly_border_cells_are_walls() {
    let (w, h) = (20i64, 15i64);
    let map = generate_map(w as u32, h as u32);
    for tile in &map {
        let border = tile.grid_x == 0 || tile.grid_x == w - 1 || tile.grid_y == 0
            || tile.grid_y == h - 1;
        if border {
            assert_eq!(tile.glyph, '#');
        } else {
            assert_eq!(tile.glyph, '.');
        }
        assert_eq!(tile.color, Color::Black);
    }
}

#[test]
fn every_cell_appears_exactly_once() {
    let (w, h) = (20i64, 15i64);
    let map = generate_map(w as u32, h as u32);
    let mut seen: HashSet<(i64, i64)> = HashSet::new();
    for tile in &map {
        assert!(0 <= tile.grid_x && tile.grid_x < w);
        assert!(0 <= tile.grid_y && tile.grid_y < h);
        assert!(seen.insert((tile.grid_x, tile.grid_y)), "duplicate cell");
    }
    assert_eq!(seen.len(), (w * h) as usize);
}

#[test]
fn smallest_lawful_grid_is_all_border_but_center() {
    let map = generate_map(3, 3);
    assert_eq!(map.len(), 9);
    let mut floors = 0;
    for tile in &map {
        if tile.glyph == '.' {
            floors += 1;
            assert_eq!((tile.grid_x, tile.grid_y), (1, 1));
        } else {
            assert_eq!(tile.glyph, '#');
        }
    }
    assert_eq!(floors, 1);
}

#[test]
fn single_cell_grid_is_one_wall() {
    let map = generate_map(1, 1);
    assert_eq!(map.len(), 1);
    assert_eq!(map[0].glyph, '#');
    assert_eq!((map[0].grid_x, map[0].grid_y), (0, 0));
}

#[test]
fn map_is_column_major_and_deterministic() {
    let map = generate_map(4, 3);
    let again = generate_map(4, 3);
    assert_eq!(map, again);
    for (i, tile) in map.iter().enumerate() {
        assert_eq!(tile.grid_x, (i as i64) / 3);
        assert_eq!(tile.grid_y, (i as i64) % 3);
    }
}
