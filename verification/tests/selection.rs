//! Vertical raycast behavior.

use layered_terrain::map::{GridPos, MapData, Tile, TileType};
use layered_terrain::selector::find_highest_tile;

fn solid(value: TileType) -> Tile {
    Tile { visible: true, value }
}

#[test]
fn empty_column_defaults_to_zero() {
    let map = MapData::new(2, 2, 20);
    let r = find_highest_tile(1, 1, &map, 20);
    assert_eq!(r, GridPos { x: 1, y: 1, z: 0 });
}

#[test]
fn finds_topmost_solid_below_visible_depth() {
    let mut map = MapData::new(2, 2, 20);
    map.set_tile(GridPos { x: 1, y: 1, z: 2 }, solid(TileType::Rock)).unwrap();
    map.set_tile(GridPos { x: 1, y: 1, z: 5 }, solid(TileType::Grass)).unwrap();
    // scanning the whole column finds the higher tile, not the first one
    assert_eq!(find_highest_tile(1, 1, &map, 20).z, 5);
    // a shallower visible depth hides the higher tile
    assert_eq!(find_highest_tile(1, 1, &map, 5).z, 2);
    // depth 0 scans nothing
    assert_eq!(find_highest_tile(1, 1, &map, 0).z, 0);
    // a different column is unaffected
    assert_eq!(find_highest_tile(0, 0, &map, 20).z, 0);
}

#[test]
fn out_of_bounds_column_defaults_to_zero() {
    let map = MapData::new(2, 2, 20);
    let r = find_highest_tile(2, 0, &map, 20);
    assert_eq!(r, GridPos { x: 2, y: 0, z: 0 });
}
