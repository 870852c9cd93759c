//! Bounds-checked grid storage behavior.

use layered_terrain::map::{GridPos, Layer, MapData, OutOfBounds, Tile, TileType};

#[test]
fn get_one_past_width_is_out_of_bounds() {
    let map = MapData::new(4, 3, 2);
    // (width, 0, 0): one past the last valid x — never a read out of range
    assert!(map.get_tile(GridPos { x: 4, y: 0, z: 0 }).is_none());
    assert!(map.get_tile(GridPos { x: 3, y: 0, z: 0 }).is_some());
}

#[test]
fn set_one_past_width_is_out_of_bounds() {
    let mut map = MapData::new(4, 3, 2);
    let tile = Tile { visible: true, value: TileType::Rock };
    assert_eq!(map.set_tile(GridPos { x: 4, y: 0, z: 0 }, tile), Err(OutOfBounds));
    assert_eq!(map.set_tile(GridPos { x: 0, y: 3, z: 0 }, tile), Err(OutOfBounds));
    assert_eq!(map.set_tile(GridPos { x: 0, y: 0, z: 2 }, tile), Err(OutOfBounds));
    assert_eq!(map.set_tile(GridPos { x: 3, y: 2, z: 1 }, tile), Ok(()));
}

#[test]
fn set_then_get_round_trip() {
    let mut map = MapData::new(4, 3, 2);
    let tile = Tile { visible: true, value: TileType::Grass };
    let pos = GridPos { x: 2, y: 1, z: 1 };
    assert_eq!(map.set_tile(pos, tile), Ok(()));
    assert_eq!(*map.get_tile(pos).unwrap(), tile);
    // a neighbouring cell is untouched
    let other = map.get_tile(GridPos { x: 1, y: 1, z: 1 }).unwrap();
    assert_eq!(other.value, TileType::Air);
}

#[test]
fn layer_row_major_bounds() {
    // (x = width, y = 0) has a flat index inside the data, but must still
    // be rejected: the bound is per axis, not on the flat index
    let mut layer = Layer::new(4, 3);
    assert!(layer.get_tile(4, 0).is_none());
    assert!(layer.get_tile(0, 3).is_none());
    assert!(layer.get_tile(3, 2).is_some());
    let tile = Tile { visible: false, value: TileType::Dirt };
    assert_eq!(layer.set_tile(4, 0, tile), Err(OutOfBounds));
    assert_eq!(layer.set_tile(3, 2, tile), Ok(()));
    assert_eq!(*layer.get_tile(3, 2).unwrap(), tile);
}

#[test]
fn fresh_tiles_are_invisible_air() {
    let map = MapData::new(2, 2, 1);
    let t = map.get_tile(GridPos { x: 0, y: 0, z: 0 }).unwrap();
    assert_eq!(t.value, TileType::Air);
    assert!(!t.visible);
    assert_eq!(Tile::default(), Tile { visible: false, value: TileType::Air });
    assert_eq!(TileType::default(), TileType::Air);
}

#[test]
fn grid_pos_new_sets_fields() {
    let p = GridPos::new(1, 2, 3);
    assert_eq!(p, GridPos { x: 1, y: 2, z: 3 });
}
