//! Mutation-queue drain behavior.

use layered_terrain::map::renderer::{set_map_textures, texture_index, update_tiles};
use layered_terrain::map::{GridPos, MapData, Tile, TileType, TilesToUpdate};

#[test]
fn drain_applies_edits_in_fifo_order() {
    // two edits at the same position: the later one wins
    let mut map = MapData::new(4, 4, 2);
    let mut queue = TilesToUpdate::new();
    let pos = GridPos { x: 1, y: 2, z: 0 };
    let t1 = Tile { visible: true, value: TileType::Rock };
    let t2 = Tile { visible: true, value: TileType::Water };
    queue.push(pos, t1);
    queue.push(pos, t2);
    let updates = update_tiles(&mut map, &mut queue);
    assert_eq!(*map.get_tile(pos).unwrap(), t2);
    assert_eq!(updates.len(), 2);
    assert_eq!(updates[0], (pos, texture_index(TileType::Rock)));
    assert_eq!(updates[1], (pos, texture_index(TileType::Water)));
    assert!(queue.0.is_empty());
}

#[test]
fn out_of_bounds_edit_is_skipped_not_fatal() {
    let mut map = MapData::new(4, 4, 2);
    let mut queue = TilesToUpdate::new();
    let bad = GridPos { x: 4, y: 0, z: 0 };
    let good = GridPos { x: 0, y: 0, z: 1 };
    let tile = Tile { visible: true, value: TileType::Dirt };
    queue.push(bad, tile);
    queue.push(good, tile);
    let updates = update_tiles(&mut map, &mut queue);
    // the bad entry is skipped; the drain continues with the rest
    assert_eq!(updates, vec![(good, texture_index(TileType::Dirt))]);
    assert_eq!(*map.get_tile(good).unwrap(), tile);
    assert!(queue.0.is_empty());
}

#[test]
fn drain_leaves_other_cells_untouched() {
    let mut map = MapData::new(3, 3, 1);
    let mut queue = TilesToUpdate::new();
    queue.push(GridPos { x: 1, y: 1, z: 0 }, Tile { visible: true, value: TileType::Grass });
    update_tiles(&mut map, &mut queue);
    assert_eq!(map.get_tile(GridPos { x: 0, y: 0, z: 0 }).unwrap().value, TileType::Air);
    assert_eq!(map.get_tile(GridPos { x: 1, y: 1, z: 0 }).unwrap().value, TileType::Grass);
}

#[test]
fn texture_table_is_stable() {
    assert_eq!(texture_index(TileType::Air), 1);
    assert_eq!(texture_index(TileType::Water), 2);
    assert_eq!(texture_index(TileType::Grass), 3);
    assert_eq!(texture_index(TileType::Dirt), 4);
    assert_eq!(texture_index(TileType::Rock), 5);
}

#[test]
fn texture_pass_reflects_applied_edits() {
    let mut map = MapData::new(2, 1, 1);
    let mut queue = TilesToUpdate::new();
    queue.push(GridPos { x: 1, y: 0, z: 0 }, Tile { visible: true, value: TileType::Grass });
    update_tiles(&mut map, &mut queue);
    let textures = set_map_textures(&map);
    assert_eq!(textures, vec![vec![1, 3]]);
}
