//! The composed per-tick pipeline.

use layered_terrain::map::generator::NoiseSettings;
use layered_terrain::map::{
    CurrentZLevel, GridPos, MapData, Tile, TileType, TilesToUpdate, VisibleLayers,
};
use layered_terrain::pipeline::tick;
use layered_terrain::Z_LEVELS;

#[test]
fn tick_runs_generation_visibility_and_drain_in_order() {
    let mut settings = NoiseSettings::default();
    let mut map = MapData::new(4, 4, Z_LEVELS as usize);
    let mut vis = VisibleLayers::new(Z_LEVELS as usize);
    let cur = CurrentZLevel(5);
    let mut queue = TilesToUpdate(Vec::new());
    let edit_pos = GridPos { x: 1, y: 2, z: 3 };
    let edit_tile = Tile { visible: true, value: TileType::Air };
    queue.0.push((edit_pos, edit_tile));

    let (event, remesh, updates) = tick(&mut settings, 42, &mut map, &mut vis, &cur, &mut queue);

    // generation ran once and cleared the dirty flag
    assert!(event.is_some());
    assert!(!settings.changed);
    // the visibility pass flipped exactly the layers above the cursor
    let expected: Vec<u16> = (6..Z_LEVELS).collect();
    assert_eq!(remesh, expected);
    for z in 0..Z_LEVELS as usize {
        assert_eq!(vis.0[z], z <= 5);
    }
    // the queued edit was applied last, after generation overwrote the grid
    assert_eq!(*map.get_tile(edit_pos).unwrap(), edit_tile);
    assert!(queue.0.is_empty());
    assert_eq!(updates.len(), 1);
    assert_eq!(updates[0].0, edit_pos);

    // a second tick with nothing changed generates nothing and flips nothing
    let (event, remesh, updates) = tick(&mut settings, 42, &mut map, &mut vis, &cur, &mut queue);
    assert!(event.is_none());
    assert!(remesh.is_empty());
    assert!(updates.is_empty());
}
