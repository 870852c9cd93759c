//! Visibility tracker behavior, on both state layouts.

use layered_terrain::map::map_generator::MapGeneratorData;
use layered_terrain::map::map_renderer::{
    set_map_textures as set_map_textures_gen, update_layer_visibility as update_visibility_gated,
    MapRendererData,
};
use layered_terrain::map::renderer::update_layer_visibility;
use layered_terrain::map::{CurrentZLevel, GridPos, MapData, Tile, TileType, VisibleLayers};
use layered_terrain::Z_LEVELS;

#[test]
fn visibility_converges_in_one_pass() {
    let mut map = MapData::new(2, 2, Z_LEVELS as usize);
    let mut vis = VisibleLayers::new(Z_LEVELS as usize);
    let cur = CurrentZLevel(5);
    update_layer_visibility(&mut map, &mut vis, &cur);
    for z in 0..Z_LEVELS as usize {
        assert_eq!(vis.0[z], z <= 5);
    }
    // a second pass from the converged state changes nothing
    let changed = update_layer_visibility(&mut map, &mut vis, &cur);
    assert!(changed.is_empty());
    // and a pass from an arbitrary mixed state still converges
    vis.0[3] = false;
    vis.0[17] = true;
    let cur = CurrentZLevel(12);
    update_layer_visibility(&mut map, &mut vis, &cur);
    for z in 0..Z_LEVELS as usize {
        assert_eq!(vis.0[z], z <= 12);
    }
}

#[test]
fn lowering_depth_flips_exactly_the_layers_above() {
    // visible depth goes from the top down to 5: layers 6.. flip to
    // hidden and are reported as needing a remesh; layers 0..=5 are
    // untouched
    let mut map = MapData::new(2, 2, Z_LEVELS as usize);
    let mut vis = VisibleLayers::new(Z_LEVELS as usize);
    let changed = update_layer_visibility(&mut map, &mut vis, &CurrentZLevel(5));
    let expected: Vec<u16> = (6..Z_LEVELS).collect();
    assert_eq!(changed, expected);
    for z in 0..=5usize {
        assert!(vis.0[z]);
    }
    for z in 6..Z_LEVELS as usize {
        assert!(!vis.0[z]);
    }
}

#[test]
fn visibility_pass_flips_tile_flags() {
    let mut map = MapData::new(2, 2, 3);
    let solid = Tile { visible: true, value: TileType::Rock };
    for z in 0..3u32 {
        for y in 0..2u32 {
            for x in 0..2u32 {
                map.set_tile(GridPos { x, y, z }, solid).unwrap();
            }
        }
    }
    let mut vis = VisibleLayers(vec![true, true, true]);
    update_layer_visibility(&mut map, &mut vis, &CurrentZLevel(0));
    // layers 1 and 2 flipped to hidden; the material is untouched
    let hidden = map.get_tile(GridPos { x: 1, y: 1, z: 2 }).unwrap();
    assert!(!hidden.visible);
    assert_eq!(hidden.value, TileType::Rock);
    let shown = map.get_tile(GridPos { x: 0, y: 0, z: 0 }).unwrap();
    assert!(shown.visible);
}

#[test]
fn gated_pass_is_a_no_op_until_marked_changed() {
    let mut map = MapGeneratorData::new(2, 2, Z_LEVELS as usize);
    let mut data = MapRendererData::new(Z_LEVELS as usize);
    // the fresh state is marked changed: the first pass runs and clears it
    update_visibility_gated(&mut map, &mut data);
    assert!(!data.changed);
    // force a mismatch, but without the dirty flag nothing moves
    data.visible_layers[3] = false;
    let changed = update_visibility_gated(&mut map, &mut data);
    assert!(changed.is_empty());
    assert!(!data.visible_layers[3]);
    // marking changed makes the next pass converge again
    data.changed = true;
    let changed = update_visibility_gated(&mut map, &mut data);
    assert_eq!(changed, vec![3u16]);
    assert!(data.visible_layers[3]);
}

#[test]
fn set_z_level_clamps_and_marks_changed() {
    let mut data = MapRendererData::new(Z_LEVELS as usize);
    data.changed = false;
    data.set_z_level(7);
    assert_eq!(data.current_z_level, 7);
    assert!(data.changed);
    data.set_z_level(100);
    assert_eq!(data.current_z_level, Z_LEVELS);
}

#[test]
fn current_z_level_adjust_clamps() {
    let mut cur = CurrentZLevel(20);
    cur.adjust(15);
    assert_eq!(cur.0, 5);
    cur.adjust(30);
    assert_eq!(cur.0, 0);
    cur.adjust(-7);
    assert_eq!(cur.0, 7);
    cur.adjust(-100);
    assert_eq!(cur.0, Z_LEVELS);
}

#[test]
fn textures_follow_the_grid() {
    let mut map = MapGeneratorData::new(2, 2, 2);
    let textures = set_map_textures_gen(&map);
    assert_eq!(textures.len(), 2);
    assert_eq!(textures[0], vec![1, 1, 1, 1]);
    map.layers[1].set_tile(1, 0, Tile { visible: true, value: TileType::Water }).unwrap();
    let textures = set_map_textures_gen(&map);
    assert_eq!(textures[1], vec![1, 2, 1, 1]);
}
