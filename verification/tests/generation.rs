//! Generation, normalization and classification behavior.

use layered_terrain::map::generator::{
    classify, generate_elevation_map, generate_map, noise_sample, normalize_field, NoiseSettings,
};
use layered_terrain::map::map_generator::{generate_map as generate_map_stored, MapGeneratorData};
use layered_terrain::map::{GridPos, MapData, MapGeneratedEvent, TileType};
use layered_terrain::utils::FP_ONE;
use layered_terrain::Z_LEVELS;

fn default_settings() -> NoiseSettings {
    NoiseSettings::default()
}

#[test]
fn generation_is_deterministic() {
    let settings = default_settings();
    let (f1, min1, max1) = generate_elevation_map(16, 16, &settings, 42);
    let (f2, min2, max2) = generate_elevation_map(16, 16, &settings, 42);
    assert_eq!(f1, f2);
    assert_eq!(min1, min2);
    assert_eq!(max1, max2);
}

#[test]
fn different_seeds_differ() {
    let settings = default_settings();
    let (f1, _, _) = generate_elevation_map(16, 16, &settings, 42);
    let (f2, _, _) = generate_elevation_map(16, 16, &settings, 43);
    assert_ne!(f1, f2);
}

#[test]
fn generation_matches_reference_values() {
    let settings = default_settings();
    let (field, min_v, max_v) = generate_elevation_map(8, 8, &settings, 42);
    assert_eq!(min_v, -742_799);
    assert_eq!(max_v, 1_331_918);
    let mut field = field;
    normalize_field(&mut field, min_v, max_v);
    assert_eq!(field[0], 729_090);
    assert_eq!(field[10], 795_549);
    assert_eq!(field[63], 270_632);
}

#[test]
fn normalization_attains_bounds() {
    let mut settings = default_settings();
    let mut map = MapGeneratorData::new(8, 8, Z_LEVELS as usize);
    let ev = generate_map_stored(&mut settings, 42, &mut map);
    assert!(ev.is_some());
    let min_v = *map.elevation.iter().min().unwrap();
    let max_v = *map.elevation.iter().max().unwrap();
    assert_eq!(min_v, 0);
    assert_eq!(max_v, FP_ONE);
}

#[test]
fn degenerate_field_normalizes_to_zero() {
    let mut field = vec![5_000, 5_000, 5_000];
    normalize_field(&mut field, 5_000, 5_000);
    assert_eq!(field, vec![0, 0, 0]);
}

#[test]
fn dirty_gate_skips_unchanged_settings() {
    let mut settings = default_settings();
    let mut map = MapGeneratorData::new(4, 4, Z_LEVELS as usize);
    let first = generate_map_stored(&mut settings, 7, &mut map);
    assert_eq!(first, Some(MapGeneratedEvent));
    assert!(!settings.changed);
    let second = generate_map_stored(&mut settings, 7, &mut map);
    assert_eq!(second, None);
    settings.octaves = 2;
    settings.changed = true;
    let third = generate_map_stored(&mut settings, 7, &mut map);
    assert_eq!(third, Some(MapGeneratedEvent));
}

#[test]
fn classification_covers_every_cell() {
    let mut settings = default_settings();
    let mut map = MapData::new(4, 4, Z_LEVELS as usize);
    let ev = generate_map(&mut settings, 42, &mut map);
    assert!(ev.is_some());
    for z in 0..Z_LEVELS as u32 {
        for y in 0..4u32 {
            for x in 0..4u32 {
                let tile = map.get_tile(GridPos { x, y, z }).expect("cell must exist");
                // every cell was written by the pass: generated tiles are visible
                assert!(tile.visible);
            }
        }
    }
}

#[test]
fn classify_column_scenario() {
    // a column with elevation 0.5: layer 10 is the surface band
    let e = FP_ONE / 2;
    assert_eq!(classify(e, 10), TileType::Grass);
    for z in 0..8u16 {
        assert_eq!(classify(e, z), TileType::Rock);
    }
    assert_eq!(classify(e, 8), TileType::Dirt);
    assert_eq!(classify(e, 9), TileType::Dirt);
    for z in 11..Z_LEVELS {
        assert_eq!(classify(e, z), TileType::Air);
    }
}

#[test]
fn classify_water_levels() {
    // a low column: surface at its own band is water, submerged bands are
    // water, bands above the water level are air
    let e = FP_ONE / 5;
    assert_eq!(classify(e, 4), TileType::Water);
    assert_eq!(classify(e, 6), TileType::Water);
    assert_eq!(classify(e, 10), TileType::Air);
    assert_eq!(classify(e, 0), TileType::Rock);
}

#[test]
fn classify_band_edge_is_subsurface() {
    // exactly one band below the elevation: the strict comparison makes it
    // sub-surface (Dirt), not surface
    let e = FP_ONE / 2;
    assert_eq!(classify(e, 9), TileType::Dirt);
}

#[test]
fn noise_sample_is_deterministic_and_bounded() {
    let a = noise_sample(1_234_567, -7_654_321, 42);
    let b = noise_sample(1_234_567, -7_654_321, 42);
    assert_eq!(a, b);
    assert_eq!(a, -39_121);
    assert!(-FP_ONE <= a && a <= FP_ONE);
}

#[test]
fn default_noise_settings() {
    let s = NoiseSettings::default();
    assert_eq!(s.octaves, 4);
    assert_eq!(s.lacunarity, 2 * FP_ONE);
    assert_eq!(s.persistence, FP_ONE / 2);
    assert_eq!(s.scale, FP_ONE);
    assert_eq!(s.offset_x, 0);
    assert_eq!(s.offset_y, 0);
    assert!(s.changed);
}
