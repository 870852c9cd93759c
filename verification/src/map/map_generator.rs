//! The generator working on its own store: `MapGeneratorData` keeps the
//! normalized elevation field alongside the classified layers, so the
//! field can be inspected after a pass.

use crate::map::generator::{
    classify_layer, generate_elevation_map, normalize_field, spec_classify, spec_generated_tile,
    spec_normalized_cell,
};
use crate::map::{default_tile, MapGeneratedEvent, Tile};
use crate::utils::FP_ONE;
use vstd::prelude::*;

pub use crate::map::generator::NoiseSettings;
pub use crate::map::{Layer, TileType};

verus! {

/// The generator's own store: the normalized elevation field (one sample
/// per column, row-major) and the classified layers.
pub struct MapGeneratorData {
    /// Normalized elevation samples, `width * height`, row-major.
    pub elevation: Vec<i64>,
    /// One classified layer per z-level.
    pub layers: Vec<Layer>,
    /// Width of every layer in tiles.
    pub width: usize,
    /// Height of every layer in tiles.
    pub height: usize,
}

impl MapGeneratorData {
    /// Width of every layer in tiles.
    pub open spec fn spec_width(&self) -> int {
        self.width as int
    }

    /// Height of every layer in tiles.
    pub open spec fn spec_height(&self) -> int {
        self.height as int
    }

    /// Number of z-levels.
    pub open spec fn spec_z_levels(&self) -> int {
        self.layers@.len() as int
    }

    /// The elevation store covers the grid and every layer matches the
    /// extents.
    pub open spec fn wf(&self) -> bool {
        &&& self.width * self.height <= usize::MAX
        &&& self.elevation@.len() == self.width * self.height
        &&& forall|z: int|
            0 <= z < self.layers@.len() ==> (#[trigger] self.layers@[z]).wf()
                && self.layers@[z].spec_width() == self.spec_width()
                && self.layers@[z].spec_height() == self.spec_height()
    }

    /// Width of every layer in tiles.
    pub fn width(&self) -> (r: usize)
        ensures
            r == self.spec_width(),
    {
        self.width
    }

    /// Height of every layer in tiles.
    pub fn height(&self) -> (r: usize)
        ensures
            r == self.spec_height(),
    {
        self.height
    }

    /// A fresh store: a zero elevation field and `z_levels` layers of
    /// invisible Air tiles.
    pub fn new(width: usize, height: usize, z_levels: usize) -> (r: Self)
        requires
            width * height <= usize::MAX,
        ensures
            r.wf(),
            r.spec_width() == width,
            r.spec_height() == height,
            r.spec_z_levels() == z_levels,
            r.elevation@ == Seq::new((width * height) as nat, |i: int| 0i64),
            forall|z: int|
                0 <= z < z_levels ==> (#[trigger] r.layers@[z])@ == Seq::new(
                    (width * height) as nat,
                    |i: int| default_tile(),
                ),
    {
        let n: usize = width * height;
        let mut elevation: Vec<i64> = Vec::new();
        let mut i: usize = 0;
        while i < n
            invariant
                i <= n,
                elevation@ == Seq::new(i as nat, |k: int| 0i64),
            decreases n - i,
        {
            elevation.push(0);
            i = i + 1;
            proof {
                assert(elevation@ =~= Seq::new(i as nat, |k: int| 0i64));
            }
        }
        let mut layers: Vec<Layer> = Vec::new();
        let mut z: usize = 0;
        while z < z_levels
            invariant
                z <= z_levels,
                width * height <= usize::MAX,
                layers@.len() == z,
                forall|k: int|
                    0 <= k < z ==> (#[trigger] layers@[k]).wf() && layers@[k].spec_width() == width
                        && layers@[k].spec_height() == height && layers@[k]@ == Seq::new(
                        (width * height) as nat,
                        |i: int| default_tile(),
                    ),
            decreases z_levels - z,
        {
            layers.push(Layer::new(width, height));
            z = z + 1;
        }
        MapGeneratorData { elevation, layers, width, height }
    }
}

/// Regenerates the stored field and layers when the settings are marked
/// changed: generates the raw field, normalizes it into the store, and
/// classifies every cell of every layer, leaving every tile visible.
/// Does nothing when the settings are unchanged; otherwise clears the
/// dirty flag and returns the map-generated event, exactly once per pass.
#[verifier::rlimit(100)]
pub fn generate_map(noise_settings: &mut NoiseSettings, seed: u32, map: &mut MapGeneratorData) -> (ev:
    Option<MapGeneratedEvent>)
    requires
        old(noise_settings).wf(),
        old(map).wf(),
        1 <= old(map).spec_width() <= 1_000_000,
        1 <= old(map).spec_height() <= 1_000_000,
        old(map).spec_z_levels() == crate::Z_LEVELS as int,
    ensures
        *final (noise_settings) == (NoiseSettings { changed: false, ..*old(noise_settings) }),
        !old(noise_settings).changed ==> *final (map) == *old(map) && ev is None,
        old(noise_settings).changed ==> {
            &&& ev == Some(MapGeneratedEvent)
            &&& final (map).wf()
            &&& final (map).spec_width() == old(map).spec_width()
            &&& final (map).spec_height() == old(map).spec_height()
            &&& final (map).spec_z_levels() == old(map).spec_z_levels()
            &&& forall|j: int|
                0 <= j < old(map).spec_width() * old(map).spec_height()
                    ==> final (map).elevation@[j] == spec_normalized_cell(
                    (NoiseSettings { changed: false, ..*old(noise_settings) }),
                    seed,
                    old(map).spec_width(),
                    old(map).spec_height(),
                    j,
                )
            &&& forall|z: int, j: int|
                0 <= z < crate::Z_LEVELS && 0 <= j < old(map).spec_width() * old(
                    map,
                ).spec_height() ==> #[trigger] final (map).layers@[z]@[j] == spec_generated_tile(
                    (NoiseSettings { changed: false, ..*old(noise_settings) }),
                    seed,
                    old(map).spec_width(),
                    old(map).spec_height(),
                    z,
                    j,
                )
        },
{
    if !noise_settings.changed {
        return None;
    }
    let ghost s = NoiseSettings { changed: false, ..*old(noise_settings) };
    noise_settings.changed = false;
    let width: usize = map.width();
    let height: usize = map.height();
    let ghost wi = width as int;
    let ghost hi = height as int;
    let (mut elevation, min_v, max_v) = generate_elevation_map(width, height, noise_settings, seed);
    normalize_field(&mut elevation, min_v, max_v);
    proof {
        assert(hi * wi == wi * hi) by (nonlinear_arith);
        assert forall|j: int| 0 <= j < wi * hi implies elevation@[j] == spec_normalized_cell(
            s,
            seed,
            wi,
            hi,
            j,
        ) by {
            reveal(spec_normalized_cell);
        }
    }
    map.elevation = elevation;
    let n_layers: usize = map.layers.len();
    let mut z: usize = 0;
    while z < n_layers
        invariant
            map.wf(),
            map.spec_width() == wi,
            map.spec_height() == hi,
            map.spec_z_levels() == crate::Z_LEVELS as int,
            n_layers == crate::Z_LEVELS as int,
            wi == width,
            hi == height,
            1 <= wi <= 1_000_000,
            1 <= hi <= 1_000_000,
            z <= n_layers,
            map.elevation@.len() == wi * hi,
            forall|j: int|
                0 <= j < map.elevation@.len() ==> 0 <= #[trigger] map.elevation@[j] <= FP_ONE,
            forall|j: int|
                0 <= j < wi * hi ==> #[trigger] map.elevation@[j] == spec_normalized_cell(
                    s,
                    seed,
                    wi,
                    hi,
                    j,
                ),
            forall|zz: int, j: int|
                0 <= zz < z && 0 <= j < wi * hi ==> #[trigger] map.layers@[zz]@[j] == (Tile {
                    visible: true,
                    value: spec_classify(map.elevation@[j] as int, zz),
                }),
        decreases n_layers - z,
    {
        let zi: u16 = z as u16;
        let field = &map.elevation;
        proof {
            assert(field@.len() == map.layers@[z as int].spec_width() * map.layers@[
                z as int].spec_height());
        }
        let layer = &mut map.layers[z];
        classify_layer(layer, field, zi);
        z = z + 1;
    }
    proof {
        assert forall|z: int, j: int|
            0 <= z < crate::Z_LEVELS && 0 <= j < wi * hi implies #[trigger] map.layers@[z]@[j]
            == spec_generated_tile(s, seed, wi, hi, z, j) by {
            assert(map.elevation@[j] == spec_normalized_cell(s, seed, wi, hi, j));
        }
    }
    Some(MapGeneratedEvent)
}

} // verus!
