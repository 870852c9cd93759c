//! The visibility tracker and texture pass working on the generator's own
//! store (`MapGeneratorData`), gated by an explicit dirty flag.

use crate::map::generator::spec_classify;
use crate::map::map_generator::MapGeneratorData;
use crate::map::renderer::{spec_changed_layers, spec_texture_index, texture_index};
use crate::map::{lemma_row_major_index, spec_layer_with_visibility, Tile, TileType};
use vstd::prelude::*;

verus! {

/// Renderer-facing state: one visibility flag per layer, the visible-depth
/// cursor, and the dirty gate. The host sets `changed` whenever it moves
/// the cursor; the visibility pass clears it.
pub struct MapRendererData {
    /// Whether each layer is currently shown.
    pub visible_layers: Vec<bool>,
    /// The highest z-level currently rendered.
    pub current_z_level: u16,
    /// Set by the mutator (the host input), cleared by the visibility pass.
    pub changed: bool,
}

impl MapRendererData {
    /// Fresh state: every layer shown, the cursor at the top, and marked
    /// changed so the first pass runs.
    pub fn new(z_levels: usize) -> (r: Self)
        ensures
            r.visible_layers@ == Seq::new(z_levels as nat, |z: int| true),
            r.current_z_level == crate::Z_LEVELS,
            r.changed == true,
    {
        let mut flags: Vec<bool> = Vec::new();
        let mut z: usize = 0;
        while z < z_levels
            invariant
                z <= z_levels,
                flags@ == Seq::new(z as nat, |k: int| true),
            decreases z_levels - z,
        {
            flags.push(true);
            z = z + 1;
            proof {
                assert(flags@ =~= Seq::new(z as nat, |k: int| true));
            }
        }
        MapRendererData { visible_layers: flags, current_z_level: crate::Z_LEVELS, changed: true }
    }

    /// Moves the visible-depth cursor, clamped to `[0, Z_LEVELS]`, and
    /// marks the state changed so the next pass picks it up.
    pub fn set_z_level(&mut self, level: u16)
        ensures
            final (self).current_z_level == (if level > crate::Z_LEVELS {
                crate::Z_LEVELS as int
            } else {
                level as int
            }),
            final (self).changed == true,
            final (self).visible_layers == old(self).visible_layers,
    {
        if level > crate::Z_LEVELS {
            self.current_z_level = crate::Z_LEVELS;
        } else {
            self.current_z_level = level;
        }
        self.changed = true;
    }
}

/// One gated visibility pass: a no-op unless the visible depth changed
/// since the previous run. When it runs, it brings every layer's stored
/// visibility to `z <= current_z_level`, flips the visible flag of every
/// tile in each layer that changed (other layers are untouched), clears
/// the dirty flag, and returns the changed layers — the chunks that need
/// a remesh.
pub fn update_layer_visibility(map: &mut MapGeneratorData, data: &mut MapRendererData) -> (changed:
    Vec<u16>)
    requires
        old(map).wf(),
        old(data).visible_layers@.len() == old(map).spec_z_levels(),
        old(map).spec_z_levels() <= u16::MAX,
    ensures
        final (map).wf(),
        final (map).spec_width() == old(map).spec_width(),
        final (map).spec_height() == old(map).spec_height(),
        final (map).spec_z_levels() == old(map).spec_z_levels(),
        final (map).elevation == old(map).elevation,
        final (data).changed == false,
        final (data).current_z_level == old(data).current_z_level,
        !old(data).changed ==> *final (map) == *old(map) && final (data).visible_layers == old(
            data,
        ).visible_layers && changed@.len() == 0,
        old(data).changed ==> {
            &&& final (data).visible_layers@.len() == old(data).visible_layers@.len()
            &&& forall|z: int|
                0 <= z < final (data).visible_layers@.len() ==> final (data).visible_layers@[z]
                    == (z <= old(data).current_z_level)
            &&& forall|z: int|
                0 <= z < old(map).spec_z_levels() ==> #[trigger] final (map).layers@[z]@ == (if old(
                    data,
                ).visible_layers@[z] != (z <= old(data).current_z_level) {
                    spec_layer_with_visibility(
                        old(map).layers@[z]@,
                        z <= old(data).current_z_level,
                    )
                } else {
                    old(map).layers@[z]@
                })
            &&& changed@ == spec_changed_layers(
                old(data).visible_layers@,
                old(data).current_z_level as int,
                old(map).spec_z_levels() as nat,
            )
        },
{
    if !data.changed {
        data.changed = false;
        return Vec::new();
    }
    data.changed = false;
    let n: usize = map.layers.len();
    let mut changed: Vec<u16> = Vec::new();
    let mut z: usize = 0;
    while z < n
        invariant
            map.wf(),
            map.spec_width() == old(map).spec_width(),
            map.spec_height() == old(map).spec_height(),
            map.spec_z_levels() == old(map).spec_z_levels(),
            map.elevation == old(map).elevation,
            n == old(map).spec_z_levels(),
            n <= u16::MAX,
            data.visible_layers@.len() == n,
            data.current_z_level == old(data).current_z_level,
            data.changed == false,
            z <= n,
            forall|k: int|
                z <= k < n ==> data.visible_layers@[k] == old(data).visible_layers@[k],
            forall|k: int|
                0 <= k < z ==> data.visible_layers@[k] == (k <= old(data).current_z_level),
            forall|k: int| z <= k < n ==> map.layers@[k] == old(map).layers@[k],
            forall|k: int|
                0 <= k < z ==> #[trigger] map.layers@[k]@ == (if old(data).visible_layers@[k] != (k
                    <= old(data).current_z_level) {
                    spec_layer_with_visibility(
                        old(map).layers@[k]@,
                        k <= old(data).current_z_level,
                    )
                } else {
                    old(map).layers@[k]@
                }),
            forall|k: int|
                0 <= k < z ==> (#[trigger] map.layers@[k]).wf() && map.layers@[k].spec_width()
                    == old(map).spec_width() && map.layers@[k].spec_height() == old(
                    map,
                ).spec_height(),
            changed@ == spec_changed_layers(
                old(data).visible_layers@,
                old(data).current_z_level as int,
                z as nat,
            ),
        decreases n - z,
    {
        let zi: u16 = z as u16;
        let is_layer_visible: bool = data.visible_layers[z];
        if is_layer_visible && zi > data.current_z_level {
            let layer = &mut map.layers[z];
            layer.set_visibility(false);
            data.visible_layers.set(z, false);
            changed.push(zi);
        } else if !is_layer_visible && zi <= data.current_z_level {
            let layer = &mut map.layers[z];
            layer.set_visibility(true);
            data.visible_layers.set(z, true);
            changed.push(zi);
        }
        z = z + 1;
    }
    changed
}

/// The texture pass after a generation: one texture index per tile,
/// layer by layer, row-major within each layer.
pub fn set_map_textures(map: &MapGeneratorData) -> (r: Vec<Vec<u32>>)
    requires
        map.wf(),
    ensures
        r@.len() == map.spec_z_levels(),
        forall|z: int|
            0 <= z < r@.len() ==> (#[trigger] r@[z])@.len() == map.spec_width()
                * map.spec_height(),
        forall|z: int, j: int|
            0 <= z < r@.len() && 0 <= j < r@[z]@.len() ==> r@[z]@[j] == spec_texture_index(
                map.layers@[z]@[j].value,
            ),
{
    let n: usize = map.layers.len();
    let w: usize = map.width();
    let h: usize = map.height();
    let mut r: Vec<Vec<u32>> = Vec::new();
    let mut z: usize = 0;
    while z < n
        invariant
            map.wf(),
            n == map.spec_z_levels(),
            w == map.spec_width(),
            h == map.spec_height(),
            z <= n,
            r@.len() == z,
            forall|k: int| 0 <= k < z ==> (#[trigger] r@[k])@.len() == w * h,
            forall|k: int, j: int|
                0 <= k < z && 0 <= j < r@[k]@.len() ==> r@[k]@[j] == spec_texture_index(
                    map.layers@[k]@[j].value,
                ),
        decreases n - z,
    {
        let layer = &map.layers[z];
        let mut row: Vec<u32> = Vec::new();
        let mut y: usize = 0;
        while y < h
            invariant
                map.wf(),
                n == map.spec_z_levels(),
                w == map.spec_width(),
                h == map.spec_height(),
                z < n,
                y <= h,
                *layer == map.layers@[z as int],
                layer.wf(),
                layer.spec_width() == w,
                layer.spec_height() == h,
                row@.len() == y * w,
                forall|j: int|
                    0 <= j < row@.len() ==> #[trigger] row@[j] == spec_texture_index(
                        map.layers@[z as int]@[j].value,
                    ),
            decreases h - y,
        {
            let mut x: usize = 0;
            while x < w
                invariant
                    map.wf(),
                    n == map.spec_z_levels(),
                    w == map.spec_width(),
                    h == map.spec_height(),
                    z < n,
                    y < h,
                    x <= w,
                    *layer == map.layers@[z as int],
                    layer.wf(),
                    layer.spec_width() == w,
                    layer.spec_height() == h,
                    row@.len() == y * w + x,
                    forall|j: int|
                        0 <= j < row@.len() ==> #[trigger] row@[j] == spec_texture_index(
                            map.layers@[z as int]@[j].value,
                        ),
                decreases w - x,
            {
                proof {
                    lemma_row_major_index(x as int, y as int, w as int, h as int);
                }
                let t = layer.get_tile(x, y);
                match t {
                    Some(tile) => {
                        row.push(texture_index(tile.value));
                    },
                    None => {
                        row.push(0);
                    },
                }
                x = x + 1;
            }
            proof {
                assert((y + 1) * (w as int) == y * (w as int) + w) by (nonlinear_arith);
            }
            y = y + 1;
        }
        proof {
            assert((h as int) * (w as int) == (w as int) * (h as int)) by (nonlinear_arith);
        }
        r.push(row);
        z = z + 1;
    }
    r
}

} // verus!
