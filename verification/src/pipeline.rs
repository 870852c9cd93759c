//! The per-tick terrain pipeline: the explicit, ordered composition of
//! the generator, the visibility tracker and the mutation-queue drain
//! that a host calls once per tick, passing its context structs.

use crate::map::generator::{generate_map, spec_generated_tile, NoiseSettings};
use crate::map::renderer::{
    spec_applied_textures, spec_apply_edits, spec_changed_layers, update_layer_visibility,
    update_tiles,
};
use crate::map::{
    spec_layer_with_visibility, CurrentZLevel, GridPos, MapData, MapGeneratedEvent, Tile,
    TilesToUpdate, VisibleLayers,
};
use vstd::prelude::*;

verus! {

/// The grid a completed generation pass leaves behind: every cell of
/// every z-level classified from the normalized field, visible.
pub open spec fn spec_generated_grid(s: NoiseSettings, seed: u32, w: int, h: int) -> Seq<
    Seq<Tile>,
> {
    Seq::new(
        crate::Z_LEVELS as nat,
        |z: int| Seq::new((w * h) as nat, |j: int| spec_generated_tile(s, seed, w, h, z, j)),
    )
}

/// The grid after one visibility pass against the stored flags: each
/// layer whose flag disagrees with `z <= cur` has every tile's visible
/// flag brought to the desired state; other layers are untouched.
pub open spec fn spec_grid_with_visibility(g: Seq<Seq<Tile>>, vis: Seq<bool>, cur: int) -> Seq<
    Seq<Tile>,
> {
    Seq::new(
        g.len(),
        |z: int|
            if vis[z] != (z <= cur) {
                spec_layer_with_visibility(g[z], z <= cur)
            } else {
                g[z]
            },
    )
}

/// A grid whose every cell carries its generated tile is the generated
/// grid.
proof fn lemma_generated_grid_eq(g: Seq<Seq<Tile>>, s: NoiseSettings, seed: u32, w: int, h: int)
    requires
        g.len() == crate::Z_LEVELS as int,
        forall|z: int| 0 <= z < g.len() ==> (#[trigger] g[z]).len() == w * h,
        forall|z: int, j: int|
            0 <= z < g.len() && 0 <= j < w * h ==> g[z][j] == spec_generated_tile(
                s,
                seed,
                w,
                h,
                z,
                j,
            ),
    ensures
        g == spec_generated_grid(s, seed, w, h),
{
    assert(g =~~= spec_generated_grid(s, seed, w, h));
}

/// A grid whose every layer took the visibility pass's layer result is
/// the visibility-adjusted grid.
proof fn lemma_visibility_grid_eq(
    g_new: Seq<Seq<Tile>>,
    g_old: Seq<Seq<Tile>>,
    vis: Seq<bool>,
    cur: int,
)
    requires
        g_new.len() == g_old.len(),
        forall|z: int|
            0 <= z < g_old.len() ==> g_new[z] == (if vis[z] != (z <= cur) {
                spec_layer_with_visibility(g_old[z], z <= cur)
            } else {
                g_old[z]
            }),
    ensures
        g_new == spec_grid_with_visibility(g_old, vis, cur),
{
    assert(g_new =~= spec_grid_with_visibility(g_old, vis, cur));
}

/// One tick of the terrain pipeline, in dependency order: regenerate the
/// grid when the settings are marked changed (clearing the flag and
/// raising the event), run one visibility pass against the visible-depth
/// cursor, then drain the mutation queue in FIFO order. Returns the
/// generation event (exactly once per regeneration), the layers needing
/// a remesh, and the texture updates for the renderer.
#[verifier::rlimit(100)]
pub fn tick(
    noise_settings: &mut NoiseSettings,
    seed: u32,
    map: &mut MapData,
    visible_layers: &mut VisibleLayers,
    current_z_level: &CurrentZLevel,
    tiles: &mut TilesToUpdate,
) -> (r: (Option<MapGeneratedEvent>, Vec<u16>, Vec<(GridPos, u32)>))
    requires
        old(noise_settings).wf(),
        old(map).wf(),
        1 <= old(map).spec_width() <= 1_000_000,
        1 <= old(map).spec_height() <= 1_000_000,
        old(map).spec_z_levels() == crate::Z_LEVELS as int,
        old(visible_layers)@.len() == old(map).spec_z_levels(),
    ensures
        *final (noise_settings) == (NoiseSettings { changed: false, ..*old(noise_settings) }),
        final (map).wf(),
        final (map).spec_width() == old(map).spec_width(),
        final (map).spec_height() == old(map).spec_height(),
        final (map).spec_z_levels() == old(map).spec_z_levels(),
        r.0 == (if old(noise_settings).changed {
            Some(MapGeneratedEvent)
        } else {
            Option::<MapGeneratedEvent>::None
        }),
        forall|z: int|
            0 <= z < final (visible_layers)@.len() ==> final (visible_layers)@[z] == (z
                <= current_z_level.0),
        final (visible_layers)@.len() == old(visible_layers)@.len(),
        r.1@ == spec_changed_layers(
            old(visible_layers)@,
            current_z_level.0 as int,
            old(map).spec_z_levels() as nat,
        ),
        final (tiles).0@.len() == 0,
        r.2@ == spec_applied_textures(
            old(map).spec_width(),
            old(map).spec_height(),
            old(map).spec_z_levels(),
            old(tiles).0@,
            old(tiles).0@.len(),
        ),
        ({
            let g1 = if old(noise_settings).changed {
                spec_generated_grid(
                    (NoiseSettings { changed: false, ..*old(noise_settings) }),
                    seed,
                    old(map).spec_width(),
                    old(map).spec_height(),
                )
            } else {
                old(map).grid()
            };
            let g2 = spec_grid_with_visibility(
                g1,
                old(visible_layers)@,
                current_z_level.0 as int,
            );
            final (map).grid() == spec_apply_edits(
                g2,
                old(map).spec_width(),
                old(map).spec_height(),
                old(map).spec_z_levels(),
                old(tiles).0@,
                old(tiles).0@.len(),
            )
        }),
{
    let ghost w = old(map).spec_width();
    let ghost h = old(map).spec_height();
    let ghost cleared = NoiseSettings { changed: false, ..*old(noise_settings) };
    let ev = generate_map(noise_settings, seed, map);
    proof {
        map.lemma_grid_dims();
        if old(noise_settings).changed {
            lemma_generated_grid_eq(map.grid(), cleared, seed, w, h);
        }
    }
    let ghost g1 = map.grid();
    let remesh = update_layer_visibility(map, visible_layers, current_z_level);
    proof {
        map.lemma_grid_dims();
        lemma_visibility_grid_eq(
            map.grid(),
            g1,
            old(visible_layers)@,
            current_z_level.0 as int,
        );
    }
    let updates = update_tiles(map, tiles);
    (ev, remesh, updates)
}

} // verus!
