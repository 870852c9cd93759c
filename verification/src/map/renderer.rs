//! The visibility tracker, the texture pass and the mutation-queue drain,
//! operating on the layered grid (`MapData`).

use crate::map::{
    lemma_row_major_index, spec_layer_with_visibility, CurrentZLevel, GridPos, MapData, Tile,
    TileType, TilesToUpdate, VisibleLayers,
};
use vstd::prelude::*;

verus! {

/// The published texture-index table: the stable enumeration consumers of
/// the renderer honor, one entry per tile material.
pub open spec fn spec_texture_index(t: TileType) -> u32 {
    match t {
        TileType::Air => 1,
        TileType::Water => 2,
        TileType::Grass => 3,
        TileType::Dirt => 4,
        TileType::Rock => 5,
    }
}

/// Maps a tile material to its texture index in the tile atlas.
pub fn texture_index(t: TileType) -> (r: u32)
    ensures
        r == spec_texture_index(t),
{
    match t {
        TileType::Air => 1,
        TileType::Water => 2,
        TileType::Grass => 3,
        TileType::Dirt => 4,
        TileType::Rock => 5,
    }
}

/// The layers (in increasing order) whose stored visibility differs from
/// the desired `z <= cur`, over the first `n` layers: exactly the layers a
/// visibility pass touches, and so the chunks that need a remesh.
pub open spec fn spec_changed_layers(vis: Seq<bool>, cur: int, n: nat) -> Seq<u16>
    decreases n,
{
    if n == 0 {
        Seq::empty()
    } else {
        let prefix = spec_changed_layers(vis, cur, (n - 1) as nat);
        if vis[n - 1] != (n - 1 <= cur) {
            prefix.push((n - 1) as u16)
        } else {
            prefix
        }
    }
}

/// One visibility pass: brings every layer's stored visibility to
/// `z <= current_z_level`, flips the visible flag of every tile in each
/// layer that changed (layers already in the desired state are untouched),
/// and returns the changed layers — the chunks that need a remesh.
///
/// After the pass, `visible_layers[z] == (z <= current_z_level)` for every
/// `z`, regardless of the prior state.
pub fn update_layer_visibility(
    map: &mut MapData,
    visible_layers: &mut VisibleLayers,
    current_z_level: &CurrentZLevel,
) -> (changed: Vec<u16>)
    requires
        old(map).wf(),
        old(visible_layers)@.len() == old(map).spec_z_levels(),
        old(map).spec_z_levels() <= u16::MAX,
    ensures
        final (map).wf(),
        final (map).spec_width() == old(map).spec_width(),
        final (map).spec_height() == old(map).spec_height(),
        final (map).spec_z_levels() == old(map).spec_z_levels(),
        final (visible_layers)@.len() == old(visible_layers)@.len(),
        forall|z: int|
            0 <= z < final (visible_layers)@.len() ==> final (visible_layers)@[z] == (z
                <= current_z_level.0),
        forall|z: int|
            0 <= z < old(map).spec_z_levels() ==> final (map).grid()[z] == (if old(
                visible_layers,
            )@[z] != (z <= current_z_level.0) {
                spec_layer_with_visibility(old(map).grid()[z], z <= current_z_level.0)
            } else {
                old(map).grid()[z]
            }),
        changed@ == spec_changed_layers(
            old(visible_layers)@,
            current_z_level.0 as int,
            old(map).spec_z_levels() as nat,
        ),
{
    let n: usize = map.z_levels();
    let mut changed: Vec<u16> = Vec::new();
    let mut z: usize = 0;
    while z < n
        invariant
            map.wf(),
            map.spec_width() == old(map).spec_width(),
            map.spec_height() == old(map).spec_height(),
            map.spec_z_levels() == old(map).spec_z_levels(),
            n == old(map).spec_z_levels(),
            n <= u16::MAX,
            visible_layers@.len() == n,
            z <= n,
            forall|k: int| z <= k < n ==> visible_layers@[k] == old(visible_layers)@[k],
            forall|k: int|
                0 <= k < z ==> visible_layers@[k] == (k <= current_z_level.0),
            forall|k: int| z <= k < n ==> map.grid()[k] == old(map).grid()[k],
            forall|k: int|
                0 <= k < z ==> map.grid()[k] == (if old(visible_layers)@[k] != (k
                    <= current_z_level.0) {
                    spec_layer_with_visibility(old(map).grid()[k], k <= current_z_level.0)
                } else {
                    old(map).grid()[k]
                }),
            changed@ == spec_changed_layers(
                old(visible_layers)@,
                current_z_level.0 as int,
                z as nat,
            ),
        decreases n - z,
    {
        let zi: u16 = z as u16;
        let is_layer_visible: bool = visible_layers.0[z];
        if is_layer_visible && zi > current_z_level.0 {
            map.set_layer_visibility(z, false);
            visible_layers.0.set(z, false);
            changed.push(zi);
        } else if !is_layer_visible && zi <= current_z_level.0 {
            map.set_layer_visibility(z, true);
            visible_layers.0.set(z, true);
            changed.push(zi);
        }
        z = z + 1;
    }
    changed
}

/// The texture pass after a generation: one texture index per tile,
/// layer by layer, row-major within each layer.
pub fn set_map_textures(map_data: &MapData) -> (r: Vec<Vec<u32>>)
    requires
        map_data.wf(),
        map_data.spec_width() <= u32::MAX,
        map_data.spec_height() <= u32::MAX,
        map_data.spec_z_levels() <= u32::MAX,
    ensures
        r@.len() == map_data.spec_z_levels(),
        forall|z: int|
            0 <= z < r@.len() ==> (#[trigger] r@[z])@.len() == map_data.spec_width()
                * map_data.spec_height(),
        forall|z: int, j: int|
            0 <= z < r@.len() && 0 <= j < r@[z]@.len() ==> r@[z]@[j] == spec_texture_index(
                map_data.grid()[z][j].value,
            ),
{
    proof {
        map_data.lemma_grid_dims();
    }
    let n: usize = map_data.z_levels();
    let w: usize = map_data.width();
    let h: usize = map_data.height();
    let mut r: Vec<Vec<u32>> = Vec::new();
    let mut z: usize = 0;
    while z < n
        invariant
            map_data.wf(),
            n == map_data.spec_z_levels(),
            w == map_data.spec_width(),
            h == map_data.spec_height(),
            n <= u32::MAX,
            w <= u32::MAX,
            h <= u32::MAX,
            z <= n,
            r@.len() == z,
            forall|k: int| 0 <= k < z ==> (#[trigger] r@[k])@.len() == w * h,
            forall|k: int, j: int|
                0 <= k < z && 0 <= j < r@[k]@.len() ==> r@[k]@[j] == spec_texture_index(
                    map_data.grid()[k][j].value,
                ),
        decreases n - z,
    {
        let mut row: Vec<u32> = Vec::new();
        let mut y: usize = 0;
        while y < h
            invariant
                map_data.wf(),
                n == map_data.spec_z_levels(),
                w == map_data.spec_width(),
                h == map_data.spec_height(),
                n <= u32::MAX,
                w <= u32::MAX,
                h <= u32::MAX,
                z < n,
                y <= h,
                row@.len() == y * w,
                forall|j: int|
                    0 <= j < row@.len() ==> #[trigger] row@[j] == spec_texture_index(
                        map_data.grid()[z as int][j].value,
                    ),
            decreases h - y,
        {
            let mut x: usize = 0;
            while x < w
                invariant
                    map_data.wf(),
                    n == map_data.spec_z_levels(),
                    w == map_data.spec_width(),
                    h == map_data.spec_height(),
                    n <= u32::MAX,
                    w <= u32::MAX,
                    h <= u32::MAX,
                    z < n,
                    y < h,
                    x <= w,
                    row@.len() == y * w + x,
                    forall|j: int|
                        0 <= j < row@.len() ==> #[trigger] row@[j] == spec_texture_index(
                            map_data.grid()[z as int][j].value,
                        ),
                decreases w - x,
            {
                let pos = GridPos { x: x as u32, y: y as u32, z: z as u32 };
                let t = map_data.get_tile(pos);
                proof {
                    lemma_row_major_index(x as int, y as int, w as int, h as int);
                    assert(map_data.flat_index(pos) == y * w + x);
                }
                match t {
                    Some(tile) => {
                        row.push(texture_index(tile.value));
                    },
                    None => {
                        row.push(0);
                    },
                }
                x = x + 1;
            }
            proof {
                assert((y + 1) * (w as int) == y * (w as int) + w) by (nonlinear_arith);
            }
            y = y + 1;
        }
        proof {
            assert((h as int) * (w as int) == (w as int) * (h as int)) by (nonlinear_arith);
        }
        r.push(row);
        z = z + 1;
    }
    r
}

/// The grid after the first `n` queued edits have been applied in order:
/// an in-bounds edit replaces its cell, an out-of-bounds edit is skipped.
pub open spec fn spec_apply_edits(
    g: Seq<Seq<Tile>>,
    w: int,
    h: int,
    zl: int,
    edits: Seq<(GridPos, Tile)>,
    n: nat,
) -> Seq<Seq<Tile>>
    decreases n,
{
    if n == 0 {
        g
    } else {
        let prev = spec_apply_edits(g, w, h, zl, edits, (n - 1) as nat);
        let pos = edits[n - 1].0;
        let tile = edits[n - 1].1;
        if pos.x < w && pos.y < h && pos.z < zl {
            prev.update(pos.z as int, prev[pos.z as int].update(pos.y * w + pos.x, tile))
        } else {
            prev
        }
    }
}

/// The texture updates the drain forwards to the renderer: one entry per
/// applied (in-bounds) edit, in queue order.
pub open spec fn spec_applied_textures(
    w: int,
    h: int,
    zl: int,
    edits: Seq<(GridPos, Tile)>,
    n: nat,
) -> Seq<(GridPos, u32)>
    decreases n,
{
    if n == 0 {
        Seq::empty()
    } else {
        let prefix = spec_applied_textures(w, h, zl, edits, (n - 1) as nat);
        let pos = edits[n - 1].0;
        let tile = edits[n - 1].1;
        if pos.x < w && pos.y < h && pos.z < zl {
            prefix.push((pos, spec_texture_index(tile.value)))
        } else {
            prefix
        }
    }
}

/// Drains the mutation queue once: applies every queued edit to the grid
/// in FIFO order through the bounds-checked `set_tile` (an out-of-bounds
/// entry is skipped, not fatal), clears the queue, and returns the texture
/// updates to forward to the renderer.
pub fn update_tiles(map_data: &mut MapData, tiles: &mut TilesToUpdate) -> (updates: Vec<
    (GridPos, u32),
>)
    requires
        old(map_data).wf(),
    ensures
        final (map_data).wf(),
        final (map_data).spec_width() == old(map_data).spec_width(),
        final (map_data).spec_height() == old(map_data).spec_height(),
        final (map_data).spec_z_levels() == old(map_data).spec_z_levels(),
        final (map_data).grid() == spec_apply_edits(
            old(map_data).grid(),
            old(map_data).spec_width(),
            old(map_data).spec_height(),
            old(map_data).spec_z_levels(),
            old(tiles).0@,
            old(tiles).0@.len(),
        ),
        final (tiles).0@.len() == 0,
        updates@ == spec_applied_textures(
            old(map_data).spec_width(),
            old(map_data).spec_height(),
            old(map_data).spec_z_levels(),
            old(tiles).0@,
            old(tiles).0@.len(),
        ),
{
    let ghost w = old(map_data).spec_width();
    let ghost h = old(map_data).spec_height();
    let ghost zl = old(map_data).spec_z_levels();
    let n: usize = tiles.0.len();
    let mut updates: Vec<(GridPos, u32)> = Vec::new();
    let mut i: usize = 0;
    while i < n
        invariant
            map_data.wf(),
            map_data.spec_width() == w,
            map_data.spec_height() == h,
            map_data.spec_z_levels() == zl,
            tiles.0@ == old(tiles).0@,
            n == tiles.0@.len(),
            i <= n,
            map_data.grid() == spec_apply_edits(
                old(map_data).grid(),
                w,
                h,
                zl,
                old(tiles).0@,
                i as nat,
            ),
            updates@ == spec_applied_textures(w, h, zl, old(tiles).0@, i as nat),
        decreases n - i,
    {
        let entry: (GridPos, Tile) = tiles.0[i];
        let pos = entry.0;
        let tile = entry.1;
        let res = map_data.set_tile(pos, tile);
        match res {
            Ok(()) => {
                updates.push((pos, texture_index(tile.value)));
            },
            Err(_) => {},
        }
        i = i + 1;
    }
    tiles.0.clear();
    updates
}

/// Last write wins: when two queued edits hit the same position, the grid
/// holds the second edit's tile after the drain — FIFO order is preserved.
pub proof fn lemma_last_write_wins(
    g: Seq<Seq<Tile>>,
    w: int,
    h: int,
    zl: int,
    pos: GridPos,
    t1: Tile,
    t2: Tile,
)
    requires
        pos.x < w,
        pos.y < h,
        pos.z < zl,
        g.len() == zl,
        g[pos.z as int].len() == w * h,
    ensures
        ({
            let edits = seq![(pos, t1), (pos, t2)];
            spec_apply_edits(g, w, h, zl, edits, 2)[pos.z as int][pos.y * w + pos.x] == t2
        }),
{
    let edits = seq![(pos, t1), (pos, t2)];
    lemma_row_major_index(pos.x as int, pos.y as int, w, h);
    let g0 = spec_apply_edits(g, w, h, zl, edits, 0);
    let g1 = spec_apply_edits(g, w, h, zl, edits, 1);
    let g2 = spec_apply_edits(g, w, h, zl, edits, 2);
    assert(g0 == g);
    assert(g1 == g0.update(pos.z as int, g0[pos.z as int].update(pos.y * w + pos.x, t1)));
    assert(g2 == g1.update(pos.z as int, g1[pos.z as int].update(pos.y * w + pos.x, t2)));
}

} // verus!
