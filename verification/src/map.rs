//! The layered tile grid: tile types, bounds-checked layer and grid storage,
//! the visibility state, the visible-depth cursor, and the mutation queue.

use vstd::arithmetic::mul::{lemma_mul_inequality, lemma_mul_strict_inequality};
use vstd::prelude::*;

pub mod generator;
pub mod map_generator;
pub mod map_renderer;
pub mod renderer;

verus! {

/// The discrete material of one voxel cell.
#[derive(Copy, Clone, Debug, PartialEq, Eq, Structural)]
pub enum TileType {
    Air,
    Water,
    Grass,
    Rock,
    Dirt,
}

impl Default for TileType {
    /// An unclassified cell is Air.
    fn default() -> (r: Self)
        ensures
            r == TileType::Air,
    {
        TileType::Air
    }
}

/// One voxel cell: its material and whether the renderer should draw it.
#[derive(Copy, Clone, Debug, PartialEq, Eq, Structural)]
pub struct Tile {
    pub visible: bool,
    pub value: TileType,
}

impl Default for Tile {
    /// A fresh cell is invisible Air.
    fn default() -> (r: Self)
        ensures
            r == (Tile { visible: false, value: TileType::Air }),
    {
        Tile { visible: false, value: TileType::Air }
    }
}

/// The tile every cell holds before classification: invisible Air.
pub open spec fn default_tile() -> Tile {
    Tile { visible: false, value: TileType::Air }
}

/// The single error of the grid accessors: a coordinate fell outside the
/// configured extents.
#[derive(Copy, Clone, Debug, PartialEq, Eq, Structural)]
pub struct OutOfBounds;

/// A position in the layered grid: column `(x, y)` on layer `z`.
#[derive(Copy, Clone, Debug, PartialEq, Eq, Structural)]
pub struct GridPos {
    pub x: u32,
    pub y: u32,
    pub z: u32,
}

impl GridPos {
    pub fn new(x: u32, y: u32, z: u32) -> (r: Self)
        ensures
            r == (GridPos { x, y, z }),
    {
        GridPos { x, y, z }
    }
}

/// Raised exactly once per completed classification pass, after the whole
/// grid has been populated.
#[derive(Copy, Clone, Debug, PartialEq, Eq, Structural)]
pub struct MapGeneratedEvent;

/// The visible-depth cursor: the highest z-level currently rendered,
/// clamped to `[0, Z_LEVELS]`.
#[derive(Copy, Clone, Debug, PartialEq, Eq, Structural)]
pub struct CurrentZLevel(pub u16);

/// The clamp applied when the visible depth moves by `delta` steps down.
pub open spec fn spec_adjusted_z_level(cur: int, delta: int) -> int {
    let t = cur - delta;
    if t < 0 {
        0
    } else if t > crate::Z_LEVELS as int {
        crate::Z_LEVELS as int
    } else {
        t
    }
}

impl CurrentZLevel {
    /// Moves the cursor by a signed number of steps (positive `delta` digs
    /// deeper), clamped to `[0, Z_LEVELS]`.
    pub fn adjust(&mut self, delta: i32)
        ensures
            final (self).0 == spec_adjusted_z_level(old(self).0 as int, delta as int),
    {
        let t: i64 = self.0 as i64 - delta as i64;
        if t < 0 {
            self.0 = 0;
        } else if t > crate::Z_LEVELS as i64 {
            self.0 = crate::Z_LEVELS;
        } else {
            self.0 = t as u16;
        }
    }
}

/// Row-major flat index of an in-range cell is in range of the layer data.
pub proof fn lemma_row_major_index(x: int, y: int, w: int, h: int)
    requires
        0 <= x < w,
        0 <= y < h,
    ensures
        0 <= y * w + x < w * h,
{
    lemma_mul_inequality(y, h - 1, w);
    lemma_mul_strict_inequality(y, h, w);
    assert((h - 1) * w == h * w - w) by (nonlinear_arith);
    assert(h * w == w * h) by (nonlinear_arith);
    assert(y * w >= 0) by (nonlinear_arith)
        requires
            y >= 0,
            w > 0,
    ;
}

/// One horizontal slice of the grid: a dense `width x height` field of
/// tiles, indexed row-major.
#[derive(Clone)]
pub struct Layer {
    pub(crate) data: Vec<Tile>,
    pub(crate) width: usize,
    pub(crate) height: usize,
}

impl View for Layer {
    type V = Seq<Tile>;

    /// The tiles of the layer, row-major: cell `(x, y)` at `y * width + x`.
    closed spec fn view(&self) -> Seq<Tile> {
        self.data@
    }
}

impl Layer {
    /// Width of the layer in tiles.
    pub closed spec fn spec_width(&self) -> int {
        self.width as int
    }

    /// Height of the layer in tiles.
    pub closed spec fn spec_height(&self) -> int {
        self.height as int
    }

    /// The layer's backing store matches its extents.
    pub closed spec fn wf(&self) -> bool {
        &&& self.data@.len() == self.width * self.height
        &&& self.width * self.height <= usize::MAX
    }

    /// Width of the layer in tiles.
    pub fn width(&self) -> (r: usize)
        ensures
            r == self.spec_width(),
    {
        self.width
    }

    /// Height of the layer in tiles.
    pub fn height(&self) -> (r: usize)
        ensures
            r == self.spec_height(),
    {
        self.height
    }

    /// A well-formed layer holds exactly `width * height` tiles.
    pub proof fn lemma_layer_dims(&self)
        requires
            self.wf(),
        ensures
            self@.len() == self.spec_width() * self.spec_height(),
            self.spec_width() * self.spec_height() <= usize::MAX,
    {
    }

    /// A fresh layer of invisible Air tiles.
    pub fn new(width: usize, height: usize) -> (r: Self)
        requires
            width * height <= usize::MAX,
        ensures
            r.wf(),
            r.spec_width() == width,
            r.spec_height() == height,
            r@ == Seq::new((width * height) as nat, |i: int| default_tile()),
    {
        let n: usize = width * height;
        let mut data: Vec<Tile> = Vec::new();
        let mut i: usize = 0;
        while i < n
            invariant
                i <= n,
                data@ == Seq::new(i as nat, |k: int| default_tile()),
            decreases n - i,
        {
            data.push(Tile { visible: false, value: TileType::Air });
            i = i + 1;
            proof {
                assert(data@ =~= Seq::new(i as nat, |k: int| default_tile()));
            }
        }
        Layer { data, width, height }
    }

    /// Flips every tile's visible flag in this layer to `visible`,
    /// leaving each tile's material untouched.
    pub fn set_visibility(&mut self, visible: bool)
        requires
            old(self).wf(),
        ensures
            final (self).wf(),
            final (self).spec_width() == old(self).spec_width(),
            final (self).spec_height() == old(self).spec_height(),
            final (self)@ == spec_layer_with_visibility(old(self)@, visible),
    {
        let n: usize = self.data.len();
        let mut i: usize = 0;
        while i < n
            invariant
                old(self).wf(),
                n == old(self).data@.len(),
                self.data@.len() == n,
                self.width == old(self).width,
                self.height == old(self).height,
                i <= n,
                forall|k: int|
                    0 <= k < i ==> #[trigger] self.data@[k] == (Tile {
                        visible,
                        value: old(self).data@[k].value,
                    }),
                forall|k: int| i <= k < n ==> self.data@[k] == old(self).data@[k],
            decreases n - i,
        {
            let value: TileType = self.data[i].value;
            self.data.set(i, Tile { visible, value });
            i = i + 1;
        }
        proof {
            assert(self@ =~= spec_layer_with_visibility(old(self)@, visible));
        }
    }

    /// Reads the tile at `(x, y)`; `None` exactly when either coordinate is
    /// out of range.
    pub fn get_tile(&self, x: usize, y: usize) -> (r: Option<&Tile>)
        requires
            self.wf(),
        ensures
            match r {
                Some(t) => x < self.spec_width() && y < self.spec_height() && *t == self@[y
                    * self.spec_width() + x],
                None => x >= self.spec_width() || y >= self.spec_height(),
            },
    {
        if x < self.width && y < self.height {
            proof {
                lemma_row_major_index(x as int, y as int, self.width as int, self.height as int);
            }
            Some(&self.data[y * self.width + x])
        } else {
            None
        }
    }

    /// Replaces the tile at `(x, y)`; fails with `OutOfBounds` (and leaves
    /// the layer unchanged) exactly when either coordinate is out of range.
    pub fn set_tile(&mut self, x: usize, y: usize, new_tile: Tile) -> (r: Result<(), OutOfBounds>)
        requires
            old(self).wf(),
        ensures
            final (self).wf(),
            final (self).spec_width() == old(self).spec_width(),
            final (self).spec_height() == old(self).spec_height(),
            match r {
                Ok(()) => x < old(self).spec_width() && y < old(self).spec_height()
                    && final (self)@ == old(self)@.update(y * old(self).spec_width() + x, new_tile),
                Err(_) => (x >= old(self).spec_width() || y >= old(self).spec_height())
                    && final (self)@ == old(self)@,
            },
    {
        if x < self.width && y < self.height {
            proof {
                lemma_row_major_index(x as int, y as int, self.width as int, self.height as int);
            }
            let idx: usize = y * self.width + x;
            self.data.set(idx, new_tile);
            Ok(())
        } else {
            Err(OutOfBounds)
        }
    }
}

/// A layer's tiles with every visible flag set to `visible` and every
/// material kept.
pub open spec fn spec_layer_with_visibility(layer: Seq<Tile>, visible: bool) -> Seq<Tile> {
    Seq::new(layer.len(), |j: int| Tile { visible, value: layer[j].value })
}

/// The layered grid: one `Layer` per z-level, all with identical extents;
/// z indices are contiguous from 0 and increase with elevation.
pub struct MapData {
    pub(crate) layers: Vec<Layer>,
    pub(crate) width: usize,
    pub(crate) height: usize,
}

impl MapData {
    /// Width of every layer in tiles.
    pub closed spec fn spec_width(&self) -> int {
        self.width as int
    }

    /// Height of every layer in tiles.
    pub closed spec fn spec_height(&self) -> int {
        self.height as int
    }

    /// Number of z-levels.
    pub closed spec fn spec_z_levels(&self) -> int {
        self.layers@.len() as int
    }

    /// The grid as a sequence of row-major layer contents: the tile at
    /// `(x, y, z)` is `grid()[z][y * width + x]`.
    pub closed spec fn grid(&self) -> Seq<Seq<Tile>> {
        Seq::new(self.layers@.len(), |z: int| self.layers@[z]@)
    }

    /// Every layer is well formed and has the grid's extents.
    pub closed spec fn wf(&self) -> bool {
        &&& self.width * self.height <= usize::MAX
        &&& forall|z: int|
            0 <= z < self.layers@.len() ==> (#[trigger] self.layers@[z]).wf()
                && self.layers@[z].spec_width() == self.spec_width()
                && self.layers@[z].spec_height() == self.spec_height()
    }

    /// Whether a position lies inside the grid's extents.
    pub open spec fn in_bounds(&self, pos: GridPos) -> bool {
        pos.x < self.spec_width() && pos.y < self.spec_height() && pos.z < self.spec_z_levels()
    }

    /// Row-major flat index of a position's column.
    pub open spec fn flat_index(&self, pos: GridPos) -> int {
        pos.y * self.spec_width() + pos.x
    }

    /// A well-formed grid has one row-major sequence of `width * height`
    /// tiles per z-level.
    pub proof fn lemma_grid_dims(&self)
        requires
            self.wf(),
        ensures
            self.grid().len() == self.spec_z_levels(),
            forall|z: int|
                0 <= z < self.spec_z_levels() ==> (#[trigger] self.grid()[z]).len()
                    == self.spec_width() * self.spec_height(),
            self.spec_width() * self.spec_height() <= usize::MAX,
    {
    }

    /// Width of every layer in tiles.
    pub fn width(&self) -> (r: usize)
        ensures
            r == self.spec_width(),
    {
        self.width
    }

    /// Height of every layer in tiles.
    pub fn height(&self) -> (r: usize)
        ensures
            r == self.spec_height(),
    {
        self.height
    }

    /// Number of z-levels.
    pub fn z_levels(&self) -> (r: usize)
        ensures
            r == self.spec_z_levels(),
    {
        self.layers.len()
    }

    /// A fresh grid of `z_levels` layers of invisible Air tiles.
    pub fn new(width: usize, height: usize, z_levels: usize) -> (r: Self)
        requires
            width * height <= usize::MAX,
        ensures
            r.wf(),
            r.spec_width() == width,
            r.spec_height() == height,
            r.spec_z_levels() == z_levels,
            r.grid() == Seq::new(
                z_levels as nat,
                |z: int| Seq::new((width * height) as nat, |i: int| default_tile()),
            ),
    {
        let mut layers: Vec<Layer> = Vec::new();
        let mut z: usize = 0;
        while z < z_levels
            invariant
                z <= z_levels,
                width * height <= usize::MAX,
                layers@.len() == z,
                forall|k: int|
                    0 <= k < z ==> (#[trigger] layers@[k]).wf() && layers@[k].spec_width() == width
                        && layers@[k].spec_height() == height && layers@[k]@ == Seq::new(
                        (width * height) as nat,
                        |i: int| default_tile(),
                    ),
            decreases z_levels - z,
        {
            layers.push(Layer::new(width, height));
            z = z + 1;
        }
        let r = MapData { layers, width, height };
        proof {
            assert(r.grid() =~~= Seq::new(
                z_levels as nat,
                |z: int| Seq::new((width * height) as nat, |i: int| default_tile()),
            ));
        }
        r
    }

    /// Reads the tile at `pos`; `None` exactly when `pos` is out of bounds.
    pub fn get_tile(&self, pos: GridPos) -> (r: Option<&Tile>)
        requires
            self.wf(),
        ensures
            match r {
                Some(t) => self.in_bounds(pos) && *t == self.grid()[pos.z as int][self.flat_index(
                    pos,
                )],
                None => !self.in_bounds(pos),
            },
    {
        if (pos.z as usize) < self.layers.len() {
            self.layers[pos.z as usize].get_tile(pos.x as usize, pos.y as usize)
        } else {
            None
        }
    }

    /// Replaces the tile at `pos`; fails with `OutOfBounds` (and leaves the
    /// grid unchanged) exactly when `pos` is out of bounds.
    pub fn set_tile(&mut self, pos: GridPos, new_tile: Tile) -> (r: Result<(), OutOfBounds>)
        requires
            old(self).wf(),
        ensures
            final (self).wf(),
            final (self).spec_width() == old(self).spec_width(),
            final (self).spec_height() == old(self).spec_height(),
            final (self).spec_z_levels() == old(self).spec_z_levels(),
            match r {
                Ok(()) => old(self).in_bounds(pos) && final (self).grid() == old(self).grid().update(
                    pos.z as int,
                    old(self).grid()[pos.z as int].update(old(self).flat_index(pos), new_tile),
                ),
                Err(_) => !old(self).in_bounds(pos) && final (self).grid() == old(self).grid(),
            },
    {
        if (pos.z as usize) < self.layers.len() {
            let zi: usize = pos.z as usize;
            let layer = &mut self.layers[zi];
            let res = layer.set_tile(pos.x as usize, pos.y as usize, new_tile);
            proof {
                if old(self).in_bounds(pos) {
                    assert(self.grid() =~~= old(self).grid().update(
                        pos.z as int,
                        old(self).grid()[pos.z as int].update(old(self).flat_index(pos), new_tile),
                    ));
                } else {
                    assert(self.grid() =~~= old(self).grid());
                }
            }
            res
        } else {
            Err(OutOfBounds)
        }
    }
}

impl MapData {
    /// Flips every tile's visible flag on layer `z` to `visible`, leaving
    /// every material and every other layer untouched.
    pub fn set_layer_visibility(&mut self, z: usize, visible: bool)
        requires
            old(self).wf(),
            z < old(self).spec_z_levels(),
        ensures
            final (self).wf(),
            final (self).spec_width() == old(self).spec_width(),
            final (self).spec_height() == old(self).spec_height(),
            final (self).spec_z_levels() == old(self).spec_z_levels(),
            final (self).grid() == old(self).grid().update(
                z as int,
                spec_layer_with_visibility(old(self).grid()[z as int], visible),
            ),
    {
        let layer = &mut self.layers[z];
        layer.set_visibility(visible);
        proof {
            assert(self.grid() =~~= old(self).grid().update(
                z as int,
                spec_layer_with_visibility(old(self).grid()[z as int], visible),
            ));
        }
    }
}

/// One flag per layer: whether that layer is currently shown. After a
/// visibility pass, flag `z` equals `z <= current visible depth`.
pub struct VisibleLayers(pub Vec<bool>);

impl View for VisibleLayers {
    type V = Seq<bool>;

    open spec fn view(&self) -> Seq<bool> {
        self.0@
    }
}

impl VisibleLayers {
    /// Fresh visibility state: every layer shown.
    pub fn new(z_levels: usize) -> (r: Self)
        ensures
            r@ == Seq::new(z_levels as nat, |z: int| true),
    {
        let mut flags: Vec<bool> = Vec::new();
        let mut z: usize = 0;
        while z < z_levels
            invariant
                z <= z_levels,
                flags@ == Seq::new(z as nat, |k: int| true),
            decreases z_levels - z,
        {
            flags.push(true);
            z = z + 1;
            proof {
                assert(flags@ =~= Seq::new(z as nat, |k: int| true));
            }
        }
        VisibleLayers(flags)
    }
}

/// The mutation queue: pending `(position, replacement tile)` edits,
/// applied in FIFO order once per tick and then cleared.
pub struct TilesToUpdate(pub Vec<(GridPos, Tile)>);

impl TilesToUpdate {
    /// A fresh, empty queue.
    pub fn new() -> (r: Self)
        ensures
            r.0@.len() == 0,
    {
        TilesToUpdate(Vec::new())
    }

    /// Appends an edit; it takes effect at the next drain.
    pub fn push(&mut self, pos: GridPos, tile: Tile)
        ensures
            final (self).0@ == old(self).0@.push((pos, tile)),
    {
        self.0.push((pos, tile));
    }
}

} // verus!
