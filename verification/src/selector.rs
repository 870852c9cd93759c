//! Resolving a selected grid column to a voxel: the vertical ray march
//! that finds the topmost solid tile at or below the visible depth.

use crate::map::{GridPos, MapData, Tile, TileType};
use vstd::prelude::*;

verus! {

/// The highest z in `[0, n)` whose tile in column `(x, y)` of the grid is
/// not Air, or 0 when every scanned tile of the column is Air.
pub open spec fn spec_highest_solid(g: Seq<Seq<Tile>>, w: int, x: int, y: int, n: int) -> int
    decreases n,
{
    if n <= 0 {
        0
    } else if g[n - 1][y * w + x].value != TileType::Air {
        n - 1
    } else {
        spec_highest_solid(g, w, x, y, n - 1)
    }
}

/// Finds the voxel a pointer selects in column `(x, y)`: scans the layers
/// from z = 0 up to (but excluding) the current visible depth and returns
/// the position of the topmost non-Air tile; when the whole column is Air,
/// or the column lies outside the grid, the result defaults to z = 0 at
/// that column.
pub fn find_highest_tile(x: u32, y: u32, map_data: &MapData, current_z_level: u16) -> (r: GridPos)
    requires
        map_data.wf(),
    ensures
        r.x == x,
        r.y == y,
        x < map_data.spec_width() && y < map_data.spec_height() ==> r.z == spec_highest_solid(
            map_data.grid(),
            map_data.spec_width(),
            x as int,
            y as int,
            if current_z_level <= map_data.spec_z_levels() {
                current_z_level as int
            } else {
                map_data.spec_z_levels()
            },
        ),
        x >= map_data.spec_width() || y >= map_data.spec_height() ==> r.z == 0,
{
    let w: usize = map_data.width();
    let h: usize = map_data.height();
    if (x as usize) >= w || (y as usize) >= h {
        return GridPos { x, y, z: 0 };
    }
    let zl: usize = map_data.z_levels();
    let limit: usize = if (current_z_level as usize) <= zl {
        current_z_level as usize
    } else {
        zl
    };
    let ghost wi = w as int;
    let mut best: usize = 0;
    let mut z: usize = 0;
    while z < limit
        invariant
            map_data.wf(),
            w == map_data.spec_width(),
            h == map_data.spec_height(),
            wi == w,
            x < w,
            y < h,
            limit <= map_data.spec_z_levels(),
            limit <= u16::MAX,
            z <= limit,
            best == spec_highest_solid(map_data.grid(), wi, x as int, y as int, z as int),
            best < limit || best == 0,
        decreases limit - z,
    {
        let pos = GridPos { x, y, z: z as u32 };
        let t = map_data.get_tile(pos);
        proof {
            assert(map_data.flat_index(pos) == y * wi + x);
        }
        match t {
            Some(tile) => {
                if !matches!(tile.value, TileType::Air) {
                    best = z;
                }
            },
            None => {},
        }
        z = z + 1;
    }
    GridPos { x, y, z: best as u32 }
}

} // verus!
