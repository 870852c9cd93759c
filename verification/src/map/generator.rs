//! The elevation field generator and the voxel classifier.
//!
//! A seeded, deterministic 2-D value noise (built on the squirrel hash)
//! drives a fractal octave sum per grid column; the summed field is then
//! normalized to `[0, FP_ONE]` and classified into discrete tiles, one pass
//! per z-level.

use crate::map::{
    lemma_row_major_index, GridPos, Layer, MapData, MapGeneratedEvent, Tile, TileType,
};
use crate::utils::{
    floor_div, floor_mod, fp_div, fp_mul, inverse_lerp, lemma_fp_floor_ge, lemma_fp_floor_le,
    lemma_inverse_lerp_range, lemma_lerp_range, lerp, spec_fp_div, spec_fp_mul, spec_inverse_lerp,
    spec_lerp, spec_squirrel_noise, squirrel_noise, FP_ONE,
};
use vstd::arithmetic::div_mod::{
    lemma_div_is_ordered, lemma_div_multiples_vanish, lemma_div_pos_is_pos,
    lemma_fundamental_div_mod, lemma_fundamental_div_mod_converse,
    lemma_mod_division_less_than_divisor, lemma_multiply_divide_le, lemma_multiply_divide_lt,
};
use vstd::prelude::*;

verus! {

/// The elevation band of one z-level: `FP_ONE / Z_LEVELS`.
pub const ELEVATION_MULTIPLIER: i64 = 50_000;

/// Elevations at or below this are water: `0.35` in fixed point.
pub const WATER_LEVEL: i64 = 350_000;

/// Half of `FP_ONE`, the rounding offset of the classifier.
pub const HALF_FP: i64 = 500_000;

/// Mixes the y lattice coordinate into the squirrel hash position.
pub const PRIME_Y: i32 = 198_491_317;

/// Magnitude bound on sample coordinates accepted by the value noise.
pub const NOISE_COORD_BOUND: i64 = 0x4000_0000_0000;

/// Configuration of the elevation field generator. All continuous fields
/// are fixed-point; the ranges of `wf` mirror what the host's settings
/// panel allows. `changed` is the dirty gate: the host sets it on any
/// edit, and the generator clears it after regenerating.
#[derive(Copy, Clone, Debug, PartialEq, Eq, Structural)]
pub struct NoiseSettings {
    /// Translation of the sample domain along x, in `[-2, 2]`.
    pub offset_x: i64,
    /// Translation of the sample domain along y, in `[-2, 2]`.
    pub offset_y: i64,
    /// Number of summed noise layers, in `[1, 8]`.
    pub octaves: u32,
    /// Per-octave frequency multiplier, in `[0, 4]`.
    pub lacunarity: i64,
    /// Per-octave amplitude multiplier, in `[0, 1]`.
    pub persistence: i64,
    /// Input scaling of the sample domain, in `[0.1, 2]`.
    pub scale: i64,
    /// Set by any settings edit; cleared by the generator.
    pub changed: bool,
}

impl NoiseSettings {
    /// Every field sits in the range the settings panel allows.
    pub open spec fn wf(&self) -> bool {
        &&& -2 * FP_ONE <= self.offset_x <= 2 * FP_ONE
        &&& -2 * FP_ONE <= self.offset_y <= 2 * FP_ONE
        &&& 1 <= self.octaves <= 8
        &&& 0 <= self.lacunarity <= 4 * FP_ONE
        &&& 0 <= self.persistence <= FP_ONE
        &&& FP_ONE / 10 <= self.scale <= 2 * FP_ONE
    }
}

impl Default for NoiseSettings {
    /// Four octaves, lacunarity 2, persistence 0.5, scale 1, no offset;
    /// marked changed so the first tick generates.
    fn default() -> (r: Self)
        ensures
            r == (NoiseSettings {
                offset_x: 0,
                offset_y: 0,
                octaves: 4,
                lacunarity: 2_000_000,
                persistence: 500_000,
                scale: 1_000_000,
                changed: true,
            }),
            r.wf(),
    {
        NoiseSettings {
            offset_x: 0,
            offset_y: 0,
            octaves: 4,
            lacunarity: 2_000_000,
            persistence: 500_000,
            scale: 1_000_000,
            changed: true,
        }
    }
}

/// The lattice value at integer cell `(ix, iy)`: the squirrel hash of the
/// combined coordinates, folded into `[-FP_ONE, FP_ONE]`.
pub open spec fn spec_corner_value(ix: int, iy: int, seed: u32) -> int {
    let px = ix as i32;
    let py = iy as i32;
    let combined = px.wrapping_add(py.wrapping_mul(PRIME_Y));
    (spec_squirrel_noise(combined, seed) % 2_000_001u32) as int - FP_ONE
}

/// Hashes one lattice corner of the value noise.
fn corner_value(ix: i64, iy: i64, seed: u32) -> (r: i64)
    ensures
        r == spec_corner_value(ix as int, iy as int, seed),
        -FP_ONE <= r <= FP_ONE,
{
    let px: i32 = #[verifier::truncate] (ix as i32);
    let py: i32 = #[verifier::truncate] (iy as i32);
    let combined: i32 = px.wrapping_add(py.wrapping_mul(PRIME_Y));
    let h: u32 = squirrel_noise(combined, seed);
    let m: u32 = h % 2_000_001u32;
    (m as i64) - FP_ONE
}

/// Bilinear value noise at a fixed-point sample point: the four lattice
/// corners around the point, blended by its fractional position. A pure
/// function of the seed and the point, always in `[-FP_ONE, FP_ONE]`.
pub open spec fn spec_noise_sample(x: int, y: int, seed: u32) -> int {
    let ix = x / (FP_ONE as int);
    let fx = x % (FP_ONE as int);
    let iy = y / (FP_ONE as int);
    let fy = y % (FP_ONE as int);
    let c00 = spec_corner_value(ix, iy, seed);
    let c10 = spec_corner_value(ix + 1, iy, seed);
    let c01 = spec_corner_value(ix, iy + 1, seed);
    let c11 = spec_corner_value(ix + 1, iy + 1, seed);
    spec_lerp(spec_lerp(c00, c10, fx), spec_lerp(c01, c11, fx), fy)
}

/// Samples the seeded continuous 2-D noise at a fixed-point point.
pub fn noise_sample(x: i64, y: i64, seed: u32) -> (r: i64)
    requires
        -NOISE_COORD_BOUND <= x <= NOISE_COORD_BOUND,
        -NOISE_COORD_BOUND <= y <= NOISE_COORD_BOUND,
    ensures
        r == spec_noise_sample(x as int, y as int, seed),
        -FP_ONE <= r <= FP_ONE,
{
    let ix: i64 = floor_div(x, FP_ONE);
    let fx: i64 = floor_mod(x, FP_ONE);
    let iy: i64 = floor_div(y, FP_ONE);
    let fy: i64 = floor_mod(y, FP_ONE);
    proof {
        lemma_mod_division_less_than_divisor(x as int, FP_ONE as int);
        lemma_mod_division_less_than_divisor(y as int, FP_ONE as int);
    }
    let c00: i64 = corner_value(ix, iy, seed);
    let c10: i64 = corner_value(ix + 1, iy, seed);
    let c01: i64 = corner_value(ix, iy + 1, seed);
    let c11: i64 = corner_value(ix + 1, iy + 1, seed);
    let nx0: i64 = lerp(c00, c10, fx);
    let nx1: i64 = lerp(c01, c11, fx);
    proof {
        lemma_lerp_range(c00 as int, c10 as int, fx as int, -FP_ONE as int, FP_ONE as int);
        lemma_lerp_range(c01 as int, c11 as int, fx as int, -FP_ONE as int, FP_ONE as int);
        lemma_lerp_range(nx0 as int, nx1 as int, fy as int, -FP_ONE as int, FP_ONE as int);
    }
    lerp(nx0, nx1, fy)
}

/// The sample coordinate of grid index `i` of `n`: the index mapped into
/// the fixed domain `[-1, 1)`.
pub open spec fn spec_cell_coord(i: int, n: int) -> int {
    -FP_ONE + (2 * FP_ONE * i) / n
}

/// Maps a grid index into the fixed sample domain `[-1, 1)`.
fn cell_coord(i: usize, n: usize) -> (r: i64)
    requires
        1 <= n <= 1_000_000,
        i < n,
    ensures
        r == spec_cell_coord(i as int, n as int),
        -FP_ONE <= r < FP_ONE,
{
    proof {
        assert((i as i64) < (n as i64) && 0 <= (i as i64) && (i as i64) <= 999_999int);
    }
    let num: i64 = 2 * FP_ONE * (i as i64);
    let q: i64 = floor_div(num, n as i64);
    proof {
        lemma_div_pos_is_pos(num as int, n as int);
        assert((num as int) < (n as int) * (2 * FP_ONE as int)) by (nonlinear_arith)
            requires
                num == 2 * (FP_ONE as int) * (i as int),
                (i as int) < (n as int),
        ;
        lemma_multiply_divide_lt(num as int, n as int, 2 * FP_ONE as int);
    }
    -FP_ONE + q
}

/// Upper bound on the octave frequency after `k` lacunarity steps:
/// lacunarity is at most 4, so the frequency at most quadruples per octave.
pub open spec fn spec_freq_bound(k: nat) -> int
    decreases k,
{
    if k == 0 {
        FP_ONE as int
    } else {
        4 * spec_freq_bound((k - 1) as nat)
    }
}

/// The frequency bound stays within `4^8` for the eight octaves allowed.
proof fn lemma_freq_bound_at_most(k: nat)
    requires
        k <= 8,
    ensures
        FP_ONE <= spec_freq_bound(k) <= 65_536 * FP_ONE,
    decreases k,
{
    reveal_with_fuel(spec_freq_bound, 9);
}

/// One octave's sample coordinate: the cell coordinate divided by the
/// scale, multiplied by the octave frequency, then offset.
pub open spec fn spec_sample_coord(c: int, scale: int, freq: int, off: int) -> int {
    spec_fp_mul(spec_fp_div(c, scale), freq) + off
}

/// Computes one octave's sample coordinate along one axis.
fn sample_coord(c: i64, scale: i64, freq: i64, off: i64) -> (r: i64)
    requires
        -FP_ONE <= c <= FP_ONE,
        FP_ONE / 10 <= scale <= 2 * FP_ONE,
        0 <= freq <= 65_536 * FP_ONE,
        -2 * FP_ONE <= off <= 2 * FP_ONE,
    ensures
        r == spec_sample_coord(c as int, scale as int, freq as int, off as int),
        -NOISE_COORD_BOUND <= r <= NOISE_COORD_BOUND,
{
    proof {
        lemma_multiply_divide_le(c * FP_ONE, scale as int, 10_000_000);
        lemma_div_multiples_vanish(-10_000_001, scale as int);
        lemma_div_is_ordered(scale * -10_000_001, c * FP_ONE, scale as int);
    }
    let t1: i64 = fp_div(c, scale);
    proof {
        assert(t1 * freq <= 700_000_000_000 * FP_ONE && t1 * freq >= -(700_000_000_000 * FP_ONE))
            by (nonlinear_arith)
            requires
                -10_000_001 <= t1 <= 10_000_000,
                0 <= freq <= 65_536 * FP_ONE,
        ;
        lemma_fp_floor_le(t1 * freq, 700_000_000_000);
        lemma_fp_floor_ge(t1 * freq, -700_000_000_000);
    }
    let t2: i64 = fp_mul(t1, freq);
    t2 + off
}

/// The fractal octave sum with `k` octaves left, starting from the given
/// amplitude and frequency: each octave adds the noise at its sample
/// point, weighted by the amplitude; the amplitude then shrinks by the
/// persistence and the frequency grows by the lacunarity.
pub open spec fn spec_octaves(
    s: NoiseSettings,
    seed: u32,
    cx: int,
    cy: int,
    k: nat,
    amp: int,
    freq: int,
) -> int
    decreases k,
{
    if k == 0 {
        0
    } else {
        let sx = spec_sample_coord(cx, s.scale as int, freq, s.offset_x as int);
        let sy = spec_sample_coord(cy, s.scale as int, freq, s.offset_y as int);
        spec_fp_mul(spec_noise_sample(sx, sy, seed), amp) + spec_octaves(
            s,
            seed,
            cx,
            cy,
            (k - 1) as nat,
            spec_fp_mul(amp, s.persistence as int),
            spec_fp_mul(freq, s.lacunarity as int),
        )
    }
}

/// The raw (un-normalized) elevation at a sample point: the full octave
/// sum, starting at amplitude and frequency one. A pure function of the
/// settings, the seed and the point — this is what makes two generation
/// runs bit-identical.
pub open spec fn spec_raw_elevation(s: NoiseSettings, seed: u32, cx: int, cy: int) -> int {
    spec_octaves(s, seed, cx, cy, s.octaves as nat, FP_ONE as int, FP_ONE as int)
}

/// The raw elevation of flat cell `j` of a `w x h` field (row-major).
pub open spec fn spec_raw_cell(s: NoiseSettings, seed: u32, w: int, h: int, j: int) -> int {
    spec_raw_elevation(s, seed, spec_cell_coord(j % w, w), spec_cell_coord(j / w, h))
}

/// The minimum raw elevation over the first `n` cells of the field.
pub open spec fn spec_field_min(s: NoiseSettings, seed: u32, w: int, h: int, n: nat) -> int
    decreases n,
{
    if n <= 1 {
        spec_raw_cell(s, seed, w, h, 0)
    } else {
        let prev = spec_field_min(s, seed, w, h, (n - 1) as nat);
        let cur = spec_raw_cell(s, seed, w, h, n - 1);
        if cur < prev {
            cur
        } else {
            prev
        }
    }
}

/// The maximum raw elevation over the first `n` cells of the field.
pub open spec fn spec_field_max(s: NoiseSettings, seed: u32, w: int, h: int, n: nat) -> int
    decreases n,
{
    if n <= 1 {
        spec_raw_cell(s, seed, w, h, 0)
    } else {
        let prev = spec_field_max(s, seed, w, h, (n - 1) as nat);
        let cur = spec_raw_cell(s, seed, w, h, n - 1);
        if cur > prev {
            cur
        } else {
            prev
        }
    }
}

/// Computes the raw elevation at one sample point: the verified octave
/// accumulation loop.
fn raw_elevation(noise_settings: &NoiseSettings, seed: u32, cx: i64, cy: i64) -> (r: i64)
    requires
        noise_settings.wf(),
        -FP_ONE <= cx <= FP_ONE,
        -FP_ONE <= cy <= FP_ONE,
    ensures
        r == spec_raw_elevation(*noise_settings, seed, cx as int, cy as int),
        -8 * FP_ONE <= r <= 8 * FP_ONE,
{
    let s = *noise_settings;
    let octs: u32 = s.octaves;
    let mut amplitude: i64 = FP_ONE;
    let mut frequency: i64 = FP_ONE;
    let mut elevation: i64 = 0;
    let mut o: u32 = 0;
    while o < octs
        invariant
            s == *noise_settings,
            s.wf(),
            octs == s.octaves,
            -FP_ONE <= cx <= FP_ONE,
            -FP_ONE <= cy <= FP_ONE,
            o <= octs,
            0 <= amplitude <= FP_ONE,
            0 <= frequency <= spec_freq_bound(o as nat),
            -(o as int) * FP_ONE <= elevation <= (o as int) * FP_ONE,
            spec_raw_elevation(s, seed, cx as int, cy as int) == elevation + spec_octaves(
                s,
                seed,
                cx as int,
                cy as int,
                (octs - o) as nat,
                amplitude as int,
                frequency as int,
            ),
        decreases octs - o,
    {
        proof {
            lemma_freq_bound_at_most(o as nat);
        }
        let sx: i64 = sample_coord(cx, s.scale, frequency, s.offset_x);
        let sy: i64 = sample_coord(cy, s.scale, frequency, s.offset_y);
        let nv: i64 = noise_sample(sx, sy, seed);
        proof {
            assert(nv * amplitude <= FP_ONE * FP_ONE && nv * amplitude >= -(FP_ONE * FP_ONE)
                && amplitude * s.persistence <= FP_ONE * FP_ONE && amplitude * s.persistence >= 0
                && frequency * s.lacunarity >= 0 && frequency * s.lacunarity <= spec_freq_bound(
                o as nat,
            ) * (4 * FP_ONE)) by (nonlinear_arith)
                requires
                    -FP_ONE <= nv <= FP_ONE,
                    0 <= amplitude <= FP_ONE,
                    0 <= s.persistence <= FP_ONE,
                    0 <= s.lacunarity <= 4 * FP_ONE,
                    0 <= frequency <= spec_freq_bound(o as nat),
            ;
            lemma_fp_floor_le(nv * amplitude, FP_ONE as int);
            lemma_fp_floor_ge(nv * amplitude, -FP_ONE as int);
            lemma_fp_floor_le(amplitude * s.persistence, FP_ONE as int);
            lemma_fp_floor_le(frequency * s.lacunarity, 4 * spec_freq_bound(o as nat));
            assert(spec_freq_bound(o as nat) * (4 * FP_ONE) == (4 * spec_freq_bound(o as nat))
                * FP_ONE) by (nonlinear_arith);
            assert(spec_freq_bound((o + 1) as nat) == 4 * spec_freq_bound(o as nat));
            lemma_freq_bound_at_most((o + 1) as nat);
        }
        let term: i64 = fp_mul(nv, amplitude);
        let ghost k = (octs - o) as nat;
        let ghost amp0 = amplitude as int;
        let ghost freq0 = frequency as int;
        let ghost elev0 = elevation as int;
        elevation = elevation + term;
        amplitude = fp_mul(amplitude, s.persistence);
        frequency = fp_mul(frequency, s.lacunarity);
        proof {
            assert(spec_octaves(s, seed, cx as int, cy as int, k, amp0, freq0) == spec_fp_mul(
                spec_noise_sample(sx as int, sy as int, seed),
                amp0,
            ) + spec_octaves(
                s,
                seed,
                cx as int,
                cy as int,
                (k - 1) as nat,
                spec_fp_mul(amp0, s.persistence as int),
                spec_fp_mul(freq0, s.lacunarity as int),
            ));
        }
        o = o + 1;
    }
    elevation
}

/// Generates the raw elevation field for a `width x height` grid: one
/// octave-summed sample per column, row-major, together with the running
/// minimum and maximum of the field. The field is a pure function of the
/// settings and the seed.
#[verifier::rlimit(100)]
pub fn generate_elevation_map(
    width: usize,
    height: usize,
    noise_settings: &NoiseSettings,
    seed: u32,
) -> (r: (Vec<i64>, i64, i64))
    requires
        noise_settings.wf(),
        1 <= width <= 1_000_000,
        1 <= height <= 1_000_000,
    ensures
        r.0@.len() == width * height,
        forall|j: int|
            0 <= j < r.0@.len() ==> r.0@[j] == spec_raw_cell(
                *noise_settings,
                seed,
                width as int,
                height as int,
                j,
            ),
        forall|j: int| 0 <= j < r.0@.len() ==> -8 * FP_ONE <= #[trigger] r.0@[j] <= 8 * FP_ONE,
        forall|j: int| 0 <= j < r.0@.len() ==> r.1 <= #[trigger] r.0@[j] <= r.2,
        exists|j: int| 0 <= j < r.0@.len() && r.0@[j] == r.1,
        exists|j: int| 0 <= j < r.0@.len() && r.0@[j] == r.2,
        r.1 == spec_field_min(
            *noise_settings,
            seed,
            width as int,
            height as int,
            (width * height) as nat,
        ),
        r.2 == spec_field_max(
            *noise_settings,
            seed,
            width as int,
            height as int,
            (width * height) as nat,
        ),
{
    let ghost s = *noise_settings;
    let ghost wi = width as int;
    let ghost hi = height as int;
    let mut elevation: Vec<i64> = Vec::new();
    let mut min_v: i64 = i64::MAX;
    let mut max_v: i64 = i64::MIN;
    let mut y: usize = 0;
    while y < height
        invariant
            s == *noise_settings,
            s.wf(),
            wi == width,
            hi == height,
            1 <= width <= 1_000_000,
            1 <= height <= 1_000_000,
            y <= height,
            elevation@.len() == y * wi,
            forall|j: int|
                0 <= j < elevation@.len() ==> #[trigger] elevation@[j] == spec_raw_cell(
                    s,
                    seed,
                    wi,
                    hi,
                    j,
                ),
            forall|j: int|
                0 <= j < elevation@.len() ==> -8 * FP_ONE <= #[trigger] elevation@[j] <= 8
                    * FP_ONE,
            forall|j: int|
                0 <= j < elevation@.len() ==> min_v <= #[trigger] elevation@[j] <= max_v,
            elevation@.len() > 0 ==> min_v == spec_field_min(s, seed, wi, hi, elevation@.len())
                && max_v == spec_field_max(s, seed, wi, hi, elevation@.len()) && (exists|j: int|
                0 <= j < elevation@.len() && elevation@[j] == min_v) && (exists|j: int|
                0 <= j < elevation@.len() && elevation@[j] == max_v),
            elevation@.len() == 0 ==> min_v == i64::MAX && max_v == i64::MIN,
        decreases height - y,
    {
        let cy: i64 = cell_coord(y, height);
        let mut x: usize = 0;
        while x < width
            invariant
                s == *noise_settings,
                s.wf(),
                wi == width,
                hi == height,
                1 <= width <= 1_000_000,
                1 <= height <= 1_000_000,
                x <= width,
                y < height,
                cy == spec_cell_coord(y as int, hi),
                -FP_ONE <= cy < FP_ONE,
                elevation@.len() == y * wi + x,
                forall|j: int|
                    0 <= j < elevation@.len() ==> #[trigger] elevation@[j] == spec_raw_cell(
                        s,
                        seed,
                        wi,
                        hi,
                        j,
                    ),
                forall|j: int|
                    0 <= j < elevation@.len() ==> -8 * FP_ONE <= #[trigger] elevation@[j] <= 8
                        * FP_ONE,
                forall|j: int|
                    0 <= j < elevation@.len() ==> min_v <= #[trigger] elevation@[j] <= max_v,
                elevation@.len() > 0 ==> min_v == spec_field_min(s, seed, wi, hi, elevation@.len())
                    && max_v == spec_field_max(s, seed, wi, hi, elevation@.len()) && (exists|j: int|
                    0 <= j < elevation@.len() && elevation@[j] == min_v) && (exists|j: int|
                    0 <= j < elevation@.len() && elevation@[j] == max_v),
                elevation@.len() == 0 ==> min_v == i64::MAX && max_v == i64::MIN,
            decreases width - x,
        {
            let cx: i64 = cell_coord(x, width);
            let v: i64 = raw_elevation(noise_settings, seed, cx, cy);
            let ghost j = y * wi + x;
            proof {
                lemma_row_major_index(x as int, y as int, wi, hi);
                lemma_fundamental_div_mod_converse(j, wi, y as int, x as int);
                assert(spec_raw_cell(s, seed, wi, hi, j) == v);
            }
            let ghost old_elevation = elevation@;
            let ghost old_min = min_v;
            let ghost old_max = max_v;
            elevation.push(v);
            if v < min_v {
                min_v = v;
            }
            if v > max_v {
                max_v = v;
            }
            proof {
                let n = elevation@.len();
                assert(elevation@[n - 1] == v);
                if n == 1 {
                    assert(min_v == v && max_v == v);
                    assert(spec_field_min(s, seed, wi, hi, 1) == spec_raw_cell(s, seed, wi, hi, 0));
                    assert(spec_field_max(s, seed, wi, hi, 1) == spec_raw_cell(s, seed, wi, hi, 0));
                } else {
                    assert(spec_field_min(s, seed, wi, hi, n) == {
                        let prev = spec_field_min(s, seed, wi, hi, (n - 1) as nat);
                        let cur = spec_raw_cell(s, seed, wi, hi, n - 1);
                        if cur < prev {
                            cur
                        } else {
                            prev
                        }
                    });
                    assert(spec_field_max(s, seed, wi, hi, n) == {
                        let prev = spec_field_max(s, seed, wi, hi, (n - 1) as nat);
                        let cur = spec_raw_cell(s, seed, wi, hi, n - 1);
                        if cur > prev {
                            cur
                        } else {
                            prev
                        }
                    });
                    if old_min <= v {
                        let j0 = choose|j0: int|
                            0 <= j0 < old_elevation.len() && old_elevation[j0] == old_min;
                        assert(elevation@[j0] == min_v);
                    }
                    if old_max >= v {
                        let j1 = choose|j1: int|
                            0 <= j1 < old_elevation.len() && old_elevation[j1] == old_max;
                        assert(elevation@[j1] == max_v);
                    }
                }
            }
            x = x + 1;
        }
        proof {
            assert((y + 1) * wi == y * wi + wi) by (nonlinear_arith);
        }
        y = y + 1;
    }
    proof {
        assert(hi * wi == wi * hi) by (nonlinear_arith);
        assert(hi * wi >= 1) by (nonlinear_arith)
            requires
                hi >= 1,
                wi >= 1,
        ;
        assert(elevation@.len() == (width * height) as nat);
    }
    (elevation, min_v, max_v)
}

/// The material of the cell at normalized elevation `e` on z-level `z`.
///
/// `z_height = z / Z_LEVELS` is the layer's elevation band. The distance
/// of `e` from `z_height`, rounded to the nearest band multiple, decides:
/// strictly inside one band it is surface (Water at or below the water
/// level, else Grass); below the surface it is solid (Dirt within two
/// bands, else Rock); above the surface it is Water while the band is
/// submerged, else Air. The surface comparison is strict, so a cell
/// exactly one band away is sub-surface, not surface.
pub open spec fn spec_classify(e: int, z: int) -> TileType {
    let zh = z * (ELEVATION_MULTIPLIER as int);
    let d = if e >= zh {
        e - zh
    } else {
        zh - e
    };
    let steps = (d * (crate::Z_LEVELS as int) + HALF_FP) / (FP_ONE as int);
    let rounded = steps * (ELEVATION_MULTIPLIER as int);
    if rounded < ELEVATION_MULTIPLIER {
        if e <= WATER_LEVEL {
            TileType::Water
        } else {
            TileType::Grass
        }
    } else if zh < e {
        if rounded <= 2 * ELEVATION_MULTIPLIER {
            TileType::Dirt
        } else {
            TileType::Rock
        }
    } else if zh <= WATER_LEVEL {
        TileType::Water
    } else {
        TileType::Air
    }
}

/// The normalized elevation of flat cell `j`: the raw cell carried into
/// `[0, FP_ONE]` by the field's minimum and maximum. A degenerate
/// all-equal field normalizes to the constant 0 rather than dividing by
/// zero.
#[verifier::opaque]
pub open spec fn spec_normalized_cell(s: NoiseSettings, seed: u32, w: int, h: int, j: int) -> int {
    let mn = spec_field_min(s, seed, w, h, (w * h) as nat);
    let mx = spec_field_max(s, seed, w, h, (w * h) as nat);
    if mn < mx {
        spec_inverse_lerp(mn, mx, spec_raw_cell(s, seed, w, h, j))
    } else {
        0
    }
}

/// The tile that a completed generation pass leaves at `(cell j, level z)`.
pub open spec fn spec_generated_tile(
    s: NoiseSettings,
    seed: u32,
    w: int,
    h: int,
    z: int,
    j: int,
) -> Tile {
    Tile { visible: true, value: spec_classify(spec_normalized_cell(s, seed, w, h, j), z) }
}

/// Normalizes a raw field into `[0, FP_ONE]` in place, via
/// `(v - min) / (max - min)`; an all-equal field becomes all zero.
pub fn normalize_field(field: &mut Vec<i64>, min_v: i64, max_v: i64)
    requires
        forall|j: int| 0 <= j < old(field)@.len() ==> min_v <= #[trigger] old(field)@[j] <= max_v,
        -8 * FP_ONE <= min_v,
        max_v <= 8 * FP_ONE,
    ensures
        final (field)@.len() == old(field)@.len(),
        forall|j: int|
            0 <= j < old(field)@.len() ==> final (field)@[j] == (if min_v < max_v {
                spec_inverse_lerp(min_v as int, max_v as int, old(field)@[j] as int)
            } else {
                0
            }),
        forall|j: int| 0 <= j < final (field)@.len() ==> 0 <= #[trigger] final (field)@[j] <= FP_ONE,
{
    let n: usize = field.len();
    let mut j: usize = 0;
    while j < n
        invariant
            n == old(field)@.len(),
            field@.len() == n,
            j <= n,
            forall|k: int| 0 <= k < old(field)@.len() ==> min_v <= #[trigger] old(field)@[k] <= max_v,
            -8 * FP_ONE <= min_v,
            max_v <= 8 * FP_ONE,
            forall|k: int| j <= k < n ==> field@[k] == old(field)@[k],
            forall|k: int|
                0 <= k < j ==> #[trigger] field@[k] == (if min_v < max_v {
                    spec_inverse_lerp(min_v as int, max_v as int, old(field)@[k] as int)
                } else {
                    0
                }),
            forall|k: int| 0 <= k < j ==> 0 <= #[trigger] field@[k] <= FP_ONE,
        decreases n - j,
    {
        let v: i64 = field[j];
        if min_v < max_v {
            proof {
                lemma_inverse_lerp_range(min_v as int, max_v as int, v as int);
            }
            let nv: i64 = inverse_lerp(min_v, max_v, v);
            field.set(j, nv);
        } else {
            field.set(j, 0);
        }
        j = j + 1;
    }
}

/// Regenerates the map when the settings are marked changed: computes the
/// elevation field, normalizes it, and classifies every `(x, y, z)` cell
/// of the grid, leaving every tile visible. Does nothing (and returns no
/// event) when the settings are unchanged since the last run; otherwise
/// clears the dirty flag and returns the map-generated event, exactly
/// once per completed pass.
#[verifier::rlimit(100)]
pub fn generate_map(noise_settings: &mut NoiseSettings, seed: u32, map: &mut MapData) -> (ev:
    Option<MapGeneratedEvent>)
    requires
        old(noise_settings).wf(),
        old(map).wf(),
        1 <= old(map).spec_width() <= 1_000_000,
        1 <= old(map).spec_height() <= 1_000_000,
        old(map).spec_z_levels() == crate::Z_LEVELS as int,
    ensures
        *final (noise_settings) == (NoiseSettings { changed: false, ..*old(noise_settings) }),
        !old(noise_settings).changed ==> *final (map) == *old(map) && ev is None,
        old(noise_settings).changed ==> {
            &&& ev == Some(MapGeneratedEvent)
            &&& final (map).wf()
            &&& final (map).spec_width() == old(map).spec_width()
            &&& final (map).spec_height() == old(map).spec_height()
            &&& final (map).spec_z_levels() == old(map).spec_z_levels()
            &&& forall|z: int, j: int|
                0 <= z < crate::Z_LEVELS && 0 <= j < old(map).spec_width() * old(
                    map,
                ).spec_height() ==> final (map).grid()[z][j] == spec_generated_tile(
                    (NoiseSettings { changed: false, ..*old(noise_settings) }),
                    seed,
                    old(map).spec_width(),
                    old(map).spec_height(),
                    z,
                    j,
                )
        },
{
    if !noise_settings.changed {
        return None;
    }
    let ghost s = NoiseSettings { changed: false, ..*old(noise_settings) };
    noise_settings.changed = false;
    let width: usize = map.width();
    let height: usize = map.height();
    let ghost wi = width as int;
    let ghost hi = height as int;
    proof {
        map.lemma_grid_dims();
    }
    let (mut elevation, min_v, max_v) = generate_elevation_map(width, height, noise_settings, seed);
    normalize_field(&mut elevation, min_v, max_v);
    proof {
        assert(hi * wi == wi * hi) by (nonlinear_arith);
        assert forall|j: int| 0 <= j < wi * hi implies elevation@[j] == spec_normalized_cell(
            s,
            seed,
            wi,
            hi,
            j,
        ) by {
            reveal(spec_normalized_cell);
        }
    }
    let mut z: u16 = 0;
    while z < crate::Z_LEVELS
        invariant
            map.wf(),
            map.spec_width() == wi,
            map.spec_height() == hi,
            map.spec_z_levels() == crate::Z_LEVELS as int,
            wi == width,
            hi == height,
            1 <= wi <= 1_000_000,
            1 <= hi <= 1_000_000,
            z <= crate::Z_LEVELS,
            elevation@.len() == wi * hi,
            forall|j: int| 0 <= j < elevation@.len() ==> 0 <= #[trigger] elevation@[j] <= FP_ONE,
            forall|zz: int, j: int|
                0 <= zz < z && 0 <= j < wi * hi ==> map.grid()[zz][j] == (Tile {
                    visible: true,
                    value: spec_classify(elevation@[j] as int, zz),
                }),
        decreases crate::Z_LEVELS - z,
    {
        let mut y: usize = 0;
        while y < height
            invariant
                map.wf(),
                map.spec_width() == wi,
                map.spec_height() == hi,
                map.spec_z_levels() == crate::Z_LEVELS as int,
                wi == width,
                hi == height,
                1 <= wi <= 1_000_000,
                1 <= hi <= 1_000_000,
                z < crate::Z_LEVELS,
                y <= height,
                elevation@.len() == wi * hi,
                forall|j: int|
                    0 <= j < elevation@.len() ==> 0 <= #[trigger] elevation@[j] <= FP_ONE,
                forall|zz: int, j: int|
                    0 <= zz < z && 0 <= j < wi * hi ==> map.grid()[zz][j] == (Tile {
                        visible: true,
                        value: spec_classify(elevation@[j] as int, zz),
                    }),
                forall|j: int|
                    0 <= j < y * wi ==> map.grid()[z as int][j] == (Tile {
                        visible: true,
                        value: spec_classify(elevation@[j] as int, z as int),
                    }),
            decreases height - y,
        {
            let mut x: usize = 0;
            while x < width
                invariant
                    map.wf(),
                    map.spec_width() == wi,
                    map.spec_height() == hi,
                    map.spec_z_levels() == crate::Z_LEVELS as int,
                    wi == width,
                    hi == height,
                    1 <= wi <= 1_000_000,
                    1 <= hi <= 1_000_000,
                    z < crate::Z_LEVELS,
                    y < height,
                    x <= width,
                    elevation@.len() == wi * hi,
                    forall|j: int|
                        0 <= j < elevation@.len() ==> 0 <= #[trigger] elevation@[j] <= FP_ONE,
                    forall|zz: int, j: int|
                        0 <= zz < z && 0 <= j < wi * hi ==> map.grid()[zz][j] == (Tile {
                            visible: true,
                            value: spec_classify(elevation@[j] as int, zz),
                        }),
                    forall|j: int|
                        0 <= j < y * wi + x ==> map.grid()[z as int][j] == (Tile {
                            visible: true,
                            value: spec_classify(elevation@[j] as int, z as int),
                        }),
                decreases width - x,
            {
                proof {
                    lemma_row_major_index(x as int, y as int, wi, hi);
                    map.lemma_grid_dims();
                }
                let idx: usize = y * width + x;
                let e: i64 = elevation[idx];
                let value: TileType = classify(e, z);
                let pos = GridPos { x: x as u32, y: y as u32, z: z as u32 };
                let tile = Tile { visible: true, value };
                let ghost g0 = map.grid();
                let _res = map.set_tile(pos, tile);
                proof {
                    assert(map.in_bounds(pos));
                    assert(map.flat_index(pos) == y * wi + x);
                    assert(map.grid()[z as int] == g0[z as int].update(y * wi + x, tile));
                }
                x = x + 1;
            }
            proof {
                assert((y + 1) * wi == y * wi + wi) by (nonlinear_arith);
            }
            y = y + 1;
        }
        proof {
            assert(hi * wi == wi * hi) by (nonlinear_arith);
        }
        z = z + 1;
    }
    proof {
        assert forall|zi: int, j: int|
            0 <= zi < crate::Z_LEVELS && 0 <= j < wi * hi implies map.grid()[zi][j]
            == spec_generated_tile(s, seed, wi, hi, zi, j) by {
            assert(elevation@[j] == spec_normalized_cell(s, seed, wi, hi, j));
        }
    }
    Some(MapGeneratedEvent)
}

/// Classifies one whole layer: writes, through the bounds-checked
/// `set_tile`, the visible tile that the normalized field assigns to each
/// of the layer's cells on z-level `z`.
pub fn classify_layer(layer: &mut Layer, field: &Vec<i64>, z: u16)
    requires
        old(layer).wf(),
        field@.len() == old(layer).spec_width() * old(layer).spec_height(),
        z < crate::Z_LEVELS,
        forall|j: int| 0 <= j < field@.len() ==> 0 <= #[trigger] field@[j] <= FP_ONE,
    ensures
        final (layer).wf(),
        final (layer).spec_width() == old(layer).spec_width(),
        final (layer).spec_height() == old(layer).spec_height(),
        forall|j: int|
            0 <= j < field@.len() ==> final (layer)@[j] == (Tile {
                visible: true,
                value: spec_classify(field@[j] as int, z as int),
            }),
{
    let w: usize = layer.width();
    let h: usize = layer.height();
    let ghost wi = w as int;
    let ghost hi = h as int;
    proof {
        layer.lemma_layer_dims();
    }
    let mut y: usize = 0;
    while y < h
        invariant
            layer.wf(),
            layer.spec_width() == wi,
            layer.spec_height() == hi,
            wi == w,
            hi == h,
            z < crate::Z_LEVELS,
            y <= h,
            field@.len() == wi * hi,
            forall|j: int| 0 <= j < field@.len() ==> 0 <= #[trigger] field@[j] <= FP_ONE,
            forall|j: int|
                0 <= j < y * wi ==> layer@[j] == (Tile {
                    visible: true,
                    value: spec_classify(field@[j] as int, z as int),
                }),
        decreases h - y,
    {
        let mut x: usize = 0;
        while x < w
            invariant
                layer.wf(),
                layer.spec_width() == wi,
                layer.spec_height() == hi,
                wi == w,
                hi == h,
                z < crate::Z_LEVELS,
                y < h,
                x <= w,
                field@.len() == wi * hi,
                forall|j: int| 0 <= j < field@.len() ==> 0 <= #[trigger] field@[j] <= FP_ONE,
                forall|j: int|
                    0 <= j < y * wi + x ==> layer@[j] == (Tile {
                        visible: true,
                        value: spec_classify(field@[j] as int, z as int),
                    }),
            decreases w - x,
        {
            proof {
                lemma_row_major_index(x as int, y as int, wi, hi);
                layer.lemma_layer_dims();
            }
            let idx: usize = y * w + x;
            let e: i64 = field[idx];
            let value: TileType = classify(e, z);
            let _res = layer.set_tile(x, y, Tile { visible: true, value });
            x = x + 1;
        }
        proof {
            assert((y + 1) * wi == y * wi + wi) by (nonlinear_arith);
        }
        y = y + 1;
    }
    proof {
        assert(hi * wi == wi * hi) by (nonlinear_arith);
    }
}

/// Determinism: two independent generation runs over the same settings
/// and seed produce identical elevation fields, value for value.
pub proof fn lemma_generation_deterministic(
    s: NoiseSettings,
    seed: u32,
    w: int,
    h: int,
    f1: Seq<i64>,
    f2: Seq<i64>,
)
    requires
        f1.len() == w * h,
        f2.len() == w * h,
        forall|j: int| 0 <= j < f1.len() ==> f1[j] == spec_raw_cell(s, seed, w, h, j),
        forall|j: int| 0 <= j < f2.len() ==> f2[j] == spec_raw_cell(s, seed, w, h, j),
    ensures
        f1 == f2,
{
    assert(f1 =~= f2);
}

/// The field minimum over the first `n` cells is attained and is a lower
/// bound; the maximum likewise.
proof fn lemma_field_extremes_attained(s: NoiseSettings, seed: u32, w: int, h: int, n: nat)
    requires
        n >= 1,
    ensures
        exists|j: int|
            0 <= j < n && spec_raw_cell(s, seed, w, h, j) == spec_field_min(s, seed, w, h, n),
        exists|j: int|
            0 <= j < n && spec_raw_cell(s, seed, w, h, j) == spec_field_max(s, seed, w, h, n),
        forall|j: int|
            0 <= j < n ==> spec_field_min(s, seed, w, h, n) <= #[trigger] spec_raw_cell(
                s,
                seed,
                w,
                h,
                j,
            ) <= spec_field_max(s, seed, w, h, n),
    decreases n,
{
    if n == 1 {
        assert(spec_raw_cell(s, seed, w, h, 0) == spec_field_min(s, seed, w, h, n));
        assert(spec_raw_cell(s, seed, w, h, 0) == spec_field_max(s, seed, w, h, n));
    } else {
        lemma_field_extremes_attained(s, seed, w, h, (n - 1) as nat);
        let prev_min = spec_field_min(s, seed, w, h, (n - 1) as nat);
        let prev_max = spec_field_max(s, seed, w, h, (n - 1) as nat);
        let cur = spec_raw_cell(s, seed, w, h, n - 1);
        if cur < prev_min {
            assert(spec_raw_cell(s, seed, w, h, n - 1) == spec_field_min(s, seed, w, h, n));
        } else {
            let j0 = choose|j0: int|
                0 <= j0 < n - 1 && spec_raw_cell(s, seed, w, h, j0) == prev_min;
            assert(spec_raw_cell(s, seed, w, h, j0) == spec_field_min(s, seed, w, h, n));
        }
        if cur > prev_max {
            assert(spec_raw_cell(s, seed, w, h, n - 1) == spec_field_max(s, seed, w, h, n));
        } else {
            let j1 = choose|j1: int|
                0 <= j1 < n - 1 && spec_raw_cell(s, seed, w, h, j1) == prev_max;
            assert(spec_raw_cell(s, seed, w, h, j1) == spec_field_max(s, seed, w, h, n));
        }
    }
}

/// Normalization: the normalized field lies in `[0, FP_ONE]`, attains 0
/// at the field's minimum, and — except in the degenerate all-equal case,
/// which normalizes to the constant 0 — attains `FP_ONE` at the maximum.
pub proof fn lemma_normalization_extremes(s: NoiseSettings, seed: u32, w: int, h: int)
    requires
        1 <= w,
        1 <= h,
    ensures
        forall|j: int|
            0 <= j < w * h ==> 0 <= #[trigger] spec_normalized_cell(s, seed, w, h, j) <= FP_ONE,
        exists|j: int| 0 <= j < w * h && spec_normalized_cell(s, seed, w, h, j) == 0,
        spec_field_min(s, seed, w, h, (w * h) as nat) != spec_field_max(
            s,
            seed,
            w,
            h,
            (w * h) as nat,
        ) ==> exists|j: int| 0 <= j < w * h && spec_normalized_cell(s, seed, w, h, j) == FP_ONE,
{
    reveal(spec_normalized_cell);
    assert(w * h >= 1) by (nonlinear_arith)
        requires
            w >= 1,
            h >= 1,
    ;
    let n = (w * h) as nat;
    lemma_field_extremes_attained(s, seed, w, h, n);
    let mn = spec_field_min(s, seed, w, h, n);
    let mx = spec_field_max(s, seed, w, h, n);
    let j0 = choose|j0: int| 0 <= j0 < n && spec_raw_cell(s, seed, w, h, j0) == mn;
    let j1 = choose|j1: int| 0 <= j1 < n && spec_raw_cell(s, seed, w, h, j1) == mx;
    assert(mn <= mx);
    assert forall|j: int| 0 <= j < w * h implies 0 <= #[trigger] spec_normalized_cell(
        s,
        seed,
        w,
        h,
        j,
    ) <= FP_ONE by {
        if mn < mx {
            lemma_inverse_lerp_range(mn, mx, spec_raw_cell(s, seed, w, h, j));
        }
    }
    if mn < mx {
        lemma_inverse_lerp_range(mn, mx, mn);
        assert(spec_normalized_cell(s, seed, w, h, j0) == 0);
        lemma_inverse_lerp_range(mn, mx, mx);
        assert(spec_normalized_cell(s, seed, w, h, j1) == FP_ONE);
    } else {
        assert(spec_normalized_cell(s, seed, w, h, j0) == 0);
    }
}

/// Classifies one cell of the normalized elevation field on z-level `z`.
pub fn classify(elevation: i64, z: u16) -> (t: TileType)
    requires
        0 <= elevation <= FP_ONE,
        z < crate::Z_LEVELS,
    ensures
        t == spec_classify(elevation as int, z as int),
{
    let zh: i64 = (z as i64) * ELEVATION_MULTIPLIER;
    let d: i64 = if elevation >= zh {
        elevation - zh
    } else {
        zh - elevation
    };
    let num: i64 = d * (crate::Z_LEVELS as i64) + HALF_FP;
    let steps: i64 = floor_div(num, FP_ONE);
    proof {
        lemma_div_pos_is_pos(num as int, FP_ONE as int);
        lemma_fp_floor_le(num as int, 41);
    }
    let rounded: i64 = steps * ELEVATION_MULTIPLIER;
    if rounded < ELEVATION_MULTIPLIER {
        if elevation <= WATER_LEVEL {
            TileType::Water
        } else {
            TileType::Grass
        }
    } else if zh < elevation {
        if rounded <= 2 * ELEVATION_MULTIPLIER {
            TileType::Dirt
        } else {
            TileType::Rock
        }
    } else if zh <= WATER_LEVEL {
        TileType::Water
    } else {
        TileType::Air
    }
}

} // verus!
