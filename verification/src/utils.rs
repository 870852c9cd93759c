//! Fixed-point arithmetic helpers, the integer hash noise primitive, and the
//! world/isometric coordinate transforms.
//!
//! A fixed-point value scales a continuous quantity by [`FP_ONE`]: the value
//! `1.0` is stored as `FP_ONE`, `0.5` as `FP_ONE / 2`, and so on. Division
//! always rounds toward negative infinity (floor), matching the mathematical
//! `/` on `int` for positive divisors.

use vstd::arithmetic::div_mod::{
    lemma_div_is_ordered, lemma_div_multiples_vanish, lemma_div_multiples_vanish_fancy,
    lemma_div_nonincreasing, lemma_div_pos_is_pos, lemma_fundamental_div_mod,
    lemma_fundamental_div_mod_converse_div, lemma_mod_division_less_than_divisor,
};
use vstd::arithmetic::mul::{
    lemma_mul_inequality, lemma_mul_is_commutative, lemma_mul_unary_negation,
};
use vstd::prelude::*;

verus! {

/// The fixed-point unit: this many raw units represent the value one.
pub const FP_ONE: i64 = 1_000_000;

/// Magnitude bound under which the interpolation helpers are free of overflow.
pub const FP_ARG_BOUND: i64 = 0x100_0000_0000;

/// Floor of `a / b` as a mathematical integer, for positive `b`.
///
/// Rust's `/` on signed integers truncates toward zero; this function instead
/// agrees with the spec-level Euclidean `/`, which floors for positive
/// divisors.
pub fn floor_div(a: i64, b: i64) -> (q: i64)
    requires
        b > 0,
        a > i64::MIN,
    ensures
        q == a as int / b as int,
{
    if a >= 0 {
        proof {
            lemma_div_nonincreasing(a as int, b as int);
            lemma_div_pos_is_pos(a as int, b as int);
        }
        ((a as u64) / (b as u64)) as i64
    } else {
        let n: u64 = (-a) as u64;
        let bu: u64 = b as u64;
        let qc: u64 = (n + bu - 1) / bu;
        proof {
            let ai = a as int;
            let bi = b as int;
            let ni = n as int;
            let qi = (ni + bi - 1) / bi;
            lemma_fundamental_div_mod(ni + bi - 1, bi);
            let r = (ni + bi - 1) % bi;
            assert(ni + bi - 1 == bi * qi + r);
            // qc fits in i64: qi <= ni because ni + bi - 1 <= bi * ni + (bi - 1)
            assert(ni + bi - 1 <= bi * ni + (bi - 1)) by {
                lemma_mul_inequality(1, bi, ni);
                lemma_mul_is_commutative(ni, bi);
            }
            lemma_div_is_ordered(ni + bi - 1, bi * ni + (bi - 1), bi);
            lemma_div_multiples_vanish_fancy(ni, bi - 1, bi);
            assert(qi <= ni);
            assert(qi >= 0) by {
                lemma_div_pos_is_pos(ni + bi - 1, bi);
            }
            // ai == (-qi) * bi + (bi - 1 - r), with 0 <= bi - 1 - r < bi
            assert((-qi) * bi == -(bi * qi)) by {
                lemma_mul_unary_negation(qi, bi);
                lemma_mul_is_commutative(qi, bi);
            }
            assert(ai == (-qi) * bi + (bi - 1 - r));
            lemma_fundamental_div_mod_converse_div(ai, bi, -qi, bi - 1 - r);
        }
        -(qc as i64)
    }
}

/// Euclidean remainder of `a / b`, for positive `b`: the exec counterpart
/// of the spec-level `%`, always in `[0, b)`.
pub fn floor_mod(a: i64, b: i64) -> (r: i64)
    requires
        b > 0,
        a > i64::MIN + b,
    ensures
        r == a as int % b as int,
{
    let q: i64 = floor_div(a, b);
    proof {
        lemma_fundamental_div_mod(a as int, b as int);
        lemma_mul_is_commutative(b as int, a as int / b as int);
        lemma_mod_division_less_than_divisor(a as int, b as int);
    }
    a - q * b
}

/// Dividing by `FP_ONE` keeps a value under any cap scaled by `FP_ONE`.
pub proof fn lemma_fp_floor_le(x: int, cap: int)
    requires
        x <= cap * FP_ONE,
    ensures
        x / (FP_ONE as int) <= cap,
{
    lemma_div_is_ordered(x, cap * FP_ONE, FP_ONE as int);
    lemma_div_multiples_vanish(cap, FP_ONE as int);
    lemma_mul_is_commutative(cap, FP_ONE as int);
}

/// Dividing by `FP_ONE` keeps a value above any floor scaled by `FP_ONE`.
pub proof fn lemma_fp_floor_ge(x: int, low: int)
    requires
        x >= low * FP_ONE,
    ensures
        x / (FP_ONE as int) >= low,
{
    lemma_div_is_ordered(low * FP_ONE, x, FP_ONE as int);
    lemma_div_multiples_vanish(low, FP_ONE as int);
    lemma_mul_is_commutative(low, FP_ONE as int);
}

/// The product of two fixed-point values, as a mathematical integer.
pub open spec fn spec_fp_mul(a: int, b: int) -> int {
    (a * b) / (FP_ONE as int)
}

/// Fixed-point multiplication: `(a * b) / FP_ONE`, floored.
pub fn fp_mul(a: i64, b: i64) -> (r: i64)
    requires
        i64::MIN < a * b <= i64::MAX,
    ensures
        r == spec_fp_mul(a as int, b as int),
        a * b >= 0 ==> r >= 0,
{
    let p: i64 = a * b;
    proof {
        if a * b >= 0 {
            lemma_div_pos_is_pos(a * b, FP_ONE as int);
        }
    }
    floor_div(p, FP_ONE)
}

/// The quotient of two fixed-point values, as a mathematical integer.
pub open spec fn spec_fp_div(a: int, b: int) -> int {
    (a * (FP_ONE as int)) / b
}

/// Fixed-point division: `(a * FP_ONE) / b`, floored; `b` must be positive.
pub fn fp_div(a: i64, b: i64) -> (r: i64)
    requires
        b > 0,
        i64::MIN < a * FP_ONE <= i64::MAX,
    ensures
        r == spec_fp_div(a as int, b as int),
{
    let p: i64 = a * FP_ONE;
    floor_div(p, b)
}

/// Linear interpolation from `a` to `b` by the fixed-point fraction `v`.
pub open spec fn spec_lerp(a: int, b: int, v: int) -> int {
    ((FP_ONE - v) * a + v * b) / (FP_ONE as int)
}

/// Linear interpolation: returns `(1 - v) * a + v * b` with `v` a
/// fixed-point fraction in `[0, FP_ONE]`.
pub fn lerp(a: i64, b: i64, v: i64) -> (r: i64)
    requires
        -FP_ARG_BOUND <= a <= FP_ARG_BOUND,
        -FP_ARG_BOUND <= b <= FP_ARG_BOUND,
        0 <= v <= FP_ONE,
    ensures
        r == spec_lerp(a as int, b as int, v as int),
{
    proof {
        assert((FP_ONE - v) * a <= FP_ONE * FP_ARG_BOUND && (FP_ONE - v) * a >= -(FP_ONE
            * FP_ARG_BOUND) && v * b <= FP_ONE * FP_ARG_BOUND && v * b >= -(FP_ONE
            * FP_ARG_BOUND)) by (nonlinear_arith)
            requires
                -FP_ARG_BOUND <= a <= FP_ARG_BOUND,
                -FP_ARG_BOUND <= b <= FP_ARG_BOUND,
                0 <= v <= FP_ONE,
        ;
    }
    let left: i64 = (FP_ONE - v) * a;
    let right: i64 = v * b;
    floor_div(left + right, FP_ONE)
}

/// The interpolation parameter that carries `v` from `a` to `b`:
/// `(v - a) / (b - a)` as a fixed-point fraction.
pub open spec fn spec_inverse_lerp(a: int, b: int, v: int) -> int {
    ((v - a) * (FP_ONE as int)) / (b - a)
}

/// Inverse linear interpolation: where `v` sits between `a` and `b`, as a
/// fixed-point fraction (0 at `a`, `FP_ONE` at `b`).
pub fn inverse_lerp(a: i64, b: i64, v: i64) -> (r: i64)
    requires
        a < b,
        b - a <= FP_ARG_BOUND,
        -FP_ARG_BOUND <= v - a <= FP_ARG_BOUND,
    ensures
        r == spec_inverse_lerp(a as int, b as int, v as int),
{
    let num: i64 = (v - a) * FP_ONE;
    floor_div(num, b - a)
}

/// First mixing constant of the squirrel hash.
pub const BIT_NOISE1: u32 = 0x68E31DA4;

/// Second mixing constant of the squirrel hash.
pub const BIT_NOISE2: u32 = 0xB5297A4D;

/// Third mixing constant of the squirrel hash.
pub const BIT_NOISE3: u32 = 0x1B56C4E9;

/// The squirrel hash of a position and seed: an avalanche of wrapping
/// multiplies, adds and xor-shifts, deterministic in its two arguments.
pub open spec fn spec_squirrel_noise(position: i32, seed: u32) -> u32 {
    let b0 = position as u32;
    let b1 = b0.wrapping_mul(BIT_NOISE1);
    let b2 = b1.wrapping_add(seed);
    let b3 = b2 ^ (b2 >> 8u32);
    let b4 = b3.wrapping_add(BIT_NOISE2);
    let b5 = b4 ^ (b4 << 8u32);
    let b6 = b5.wrapping_mul(BIT_NOISE3);
    b6 ^ (b6 >> 8u32)
}

/// Deterministic integer noise: hashes a 1-D position with a seed.
pub fn squirrel_noise(position: i32, seed: u32) -> (r: u32)
    ensures
        r == spec_squirrel_noise(position, seed),
{
    let mut bits: u32 = #[verifier::truncate] (position as u32);
    bits = bits.wrapping_mul(BIT_NOISE1);
    bits = bits.wrapping_add(seed);
    bits ^= bits >> 8u32;
    bits = bits.wrapping_add(BIT_NOISE2);
    bits ^= bits << 8u32;
    bits = bits.wrapping_mul(BIT_NOISE3);
    bits ^= bits >> 8u32;
    bits
}

/// Coordinate magnitude bound under which the isometric transforms are free
/// of overflow.
pub const ISO_COORD_BOUND: i64 = 0x4000_0000;

/// The isometric cell of a world point: component-wise
/// `floor(px / tw - py / th)` and `floor(-py / th - px / tw)`, written over
/// the common denominator `tw * th`.
pub open spec fn spec_world_to_iso(px: int, py: int, tw: int, th: int) -> (int, int) {
    ((px * th - py * tw) / (tw * th), (-(py * tw) - px * th) / (tw * th))
}

/// Transforms a point in world coordinates to an isometric grid cell.
///
/// World coordinates and tile dimensions must use one common scale (plain
/// pixels, or fixed-point); the ratios cancel it out.
pub fn world_to_iso(pos_x: i64, pos_y: i64, tile_width: i64, tile_height: i64) -> (r: (i64, i64))
    requires
        0 < tile_width <= ISO_COORD_BOUND,
        0 < tile_height <= ISO_COORD_BOUND,
        -ISO_COORD_BOUND <= pos_x <= ISO_COORD_BOUND,
        -ISO_COORD_BOUND <= pos_y <= ISO_COORD_BOUND,
    ensures
        (r.0 as int, r.1 as int) == spec_world_to_iso(
            pos_x as int,
            pos_y as int,
            tile_width as int,
            tile_height as int,
        ),
{
    proof {
        assert(pos_x * tile_height <= ISO_COORD_BOUND * ISO_COORD_BOUND && pos_x * tile_height
            >= -(ISO_COORD_BOUND * ISO_COORD_BOUND) && pos_y * tile_width <= ISO_COORD_BOUND
            * ISO_COORD_BOUND && pos_y * tile_width >= -(ISO_COORD_BOUND * ISO_COORD_BOUND)
            && tile_width * tile_height <= ISO_COORD_BOUND * ISO_COORD_BOUND && tile_width
            * tile_height >= 1) by (nonlinear_arith)
            requires
                0 < tile_width <= ISO_COORD_BOUND,
                0 < tile_height <= ISO_COORD_BOUND,
                -ISO_COORD_BOUND <= pos_x <= ISO_COORD_BOUND,
                -ISO_COORD_BOUND <= pos_y <= ISO_COORD_BOUND,
        ;
    }
    let u: i64 = pos_x * tile_height;
    let v: i64 = pos_y * tile_width;
    let den: i64 = tile_width * tile_height;
    let ix: i64 = floor_div(u - v, den);
    let iy: i64 = floor_div(-v - u, den);
    (ix, iy)
}

/// The world point of an isometric cell: `((ix - iy) * tw / 2,
/// -(ix + iy) * th / 2)`, exact when the tile dimensions are even.
pub open spec fn spec_iso_to_world(ix: int, iy: int, tw: int, th: int) -> (int, int) {
    ((ix - iy) * (tw / 2), -((ix + iy) * (th / 2)))
}

/// Transforms an isometric grid cell to world coordinates (the cell's
/// anchor point).
pub fn iso_to_world(iso_x: i64, iso_y: i64, tile_width: i64, tile_height: i64) -> (r: (i64, i64))
    requires
        0 < tile_width <= ISO_COORD_BOUND,
        0 < tile_height <= ISO_COORD_BOUND,
        tile_width % 2 == 0,
        tile_height % 2 == 0,
        -ISO_COORD_BOUND <= iso_x <= ISO_COORD_BOUND,
        -ISO_COORD_BOUND <= iso_y <= ISO_COORD_BOUND,
    ensures
        (r.0 as int, r.1 as int) == spec_iso_to_world(
            iso_x as int,
            iso_y as int,
            tile_width as int,
            tile_height as int,
        ),
{
    let half_w: i64 = floor_div(tile_width, 2);
    let half_h: i64 = floor_div(tile_height, 2);
    proof {
        lemma_div_pos_is_pos(tile_width as int, 2);
        lemma_div_pos_is_pos(tile_height as int, 2);
        lemma_div_is_ordered(tile_width as int, ISO_COORD_BOUND as int, 2);
        lemma_div_is_ordered(tile_height as int, ISO_COORD_BOUND as int, 2);
        assert((iso_x - iso_y) * half_w <= 2 * ISO_COORD_BOUND * (ISO_COORD_BOUND / 2) && (iso_x
            - iso_y) * half_w >= -(2 * ISO_COORD_BOUND * (ISO_COORD_BOUND / 2)) && (iso_x + iso_y)
            * half_h <= 2 * ISO_COORD_BOUND * (ISO_COORD_BOUND / 2) && (iso_x + iso_y) * half_h
            >= -(2 * ISO_COORD_BOUND * (ISO_COORD_BOUND / 2))) by (nonlinear_arith)
            requires
                -ISO_COORD_BOUND <= iso_x <= ISO_COORD_BOUND,
                -ISO_COORD_BOUND <= iso_y <= ISO_COORD_BOUND,
                0 <= half_w <= ISO_COORD_BOUND / 2,
                0 <= half_h <= ISO_COORD_BOUND / 2,
        ;
    }
    let wx: i64 = (iso_x - iso_y) * half_w;
    let wy: i64 = -((iso_x + iso_y) * half_h);
    (wx, wy)
}

/// Round trip: an isometric cell sent to world coordinates and back is
/// unchanged. This holds exactly at iso-grid-aligned points; a general world
/// point first loses its fractional part to the floor in `world_to_iso`.
pub proof fn lemma_iso_round_trip(qx: int, qy: int, tw: int, th: int)
    requires
        tw > 0,
        th > 0,
        tw % 2 == 0,
        th % 2 == 0,
    ensures
        ({
            let w = spec_iso_to_world(qx, qy, tw, th);
            spec_world_to_iso(w.0, w.1, tw, th) == (qx, qy)
        }),
{
    let hw = tw / 2;
    let hh = th / 2;
    lemma_fundamental_div_mod(tw, 2);
    lemma_fundamental_div_mod(th, 2);
    assert(tw == 2 * hw && th == 2 * hh);
    let wx = (qx - qy) * hw;
    let wy = -((qx + qy) * hh);
    assert(wx * th - wy * tw == (tw * th) * qx && -(wy * tw) - wx * th == (tw * th) * qy)
        by (nonlinear_arith)
        requires
            tw == 2 * hw,
            th == 2 * hh,
            wx == (qx - qy) * hw,
            wy == -((qx + qy) * hh),
    ;
    assert(tw * th >= 1) by (nonlinear_arith)
        requires
            tw > 0,
            th > 0,
    ;
    lemma_div_multiples_vanish(qx, tw * th);
    lemma_div_multiples_vanish(qy, tw * th);
}

/// The world point under a cursor: the cursor offset from the window
/// centre, scaled, then translated by the camera position.
pub open spec fn spec_cursor_to_world(
    cx: int,
    cy: int,
    ww: int,
    wh: int,
    cam_x: int,
    cam_y: int,
    scale: int,
) -> (int, int) {
    (spec_fp_mul(cx - ww / 2, scale) + cam_x, spec_fp_mul(cy - wh / 2, scale) + cam_y)
}

/// Resolves a cursor position (window coordinates) to a world point, under
/// a camera at `(camera_x, camera_y)` with a fixed-point zoom `scale`.
pub fn cursor_to_world(
    cursor_x: i64,
    cursor_y: i64,
    window_width: i64,
    window_height: i64,
    camera_x: i64,
    camera_y: i64,
    scale: i64,
) -> (r: (i64, i64))
    requires
        0 <= window_width <= ISO_COORD_BOUND,
        0 <= window_height <= ISO_COORD_BOUND,
        window_width % 2 == 0,
        window_height % 2 == 0,
        -ISO_COORD_BOUND <= cursor_x <= ISO_COORD_BOUND,
        -ISO_COORD_BOUND <= cursor_y <= ISO_COORD_BOUND,
        0 <= scale <= ISO_COORD_BOUND,
        -ISO_COORD_BOUND <= camera_x <= ISO_COORD_BOUND,
        -ISO_COORD_BOUND <= camera_y <= ISO_COORD_BOUND,
    ensures
        (r.0 as int, r.1 as int) == spec_cursor_to_world(
            cursor_x as int,
            cursor_y as int,
            window_width as int,
            window_height as int,
            camera_x as int,
            camera_y as int,
            scale as int,
        ),
{
    let half_w: i64 = floor_div(window_width, 2);
    let half_h: i64 = floor_div(window_height, 2);
    let dx: i64 = cursor_x - half_w;
    let dy: i64 = cursor_y - half_h;
    proof {
        assert(dx * scale <= 2 * ISO_COORD_BOUND * ISO_COORD_BOUND && dx * scale >= -(2
            * ISO_COORD_BOUND * ISO_COORD_BOUND) && dy * scale <= 2 * ISO_COORD_BOUND
            * ISO_COORD_BOUND && dy * scale >= -(2 * ISO_COORD_BOUND * ISO_COORD_BOUND))
            by (nonlinear_arith)
            requires
                -2 * ISO_COORD_BOUND <= dx <= 2 * ISO_COORD_BOUND,
                -2 * ISO_COORD_BOUND <= dy <= 2 * ISO_COORD_BOUND,
                0 <= scale <= ISO_COORD_BOUND,
        ;
        lemma_div_is_ordered(-(2 * ISO_COORD_BOUND * ISO_COORD_BOUND), dx * scale, FP_ONE as int);
        lemma_div_is_ordered(dx * scale, 2 * ISO_COORD_BOUND * ISO_COORD_BOUND, FP_ONE as int);
        lemma_div_is_ordered(-(2 * ISO_COORD_BOUND * ISO_COORD_BOUND), dy * scale, FP_ONE as int);
        lemma_div_is_ordered(dy * scale, 2 * ISO_COORD_BOUND * ISO_COORD_BOUND, FP_ONE as int);
    }
    let sx: i64 = fp_mul(dx, scale);
    let sy: i64 = fp_mul(dy, scale);
    (sx + camera_x, sy + camera_y)
}

/// `spec_lerp` stays within any interval that contains both endpoints.
pub proof fn lemma_lerp_range(a: int, b: int, v: int, lo: int, hi: int)
    requires
        lo <= a <= hi,
        lo <= b <= hi,
        0 <= v <= FP_ONE,
    ensures
        lo <= spec_lerp(a, b, v) <= hi,
{
    let x = (FP_ONE - v) * a + v * b;
    assert((FP_ONE as int) * lo <= x && x <= (FP_ONE as int) * hi) by (nonlinear_arith)
        requires
            lo <= a <= hi,
            lo <= b <= hi,
            0 <= v <= FP_ONE,
            x == (FP_ONE - v) * a + v * b,
    ;
    lemma_div_is_ordered((FP_ONE as int) * lo, x, FP_ONE as int);
    lemma_div_is_ordered(x, (FP_ONE as int) * hi, FP_ONE as int);
    lemma_div_multiples_vanish(lo, FP_ONE as int);
    lemma_div_multiples_vanish(hi, FP_ONE as int);
}

/// `spec_inverse_lerp` maps `[a, b]` onto `[0, FP_ONE]`, exactly 0 at `a`
/// and exactly `FP_ONE` at `b`.
pub proof fn lemma_inverse_lerp_range(a: int, b: int, v: int)
    requires
        a < b,
        a <= v <= b,
    ensures
        0 <= spec_inverse_lerp(a, b, v) <= FP_ONE,
        v == a ==> spec_inverse_lerp(a, b, v) == 0,
        v == b ==> spec_inverse_lerp(a, b, v) == FP_ONE,
{
    let d = b - a;
    let num = (v - a) * (FP_ONE as int);
    lemma_div_pos_is_pos(num, d);
    assert(num <= d * (FP_ONE as int)) by {
        lemma_mul_inequality(v - a, d, FP_ONE as int);
        lemma_mul_is_commutative(d, FP_ONE as int);
    }
    lemma_div_is_ordered(num, d * (FP_ONE as int), d);
    lemma_div_multiples_vanish(FP_ONE as int, d);
    if v == b {
        assert(num == d * (FP_ONE as int)) by {
            lemma_mul_is_commutative(d, FP_ONE as int);
        }
    }
    if v == a {
        assert(num == 0) by {
            lemma_mul_is_commutative(0, FP_ONE as int);
        }
        lemma_div_multiples_vanish(0, d);
        assert(d * 0 == 0) by {
            lemma_mul_is_commutative(d, 0);
        }
    }
}

} // verus!
