//! Fixed-point helpers, the squirrel hash, and the isometric transforms.

use layered_terrain::utils::{
    cursor_to_world, floor_div, floor_mod, fp_div, fp_mul, inverse_lerp, iso_to_world, lerp,
    squirrel_noise, world_to_iso, FP_ONE,
};

#[test]
fn floor_division_rounds_toward_negative_infinity() {
    assert_eq!(floor_div(7, 2), 3);
    assert_eq!(floor_div(-7, 2), -4);
    assert_eq!(floor_div(-8, 2), -4);
    assert_eq!(floor_mod(7, 2), 1);
    assert_eq!(floor_mod(-7, 2), 1);
    assert_eq!(floor_mod(-8, 2), 0);
}

#[test]
fn fixed_point_arithmetic() {
    assert_eq!(fp_mul(2 * FP_ONE, 3 * FP_ONE), 6 * FP_ONE);
    assert_eq!(fp_mul(FP_ONE / 2, FP_ONE / 2), FP_ONE / 4);
    assert_eq!(fp_div(FP_ONE, 2 * FP_ONE), FP_ONE / 2);
    assert_eq!(fp_mul(-FP_ONE, FP_ONE / 2), -FP_ONE / 2);
}

#[test]
fn lerp_and_inverse_lerp_agree() {
    assert_eq!(lerp(0, FP_ONE, 250_000), 250_000);
    assert_eq!(lerp(-FP_ONE, FP_ONE, 500_000), 0);
    assert_eq!(lerp(10, 10, 123_456), 10);
    assert_eq!(inverse_lerp(0, 2 * FP_ONE, 500_000), 250_000);
    assert_eq!(inverse_lerp(-FP_ONE, FP_ONE, 0), 500_000);
    assert_eq!(inverse_lerp(0, FP_ONE, FP_ONE), FP_ONE);
}

#[test]
fn squirrel_noise_reference_values() {
    assert_eq!(squirrel_noise(5, 42), 2_437_620_502);
    assert_eq!(squirrel_noise(0, 0), 2_957_163_356);
    assert_eq!(squirrel_noise(-1, 7), 4_288_314_471);
    assert_eq!(squirrel_noise(123, 42), 3_043_516_250);
    // deterministic in both arguments
    assert_eq!(squirrel_noise(5, 42), squirrel_noise(5, 42));
    assert_ne!(squirrel_noise(5, 42), squirrel_noise(123, 42));
}

#[test]
fn iso_round_trip_holds_at_grid_points() {
    let tw = 32;
    let th = 16;
    for &(qx, qy) in [(0i64, 0i64), (3, -2), (-7, 11), (100, 100)].iter() {
        let (wx, wy) = iso_to_world(qx, qy, tw, th);
        assert_eq!(world_to_iso(wx, wy, tw, th), (qx, qy));
    }
}

#[test]
fn world_to_iso_floors_off_grid_points() {
    // (37, -9) with 32x16 tiles: the exact iso coordinates are fractional
    // and the transform floors them
    let p = world_to_iso(37, -9, 32, 16);
    assert_eq!(p, (1, -1));
    // the floored cell maps back to its anchor point
    assert_eq!(iso_to_world(1, -1, 32, 16), (32, 0));
}

#[test]
fn iso_to_world_reference_values() {
    assert_eq!(iso_to_world(0, 0, 32, 16), (0, 0));
    assert_eq!(iso_to_world(1, 0, 32, 16), (16, -8));
    assert_eq!(iso_to_world(0, 1, 32, 16), (-16, -8));
    assert_eq!(iso_to_world(2, 2, 32, 16), (0, -32));
}

#[test]
fn cursor_maps_through_window_centre_and_camera() {
    // window 800x600, cursor at the centre, unit zoom: the camera position
    let r = cursor_to_world(400, 300, 800, 600, 12, -7, FP_ONE);
    assert_eq!(r, (12, -7));
    // cursor 10 right of centre at double zoom: 20 world units right
    let r = cursor_to_world(410, 300, 800, 600, 0, 0, 2 * FP_ONE);
    assert_eq!(r, (20, 0));
}
