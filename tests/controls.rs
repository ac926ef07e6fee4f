use orbital::components::PlayerVehicle;
use orbital::control::{move_player, zoom_camera, ControlInput, ZOOM_MAX, ZOOM_MIN};

const FRAME: u64 = 16_667;

fn keys(forward: bool, back: bool, left: bool, right: bool, boost: bool) -> ControlInput {
    ControlInput { forward, back, left, right, boost }
}

#[test]
fn thrust_from_keys() {
    let v = PlayerVehicle::standard();
    assert_eq!(move_player(&v, keys(true, false, false, false, false), FRAME).thrust, 8_000);
    assert_eq!(move_player(&v, keys(true, false, false, false, true), FRAME).thrust, 16_000);
    assert_eq!(move_player(&v, keys(false, true, false, false, false), FRAME).thrust, -8_000);
    assert_eq!(move_player(&v, keys(true, true, false, false, true), FRAME).thrust, 0);
    assert_eq!(move_player(&v, keys(false, false, false, false, true), FRAME).thrust, 0);
}

#[test]
fn turn_from_keys() {
    let v = PlayerVehicle::standard();
    assert_eq!(move_player(&v, keys(false, false, false, true, false), FRAME).rotation_delta, -66_668);
    assert_eq!(move_player(&v, keys(false, false, true, false, false), FRAME).rotation_delta, 66_668);
    assert_eq!(move_player(&v, keys(false, false, true, true, false), FRAME).rotation_delta, 0);
}

#[test]
fn zoom_steps() {
    assert_eq!(zoom_camera(1_000, true, false, FRAME), 984);
    assert_eq!(zoom_camera(1_000, false, true, FRAME), 1_016);
    assert_eq!(zoom_camera(1_000, true, true, FRAME), 984);
    assert_eq!(zoom_camera(1_000, false, false, FRAME), 1_000);
    assert_eq!(zoom_camera(1_000, true, false, 999), 1_000);
}

#[test]
fn zoom_counts_microseconds() {
    // 2.0 grown by 16667 millionths of itself
    assert_eq!(zoom_camera(2_000, false, true, FRAME), 2_033);
    assert_eq!(zoom_camera(2_000, true, false, FRAME), 1_967);
    // a frame under a millisecond still zooms
    assert_eq!(zoom_camera(2_000, false, true, 999), 2_001);
}

#[test]
fn zoom_bounds() {
    assert_eq!(zoom_camera(2_490, false, true, FRAME), ZOOM_MAX);
    assert_eq!(zoom_camera(2_480, false, true, FRAME), ZOOM_MAX);
    assert_eq!(zoom_camera(260, true, false, FRAME), ZOOM_MIN);
    assert_eq!(zoom_camera(5_000, true, false, FRAME), ZOOM_MAX);
}
