use orbital::components::{Body, Config, Vector2};
use orbital::orbit::{apply_attractors, orbit_objects};
use orbital::setup::{home_planet_body, home_planets, player_body};

const FRAME: u64 = 16_667;

fn attractor(x: i64, y: i64, mass: u64) -> Body {
    Body::new(Vector2::new(x * 1000, y * 1000), Vector2::zero(), mass, 256)
}

#[test]
fn no_attractors_keep_velocity() {
    let cfg = Config::standard();
    let mut orbiters = vec![Body::new(Vector2::new(5, 6), Vector2::new(-70, 80), 1, 1)];
    let before = orbiters.clone();
    orbit_objects(&cfg, &mut orbiters, &Vec::new(), FRAME);
    assert_eq!(orbiters, before);
}

#[test]
fn one_frame_of_pull() {
    let cfg = Config::standard();
    let mut orbiters = vec![Body::new(Vector2::zero(), Vector2::new(0, 64_000), 1, 1)];
    let atts = vec![attractor(100, 0, 1_000_000)];
    orbit_objects(&cfg, &mut orbiters, &atts, FRAME);
    // 1000 units/s^2 over 16667 us
    assert_eq!(orbiters[0].velocity, Vector2::new(16_667, 64_000));
    assert_eq!(orbiters[0].position, Vector2::zero());
}

#[test]
fn superposition_of_two_attractors() {
    let cfg = Config::standard();
    let pos = Vector2::new(1_000, -2_000);
    let v = Vector2::new(3_000, 4_000);
    let a = attractor(100, 0, 1_000_000);
    let b = attractor(-30, 240, 500_000);
    let only_a = apply_attractors(&cfg, pos, v, &vec![a], FRAME);
    let only_b = apply_attractors(&cfg, pos, v, &vec![b], FRAME);
    let both = apply_attractors(&cfg, pos, v, &vec![a, b], FRAME);
    assert_eq!(both.x - v.x, (only_a.x - v.x) + (only_b.x - v.x));
    assert_eq!(both.y - v.y, (only_a.y - v.y) + (only_b.y - v.y));
    assert_ne!(only_a, v);
    assert_ne!(only_b, v);
}

#[test]
fn symmetric_attractors_cancel() {
    let cfg = Config::standard();
    let atts = vec![attractor(-500, 0, 1_000_000), attractor(500, 0, 1_000_000)];
    let v = apply_attractors(&cfg, Vector2::zero(), Vector2::zero(), &atts, FRAME);
    assert_eq!(v.x, 0);
    assert_eq!(v.y, 0);
    let one = apply_attractors(&cfg, Vector2::zero(), Vector2::zero(), &vec![atts[0]], FRAME);
    assert!(one.x < 0);
}

#[test]
fn home_planet_layout() {
    let cfg = Config::standard();
    let planets = home_planets(&cfg);
    assert_eq!(planets.len(), 2);
    assert_eq!(planets[0].position, Vector2::new(512_000, 0));
    assert_eq!(planets[1].position, Vector2::new(512_000, 2_048_000));
    assert_eq!(planets[0].mass, 1_000_000);
    assert_eq!(planets[1].radius, 256);
    let p = player_body(&cfg);
    assert_eq!(p.position, Vector2::zero());
    assert_eq!(p.mass, 1);
    assert_eq!(p.radius, 128);
    let c = home_planet_body();
    assert_eq!((c.radius, c.angular_velocity, c.mass), (25, -125, 10));
}
