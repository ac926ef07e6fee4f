use orbital::components::{Config, Vector2, MASS_LIMIT};
use orbital::gravity::gravity;
use orbital::numeric::{clamp_i128, isqrt_u64};

fn units(x: i64, y: i64) -> Vector2 {
    Vector2::new(x * 1000, y * 1000)
}

#[test]
fn zero_beyond_cutoff() {
    let cfg = Config::standard();
    let g = gravity(&cfg, units(0, 0), units(1001, 0), 1, 1_000_000);
    assert_eq!(g, Vector2::zero());
    let g = gravity(&cfg, units(0, 0), units(800, 800), 1, 1_000_000);
    assert_eq!(g, Vector2::zero());
}

#[test]
fn applied_at_cutoff() {
    let cfg = Config::standard();
    let g = gravity(&cfg, units(0, 0), units(1000, 0), 1, 1_000_000);
    // 10 * 1e6 / 1e6 = 10 units per second squared
    assert_eq!(g, Vector2::new(10_000, 0));
}

#[test]
fn exact_value_on_axis() {
    let cfg = Config::standard();
    let g = gravity(&cfg, units(0, 0), units(100, 0), 1, 1_000_000);
    assert_eq!(g, Vector2::new(1_000_000, 0));
    let g = gravity(&cfg, units(0, 0), units(-100, 0), 1, 1_000_000);
    assert_eq!(g, Vector2::new(-1_000_000, 0));
    let g = gravity(&cfg, units(0, 0), units(0, -100), 1, 1_000_000);
    assert_eq!(g, Vector2::new(0, -1_000_000));
}

#[test]
fn exact_value_diagonal() {
    let cfg = Config::standard();
    // distance 500: 1e7 / 250000 = 40, split 3:4
    let g = gravity(&cfg, units(0, 0), units(300, 400), 1, 1_000_000);
    assert_eq!(g, Vector2::new(24_000, 32_000));
    let g = gravity(&cfg, units(300, 400), units(0, 0), 1, 1_000_000);
    assert_eq!(g, Vector2::new(-24_000, -32_000));
}

#[test]
fn coincident_positions_give_zero() {
    let cfg = Config::standard();
    let g = gravity(&cfg, units(7, -3), units(7, -3), 1, 1_000_000);
    assert_eq!(g, Vector2::zero());
}

#[test]
fn points_toward_target() {
    let cfg = Config::standard();
    let o = Vector2::new(12_345, -67_890);
    let t = Vector2::new(-250_000, 310_000);
    let g = gravity(&cfg, o, t, 1, 1_000_000);
    assert!(g.x < 0);
    assert!(g.y > 0);
    let len = ((g.x as f64).powi(2) + (g.y as f64).powi(2)).sqrt();
    let (dx, dy) = ((t.x - o.x) as f64, (t.y - o.y) as f64);
    let d = (dx * dx + dy * dy).sqrt();
    let dot = (g.x as f64) * dx / d + (g.y as f64) * dy / d;
    assert!((dot - len).abs() < 2.0);
}

#[test]
fn weaker_with_distance() {
    let cfg = Config::standard();
    let near = gravity(&cfg, units(0, 0), units(100, 0), 1, 1_000_000);
    let far = gravity(&cfg, units(0, 0), units(200, 0), 1, 1_000_000);
    assert_eq!(far, Vector2::new(250_000, 0));
    assert!(near.x > far.x);
}

#[test]
fn stronger_with_mass() {
    let cfg = Config::standard();
    let light = gravity(&cfg, units(0, 0), units(100, 0), 1, 1_000_000);
    let heavy = gravity(&cfg, units(0, 0), units(100, 0), 1, 2_000_000);
    let heavy_object = gravity(&cfg, units(0, 0), units(100, 0), 2, 1_000_000);
    assert_eq!(heavy, Vector2::new(2_000_000, 0));
    assert_eq!(heavy_object, heavy);
    assert!(heavy.x > light.x);
}

#[test]
fn integer_square_roots() {
    assert_eq!(isqrt_u64(0), 0);
    assert_eq!(isqrt_u64(1), 1);
    assert_eq!(isqrt_u64(15), 3);
    assert_eq!(isqrt_u64(16), 4);
    assert_eq!(isqrt_u64(u64::MAX), 4_294_967_295);
}

#[test]
fn saturation() {
    assert_eq!(clamp_i128(i128::MAX), i64::MAX);
    assert_eq!(clamp_i128(i128::MIN), i64::MIN);
    assert_eq!(clamp_i128(-5), -5);
}

#[test]
fn swapping_positions_reverses_pull() {
    let cfg = Config::standard();
    let a = Vector2::new(12_345, -67_890);
    let b = Vector2::new(-250_000, 310_000);
    let ab = gravity(&cfg, a, b, 1, 1_000_000);
    let ba = gravity(&cfg, b, a, 1, 1_000_000);
    assert_eq!(ba, Vector2::new(-ab.x, -ab.y));
}

#[test]
fn saturated_pull_reverses_exactly() {
    let cfg = Config::standard();
    let a = Vector2::new(0, 0);
    let b = Vector2::new(1, 0);
    let ab = gravity(&cfg, a, b, MASS_LIMIT, MASS_LIMIT);
    let ba = gravity(&cfg, b, a, MASS_LIMIT, MASS_LIMIT);
    assert_eq!(ab, Vector2::new(i64::MAX, 0));
    assert_eq!(ba, Vector2::new(-i64::MAX, 0));
}
