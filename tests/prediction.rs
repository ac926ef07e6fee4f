use orbital::components::{Body, Config, Segment, Vector2};
use orbital::gravity::gravity;
use orbital::trajectory::draw_player_orbit;

const FRAME: u64 = 16_667;

#[test]
fn falls_into_single_attractor() {
    let cfg = Config::standard();
    let atts = vec![Body::new(Vector2::zero(), Vector2::zero(), 1_000_000, 256)];
    let pos = Vector2::new(512_000, 0);
    let vel = Vector2::new(0, 64_000);
    let first = gravity(&cfg, pos, atts[0].position, 1, 1_000_000);
    assert!(first.x < 0);
    assert_eq!(first.y, 0);
    let path = draw_player_orbit(&cfg, pos, vel, &atts, FRAME);
    assert!(!path.is_empty());
    assert!(path.len() < cfg.max_steps);
    assert_eq!(path[0].start, pos);
    let end = path[path.len() - 1].end;
    let (x, y) = (end.x as i128, end.y as i128);
    assert!(x * x + y * y < 256_000i128 * 256_000);
    for s in &path[..path.len() - 1] {
        let (x, y) = (s.end.x as i128, s.end.y as i128);
        assert!(x * x + y * y >= 256_000i128 * 256_000);
    }
    assert!(path[1].end.x < pos.x);
}

#[test]
fn starts_inside_stop_distance() {
    let cfg = Config::standard();
    let atts = vec![Body::new(Vector2::zero(), Vector2::zero(), 1_000_000, 256)];
    let path = draw_player_orbit(&cfg, Vector2::new(255_000, 0), Vector2::new(0, 64_000), &atts, FRAME);
    assert!(path.is_empty());
}

#[test]
fn capped_at_max_steps() {
    let mut cfg = Config::standard();
    cfg.max_steps = 5;
    let path = draw_player_orbit(&cfg, Vector2::zero(), Vector2::new(1_000, -2_000), &Vec::new(), 1_000_000);
    assert_eq!(path.len(), 5);
    for (i, s) in path.iter().enumerate() {
        let i = i as i64;
        assert_eq!(*s, Segment { start: Vector2::new(1_000 * i, -2_000 * i), end: Vector2::new(1_000 * (i + 1), -2_000 * (i + 1)) });
    }
}

#[test]
fn standard_cap_without_attractors() {
    let cfg = Config::standard();
    let path = draw_player_orbit(&cfg, Vector2::zero(), Vector2::zero(), &Vec::new(), FRAME);
    assert_eq!(path.len(), 10_000);
}

#[test]
fn same_inputs_same_path() {
    let cfg = Config::standard();
    let atts = vec![
        Body::new(Vector2::new(512_000, 0), Vector2::zero(), 1_000_000, 256),
        Body::new(Vector2::new(512_000, 2_048_000), Vector2::zero(), 1_000_000, 256),
    ];
    let a = draw_player_orbit(&cfg, Vector2::new(0, 300_000), Vector2::new(50_000, 0), &atts, FRAME);
    let b = draw_player_orbit(&cfg, Vector2::new(0, 300_000), Vector2::new(50_000, 0), &atts, FRAME);
    assert_eq!(a, b);
    for w in a.windows(2) {
        assert_eq!(w[0].end, w[1].start);
    }
}
