use vstd::prelude::*;
use crate::components::{Body, CelestialBody, Config, Vector2, all_wf};

verus! {

/// The two home planets, at rest at (512, 0) and (512, 2048), each with the
/// configured attractor mass and radius.
pub fn home_planets(cfg: &Config) -> (r: Vec<Body>)
    requires
        cfg.wf(),
    ensures
        all_wf(r@),
        r@ == seq![
            Body { position: Vector2 { x: 512000, y: 0 }, velocity: Vector2 { x: 0, y: 0 }, mass: cfg.attractor_mass, radius: cfg.attractor_radius },
            Body { position: Vector2 { x: 512000, y: 2048000 }, velocity: Vector2 { x: 0, y: 0 }, mass: cfg.attractor_mass, radius: cfg.attractor_radius },
        ],
        forall|i: int| 0 <= i < r@.len() ==> #[trigger] r@[i].mass > 0 && r@[i].radius > 0,
        r@[0].position != r@[1].position,
{
    let mut r: Vec<Body> = Vec::new();
    r.push(Body { position: Vector2 { x: 512000, y: 0 }, velocity: Vector2 { x: 0, y: 0 }, mass: cfg.attractor_mass, radius: cfg.attractor_radius });
    r.push(Body { position: Vector2 { x: 512000, y: 2048000 }, velocity: Vector2 { x: 0, y: 0 }, mass: cfg.attractor_mass, radius: cfg.attractor_radius });
    assert(r@ =~= seq![
        Body { position: Vector2 { x: 512000, y: 0 }, velocity: Vector2 { x: 0, y: 0 }, mass: cfg.attractor_mass, radius: cfg.attractor_radius },
        Body { position: Vector2 { x: 512000, y: 2048000 }, velocity: Vector2 { x: 0, y: 0 }, mass: cfg.attractor_mass, radius: cfg.attractor_radius },
    ]);
    r
}

/// A home planet's own constants: radius 25, turning at -0.125 radians per
/// second (in thousandths), mass 10.
pub fn home_planet_body() -> (r: CelestialBody)
    ensures
        r.radius == 25,
        r.angular_velocity == -125,
        r.mass == 10,
{
    CelestialBody { radius: 25, angular_velocity: -125, mass: 10 }
}

/// The player's vehicle at rest at the origin, with the configured orbiter
/// mass and radius.
pub fn player_body(cfg: &Config) -> (r: Body)
    ensures
        r == (Body { position: Vector2 { x: 0, y: 0 }, velocity: Vector2 { x: 0, y: 0 }, mass: cfg.orbiter_mass, radius: cfg.orbiter_radius }),
{
    Body { position: Vector2 { x: 0, y: 0 }, velocity: Vector2 { x: 0, y: 0 }, mass: cfg.orbiter_mass, radius: cfg.orbiter_radius }
}

} // verus!
