use vstd::prelude::*;

verus! {

/// Fixed-point steps per unit of length.
pub const SCALE: u64 = 1000;

/// Microseconds per second: time steps are given in microseconds.
pub const MICROS: u64 = 1000000;

/// Largest gravitational constant the arithmetic is sized for.
pub const G_LIMIT: u64 = 65536;

/// Largest mass the arithmetic is sized for.
pub const MASS_LIMIT: u64 = 16777216;

/// Largest squared cutoff distance, in square units.
pub const D2_LIMIT: u64 = 1099511627776;

/// Largest stop distance, in units.
pub const STOP_LIMIT: u64 = 1099511627776;

/// Longest time step, in microseconds, the arithmetic is sized for.
pub const DT_LIMIT: u64 = 4294967296;

/// A 2D vector in fixed point: `SCALE` steps per unit.
#[derive(Clone, Copy, Debug, PartialEq, Eq, Structural)]
pub struct Vector2 {
    pub x: i64,
    pub y: i64,
}

impl Vector2 {
    pub open spec fn zero_spec() -> Vector2 {
        Vector2 { x: 0, y: 0 }
    }

    /// The zero vector.
    pub fn zero() -> (r: Vector2)
        ensures
            r == Vector2::zero_spec(),
    {
        Vector2 { x: 0, y: 0 }
    }

    pub fn new(x: i64, y: i64) -> (r: Vector2)
        ensures
            r.x == x,
            r.y == y,
    {
        Vector2 { x, y }
    }
}

/// A line segment of a predicted path, from one waypoint to the next.
#[derive(Clone, Copy, Debug, PartialEq, Eq, Structural)]
pub struct Segment {
    pub start: Vector2,
    pub end: Vector2,
}

/// A body of the simulation: an attractor, an orbiter, or the player's vehicle.
#[derive(Clone, Copy, Debug, PartialEq, Eq, Structural)]
pub struct Body {
    pub position: Vector2,
    pub velocity: Vector2,
    pub mass: u64,
    pub radius: u64,
}

impl Body {
    /// The mass is within the range the force model is sized for.
    pub open spec fn wf(&self) -> bool {
        self.mass <= MASS_LIMIT
    }

    pub fn new(position: Vector2, velocity: Vector2, mass: u64, radius: u64) -> (r: Body)
        ensures
            r.position == position,
            r.velocity == velocity,
            r.mass == mass,
            r.radius == radius,
    {
        Body { position, velocity, mass, radius }
    }
}

/// Every body of the sequence is well formed.
pub open spec fn all_wf(bodies: Seq<Body>) -> bool {
    forall|i: int| 0 <= i < bodies.len() ==> #[trigger] bodies[i].wf()
}

/// The constants of the simulation.
#[derive(Clone, Copy, Debug, PartialEq, Eq, Structural)]
pub struct Config {
    /// Gravitational constant.
    pub g: u64,
    /// Squared distance, in square units, beyond which gravity is not applied.
    pub d2_max: u64,
    /// Distance, in units, at which a predicted path counts as a collision.
    pub stop_distance: u64,
    /// Most segments a prediction produces.
    pub max_steps: usize,
    /// Mass used for an orbiter when computing the pull on it.
    pub orbiter_mass: u64,
    /// Mass given to a new attractor.
    pub attractor_mass: u64,
    /// Radius, in units, given to a new attractor.
    pub attractor_radius: u64,
    /// Radius, in units, given to a new orbiter.
    pub orbiter_radius: u64,
}

impl Config {
    /// The constants are within the ranges the arithmetic is sized for.
    pub open spec fn wf(&self) -> bool {
        &&& self.g <= G_LIMIT
        &&& self.d2_max <= D2_LIMIT
        &&& self.stop_distance <= STOP_LIMIT
        &&& 0 < self.orbiter_mass <= MASS_LIMIT
        &&& 0 < self.attractor_mass <= MASS_LIMIT
        &&& self.attractor_radius > 0
        &&& self.orbiter_radius > 0
    }

    /// The standard constants: `G = 10`, cutoff `1_000_000` square units,
    /// stop distance 256, at most 10000 predicted segments, orbiter mass 1,
    /// attractor mass `1_000_000`, attractor radius 256, orbiter radius 128.
    pub fn standard() -> (r: Config)
        ensures
            r.wf(),
            r.g == 10,
            r.d2_max == 1000000,
            r.stop_distance == 256,
            r.max_steps == 10000,
            r.orbiter_mass == 1,
            r.attractor_mass == 1000000,
            r.attractor_radius == 256,
            r.orbiter_radius == 128,
    {
        Config {
            g: 10,
            d2_max: 1000000,
            stop_distance: 256,
            max_steps: 10000,
            orbiter_mass: 1,
            attractor_mass: 1000000,
            attractor_radius: 256,
            orbiter_radius: 128,
        }
    }
}

/// A celestial body's own constants: its radius, the rate at which it turns
/// (thousandths of a radian per second) and its mass.
#[derive(Clone, Copy, Debug, PartialEq, Eq, Structural)]
pub struct CelestialBody {
    pub radius: u64,
    pub angular_velocity: i64,
    pub mass: u64,
}

/// Marks a body as a source of gravity.
#[derive(Clone, Copy, Debug, PartialEq, Eq, Structural)]
pub struct OrbitParent {}

/// Marks a body as pulled by the sources of gravity.
#[derive(Clone, Copy, Debug, PartialEq, Eq, Structural)]
pub struct OrbitChild {}

/// Marks the camera that follows the player.
#[derive(Clone, Copy, Debug, PartialEq, Eq, Structural)]
pub struct PlayerCamera();

/// The player's vehicle controls, in thousandths: thrust per frame, the
/// multiplier applied while boosting, and the turn rate in thousandths of a
/// radian per second.
#[derive(Clone, Copy, Debug, PartialEq, Eq, Structural)]
pub struct PlayerVehicle {
    pub speed: u64,
    pub boost_modifier: u64,
    pub rotation_speed: u64,
}

impl PlayerVehicle {
    /// The controls are within the range the arithmetic is sized for.
    pub open spec fn wf(&self) -> bool {
        &&& self.speed <= MASS_LIMIT
        &&& self.boost_modifier <= MASS_LIMIT
        &&& self.rotation_speed <= MASS_LIMIT
    }

    /// The standard vehicle: thrust 8, boost multiplier 2, turn rate 4
    /// radians per second.
    pub fn standard() -> (r: PlayerVehicle)
        ensures
            r.wf(),
            r.speed == 8000,
            r.boost_modifier == 2000,
            r.rotation_speed == 4000,
    {
        PlayerVehicle { speed: 8000, boost_modifier: 2000, rotation_speed: 4000 }
    }
}

/// Marks the red team's home planet.
#[derive(Clone, Copy, Debug, PartialEq, Eq, Structural)]
pub struct TeamRedHomePlanet;

/// Marks the blue team's home planet.
#[derive(Clone, Copy, Debug, PartialEq, Eq, Structural)]
pub struct TeamBlueHomePlanet;

} // verus!
