use vstd::prelude::*;
use crate::components::{Body, Config, Segment, Vector2, all_wf, SCALE, DT_LIMIT};
use crate::gravity::dist2;
use crate::numeric::{clamp64, clamp_i128};
use crate::orbit::{apply_gravity, apply_attractors, velocity_delta, scale_by_dt};

verus! {

/// `pos` lies closer than the stop distance to the attractor `att`.
pub open spec fn within_stop(cfg: Config, pos: Vector2, att: Body) -> bool {
    dist2(pos, att.position) < (cfg.stop_distance * SCALE) * (cfg.stop_distance * SCALE)
}

/// `pos` lies closer than the stop distance to some attractor.
pub open spec fn near_any(cfg: Config, pos: Vector2, atts: Seq<Body>) -> bool {
    exists|i: int| 0 <= i < atts.len() && within_stop(cfg, pos, #[trigger] atts[i])
}

/// Position `pos` moved by velocity `vel` over `dt` microseconds, saturated.
pub open spec fn advance(pos: Vector2, vel: Vector2, dt: int) -> Vector2 {
    Vector2 {
        x: clamp64(pos.x + velocity_delta(vel.x as int, dt)) as i64,
        y: clamp64(pos.y + velocity_delta(vel.y as int, dt)) as i64,
    }
}

/// The path predicted from `pos` moving at `vel`, at most `fuel` segments:
/// it stops as soon as the position is near an attractor; otherwise the
/// velocity takes every attractor's pull, the position moves by it, and the
/// segment from the old position to the new one is emitted.
pub open spec fn predict(cfg: Config, atts: Seq<Body>, dt: int, pos: Vector2, vel: Vector2, fuel: nat) -> Seq<Segment>
    decreases fuel,
{
    if fuel == 0 || near_any(cfg, pos, atts) {
        Seq::empty()
    } else {
        let v = apply_gravity(cfg, vel, pos, atts, dt);
        let next = advance(pos, v, dt);
        seq![Segment { start: pos, end: next }] + predict(cfg, atts, dt, next, v, (fuel - 1) as nat)
    }
}

/// A prediction has at most `fuel` segments.
pub proof fn lemma_predict_len(cfg: Config, atts: Seq<Body>, dt: int, pos: Vector2, vel: Vector2, fuel: nat)
    ensures
        predict(cfg, atts, dt, pos, vel, fuel).len() <= fuel,
    decreases fuel,
{
    if fuel > 0 && !near_any(cfg, pos, atts) {
        let v = apply_gravity(cfg, vel, pos, atts, dt);
        lemma_predict_len(cfg, atts, dt, advance(pos, v, dt), v, (fuel - 1) as nat);
    }
}

/// Determinism: the same inputs always give the same predicted path.
pub proof fn lemma_predict_deterministic(
    cfg: Config,
    atts1: Seq<Body>,
    atts2: Seq<Body>,
    dt: int,
    pos: Vector2,
    vel: Vector2,
    fuel: nat,
)
    requires
        atts1 == atts2,
    ensures
        predict(cfg, atts1, dt, pos, vel, fuel) == predict(cfg, atts2, dt, pos, vel, fuel),
{
}

/// Whether `pos` is closer than `limit` fixed-point steps to `target`.
fn closer_than(pos: Vector2, target: Vector2, limit: u64) -> (r: bool)
    requires
        limit <= 0x4_0000_0000_0000,
    ensures
        r == (dist2(pos, target) < limit * limit),
{
    let dx: i128 = target.x as i128 - pos.x as i128;
    let dy: i128 = target.y as i128 - pos.y as i128;
    let ax: u128 = if dx < 0 { (-dx) as u128 } else { dx as u128 };
    let ay: u128 = if dy < 0 { (-dy) as u128 } else { dy as u128 };
    assert(ax * ax == dx * dx && ay * ay == dy * dy) by (nonlinear_arith)
        requires
            ax == (if dx < 0 { -dx } else { dx as int }),
            ay == (if dy < 0 { -dy } else { dy as int }),
    ;
    assert(ax * ax >= 0 && ay * ay >= 0) by (nonlinear_arith);
    if ax >= limit as u128 || ay >= limit as u128 {
        assert(ax * ax >= limit * limit || ay * ay >= limit * limit) by (nonlinear_arith)
            requires
                ax >= limit || ay >= limit,
                limit >= 0,
        ;
        return false;
    }
    assert(ax * ax + ay * ay < 2 * 0x4_0000_0000_0000 * 0x4_0000_0000_0000) by (nonlinear_arith)
        requires
            ax < limit,
            ay < limit,
            limit <= 0x4_0000_0000_0000,
    ;
    let l: u128 = limit as u128;
    assert(l * l <= 0x4_0000_0000_0000 * 0x4_0000_0000_0000) by (nonlinear_arith)
        requires
            l <= 0x4_0000_0000_0000,
    ;
    ax * ax + ay * ay < l * l
}

/// Whether `pos` is closer than the stop distance to some attractor.
fn near_any_exec(cfg: &Config, pos: Vector2, attractors: &Vec<Body>) -> (r: bool)
    requires
        cfg.wf(),
    ensures
        r == near_any(*cfg, pos, attractors@),
{
    let limit: u64 = cfg.stop_distance * SCALE;
    let mut i: usize = 0;
    while i < attractors.len()
        invariant
            i <= attractors@.len(),
            limit == cfg.stop_distance * SCALE,
            limit <= 0x4_0000_0000_0000,
            forall|j: int| 0 <= j < i ==> !within_stop(*cfg, pos, #[trigger] attractors@[j]),
        decreases attractors@.len() - i,
    {
        if closer_than(pos, attractors[i].position, limit) {
            assert(within_stop(*cfg, pos, attractors@[i as int]));
            return true;
        }
        i = i + 1;
    }
    false
}

/// `a * dt / MICROS`, truncated toward zero, added to `p` with saturation.
fn advance_component(p: i64, a: i64, dt: u64) -> (r: i64)
    requires
        dt <= DT_LIMIT,
    ensures
        r == clamp64(p + velocity_delta(a as int, dt as int)),
{
    let d = scale_by_dt(a, dt);
    clamp_i128(p as i128 + d)
}

/// The trajectory predictor: the path that a body at `position` moving at
/// `velocity` would follow under the attractors' pull, one segment per frame
/// of `dt` microseconds, at most `cfg.max_steps` segments, ending early
/// once it comes closer than the stop distance to an attractor. Nothing is
/// changed: the same integrator as the orbit integrator is replayed on a copy.
pub fn draw_player_orbit(cfg: &Config, position: Vector2, velocity: Vector2, attractors: &Vec<Body>, dt: u64) -> (r: Vec<Segment>)
    requires
        cfg.wf(),
        all_wf(attractors@),
        dt <= DT_LIMIT,
    ensures
        r@ == predict(*cfg, attractors@, dt as int, position, velocity, cfg.max_steps as nat),
        r@.len() <= cfg.max_steps,
        near_any(*cfg, position, attractors@) ==> r@.len() == 0,
{
    let mut out: Vec<Segment> = Vec::new();
    let mut pos = position;
    let mut vel = velocity;
    let mut step: usize = 0;
    let mut stopped = false;
    while step < cfg.max_steps && !stopped
        invariant
            cfg.wf(),
            all_wf(attractors@),
            dt <= DT_LIMIT,
            step <= cfg.max_steps,
            stopped ==> near_any(*cfg, pos, attractors@),
            out@ + predict(*cfg, attractors@, dt as int, pos, vel, (cfg.max_steps - step) as nat)
                == predict(*cfg, attractors@, dt as int, position, velocity, cfg.max_steps as nat),
        decreases cfg.max_steps - step, (if stopped { 0int } else { 1int }),
    {
        if near_any_exec(cfg, pos, attractors) {
            stopped = true;
        } else {
            let v = apply_attractors(cfg, pos, vel, attractors, dt);
            let next = Vector2 { x: advance_component(pos.x, v.x, dt), y: advance_component(pos.y, v.y, dt) };
            let ghost rest = predict(*cfg, attractors@, dt as int, next, v, (cfg.max_steps - step - 1) as nat);
            assert(predict(*cfg, attractors@, dt as int, pos, vel, (cfg.max_steps - step) as nat)
                == seq![Segment { start: pos, end: next }] + rest);
            out.push(Segment { start: pos, end: next });
            assert(out@ + rest =~= (out@.drop_last() + seq![Segment { start: pos, end: next }]) + rest);
            pos = next;
            vel = v;
            step = step + 1;
        }
    }
    assert(out@ + Seq::<Segment>::empty() == out@);
    proof {
        lemma_predict_len(*cfg, attractors@, dt as int, position, velocity, cfg.max_steps as nat);
    }
    out
}

} // verus!
