use vstd::prelude::*;
use crate::components::{Body, Config, Vector2, all_wf, MICROS, DT_LIMIT};
use crate::gravity::{gravity, gravity_spec, lemma_opposite_offsets};
use crate::numeric::{abs, trunc_div, clamp64, clamp_i128, lemma_negation_commutes};

verus! {

/// The change of a velocity component over `dt` microseconds under an
/// acceleration component `a`: `a * dt / MICROS`, truncated.
pub open spec fn velocity_delta(a: int, dt: int) -> int {
    trunc_div(a * dt, MICROS as int)
}

/// The pull of one attractor on an orbiter at `pos`.
pub open spec fn pull_on(cfg: Config, pos: Vector2, att: Body) -> Vector2 {
    gravity_spec(cfg, pos, att.position, cfg.orbiter_mass as int, att.mass as int)
}

/// Velocity `v` after the pull of one attractor over `dt`, saturated.
pub open spec fn add_pull(cfg: Config, v: Vector2, pos: Vector2, att: Body, dt: int) -> Vector2 {
    let g = pull_on(cfg, pos, att);
    Vector2 {
        x: clamp64(v.x + velocity_delta(g.x as int, dt)) as i64,
        y: clamp64(v.y + velocity_delta(g.y as int, dt)) as i64,
    }
}

/// Velocity `v` of an orbiter at `pos` after the pulls of all attractors
/// over `dt`, added one attractor at a time in sequence order.
pub open spec fn apply_gravity(cfg: Config, v: Vector2, pos: Vector2, atts: Seq<Body>, dt: int) -> Vector2
    decreases atts.len(),
{
    if atts.len() == 0 {
        v
    } else {
        add_pull(cfg, apply_gravity(cfg, v, pos, atts.drop_last(), dt), pos, atts.last(), dt)
    }
}

/// `a` is within the range of `i64`.
pub open spec fn in_i64(a: int) -> bool {
    i64::MIN <= a <= i64::MAX
}

/// With no attractors an orbiter's velocity is left unchanged.
pub proof fn lemma_no_attractors(cfg: Config, v: Vector2, pos: Vector2, dt: int)
    ensures
        apply_gravity(cfg, v, pos, Seq::<Body>::empty(), dt) == v,
{
}

/// Superposition: where no velocity component saturates, the change in
/// velocity from two attractors together is the sum of the changes each
/// causes alone.
pub proof fn lemma_superposition(cfg: Config, v: Vector2, pos: Vector2, a: Body, b: Body, dt: int)
    requires
        ({
            let ga = pull_on(cfg, pos, a);
            let gb = pull_on(cfg, pos, b);
            let ax = velocity_delta(ga.x as int, dt);
            let ay = velocity_delta(ga.y as int, dt);
            let bx = velocity_delta(gb.x as int, dt);
            let by = velocity_delta(gb.y as int, dt);
            &&& in_i64(v.x + ax) && in_i64(v.x + bx) && in_i64(v.x + ax + bx)
            &&& in_i64(v.y + ay) && in_i64(v.y + by) && in_i64(v.y + ay + by)
        }),
    ensures
        ({
            let both = apply_gravity(cfg, v, pos, seq![a, b], dt);
            let only_a = apply_gravity(cfg, v, pos, seq![a], dt);
            let only_b = apply_gravity(cfg, v, pos, seq![b], dt);
            &&& both.x - v.x == (only_a.x - v.x) + (only_b.x - v.x)
            &&& both.y - v.y == (only_a.y - v.y) + (only_b.y - v.y)
        }),
{
    let ab = seq![a, b];
    assert(ab.drop_last() == seq![a]);
    assert(seq![a].drop_last() == Seq::<Body>::empty());
    assert(seq![b].drop_last() == Seq::<Body>::empty());
    assert(seq![a].last() == a);
    assert(seq![b].last() == b);
    assert(ab.last() == b);
    assert(apply_gravity(cfg, v, pos, Seq::<Body>::empty(), dt) == v);
    let only_a = apply_gravity(cfg, v, pos, seq![a], dt);
    assert(only_a == add_pull(cfg, v, pos, a, dt));
    assert(apply_gravity(cfg, v, pos, seq![b], dt) == add_pull(cfg, v, pos, b, dt));
    assert(apply_gravity(cfg, v, pos, ab, dt) == add_pull(cfg, only_a, pos, b, dt));
}

/// Symmetry: two attractors of equal mass at opposite offsets from an
/// orbiter cancel exactly, leaving its velocity unchanged, where the first
/// one's pull alone does not saturate the velocity.
pub proof fn lemma_symmetric_pair_cancels(cfg: Config, v: Vector2, pos: Vector2, a: Body, b: Body, dt: int)
    requires
        b.position.x - pos.x == -(a.position.x - pos.x),
        b.position.y - pos.y == -(a.position.y - pos.y),
        a.mass == b.mass,
        in_i64(v.x + velocity_delta(pull_on(cfg, pos, a).x as int, dt)),
        in_i64(v.y + velocity_delta(pull_on(cfg, pos, a).y as int, dt)),
    ensures
        apply_gravity(cfg, v, pos, seq![a, b], dt) == v,
{
    let ab = seq![a, b];
    assert(ab.drop_last() == seq![a]);
    assert(seq![a].drop_last() == Seq::<Body>::empty());
    assert(seq![a].last() == a);
    assert(ab.last() == b);
    assert(apply_gravity(cfg, v, pos, Seq::<Body>::empty(), dt) == v);
    lemma_opposite_offsets(cfg, pos, a.position, b.position, cfg.orbiter_mass as int, a.mass as int);
    let ga = pull_on(cfg, pos, a);
    let gb = pull_on(cfg, pos, b);
    lemma_opposite_delta(ga.x as int, gb.x as int, dt);
    lemma_opposite_delta(ga.y as int, gb.y as int, dt);
    let w = add_pull(cfg, v, pos, a, dt);
    assert(apply_gravity(cfg, v, pos, seq![a], dt) == w);
    assert(apply_gravity(cfg, v, pos, ab, dt) == add_pull(cfg, w, pos, b, dt));
}

proof fn lemma_opposite_delta(ga: int, gb: int, dt: int)
    requires
        gb == -ga,
    ensures
        velocity_delta(gb, dt) == -velocity_delta(ga, dt),
{
    assert(gb * dt == -(ga * dt)) by (nonlinear_arith)
        requires
            gb == -ga,
    ;
    lemma_negation_commutes(ga * dt, MICROS as int);
}

/// `a * dt / MICROS`, truncated toward zero.
pub(crate) fn scale_by_dt(a: i64, dt: u64) -> (r: i128)
    requires
        dt <= DT_LIMIT,
    ensures
        r == velocity_delta(a as int, dt as int),
        abs(r as int) <= 0x1_0000_0000_0000_0000_0000_0000,
{
    let m: u128 = if a < 0 { (0 - (a as i128)) as u128 } else { a as u128 };
    assert(m * dt <= 0x8000_0000_0000_0000 * DT_LIMIT) by (nonlinear_arith)
        requires
            m <= 0x8000_0000_0000_0000,
            dt <= DT_LIMIT,
    ;
    let p: u128 = m * dt as u128;
    let q: u128 = p / MICROS as u128;
    assert(q <= p);
    if a < 0 {
        assert(a * dt == -(m * dt)) by (nonlinear_arith)
            requires
                m == -a,
        ;
        -(q as i128)
    } else {
        q as i128
    }
}

/// One attractor's pull added to a velocity.
fn add_pull_exec(cfg: &Config, v: Vector2, pos: Vector2, att: &Body, dt: u64) -> (r: Vector2)
    requires
        cfg.wf(),
        att.wf(),
        dt <= DT_LIMIT,
    ensures
        r == add_pull(*cfg, v, pos, *att, dt as int),
{
    let g = gravity(cfg, pos, att.position, cfg.orbiter_mass, att.mass);
    let dx = scale_by_dt(g.x, dt);
    let dy = scale_by_dt(g.y, dt);
    Vector2 { x: clamp_i128(v.x as i128 + dx), y: clamp_i128(v.y as i128 + dy) }
}

/// The velocity of an orbiter at `position` moving at `velocity` after one
/// frame of `dt` microseconds under the pull of every attractor.
pub fn apply_attractors(cfg: &Config, position: Vector2, velocity: Vector2, attractors: &Vec<Body>, dt: u64) -> (r: Vector2)
    requires
        cfg.wf(),
        all_wf(attractors@),
        dt <= DT_LIMIT,
    ensures
        r == apply_gravity(*cfg, velocity, position, attractors@, dt as int),
{
    let mut v = velocity;
    let mut i: usize = 0;
    while i < attractors.len()
        invariant
            cfg.wf(),
            all_wf(attractors@),
            dt <= DT_LIMIT,
            i <= attractors@.len(),
            v == apply_gravity(*cfg, velocity, position, attractors@.subrange(0, i as int), dt as int),
        decreases attractors@.len() - i,
    {
        assert(attractors@.subrange(0, i as int + 1).drop_last() == attractors@.subrange(0, i as int));
        assert(attractors@[i as int].wf());
        v = add_pull_exec(cfg, v, position, &attractors[i], dt);
        i = i + 1;
    }
    assert(attractors@.subrange(0, i as int) == attractors@);
    v
}

/// The orbit integrator: one frame of `dt` microseconds. Each orbiter's
/// velocity takes the pull of every attractor; nothing else changes.
pub fn orbit_objects(cfg: &Config, orbiters: &mut Vec<Body>, attractors: &Vec<Body>, dt: u64)
    requires
        cfg.wf(),
        all_wf(attractors@),
        dt <= DT_LIMIT,
    ensures
        final(orbiters)@.len() == old(orbiters)@.len(),
        forall|i: int|
            0 <= i < old(orbiters)@.len() ==> #[trigger] final(orbiters)@[i] == (Body {
                velocity: apply_gravity(*cfg, old(orbiters)@[i].velocity, old(orbiters)@[i].position, attractors@, dt as int),
                ..old(orbiters)@[i]
            }),
{
    let mut i: usize = 0;
    while i < orbiters.len()
        invariant
            cfg.wf(),
            all_wf(attractors@),
            dt <= DT_LIMIT,
            i <= orbiters@.len(),
            orbiters@.len() == old(orbiters)@.len(),
            forall|j: int| i <= j < orbiters@.len() ==> #[trigger] orbiters@[j] == old(orbiters)@[j],
            forall|j: int|
                0 <= j < i ==> #[trigger] orbiters@[j] == (Body {
                    velocity: apply_gravity(*cfg, old(orbiters)@[j].velocity, old(orbiters)@[j].position, attractors@, dt as int),
                    ..old(orbiters)@[j]
                }),
        decreases orbiters@.len() - i,
    {
        let body = orbiters[i];
        let v = apply_attractors(cfg, body.position, body.velocity, attractors, dt);
        orbiters.set(i, Body { velocity: v, ..body });
        i = i + 1;
    }
}

} // verus!
