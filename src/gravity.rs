use vstd::prelude::*;
use crate::components::{Config, Vector2, SCALE, G_LIMIT, MASS_LIMIT, D2_LIMIT};
use crate::numeric::{abs, trunc_div, sym_clamp64, isqrt, is_isqrt, isqrt_u64, sym_clamp_i128, lemma_isqrt, lemma_isqrt_unique, lemma_negation_commutes};
use vstd::arithmetic::div_mod::{lemma_div_is_ordered, lemma_div_is_ordered_by_denominator};

verus! {

/// `SCALE` cubed: converts a force in square units to fixed point.
pub const SCALE_CUBED: u64 = 1000000000;

/// Bound on a coordinate difference below which squares stay within `u128`.
const DIFF_LIMIT: u128 = 2147483648;

/// Squared distance between two points, in fixed-point square steps.
pub open spec fn dist2(a: Vector2, b: Vector2) -> int {
    (b.x - a.x) * (b.x - a.x) + (b.y - a.y) * (b.y - a.y)
}

/// The cutoff `d2_max` expressed in fixed-point square steps.
pub open spec fn cutoff(cfg: Config) -> int {
    cfg.d2_max * (SCALE * SCALE)
}

/// Magnitude of the pull between masses `m1` and `m2` at squared distance
/// `d2` (fixed point): `G * m1 * m2 / d2`, truncated.
pub open spec fn force_spec(cfg: Config, d2: int, m1: int, m2: int) -> int {
    (cfg.g * m1 * m2 * SCALE_CUBED) / d2
}

/// One component of the pull: the magnitude `force` times the component `d`
/// of the offset divided by the distance `root`, truncated and saturated
/// symmetrically about zero.
pub open spec fn component(force: int, d: int, root: int) -> int {
    sym_clamp64(trunc_div(force * d, root))
}

/// The pull exerted on an object at `o` of mass `m1` by a target at `t` of
/// mass `m2`. It is zero beyond the cutoff and where the two coincide;
/// otherwise it points from `o` toward `t` with magnitude `force_spec`.
pub open spec fn gravity_spec(cfg: Config, o: Vector2, t: Vector2, m1: int, m2: int) -> Vector2 {
    let d2 = dist2(o, t);
    if d2 > cutoff(cfg) || d2 == 0 {
        Vector2::zero_spec()
    } else {
        let f = force_spec(cfg, d2, m1, m2);
        let root = isqrt(d2 as nat) as int;
        Vector2 { x: component(f, t.x - o.x, root) as i64, y: component(f, t.y - o.y, root) as i64 }
    }
}

proof fn lemma_abs_square(a: int)
    ensures
        abs(a) * abs(a) == a * a,
        abs(a) * abs(a) >= 0,
{
    assert(a * a >= 0) by (nonlinear_arith);
    if a < 0 {
        assert((-a) * (-a) == a * a) by (nonlinear_arith);
    }
}

proof fn lemma_signed_product(f: int, d: int)
    requires
        f >= 0,
        d < 0,
    ensures
        f * d == -(f * (-d)),
        f * (-d) >= 0,
{
    assert(f * d == -(f * (-d))) by (nonlinear_arith);
    assert(f * (-d) >= 0) by (nonlinear_arith)
        requires
            f >= 0,
            d < 0,
    ;
}

/// One component of the pull computed from magnitude and offset.
fn pull_component(force: u128, d: i128, ad: u128, root: u64) -> (r: i64)
    requires
        force <= 0x4000_0000_0000_0000_0000_0000,
        ad == abs(d as int),
        ad <= DIFF_LIMIT,
        root >= 1,
    ensures
        r as int == component(force as int, d as int, root as int),
{
    assert(force * ad <= 0x4000_0000_0000_0000_0000_0000 * DIFF_LIMIT) by (nonlinear_arith)
        requires
            force <= 0x4000_0000_0000_0000_0000_0000,
            ad <= DIFF_LIMIT,
    ;
    let p: u128 = force * ad;
    let c: u128 = p / root as u128;
    assert(c <= p) by (nonlinear_arith)
        requires
            c as int == (p as int) / (root as int),
            root >= 1,
            p >= 0,
    ;
    if d < 0 {
        proof {
            lemma_signed_product(force as int, d as int);
        }
        sym_clamp_i128(-(c as i128))
    } else {
        sym_clamp_i128(c as i128)
    }
}

/// The force model: the pull on an object at `object` of mass `object_mass`
/// toward a target at `target` of mass `target_mass`, used directly as a
/// velocity change per second.
pub fn gravity(cfg: &Config, object: Vector2, target: Vector2, object_mass: u64, target_mass: u64) -> (r: Vector2)
    requires
        cfg.wf(),
        object_mass <= MASS_LIMIT,
        target_mass <= MASS_LIMIT,
    ensures
        r == gravity_spec(*cfg, object, target, object_mass as int, target_mass as int),
        dist2(object, target) > cutoff(*cfg) ==> r == Vector2::zero_spec(),
{
    let dx: i128 = target.x as i128 - object.x as i128;
    let dy: i128 = target.y as i128 - object.y as i128;
    let ax: u128 = if dx < 0 { (-dx) as u128 } else { dx as u128 };
    let ay: u128 = if dy < 0 { (-dy) as u128 } else { dy as u128 };
    assert(cfg.d2_max * 1000000 <= D2_LIMIT * 1000000) by (nonlinear_arith)
        requires
            cfg.d2_max <= D2_LIMIT,
    ;
    let limit: u128 = cfg.d2_max as u128 * (SCALE as u128 * SCALE as u128);
    proof {
        lemma_abs_square(dx as int);
        lemma_abs_square(dy as int);
        assert(limit < DIFF_LIMIT * DIFF_LIMIT);
    }
    if ax > DIFF_LIMIT || ay > DIFF_LIMIT {
        proof {
            if ax > DIFF_LIMIT {
                assert(ax * ax > DIFF_LIMIT * DIFF_LIMIT) by (nonlinear_arith)
                    requires
                        ax > DIFF_LIMIT,
                ;
            } else {
                assert(ay * ay > DIFF_LIMIT * DIFF_LIMIT) by (nonlinear_arith)
                    requires
                        ay > DIFF_LIMIT,
                ;
            }
        }
        return Vector2::zero();
    }
    assert(ax * ax <= DIFF_LIMIT * DIFF_LIMIT) by (nonlinear_arith)
        requires
            ax <= DIFF_LIMIT,
    ;
    assert(ay * ay <= DIFF_LIMIT * DIFF_LIMIT) by (nonlinear_arith)
        requires
            ay <= DIFF_LIMIT,
    ;
    let d2: u128 = ax * ax + ay * ay;
    assert(d2 == dist2(object, target));
    if d2 > limit || d2 == 0 {
        return Vector2::zero();
    }
    assert(cfg.g as int * object_mass as int * target_mass as int <= G_LIMIT as int * MASS_LIMIT as int * MASS_LIMIT as int) by (nonlinear_arith)
        requires
            cfg.g <= G_LIMIT,
            object_mass <= MASS_LIMIT,
            target_mass <= MASS_LIMIT,
    ;
    assert(cfg.g as int * object_mass as int <= G_LIMIT as int * MASS_LIMIT as int) by (nonlinear_arith)
        requires
            cfg.g <= G_LIMIT,
            object_mass <= MASS_LIMIT,
    ;
    let coeff: u128 = cfg.g as u128 * object_mass as u128 * target_mass as u128;
    assert(coeff * SCALE_CUBED <= 0x1_0000_0000_0000_0000 * SCALE_CUBED) by (nonlinear_arith)
        requires
            coeff <= 0x1_0000_0000_0000_0000,
    ;
    let scaled: u128 = coeff * SCALE_CUBED as u128;
    let force: u128 = scaled / d2;
    assert(force <= scaled) by (nonlinear_arith)
        requires
            force as int == (scaled as int) / (d2 as int),
            d2 >= 1,
            scaled >= 0,
    ;
    let root: u64 = isqrt_u64(d2 as u64);
    let gx = pull_component(force, dx, ax, root);
    let gy = pull_component(force, dy, ay, root);
    Vector2 { x: gx, y: gy }
}

/// Beyond the cutoff distance the pull is exactly zero.
pub proof fn lemma_beyond_cutoff_is_zero(cfg: Config, o: Vector2, t: Vector2, m1: int, m2: int)
    requires
        dist2(o, t) > cutoff(cfg),
    ensures
        gravity_spec(cfg, o, t, m1, m2) == Vector2::zero_spec(),
{
}

proof fn lemma_component_sign(f: int, d: int, root: int)
    requires
        f >= 0,
        root >= 1,
    ensures
        component(f, d, root) * d >= 0,
        d == 0 ==> component(f, d, root) == 0,
        abs(component(f, d, root)) <= abs(trunc_div(f * d, root)),
{
    let c = component(f, d, root);
    if d >= 0 {
        assert(f * d >= 0) by (nonlinear_arith)
            requires
                f >= 0,
                d >= 0,
        ;
        assert((f * d) / root >= 0) by (nonlinear_arith)
            requires
                f * d >= 0,
                root >= 1,
        ;
        assert(c >= 0);
        assert(c * d >= 0) by (nonlinear_arith)
            requires
                c >= 0,
                d >= 0,
        ;
        if d == 0 {
            assert(f * d == 0) by (nonlinear_arith)
                requires
                    d == 0,
            ;
            assert(0int / root == 0);
        }
    } else {
        lemma_signed_product(f, d);
        assert((f * (-d)) / root >= 0) by (nonlinear_arith)
            requires
                f * (-d) >= 0,
                root >= 1,
        ;
        assert(trunc_div(f * d, root) <= 0);
        assert(c <= 0);
        assert(c * d >= 0) by (nonlinear_arith)
            requires
                c <= 0,
                d < 0,
        ;
    }
}

/// Within the cutoff, away from the target, the pull points from the object
/// toward the target: each component has the sign of the offset `t - o` in
/// that axis (zero where the offset is zero), and is the magnitude
/// `force_spec` times that offset component over the distance, truncated.
pub proof fn lemma_points_toward_target(cfg: Config, o: Vector2, t: Vector2, m1: int, m2: int)
    requires
        0 < dist2(o, t) <= cutoff(cfg),
        m1 >= 0,
        m2 >= 0,
    ensures
        ({
            let g = gravity_spec(cfg, o, t, m1, m2);
            let f = force_spec(cfg, dist2(o, t), m1, m2);
            let root = isqrt(dist2(o, t) as nat) as int;
            &&& root >= 1
            &&& g.x * (t.x - o.x) >= 0
            &&& g.y * (t.y - o.y) >= 0
            &&& (t.x == o.x ==> g.x == 0)
            &&& (t.y == o.y ==> g.y == 0)
            &&& g.x == sym_clamp64(trunc_div(f * (t.x - o.x), root))
            &&& g.y == sym_clamp64(trunc_div(f * (t.y - o.y), root))
        }),
{
    let d2 = dist2(o, t);
    lemma_isqrt(d2 as nat);
    let root = isqrt(d2 as nat) as int;
    let k = cfg.g * m1 * m2 * SCALE_CUBED;
    assert(k >= 0) by (nonlinear_arith)
        requires
            cfg.g >= 0,
            m1 >= 0,
            m2 >= 0,
            k == cfg.g * m1 * m2 * SCALE_CUBED,
            SCALE_CUBED == 1000000000,
    ;
    assert(k / d2 >= 0) by (nonlinear_arith)
        requires
            k >= 0,
            d2 > 0,
    ;
    let f = force_spec(cfg, d2, m1, m2);
    lemma_component_sign(f, t.x - o.x, root);
    lemma_component_sign(f, t.y - o.y, root);
}

/// Swapping object and target reverses the pull exactly: the same magnitude
/// in the opposite direction, and zero both ways beyond the cutoff.
pub proof fn lemma_swap_reverses(cfg: Config, o: Vector2, t: Vector2, m1: int, m2: int)
    ensures
        gravity_spec(cfg, t, o, m1, m2).x == -gravity_spec(cfg, o, t, m1, m2).x,
        gravity_spec(cfg, t, o, m1, m2).y == -gravity_spec(cfg, o, t, m1, m2).y,
{
    assert(dist2(t, o) == dist2(o, t)) by (nonlinear_arith);
    assert(dist2(o, t) >= 0) by (nonlinear_arith);
    let d2 = dist2(o, t);
    if 0 < d2 <= cutoff(cfg) {
        lemma_isqrt(d2 as nat);
        let f = force_spec(cfg, d2, m1, m2);
        let root = isqrt(d2 as nat) as int;
        let dx = t.x - o.x;
        let dy = t.y - o.y;
        lemma_negated_component(f, dx, root);
        lemma_negated_component(f, dy, root);
        let cx = component(f, dx, root);
        let cy = component(f, dy, root);
        assert(o.x - t.x == -dx);
        assert(o.y - t.y == -dy);
        assert(component(f, o.x - t.x, root) == -cx);
        assert(component(f, o.y - t.y, root) == -cy);
    }
}

/// Targets at opposite offsets from the object pull it in exactly opposite
/// directions with the same magnitude.
pub proof fn lemma_opposite_offsets(cfg: Config, o: Vector2, t1: Vector2, t2: Vector2, m1: int, m2: int)
    requires
        t2.x - o.x == -(t1.x - o.x),
        t2.y - o.y == -(t1.y - o.y),
    ensures
        gravity_spec(cfg, o, t2, m1, m2).x == -gravity_spec(cfg, o, t1, m1, m2).x,
        gravity_spec(cfg, o, t2, m1, m2).y == -gravity_spec(cfg, o, t1, m1, m2).y,
{
    assert(dist2(o, t2) == dist2(o, t1)) by (nonlinear_arith)
        requires
            t2.x - o.x == -(t1.x - o.x),
            t2.y - o.y == -(t1.y - o.y),
    ;
    assert(dist2(o, t1) >= 0) by (nonlinear_arith);
    let d2 = dist2(o, t1);
    if 0 < d2 <= cutoff(cfg) {
        lemma_isqrt(d2 as nat);
        let f = force_spec(cfg, d2, m1, m2);
        let root = isqrt(d2 as nat) as int;
        let dx = t1.x - o.x;
        let dy = t1.y - o.y;
        lemma_negated_component(f, dx, root);
        lemma_negated_component(f, dy, root);
        assert(component(f, t2.x - o.x, root) == -component(f, dx, root));
        assert(component(f, t2.y - o.y, root) == -component(f, dy, root));
    }
}

proof fn lemma_negated_component(f: int, d: int, root: int)
    requires
        root >= 1,
    ensures
        component(f, -d, root) == -component(f, d, root),
{
    assert(f * (-d) == -(f * d)) by (nonlinear_arith);
    lemma_negation_commutes(f * d, root);
    lemma_negation_commutes(trunc_div(f * d, root), 1);
}

/// The magnitude of the pull does not grow with the squared distance: the
/// nearer of two positions feels at least as strong a pull.
pub proof fn lemma_force_decreases_with_distance(cfg: Config, d2_near: int, d2_far: int, m1: int, m2: int)
    requires
        0 < d2_near <= d2_far,
        m1 >= 0,
        m2 >= 0,
    ensures
        force_spec(cfg, d2_near, m1, m2) >= force_spec(cfg, d2_far, m1, m2),
{
    let k = cfg.g * m1 * m2 * SCALE_CUBED;
    assert(k >= 0) by (nonlinear_arith)
        requires
            cfg.g >= 0,
            m1 >= 0,
            m2 >= 0,
            k == cfg.g * m1 * m2 * SCALE_CUBED,
            SCALE_CUBED == 1000000000,
    ;
    lemma_div_is_ordered_by_denominator(k, d2_near, d2_far);
}

/// The magnitude of the pull does not shrink as either mass grows.
pub proof fn lemma_force_grows_with_mass(cfg: Config, d2: int, m1: int, m2: int, n1: int, n2: int)
    requires
        d2 > 0,
        0 <= m1 <= n1,
        0 <= m2 <= n2,
    ensures
        force_spec(cfg, d2, m1, m2) <= force_spec(cfg, d2, n1, n2),
{
    let k = cfg.g * m1 * m2 * SCALE_CUBED;
    let l = cfg.g * n1 * n2 * SCALE_CUBED;
    assert(k <= l) by (nonlinear_arith)
        requires
            cfg.g >= 0,
            0 <= m1 <= n1,
            0 <= m2 <= n2,
            k == cfg.g * m1 * m2 * SCALE_CUBED,
            l == cfg.g * n1 * n2 * SCALE_CUBED,
            SCALE_CUBED == 1000000000,
    ;
    lemma_div_is_ordered(k, l, d2);
}

/// Along an axis (object and target level in `y`), the returned pull is
/// exactly the magnitude `force_spec`, saturated, pointing at the target;
/// beyond the cutoff it is zero.
pub proof fn lemma_on_axis_magnitude(cfg: Config, o: Vector2, t: Vector2, m1: int, m2: int)
    requires
        t.y == o.y,
        t.x != o.x,
        m1 >= 0,
        m2 >= 0,
    ensures
        ({
            let g = gravity_spec(cfg, o, t, m1, m2);
            let d2 = dist2(o, t);
            &&& g.y == 0
            &&& d2 > cutoff(cfg) ==> g.x == 0
            &&& d2 <= cutoff(cfg) ==> abs(g.x as int) == sym_clamp64(force_spec(cfg, d2, m1, m2))
        }),
{
    let dx = t.x - o.x;
    let a = abs(dx);
    let d2 = dist2(o, t);
    lemma_abs_square(dx);
    assert(d2 == a * a);
    assert(a * a > 0) by (nonlinear_arith)
        requires
            a > 0,
    ;
    if d2 <= cutoff(cfg) {
        assert(a * a < (a + 1) * (a + 1)) by (nonlinear_arith)
            requires
                a > 0,
        ;
        assert(is_isqrt(d2 as nat, a as nat));
        lemma_isqrt(d2 as nat);
        lemma_isqrt_unique(d2 as nat, a as nat, isqrt(d2 as nat));
        let f = force_spec(cfg, d2, m1, m2);
        let k = cfg.g * m1 * m2 * SCALE_CUBED;
        assert(k >= 0) by (nonlinear_arith)
            requires
                cfg.g >= 0,
                m1 >= 0,
                m2 >= 0,
                k == cfg.g * m1 * m2 * SCALE_CUBED,
                SCALE_CUBED == 1000000000,
        ;
        assert(k / d2 >= 0) by (nonlinear_arith)
            requires
                k >= 0,
                d2 > 0,
        ;
        assert((f * a) / a == f) by (nonlinear_arith)
            requires
                a > 0,
        ;
        assert(f * 0 == 0);
        if dx < 0 {
            lemma_negated_component(f, a, a);
            assert(f * a >= 0) by (nonlinear_arith)
                requires
                    f >= 0,
                    a > 0,
            ;
        } else {
            assert(f * a >= 0) by (nonlinear_arith)
                requires
                    f >= 0,
                    a > 0,
            ;
        }
    }
}

/// The returned pull does not grow with distance: of two targets level with
/// the object, the farther one pulls no harder.
pub proof fn lemma_pull_decreases_with_distance(cfg: Config, o: Vector2, t1: Vector2, t2: Vector2, m1: int, m2: int)
    requires
        t1.y == o.y,
        t2.y == o.y,
        0 < dist2(o, t1) <= dist2(o, t2),
        m1 >= 0,
        m2 >= 0,
    ensures
        abs(gravity_spec(cfg, o, t2, m1, m2).x as int) <= abs(gravity_spec(cfg, o, t1, m1, m2).x as int),
        gravity_spec(cfg, o, t1, m1, m2).y == 0,
        gravity_spec(cfg, o, t2, m1, m2).y == 0,
{
    assert(t1.x != o.x) by {
        if t1.x == o.x {
            assert(dist2(o, t1) == 0);
        }
    }
    assert(t2.x != o.x) by {
        if t2.x == o.x {
            assert(dist2(o, t2) == 0);
        }
    }
    lemma_on_axis_magnitude(cfg, o, t1, m1, m2);
    lemma_on_axis_magnitude(cfg, o, t2, m1, m2);
    lemma_force_decreases_with_distance(cfg, dist2(o, t1), dist2(o, t2), m1, m2);
}

/// The returned pull does not shrink as either mass grows, for a target
/// level with the object.
pub proof fn lemma_pull_grows_with_mass(cfg: Config, o: Vector2, t: Vector2, m1: int, m2: int, n1: int, n2: int)
    requires
        t.y == o.y,
        t.x != o.x,
        0 <= m1 <= n1,
        0 <= m2 <= n2,
    ensures
        abs(gravity_spec(cfg, o, t, m1, m2).x as int) <= abs(gravity_spec(cfg, o, t, n1, n2).x as int),
{
    lemma_on_axis_magnitude(cfg, o, t, m1, m2);
    lemma_on_axis_magnitude(cfg, o, t, n1, n2);
    let dx = t.x - o.x;
    lemma_abs_square(dx);
    assert(abs(dx) * abs(dx) > 0) by (nonlinear_arith)
        requires
            abs(dx) > 0,
    ;
    lemma_force_grows_with_mass(cfg, dist2(o, t), m1, m2, n1, n2);
}

} // verus!
