use vstd::prelude::*;
use crate::components::{PlayerVehicle, SCALE, DT_LIMIT};
use crate::numeric::trunc_div;

verus! {

/// Smallest camera scale, in thousandths.
pub const ZOOM_MIN: u64 = 250;

/// Largest camera scale, in thousandths.
pub const ZOOM_MAX: u64 = 2500;

/// The keys held during a frame.
#[derive(Clone, Copy, Debug, PartialEq, Eq, Structural)]
pub struct ControlInput {
    pub forward: bool,
    pub back: bool,
    pub left: bool,
    pub right: bool,
    pub boost: bool,
}

/// What the vehicle control decides for a frame: the thrust along the facing
/// direction (thousandths), which replaces the previous frame's, and the
/// turn to apply now (millionths of a radian, counter-clockwise positive).
#[derive(Clone, Copy, Debug, PartialEq, Eq, Structural)]
pub struct ControlOutput {
    pub thrust: i64,
    pub rotation_delta: i64,
}

/// An input axis from two opposing keys: 1, -1, or 0 when both or neither
/// are held.
pub open spec fn axis(pos: bool, neg: bool) -> int {
    (if pos { 1int } else { 0int }) - (if neg { 1int } else { 0int })
}

/// The thrust magnitude: speed times the boost multiplier while boosting.
pub open spec fn thrust_magnitude(v: PlayerVehicle, boost: bool) -> int {
    if boost {
        (v.speed * v.boost_modifier) / (SCALE as int)
    } else {
        v.speed as int
    }
}

/// The turn magnitude over `dt` microseconds, in millionths of a radian.
pub open spec fn turn_magnitude(v: PlayerVehicle, dt: int) -> int {
    (v.rotation_speed * dt) / (SCALE as int)
}

/// Vehicle control for one frame of `dt` microseconds: the thrust is the
/// forward axis times the thrust magnitude, the turn is minus the
/// right-hand axis times the turn rate over the frame.
pub fn move_player(vehicle: &PlayerVehicle, input: ControlInput, dt: u64) -> (r: ControlOutput)
    requires
        vehicle.wf(),
        dt <= DT_LIMIT,
    ensures
        r.thrust == axis(input.forward, input.back) * thrust_magnitude(*vehicle, input.boost),
        r.rotation_delta == -axis(input.right, input.left) * turn_magnitude(*vehicle, dt as int),
{
    assert(vehicle.speed * vehicle.boost_modifier <= 16777216 * 16777216) by (nonlinear_arith)
        requires
            vehicle.speed <= 16777216,
            vehicle.boost_modifier <= 16777216,
    ;
    assert(vehicle.rotation_speed * dt <= 16777216 * DT_LIMIT) by (nonlinear_arith)
        requires
            vehicle.rotation_speed <= 16777216,
            dt <= DT_LIMIT,
    ;
    let magnitude: u64 = if input.boost {
        vehicle.speed * vehicle.boost_modifier / SCALE
    } else {
        vehicle.speed
    };
    let turn: u64 = vehicle.rotation_speed * dt / SCALE;
    assert(magnitude <= vehicle.speed * vehicle.boost_modifier || magnitude == vehicle.speed);
    assert(turn <= vehicle.rotation_speed * dt);
    let ghost tm = thrust_magnitude(*vehicle, input.boost);
    let ghost rm = turn_magnitude(*vehicle, dt as int);
    assert(magnitude == tm);
    assert(turn == rm);
    let thrust: i64 = if input.forward && !input.back {
        assert(1 * tm == tm);
        magnitude as i64
    } else if input.back && !input.forward {
        assert(-1 * tm == -tm);
        -(magnitude as i64)
    } else {
        assert(0 * tm == 0);
        0
    };
    let rotation_delta: i64 = if input.right && !input.left {
        assert(-1 * rm == -rm);
        -(turn as i64)
    } else if input.left && !input.right {
        assert(-axis(input.right, input.left) == 1);
        assert(1 * rm == rm);
        turn as i64
    } else {
        assert(0 * rm == 0);
        0
    };
    ControlOutput { thrust, rotation_delta }
}

/// The zoom step over `dt` microseconds, in millionths: negative while
/// zooming in, positive while zooming out, zooming in winning when both
/// keys are held.
pub open spec fn zoom_step(zoom_in: bool, zoom_out: bool, dt: int) -> int {
    if zoom_in {
        -dt
    } else if zoom_out {
        dt
    } else {
        0
    }
}

/// The camera scale (thousandths) after one frame: unchanged without a step;
/// the nearer bound where `scale + step` would leave `[ZOOM_MIN, ZOOM_MAX]`;
/// otherwise the scale grown by `step` in proportion to itself, kept within
/// the bounds.
pub open spec fn zoom_spec(scale: int, zoom_in: bool, zoom_out: bool, dt: int) -> int {
    let step = zoom_step(zoom_in, zoom_out, dt);
    if step == 0 {
        scale
    } else if scale * 1000 + step > ZOOM_MAX * 1000 {
        ZOOM_MAX as int
    } else if scale * 1000 + step < ZOOM_MIN * 1000 {
        ZOOM_MIN as int
    } else {
        let s = scale + trunc_div(step * scale, 1000000);
        if s > ZOOM_MAX {
            ZOOM_MAX as int
        } else if s < ZOOM_MIN {
            ZOOM_MIN as int
        } else {
            s
        }
    }
}

/// Camera zoom for one frame of `dt` microseconds.
pub fn zoom_camera(scale: u64, zoom_in: bool, zoom_out: bool, dt: u64) -> (r: u64)
    requires
        dt <= DT_LIMIT,
    ensures
        r == zoom_spec(scale as int, zoom_in, zoom_out, dt as int),
        zoom_step(zoom_in, zoom_out, dt as int) != 0 ==> ZOOM_MIN <= r <= ZOOM_MAX,
{
    let d: i128 = dt as i128;
    let step: i128 = if zoom_in {
        -d
    } else if zoom_out {
        d
    } else {
        0
    };
    if step == 0 {
        return scale;
    }
    let sc: i128 = scale as i128;
    if sc * 1000 + step > ZOOM_MAX as i128 * 1000 {
        return ZOOM_MAX;
    }
    if sc * 1000 + step < ZOOM_MIN as i128 * 1000 {
        return ZOOM_MIN;
    }
    let m: u128 = if step < 0 { (-step) as u128 } else { step as u128 };
    assert(m * sc <= 0x1_0000_0000 * 0x100_0000) by (nonlinear_arith)
        requires
            m <= 0x1_0000_0000,
            0 <= sc <= 0x100_0000,
    ;
    let q: u128 = (m * sc as u128) / 1000000;
    assert(q <= m * sc);
    let delta: i128 = if step < 0 {
        assert(step * sc == -(m * sc)) by (nonlinear_arith)
            requires
                m == -step,
        ;
        -(q as i128)
    } else {
        q as i128
    };
    let s: i128 = sc + delta;
    if s > ZOOM_MAX as i128 {
        ZOOM_MAX
    } else if s < ZOOM_MIN as i128 {
        ZOOM_MIN
    } else {
        s as u64
    }
}

} // verus!
