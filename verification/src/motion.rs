//! Motion estimator: a kinematic model of the ball from successive
//! observed positions, and a short-horizon forecast from it.

use vstd::prelude::*;
use crate::fixed::{
    div_toward_zero, fits_i32, lemma_product_bound, lemma_trunc_div_cancel, trunc_div, SCALE,
};
use crate::vector::Vec2;

verus! {

/// Why an observation was not taken into the model.
#[derive(Clone, Copy, Debug, PartialEq, Eq, Structural)]
pub enum MotionError {
    /// The elapsed time was zero or negative.
    InvalidTimeStep,
    /// A derivative of the motion left the range of coordinates.
    OutOfRange,
}

/// The tracked point: where it was last seen, and the velocity,
/// acceleration and jerk estimated from the observations so far.
///
/// The velocity is the quotient of the last movement by the time it took,
/// rounded to the grid. The movement and the time are kept beside it, so
/// that the next acceleration is taken from the velocity before rounding.
/// A `last_step` that is not positive means that no movement is on record
/// and the velocity is exactly `velocity`.
#[derive(Clone, Copy, Debug, PartialEq, Eq, Structural)]
pub struct Ball {
    pub position: Vec2,
    pub velocity: Vec2,
    pub acceleration: Vec2,
    pub jerk: Vec2,
    pub last_move_x: i64,
    pub last_move_y: i64,
    pub last_step: i32,
}

/// Finite difference of two successive values of a quantity over the time
/// `dt` between them, rounded toward zero to the grid.
pub open spec fn derivative(newer: int, older: int, dt: int) -> int {
    trunc_div((newer - older) * SCALE, dt)
}

/// Finite difference of two successive velocities over the time `dt`
/// between them, rounded once, toward zero, to the grid. The newer velocity
/// is the movement from `older` to `newer` over `dt`; the one before is
/// `v_num / v_den`. Neither is rounded first.
pub open spec fn second_derivative(newer: int, older: int, dt: int, v_num: int, v_den: int) -> int {
    trunc_div((((newer - older) * 1000) * v_den - v_num * dt) * 1000, v_den * (dt * dt))
}

/// Six times the third-order Taylor displacement over the horizon `h`, in
/// units of the grid cubed, from velocity `v`, acceleration `a` and jerk
/// `j`.
pub open spec fn taylor_numerator(v: int, a: int, j: int, h: int) -> int {
    6_000_000 * (v * h) + 3_000 * (a * (h * h)) + j * (h * h * h)
}

/// The displacement forecast over the horizon `h`: the third-order Taylor
/// displacement `v h + a h^2 / 2 + j h^3 / 6`, pushed further along itself
/// by the fraction `factor`, rounded once, toward zero, to the grid.
pub open spec fn forecast_displacement(v: int, a: int, j: int, h: int, factor: int) -> int {
    trunc_div((1000 + factor) * taylor_numerator(v, a, j, h), 6_000_000_000_000)
}

/// One coordinate of the forecast: the present coordinate `p` plus the
/// forecast displacement.
pub open spec fn forecast_coordinate(p: int, v: int, a: int, j: int, h: int, factor: int) -> int {
    p + forecast_displacement(v, a, j, h, factor)
}

/// Finite difference of two successive values over `dt`; `None` exactly
/// when it does not fit a coordinate.
fn derivative_of(newer: i32, older: i32, dt: i32) -> (r: Option<i32>)
    requires
        dt > 0,
    ensures
        fits_i32(derivative(newer as int, older as int, dt as int)) ==> r == Some(
            derivative(newer as int, older as int, dt as int) as i32,
        ),
        !fits_i32(derivative(newer as int, older as int, dt as int)) ==> r is None,
{
    let n: i128 = (newer as i128 - older as i128) * 1000;
    let q: i128 = div_toward_zero(n, dt as i128);
    if q < i32::MIN as i128 || q > i32::MAX as i128 {
        None
    } else {
        Some(q as i32)
    }
}

/// Finite difference of two successive velocities over `dt`, the one
/// before being `v_num / v_den`; `None` exactly when it does not fit a
/// coordinate.
fn second_derivative_of(newer: i32, older: i32, dt: i32, v_num: i128, v_den: i32) -> (r: Option<
    i32,
>)
    requires
        dt > 0,
        v_den >= 1,
        -0x8000_0000_0000_0000 * 1000 <= v_num <= 0x8000_0000_0000_0000 * 1000,
    ensures
        fits_i32(
            second_derivative(newer as int, older as int, dt as int, v_num as int, v_den as int),
        ) ==> r == Some(
            second_derivative(
                newer as int,
                older as int,
                dt as int,
                v_num as int,
                v_den as int,
            ) as i32,
        ),
        !fits_i32(
            second_derivative(newer as int, older as int, dt as int, v_num as int, v_den as int),
        ) ==> r is None,
{
    // The movement is below 2^32 and the velocity before below 2^73, so
    // the numerator stays below 2^116 and the denominator below 2^93.
    let step: i128 = dt as i128;
    let den: i128 = v_den as i128;
    let moved: i128 = (newer as i128 - older as i128) * 1000;
    proof {
        lemma_product_bound(moved as int, den as int, 0x1_0000_0000int * 1000, 0x8000_0000int);
        lemma_product_bound(
            v_num as int,
            step as int,
            0x8000_0000_0000_0000int * 1000,
            0x8000_0000int,
        );
        lemma_product_bound(step as int, step as int, 0x8000_0000int, 0x8000_0000int);
        lemma_product_bound(
            den as int,
            (step * step) as int,
            0x8000_0000int,
            0x8000_0000int * 0x8000_0000int,
        );
        assert(den * (step * step) >= 1) by (nonlinear_arith)
            requires
                den >= 1,
                step >= 1,
        ;
    }
    let n: i128 = (moved * den - v_num * step) * 1000;
    let d: i128 = den * (step * step);
    let q: i128 = div_toward_zero(n, d);
    if q < i32::MIN as i128 || q > i32::MAX as i128 {
        None
    } else {
        Some(q as i32)
    }
}

/// One coordinate of the forecast; `None` exactly when it does not fit a
/// coordinate.
fn forecast_of(p: i32, v: i32, a: i32, j: i32, h: i32, factor: i32) -> (r: Option<i32>)
    ensures
        fits_i32(
            forecast_coordinate(p as int, v as int, a as int, j as int, h as int, factor as int),
        ) ==> r == Some(
            forecast_coordinate(
                p as int,
                v as int,
                a as int,
                j as int,
                h as int,
                factor as int,
            ) as i32,
        ),
        !fits_i32(
            forecast_coordinate(p as int, v as int, a as int, j as int, h as int, factor as int),
        ) ==> r is None,
{
    // Every input is at most 2^31 in magnitude, so the numerator stays
    // below 2^125.
    let hw: i128 = h as i128;
    proof {
        lemma_product_bound(hw as int, hw as int, 0x8000_0000int, 0x8000_0000int);
    }
    let h2: i128 = hw * hw;
    proof {
        lemma_product_bound(h2 as int, hw as int, 0x8000_0000int * 0x8000_0000int, 0x8000_0000int);
        lemma_product_bound(v as int, hw as int, 0x8000_0000int, 0x8000_0000int);
        lemma_product_bound(a as int, h2 as int, 0x8000_0000int, 0x8000_0000int * 0x8000_0000int);
    }
    let h3: i128 = h2 * hw;
    proof {
        lemma_product_bound(
            j as int,
            h3 as int,
            0x8000_0000int,
            0x8000_0000int * 0x8000_0000int * 0x8000_0000int,
        );
    }
    let n: i128 = 6_000_000 * ((v as i128) * hw) + 3_000 * ((a as i128) * h2) + (j as i128) * h3;
    let m: i128 = 1000 + factor as i128;
    if m == 0 {
        assert(m * n == 0) by (nonlinear_arith)
            requires
                m == 0,
        ;
        return Some(p);
    }
    // A numerator this large puts the forecast out of range whatever the
    // factor; below it the product with the factor fits.
    if n > 0x1_0000_0000_0000_0000_0000 || n < -0x1_0000_0000_0000_0000_0000 {
        assert(m * n > 0x1_0000_0000_0000_0000_0000 || m * n < -0x1_0000_0000_0000_0000_0000)
            by (nonlinear_arith)
            requires
                m >= 1 || m <= -1,
                n > 0x1_0000_0000_0000_0000_0000 || n < -0x1_0000_0000_0000_0000_0000,
        ;
        return None;
    }
    proof {
        lemma_product_bound(m as int, n as int, 0x8000_03e8int, 0x1_0000_0000_0000_0000_0000int);
    }
    let d: i128 = div_toward_zero(m * n, 6_000_000_000_000);
    let q: i128 = p as i128 + d;
    if q < i32::MIN as i128 || q > i32::MAX as i128 {
        None
    } else {
        Some(q as i32)
    }
}

impl Ball {
    /// The model of a point first seen at `position`: at rest, with no
    /// history.
    pub open spec fn fresh(position: Vec2) -> Ball {
        Ball {
            position,
            velocity: Vec2 { x: 0, y: 0 },
            acceleration: Vec2 { x: 0, y: 0 },
            jerk: Vec2 { x: 0, y: 0 },
            last_move_x: 0,
            last_move_y: 0,
            last_step: 0,
        }
    }

    /// Numerators of the velocity before rounding, over
    /// [`Ball::velocity_den`].
    pub open spec fn velocity_num(self) -> (int, int) {
        if self.last_step >= 1 {
            (self.last_move_x * 1000, self.last_move_y * 1000)
        } else {
            (self.velocity.x as int, self.velocity.y as int)
        }
    }

    /// Denominator of the velocity before rounding.
    pub open spec fn velocity_den(self) -> int {
        if self.last_step >= 1 {
            self.last_step as int
        } else {
            1
        }
    }

    /// Velocity after observing the point at `p`, `dt` after the last
    /// observation.
    pub open spec fn next_velocity(self, p: Vec2, dt: int) -> (int, int) {
        (
            derivative(p.x as int, self.position.x as int, dt),
            derivative(p.y as int, self.position.y as int, dt),
        )
    }

    /// Acceleration after observing the point at `p`, `dt` after the last
    /// observation: the difference of the new velocity and the one before,
    /// both before rounding, over `dt`.
    pub open spec fn next_acceleration(self, p: Vec2, dt: int) -> (int, int) {
        (
            second_derivative(
                p.x as int,
                self.position.x as int,
                dt,
                self.velocity_num().0,
                self.velocity_den(),
            ),
            second_derivative(
                p.y as int,
                self.position.y as int,
                dt,
                self.velocity_num().1,
                self.velocity_den(),
            ),
        )
    }

    /// Jerk after observing the point at `p`, `dt` after the last
    /// observation.
    pub open spec fn next_jerk(self, p: Vec2, dt: int) -> (int, int) {
        (
            derivative(self.next_acceleration(p, dt).0, self.acceleration.x as int, dt),
            derivative(self.next_acceleration(p, dt).1, self.acceleration.y as int, dt),
        )
    }

    /// The observation of the point at `p`, `dt` after the last one, can be
    /// taken into the model: time has advanced and every new derivative
    /// fits a coordinate.
    pub open spec fn can_advance(self, p: Vec2, dt: int) -> bool {
        &&& dt > 0
        &&& fits_i32(self.next_velocity(p, dt).0)
        &&& fits_i32(self.next_velocity(p, dt).1)
        &&& fits_i32(self.next_acceleration(p, dt).0)
        &&& fits_i32(self.next_acceleration(p, dt).1)
        &&& fits_i32(self.next_jerk(p, dt).0)
        &&& fits_i32(self.next_jerk(p, dt).1)
    }

    /// The model after observing the point at `p`, `dt` after the last
    /// observation.
    pub open spec fn advanced(self, p: Vec2, dt: int) -> Ball {
        Ball {
            position: p,
            velocity: Vec2 {
                x: self.next_velocity(p, dt).0 as i32,
                y: self.next_velocity(p, dt).1 as i32,
            },
            acceleration: Vec2 {
                x: self.next_acceleration(p, dt).0 as i32,
                y: self.next_acceleration(p, dt).1 as i32,
            },
            jerk: Vec2 { x: self.next_jerk(p, dt).0 as i32, y: self.next_jerk(p, dt).1 as i32 },
            last_move_x: (p.x - self.position.x) as i64,
            last_move_y: (p.y - self.position.y) as i64,
            last_step: dt as i32,
        }
    }

    /// First coordinate of the forecast `h` ahead, as a mathematical
    /// integer.
    pub open spec fn forecast_x(self, h: int, factor: int) -> int {
        forecast_coordinate(
            self.position.x as int,
            self.velocity.x as int,
            self.acceleration.x as int,
            self.jerk.x as int,
            h,
            factor,
        )
    }

    /// Second coordinate of the forecast `h` ahead, as a mathematical
    /// integer.
    pub open spec fn forecast_y(self, h: int, factor: int) -> int {
        forecast_coordinate(
            self.position.y as int,
            self.velocity.y as int,
            self.acceleration.y as int,
            self.jerk.y as int,
            h,
            factor,
        )
    }

    /// The forecast position `h` ahead with overshoot correction `factor`,
    /// if both its coordinates can be stored.
    pub open spec fn forecast(self, h: int, factor: int) -> Option<Vec2> {
        if fits_i32(self.forecast_x(h, factor)) && fits_i32(self.forecast_y(h, factor)) {
            Some(Vec2 { x: self.forecast_x(h, factor) as i32, y: self.forecast_y(h, factor) as i32 })
        } else {
            None
        }
    }

    /// The model of a point first seen at `position`.
    pub fn new(position: Vec2) -> (b: Ball)
        ensures
            b == Ball::fresh(position),
    {
        Ball {
            position,
            velocity: Vec2 { x: 0, y: 0 },
            acceleration: Vec2 { x: 0, y: 0 },
            jerk: Vec2 { x: 0, y: 0 },
            last_move_x: 0,
            last_move_y: 0,
            last_step: 0,
        }
    }

    /// A model with the given state and no movement on record: its velocity
    /// is exactly `velocity`.
    pub fn with_state(position: Vec2, velocity: Vec2, acceleration: Vec2, jerk: Vec2) -> (b: Ball)
        ensures
            b == (Ball {
                position,
                velocity,
                acceleration,
                jerk,
                last_move_x: 0,
                last_move_y: 0,
                last_step: 0,
            }),
    {
        Ball {
            position,
            velocity,
            acceleration,
            jerk,
            last_move_x: 0,
            last_move_y: 0,
            last_step: 0,
        }
    }

    /// Takes the observation of the point at `new_position`, `delta_time`
    /// after the last one, into the model. On an error the model is left as
    /// it was.
    pub fn update(&mut self, new_position: Vec2, delta_time: i32) -> (r: Result<(), MotionError>)
        ensures
            delta_time <= 0 ==> r == Err::<(), MotionError>(MotionError::InvalidTimeStep),
            delta_time > 0 && !old(self).can_advance(new_position, delta_time as int) ==> r == Err::<
                (),
                MotionError,
            >(MotionError::OutOfRange),
            old(self).can_advance(new_position, delta_time as int) ==> r == Ok::<(), MotionError>(
                (),
            ),
            r is Ok ==> *final(self) == old(self).advanced(new_position, delta_time as int),
            r is Err ==> *final(self) == *old(self),
    {
        if delta_time <= 0 {
            return Err(MotionError::InvalidTimeStep);
        }
        let vx = derivative_of(new_position.x, self.position.x, delta_time);
        let vy = derivative_of(new_position.y, self.position.y, delta_time);
        let (vx, vy): (i32, i32) = match (vx, vy) {
            (Some(x), Some(y)) => (x, y),
            _ => { return Err(MotionError::OutOfRange); },
        };
        let recorded: bool = self.last_step >= 1;
        let before_x: i128 = if recorded {
            self.last_move_x as i128 * 1000
        } else {
            self.velocity.x as i128
        };
        let before_y: i128 = if recorded {
            self.last_move_y as i128 * 1000
        } else {
            self.velocity.y as i128
        };
        let before_den: i32 = if recorded {
            self.last_step
        } else {
            1
        };
        let ax = second_derivative_of(
            new_position.x,
            self.position.x,
            delta_time,
            before_x,
            before_den,
        );
        let ay = second_derivative_of(
            new_position.y,
            self.position.y,
            delta_time,
            before_y,
            before_den,
        );
        let (ax, ay): (i32, i32) = match (ax, ay) {
            (Some(x), Some(y)) => (x, y),
            _ => { return Err(MotionError::OutOfRange); },
        };
        let jx = derivative_of(ax, self.acceleration.x, delta_time);
        let jy = derivative_of(ay, self.acceleration.y, delta_time);
        let (jx, jy): (i32, i32) = match (jx, jy) {
            (Some(x), Some(y)) => (x, y),
            _ => { return Err(MotionError::OutOfRange); },
        };
        self.last_move_x = new_position.x as i64 - self.position.x as i64;
        self.last_move_y = new_position.y as i64 - self.position.y as i64;
        self.last_step = delta_time;
        self.jerk = Vec2 { x: jx, y: jy };
        self.acceleration = Vec2 { x: ax, y: ay };
        self.velocity = Vec2 { x: vx, y: vy };
        self.position = new_position;
        Ok(())
    }

    /// The position forecast `delta_time` ahead: the third-order Taylor
    /// extrapolation from the model, pushed further along its own
    /// displacement by the fraction `correction_factor`, and rounded once.
    /// `None` exactly when the forecast leaves the range of coordinates. A
    /// negative `delta_time` extrapolates backward.
    pub fn predict_position(&self, delta_time: i32, correction_factor: i32) -> (p: Option<Vec2>)
        ensures
            p == self.forecast(delta_time as int, correction_factor as int),
    {
        let x = forecast_of(
            self.position.x,
            self.velocity.x,
            self.acceleration.x,
            self.jerk.x,
            delta_time,
            correction_factor,
        );
        let y = forecast_of(
            self.position.y,
            self.velocity.y,
            self.acceleration.y,
            self.jerk.y,
            delta_time,
            correction_factor,
        );
        match (x, y) {
            (Some(px), Some(py)) => Some(Vec2 { x: px, y: py }),
            _ => None,
        }
    }
}

/// A model with no history forecasts the position it was created at,
/// whatever the horizon and the correction factor.
pub proof fn lemma_fresh_ball_stays(position: Vec2, h: int, factor: int)
    ensures
        Ball::fresh(position).forecast(h, factor) == Some(position),
{
    assert(taylor_numerator(0, 0, 0, h) == 0) by (nonlinear_arith);
    assert((1000 + factor) * 0 == 0) by (nonlinear_arith);
}

/// Three successive values `p0`, `p1`, `p2` of a coordinate, observed at
/// equal steps `dt`: the acceleration taken from them is their second
/// difference divided by `dt` squared, rounded once.
pub proof fn lemma_second_difference(p0: int, p1: int, p2: int, dt: int)
    requires
        dt > 0,
    ensures
        second_derivative(p2, p1, dt, (p1 - p0) * 1000, dt) == trunc_div(
            (p2 - 2 * p1 + p0) * 1_000_000,
            dt * dt,
        ),
{
    let second = (p2 - 2 * p1 + p0) * 1_000_000;
    let n = (((p2 - p1) * 1000) * dt - ((p1 - p0) * 1000) * dt) * 1000;
    assert(n == second * dt) by (nonlinear_arith)
        requires
            n == (((p2 - p1) * 1000) * dt - ((p1 - p0) * 1000) * dt) * 1000,
            second == (p2 - 2 * p1 + p0) * 1_000_000,
    ;
    assert(dt * (dt * dt) == (dt * dt) * dt) by (nonlinear_arith);
    assert(dt * dt > 0) by (nonlinear_arith)
        requires
            dt > 0,
    ;
    lemma_trunc_div_cancel(second, dt * dt, dt);
}

impl Ball {
    /// A model last seen at `self.position` that takes in two further
    /// observations `p1` and `p2`, each `dt` after the one before, holds as
    /// acceleration the second difference of the three positions divided by
    /// `dt` squared, rounded once to the grid, whatever it held before.
    pub proof fn lemma_derivative_consistency(self, p1: Vec2, p2: Vec2, dt: i32)
        requires
            self.can_advance(p1, dt as int),
            self.advanced(p1, dt as int).can_advance(p2, dt as int),
        ensures
            ({
                let after = self.advanced(p1, dt as int).advanced(p2, dt as int);
                &&& after.acceleration.x == trunc_div(
                    (p2.x - 2 * p1.x + self.position.x) * 1_000_000,
                    dt * dt,
                )
                &&& after.acceleration.y == trunc_div(
                    (p2.y - 2 * p1.y + self.position.y) * 1_000_000,
                    dt * dt,
                )
            }),
    {
        lemma_second_difference(self.position.x as int, p1.x as int, p2.x as int, dt as int);
        lemma_second_difference(self.position.y as int, p1.y as int, p2.y as int, dt as int);
        let mid = self.advanced(p1, dt as int);
        assert(mid.velocity_den() == dt);
        assert(mid.velocity_num().0 == (p1.x - self.position.x) * 1000);
        assert(mid.velocity_num().1 == (p1.y - self.position.y) * 1000);
    }
}

} // verus!
