//! Arrival-time oracle: how long an agent needs to reach a point.
//!
//! Distances and speeds enter by their squares, which are whole numbers on
//! the grid, so that a time is rounded once and a race between two agents
//! is decided without rounding.

use vstd::prelude::*;
use vstd::arithmetic::div_mod::{lemma_div_is_ordered, lemma_div_is_ordered_by_denominator};
use crate::fixed::{isqrt, isqrt_of, lemma_isqrt_monotone, lemma_product_bound};
use crate::vector::{dist_sq, displacement, length_sq, lemma_length_bound, norm_squared, Vec2};

verus! {

/// Longest time the oracle can report: the largest distance on the grid,
/// covered at the slowest pace.
pub const MAX_TIME: u64 = 8_589_934_591_000_000;

/// The square of the speed of an agent whose nominal speed is `speed`, or
/// zero for one that is taken to move at the slowest pace: an agent at
/// rest, or one whose nominal speed is negative.
pub open spec fn nominal_speed_sq(speed: int) -> int {
    if speed >= 1 {
        speed * speed
    } else {
        0
    }
}

/// What the squared time of an agent is multiplied by for moving at the
/// slowest pace, a millionth of a unit of distance per unit of time, rather
/// than at a speed of its own: one for an agent whose squared speed is
/// `speed_sq`, a million for one at rest. Every positive speed on the grid
/// is faster than the slowest pace.
pub open spec fn rest_factor(speed_sq: int) -> int {
    if speed_sq >= 1 {
        1
    } else {
        1_000_000
    }
}

/// What the squared time of an agent is divided by: its squared speed
/// `speed_sq`, or one for an agent at rest.
pub open spec fn speed_divisor(speed_sq: int) -> int {
    if speed_sq >= 1 {
        speed_sq
    } else {
        1
    }
}

/// Time to cover a distance whose square is `dist_sq` at a speed whose
/// square is `speed_sq`, or at the slowest pace if `speed_sq` is zero,
/// rounded down to the grid.
///
/// The square of the exact time is a million times `dist_sq` times the rest
/// factor, over the speed divisor. The root is taken of that quotient
/// rounded down, which is the root of the quotient itself rounded down: the
/// time is rounded once.
pub open spec fn arrival_time(dist_sq: int, speed_sq: int) -> int {
    isqrt_of((1_000_000 * dist_sq * rest_factor(speed_sq)) / speed_divisor(speed_sq))
}

/// An agent reaches a point no later than `threshold` times the time that
/// another agent needs for it, where neither time is rounded. The agents
/// are at the squared distances `own_dist_sq` and `other_dist_sq` from the
/// point and move at the squared speeds `own_speed_sq` and
/// `other_speed_sq`; a squared speed of zero stands for the slowest pace.
///
/// With a threshold that is not negative the two sides are compared by
/// their squares, cleared of both speed divisors; with a negative one the
/// first time is within the threshold only where both times are zero.
pub open spec fn outruns(
    own_dist_sq: int,
    own_speed_sq: int,
    other_dist_sq: int,
    other_speed_sq: int,
    threshold: int,
) -> bool {
    if threshold >= 0 {
        (1_000_000 * own_dist_sq * rest_factor(own_speed_sq)) * speed_divisor(other_speed_sq) <= (
        threshold * threshold * other_dist_sq) * (rest_factor(other_speed_sq) * speed_divisor(
            own_speed_sq,
        ))
    } else {
        own_dist_sq == 0 && other_dist_sq == 0
    }
}

/// The arrival time never decreases when the distance grows, and never
/// increases when the speed grows.
pub proof fn lemma_arrival_time_monotone(near_sq: int, far_sq: int, slow_sq: int, fast_sq: int)
    requires
        0 <= near_sq <= far_sq,
        0 <= slow_sq <= fast_sq,
    ensures
        arrival_time(near_sq, fast_sq) <= arrival_time(far_sq, fast_sq),
        arrival_time(far_sq, fast_sq) <= arrival_time(far_sq, slow_sq),
        arrival_time(near_sq, fast_sq) <= arrival_time(far_sq, slow_sq),
{
    let near = 1_000_000 * near_sq * rest_factor(fast_sq);
    let far = 1_000_000 * far_sq * rest_factor(fast_sq);
    let far_slow = 1_000_000 * far_sq * rest_factor(slow_sq);
    let fast = speed_divisor(fast_sq);
    let slow = speed_divisor(slow_sq);
    assert(0 <= near <= far <= far_slow);
    lemma_div_is_ordered(0, near, fast);
    lemma_div_is_ordered(near, far, fast);
    lemma_div_is_ordered(far, far_slow, fast);
    lemma_div_is_ordered_by_denominator(far_slow, slow, fast);
    lemma_isqrt_monotone(near / fast, far / fast);
    lemma_isqrt_monotone(far / fast, far_slow / slow);
}

/// From one position, a target that is no farther is reached no later, and
/// an agent whose nominal speed is no lower reaches a target no later.
pub proof fn lemma_time_to_reach_monotone(position: Vec2, near: Vec2, far: Vec2, slow: int, fast: int)
    requires
        dist_sq(position, near) <= dist_sq(position, far),
        slow <= fast,
    ensures
        arrival_time(dist_sq(position, near), nominal_speed_sq(fast)) <= arrival_time(
            dist_sq(position, far),
            nominal_speed_sq(fast),
        ),
        arrival_time(dist_sq(position, far), nominal_speed_sq(fast)) <= arrival_time(
            dist_sq(position, far),
            nominal_speed_sq(slow),
        ),
{
    lemma_length_bound(near.x - position.x, near.y - position.y);
    if slow >= 1 {
        assert(slow * slow <= fast * fast) by (nonlinear_arith)
            requires
                1 <= slow <= fast,
        ;
    } else if fast >= 1 {
        assert(fast * fast >= 0) by (nonlinear_arith);
    }
    lemma_arrival_time_monotone(
        dist_sq(position, near),
        dist_sq(position, far),
        nominal_speed_sq(slow),
        nominal_speed_sq(fast),
    );
}

/// Time to cover a distance on the grid whose square is `dist_sq` at a
/// speed whose square is `speed_sq`.
fn time_over(dist_sq: u128, speed_sq: u128) -> (t: u64)
    requires
        dist_sq <= 2 * 0xffff_ffff * 0xffff_ffff,
    ensures
        t == arrival_time(dist_sq as int, speed_sq as int),
        t <= MAX_TIME,
{
    let scaled: u128 = 1_000_000 * dist_sq;
    let time_sq: u128 = if speed_sq >= 1 {
        assert(scaled / speed_sq <= scaled) by (nonlinear_arith)
            requires
                speed_sq >= 1,
        ;
        scaled / speed_sq
    } else {
        scaled * 1_000_000
    };
    let t: u64 = isqrt(time_sq);
    if t > MAX_TIME {
        assert(t * t >= 8_589_934_591_000_001 * 8_589_934_591_000_001) by (nonlinear_arith)
            requires
                t >= 8_589_934_591_000_001,
        ;
    }
    t
}

/// Time that an agent at `position`, moving at `speed`, needs to reach
/// `target`, rounded down to the grid. An agent whose speed is not positive
/// is taken to move at the slowest pace.
pub fn time_to_reach(position: &Vec2, speed: i64, target: &Vec2) -> (t: u64)
    ensures
        t == arrival_time(dist_sq(*position, *target), nominal_speed_sq(speed as int)),
        t <= MAX_TIME,
{
    let delta: (i64, i64) = displacement(position, target);
    let way_sq: u128 = norm_squared(delta.0, delta.1);
    proof {
        lemma_length_bound(delta.0 as int, delta.1 as int);
        lemma_product_bound(
            speed as int,
            speed as int,
            0x8000_0000_0000_0000,
            0x8000_0000_0000_0000,
        );
    }
    let speed_sq: u128 = if speed >= 1 {
        (speed as u128) * (speed as u128)
    } else {
        0
    };
    time_over(way_sq, speed_sq)
}

/// The opposing agent: where it is and how it moves.
#[derive(Clone, Copy, Debug, PartialEq, Eq, Structural)]
pub struct Enemy {
    pub position: Vec2,
    pub velocity: Vec2,
}

impl Enemy {
    /// An opponent at `position` moving with `velocity`.
    pub fn new(position: Vec2, velocity: Vec2) -> (e: Enemy)
        ensures
            e.position == position,
            e.velocity == velocity,
    {
        Enemy { position, velocity }
    }

    /// Time the opponent needs to reach `target`.
    pub open spec fn arrival(self, target: Vec2) -> int {
        arrival_time(
            dist_sq(self.position, target),
            length_sq(self.velocity.x as int, self.velocity.y as int),
        )
    }

    /// Time the opponent needs to reach `target` at the speed it is
    /// observed to move with, rounded down to the grid.
    pub fn time_to_reach(&self, target: &Vec2) -> (t: u64)
        ensures
            t == self.arrival(*target),
            t <= MAX_TIME,
    {
        let delta: (i64, i64) = displacement(&self.position, target);
        let way_sq: u128 = norm_squared(delta.0, delta.1);
        let speed_sq: u128 = norm_squared(self.velocity.x as i64, self.velocity.y as i64);
        proof {
            lemma_length_bound(delta.0 as int, delta.1 as int);
        }
        time_over(way_sq, speed_sq)
    }
}

} // verus!
