//! A cubic Bezier path from a start point to a ball, and the check whether
//! an obstacle stands too close to a path.

use vstd::prelude::*;
use crate::bezier::{bezier_numerator, lemma_bezier_ends, lemma_flattened_numerator};
use crate::fixed::{
    div_toward_zero, fits_i32, lemma_product_bound, lemma_trunc_div_cancel, trunc_div, SCALE,
};
use crate::vector::{displacement, length_sq, norm_squared, Vec2};

verus! {

/// The coordinate one third of the way from `from` to `to`, rounded to the
/// grid.
pub open spec fn one_third_point(from: int, to: int) -> int {
    from + trunc_div(to - from, 3)
}

/// The coordinate two thirds of the way from `from` to `to`, rounded to the
/// grid.
pub open spec fn two_thirds_point(from: int, to: int) -> int {
    to - trunc_div(to - from, 3)
}

/// The number of equal steps between the first and the last of `samples`
/// samples spread evenly over a path, both ends included. Sample `i` stands
/// at parameter `i` over this number; a single sample stands at the start.
pub open spec fn sample_intervals(samples: int) -> int {
    if samples <= 1 {
        1
    } else {
        samples - 1
    }
}

/// The coordinate at parameter `t` of the straight line from `a` to `b`,
/// `a + t (b - a)`, rounded toward zero to the grid.
pub open spec fn lerp_coordinate(a: int, b: int, t: int) -> int {
    trunc_div((SCALE - t) * a + t * b, 1000)
}

/// The point at parameter `t` of the straight line from `start` to `end`,
/// if both its coordinates can be stored.
pub open spec fn straight_position(start: Vec2, end: Vec2, t: int) -> Option<Vec2> {
    let x = lerp_coordinate(start.x as int, end.x as int, t);
    let y = lerp_coordinate(start.y as int, end.y as int, t);
    if fits_i32(x) && fits_i32(y) {
        Some(Vec2 { x: x as i32, y: y as i32 })
    } else {
        None
    }
}

/// Sample `i` of `samples` evenly spread points of the straight segment
/// from `start` to `end` lies strictly closer to `obstacle` than `radius`.
/// The sample is taken exactly, not rounded to the grid: with `n` steps
/// between the samples it is `((n - i) start + i end) / n`, and both sides
/// of the comparison are multiplied by `n`.
pub open spec fn segment_sample_within(
    start: Vec2,
    end: Vec2,
    i: int,
    samples: int,
    obstacle: Vec2,
    radius: int,
) -> bool {
    let n = sample_intervals(samples);
    let dx = (n - i) * start.x + i * end.x - n * obstacle.x;
    let dy = (n - i) * start.y + i * end.y - n * obstacle.y;
    radius > 0 && length_sq(dx, dy) < (n * radius) * (n * radius)
}

/// Some sample of the straight segment from `start` to `end` lies strictly
/// closer to `obstacle` than `radius`.
pub open spec fn segment_blocked(
    start: Vec2,
    end: Vec2,
    obstacle: Vec2,
    radius: int,
    samples: int,
) -> bool {
    exists|i: int|
        0 <= i < samples && #[trigger] segment_sample_within(
            start,
            end,
            i,
            samples,
            obstacle,
            radius,
        )
}

/// A point whose coordinates are counted in thirds of a grid step, so that
/// the thirds of the way between two grid points are exact.
pub struct ThirdsPoint {
    pub x: int,
    pub y: int,
}

/// A cubic parametric curve: its four control points, in order. The outer
/// two are grid points; the inner two are counted in thirds of a grid step.
pub struct Curve {
    pub start: Vec2,
    pub inner1: ThirdsPoint,
    pub inner2: ThirdsPoint,
    pub end: Vec2,
}

/// The flattened cubic from `start` to `end`: the inner control points
/// stand exactly at one third and two thirds of the straight line between
/// the ends.
pub open spec fn flattened(start: Vec2, end: Vec2) -> Curve {
    Curve {
        start,
        inner1: ThirdsPoint { x: 2 * start.x + end.x, y: 2 * start.y + end.y },
        inner2: ThirdsPoint { x: start.x + 2 * end.x, y: start.y + 2 * end.y },
        end,
    }
}

impl Curve {
    /// First coordinate of the curve at parameter `t`: the cubic Bezier
    /// blend of the control points, rounded once, toward zero, to the grid.
    pub open spec fn x_at(self, t: int) -> int {
        trunc_div(
            bezier_numerator(
                3 * self.start.x,
                self.inner1.x,
                self.inner2.x,
                3 * self.end.x,
                t,
                1000,
            ),
            3_000_000_000,
        )
    }

    /// Second coordinate of the curve at parameter `t`: the cubic Bezier
    /// blend of the control points, rounded once, toward zero, to the grid.
    pub open spec fn y_at(self, t: int) -> int {
        trunc_div(
            bezier_numerator(
                3 * self.start.y,
                self.inner1.y,
                self.inner2.y,
                3 * self.end.y,
                t,
                1000,
            ),
            3_000_000_000,
        )
    }

    /// The point of the curve at parameter `t`, if both its coordinates can
    /// be stored.
    pub open spec fn position_at(self, t: int) -> Option<Vec2> {
        if fits_i32(self.x_at(t)) && fits_i32(self.y_at(t)) {
            Some(Vec2 { x: self.x_at(t) as i32, y: self.y_at(t) as i32 })
        } else {
            None
        }
    }

    /// The movement from the start of the curve to its point at parameter
    /// `t`, if that point and the movement can be stored.
    pub open spec fn delta_at(self, t: int) -> Option<Vec2> {
        let dx = self.x_at(t) - self.start.x;
        let dy = self.y_at(t) - self.start.y;
        if fits_i32(self.x_at(t)) && fits_i32(self.y_at(t)) && fits_i32(dx) && fits_i32(dy) {
            Some(Vec2 { x: dx as i32, y: dy as i32 })
        } else {
            None
        }
    }

    /// Sample `i` of `samples` evenly spread points of the curve lies
    /// strictly closer to `obstacle` than `radius`. The sample is taken
    /// exactly, not rounded to the grid: with `n` steps between the samples
    /// it is the blend at parameter `i / n`, a numerator over `3 n^3`, and
    /// both sides of the comparison are multiplied by `3 n^3`.
    pub open spec fn sample_within(self, i: int, samples: int, obstacle: Vec2, radius: int) -> bool {
        let n = sample_intervals(samples);
        let d = 3 * (n * n * n);
        let dx = bezier_numerator(
            3 * self.start.x,
            self.inner1.x,
            self.inner2.x,
            3 * self.end.x,
            i,
            n,
        ) - d * obstacle.x;
        let dy = bezier_numerator(
            3 * self.start.y,
            self.inner1.y,
            self.inner2.y,
            3 * self.end.y,
            i,
            n,
        ) - d * obstacle.y;
        radius > 0 && length_sq(dx, dy) < (d * radius) * (d * radius)
    }

    /// Some sample of the curve lies strictly closer to `obstacle` than
    /// `radius`.
    pub open spec fn path_blocked(self, obstacle: Vec2, radius: int, samples: int) -> bool {
        exists|i: int|
            0 <= i < samples && #[trigger] self.sample_within(i, samples, obstacle, radius)
    }

    /// A curve starts at its first control point and ends at its last.
    pub proof fn lemma_endpoints(self)
        ensures
            self.position_at(0) == Some(self.start),
            self.position_at(SCALE as int) == Some(self.end),
    {
        lemma_bezier_ends(3 * self.start.x, self.inner1.x, self.inner2.x, 3 * self.end.x, 1000);
        lemma_bezier_ends(3 * self.start.y, self.inner1.y, self.inner2.y, 3 * self.end.y, 1000);
        assert(1000int * 1000 * 1000 == 1_000_000_000);
    }
}

/// One coordinate of the flattened cubic from `a` to `b` is, at every
/// parameter, the coordinate of the straight line from `a` to `b`.
pub proof fn lemma_flattened_coordinate_is_straight(a: int, b: int, t: int)
    ensures
        trunc_div(bezier_numerator(3 * a, 2 * a + b, a + 2 * b, 3 * b, t, 1000), 3_000_000_000)
            == lerp_coordinate(a, b, t),
{
    lemma_flattened_numerator(a, b, t, 1000);
    let m = (1000 - t) * a + t * b;
    assert(3 * (1000int * 1000) == 3_000_000);
    assert(3_000_000 * m == m * 3_000_000);
    lemma_trunc_div_cancel(m, 1000, 3_000_000);
}

/// The flattened cubic from `start` to `end` is the straight line from
/// `start` to `end`, at every parameter.
pub proof fn lemma_flattened_is_straight(start: Vec2, end: Vec2, t: int)
    ensures
        flattened(start, end).x_at(t) == lerp_coordinate(start.x as int, end.x as int, t),
        flattened(start, end).y_at(t) == lerp_coordinate(start.y as int, end.y as int, t),
        flattened(start, end).position_at(t) == straight_position(start, end, t),
{
    lemma_flattened_coordinate_is_straight(start.x as int, end.x as int, t);
    lemma_flattened_coordinate_is_straight(start.y as int, end.y as int, t);
}

/// A sample of the flattened cubic from `start` to `end` is within a radius
/// of an obstacle exactly when the same sample of the straight segment is.
pub proof fn lemma_flattened_sample_is_segment_sample(
    start: Vec2,
    end: Vec2,
    i: int,
    samples: int,
    obstacle: Vec2,
    radius: int,
)
    ensures
        flattened(start, end).sample_within(i, samples, obstacle, radius) == segment_sample_within(
            start,
            end,
            i,
            samples,
            obstacle,
            radius,
        ),
{
    let n = sample_intervals(samples);
    let k = 3 * (n * n);
    let d = 3 * (n * n * n);
    let mx = (n - i) * start.x + i * end.x;
    let my = (n - i) * start.y + i * end.y;
    lemma_flattened_numerator(start.x as int, end.x as int, i, n);
    lemma_flattened_numerator(start.y as int, end.y as int, i, n);
    let sx = mx - n * obstacle.x;
    let sy = my - n * obstacle.y;
    let cx = k * mx - d * obstacle.x;
    let cy = k * my - d * obstacle.y;
    assert(cx == k * sx && cy == k * sy && d * radius == k * (n * radius) && k >= 3)
        by (nonlinear_arith)
        requires
            n >= 1,
            k == 3 * (n * n),
            d == 3 * (n * n * n),
            sx == mx - n * obstacle.x,
            sy == my - n * obstacle.y,
            cx == k * mx - d * obstacle.x,
            cy == k * my - d * obstacle.y,
    ;
    let ls = sx * sx + sy * sy;
    let rs = (n * radius) * (n * radius);
    assert(cx * cx + cy * cy == (k * k) * ls && (d * radius) * (d * radius) == (k * k) * rs)
        by (nonlinear_arith)
        requires
            cx == k * sx,
            cy == k * sy,
            d * radius == k * (n * radius),
            ls == sx * sx + sy * sy,
            rs == (n * radius) * (n * radius),
    ;
    assert(((k * k) * ls < (k * k) * rs) == (ls < rs)) by (nonlinear_arith)
        requires
            k >= 3,
    ;
}

/// The path check on the flattened cubic from `start` to `end` and the path
/// check on the straight segment between them give the same verdict.
pub proof fn lemma_flattened_check_is_segment_check(
    start: Vec2,
    end: Vec2,
    obstacle: Vec2,
    radius: int,
    samples: int,
)
    ensures
        flattened(start, end).path_blocked(obstacle, radius, samples) == segment_blocked(
            start,
            end,
            obstacle,
            radius,
            samples,
        ),
{
    let curve = flattened(start, end);
    assert forall|i: int| #[trigger]
        curve.sample_within(i, samples, obstacle, radius) == segment_sample_within(
            start,
            end,
            i,
            samples,
            obstacle,
            radius,
        ) by {
        lemma_flattened_sample_is_segment_sample(start, end, i, samples, obstacle, radius);
    }
    if curve.path_blocked(obstacle, radius, samples) {
        let i = choose|i: int|
            0 <= i < samples && #[trigger] curve.sample_within(i, samples, obstacle, radius);
        assert(segment_sample_within(start, end, i, samples, obstacle, radius));
    }
    if segment_blocked(start, end, obstacle, radius, samples) {
        let i = choose|i: int|
            0 <= i < samples && #[trigger] segment_sample_within(
                start,
                end,
                i,
                samples,
                obstacle,
                radius,
            );
        assert(curve.sample_within(i, samples, obstacle, radius));
    }
}

/// The coordinate at parameter `t` of the straight line from `a` to `b`;
/// `None` exactly when it does not fit a coordinate.
fn lerp(a: i32, b: i32, t: i32) -> (r: Option<i32>)
    ensures
        fits_i32(lerp_coordinate(a as int, b as int, t as int)) ==> r == Some(
            lerp_coordinate(a as int, b as int, t as int) as i32,
        ),
        !fits_i32(lerp_coordinate(a as int, b as int, t as int)) ==> r is None,
{
    let u: i128 = 1000 - t as i128;
    proof {
        lemma_product_bound(u as int, a as int, 0x8000_03e8int, 0x8000_0000int);
        lemma_product_bound(t as int, b as int, 0x8000_0000int, 0x8000_0000int);
    }
    let q: i128 = div_toward_zero(u * (a as i128) + (t as i128) * (b as i128), 1000);
    if q < i32::MIN as i128 || q > i32::MAX as i128 {
        None
    } else {
        Some(q as i32)
    }
}

/// The point at parameter `t` of the straight line from `start` to `end`;
/// `None` exactly when it leaves the range of coordinates.
pub fn segment_position(start: &Vec2, end: &Vec2, t: i32) -> (p: Option<Vec2>)
    ensures
        p == straight_position(*start, *end, t as int),
{
    match (lerp(start.x, end.x, t), lerp(start.y, end.y, t)) {
        (Some(px), Some(py)) => Some(Vec2 { x: px, y: py }),
        _ => None,
    }
}

/// Whether sample `i` of `samples` evenly spread points of the straight
/// segment from `start` to `end` lies strictly closer to `obstacle` than
/// `radius`.
fn is_sample_within(
    start: &Vec2,
    end: &Vec2,
    i: u16,
    samples: u16,
    obstacle: &Vec2,
    radius: i32,
) -> (b: bool)
    requires
        i < samples,
    ensures
        b == segment_sample_within(
            *start,
            *end,
            i as int,
            samples as int,
            *obstacle,
            radius as int,
        ),
{
    if radius <= 0 {
        return false;
    }
    let n: i64 = if samples <= 1 {
        1
    } else {
        (samples - 1) as i64
    };
    let k: i64 = i as i64;
    proof {
        lemma_product_bound(n - k, start.x as int, 0x1_0000, 0x8000_0000);
        lemma_product_bound(k as int, end.x as int, 0x1_0000, 0x8000_0000);
        lemma_product_bound(n as int, obstacle.x as int, 0x1_0000, 0x8000_0000);
        lemma_product_bound(n - k, start.y as int, 0x1_0000, 0x8000_0000);
        lemma_product_bound(k as int, end.y as int, 0x1_0000, 0x8000_0000);
        lemma_product_bound(n as int, obstacle.y as int, 0x1_0000, 0x8000_0000);
        lemma_product_bound(n as int, radius as int, 0x1_0000, 0x8000_0000);
    }
    let dx: i64 = (n - k) * (start.x as i64) + k * (end.x as i64) - n * (obstacle.x as i64);
    let dy: i64 = (n - k) * (start.y as i64) + k * (end.y as i64) - n * (obstacle.y as i64);
    let reach: u128 = (n * (radius as i64)) as u128;
    proof {
        lemma_product_bound(reach as int, reach as int, 0x8000_0000_0000, 0x8000_0000_0000);
    }
    norm_squared(dx, dy) < reach * reach
}

/// Whether `obstacle` obstructs the straight segment from `start` to `end`:
/// whether any of `samples` evenly spread points of it, both ends included,
/// lies strictly closer to `obstacle` than `clearance_radius`. The samples
/// are taken exactly, not rounded to the grid.
pub fn is_segment_blocked(
    start: &Vec2,
    end: &Vec2,
    obstacle: &Vec2,
    clearance_radius: i32,
    samples: u16,
) -> (blocked: bool)
    ensures
        blocked == segment_blocked(
            *start,
            *end,
            *obstacle,
            clearance_radius as int,
            samples as int,
        ),
{
    let mut i: u16 = 0;
    while i < samples
        invariant
            i <= samples,
            forall|j: int|
                0 <= j < i ==> !#[trigger] segment_sample_within(
                    *start,
                    *end,
                    j,
                    samples as int,
                    *obstacle,
                    clearance_radius as int,
                ),
        decreases samples - i,
    {
        if is_sample_within(start, end, i, samples, obstacle, clearance_radius) {
            return true;
        }
        i = i + 1;
    }
    false
}

/// A robot's path: a cubic Bezier curve from where the robot starts to the
/// ball, together with the goal it aims for afterwards. The curve is fixed
/// when the trajectory is made. Its inner control points stand exactly at
/// the thirds of the way; `control_points` holds them rounded to the grid,
/// for reporting.
#[derive(Clone, Copy, Debug)]
pub struct RobotTrajectory {
    start_pos: Vec2,
    ball_pos: Vec2,
    goal_pos: Vec2,
    control_points: [Vec2; 4],
}

/// The data of a trajectory as plain coordinate pairs.
#[derive(Clone, Copy, Debug)]
pub struct TrajectoryInfo {
    pub start_pos: (i32, i32),
    pub ball_pos: (i32, i32),
    pub goal_pos: (i32, i32),
    pub control_points: [(i32, i32); 4],
}

impl View for RobotTrajectory {
    type V = Curve;

    /// The curve that the trajectory follows.
    closed spec fn view(&self) -> Curve {
        flattened(self.start_pos, self.ball_pos)
    }
}

impl RobotTrajectory {
    /// Where the path starts.
    pub closed spec fn start(&self) -> Vec2 {
        self.start_pos
    }

    /// Where the path ends: the ball.
    pub closed spec fn ball(&self) -> Vec2 {
        self.ball_pos
    }

    /// The goal aimed for once the ball is reached.
    pub closed spec fn goal(&self) -> Vec2 {
        self.goal_pos
    }

    /// Control point number `i`, for `i` from 0 to 3, as it is reported:
    /// rounded to the grid.
    pub closed spec fn reported_control(&self, i: int) -> Vec2 {
        self.control_points[i]
    }

    /// The reported control points are the ends of the path and the thirds
    /// of the way between them, rounded to the grid.
    pub open spec fn reports_rounded_thirds(&self) -> bool {
        &&& self.reported_control(0) == self.start()
        &&& self.reported_control(1).x == one_third_point(
            self.start().x as int,
            self.ball().x as int,
        )
        &&& self.reported_control(1).y == one_third_point(
            self.start().y as int,
            self.ball().y as int,
        )
        &&& self.reported_control(2).x == two_thirds_point(
            self.start().x as int,
            self.ball().x as int,
        )
        &&& self.reported_control(2).y == two_thirds_point(
            self.start().y as int,
            self.ball().y as int,
        )
        &&& self.reported_control(3) == self.ball()
    }

    /// The four control points of the flattened cubic from `start` to
    /// `end`, the inner two rounded to the grid.
    pub fn generate_bezier_control_points(start: &Vec2, end: &Vec2) -> (points: [Vec2; 4])
        ensures
            points[0] == *start,
            points[1].x == one_third_point(start.x as int, end.x as int),
            points[1].y == one_third_point(start.y as int, end.y as int),
            points[2].x == two_thirds_point(start.x as int, end.x as int),
            points[2].y == two_thirds_point(start.y as int, end.y as int),
            points[3] == *end,
    {
        let delta: (i64, i64) = displacement(start, end);
        let step_x: i64 = delta.0 / 3;
        let step_y: i64 = delta.1 / 3;
        let x1: i32 = (start.x as i64 + step_x) as i32;
        let x2: i32 = (end.x as i64 - step_x) as i32;
        let y1: i32 = (start.y as i64 + step_y) as i32;
        let y2: i32 = (end.y as i64 - step_y) as i32;
        [*start, Vec2 { x: x1, y: y1 }, Vec2 { x: x2, y: y2 }, *end]
    }

    /// The trajectory of a robot that starts at `start_pos`, runs to the
    /// ball at `ball_pos` and aims for `goal_pos`.
    pub fn new(start_pos: (i32, i32), ball_pos: (i32, i32), goal_pos: (i32, i32)) -> (t: Self)
        ensures
            t.start() == (Vec2 { x: start_pos.0, y: start_pos.1 }),
            t.ball() == (Vec2 { x: ball_pos.0, y: ball_pos.1 }),
            t.goal() == (Vec2 { x: goal_pos.0, y: goal_pos.1 }),
            t@ == flattened(t.start(), t.ball()),
            t.reports_rounded_thirds(),
    {
        let start = Vec2 { x: start_pos.0, y: start_pos.1 };
        let ball = Vec2 { x: ball_pos.0, y: ball_pos.1 };
        let goal = Vec2 { x: goal_pos.0, y: goal_pos.1 };
        let control_points = Self::generate_bezier_control_points(&start, &ball);
        RobotTrajectory { start_pos: start, ball_pos: ball, goal_pos: goal, control_points }
    }

    /// The point of the curve at parameter `t`, where `SCALE` stands for
    /// one: the point `start + t (ball - start)` of the straight line that
    /// the flattened cubic is, rounded toward zero to the grid. Any `t` is
    /// accepted; the result is `None` exactly when the point leaves the
    /// range of coordinates.
    pub fn compute_position(&self, t: i32) -> (p: Option<Vec2>)
        ensures
            p == self@.position_at(t as int),
            p == straight_position(self.start(), self.ball(), t as int),
    {
        proof {
            lemma_flattened_is_straight(self.start_pos, self.ball_pos, t as int);
        }
        segment_position(&self.start_pos, &self.ball_pos, t)
    }

    /// The movement from the start of the curve to its point at parameter
    /// `delta_t`; `None` exactly when that point or the movement leaves the
    /// range of coordinates.
    pub fn compute_delta_vector(&self, delta_t: i32) -> (d: Option<Vec2>)
        ensures
            d == self@.delta_at(delta_t as int),
    {
        proof {
            self@.lemma_endpoints();
        }
        match (self.compute_position(delta_t), self.compute_position(0)) {
            (Some(to), Some(from)) => {
                let delta: (i64, i64) = displacement(&from, &to);
                if delta.0 < i32::MIN as i64 || delta.0 > i32::MAX as i64 || delta.1
                    < i32::MIN as i64 || delta.1 > i32::MAX as i64 {
                    None
                } else {
                    Some(Vec2 { x: delta.0 as i32, y: delta.1 as i32 })
                }
            },
            _ => None,
        }
    }

    /// The trajectory's data as plain coordinate pairs, the control points
    /// as they are reported.
    pub fn get_trajectory_info(&self) -> (info: TrajectoryInfo)
        ensures
            info.start_pos == (self.start().x, self.start().y),
            info.ball_pos == (self.ball().x, self.ball().y),
            info.goal_pos == (self.goal().x, self.goal().y),
            forall|i: int|
                0 <= i < 4 ==> #[trigger] info.control_points[i] == (
                    self.reported_control(i).x,
                    self.reported_control(i).y,
                ),
    {
        TrajectoryInfo {
            start_pos: (self.start_pos.x, self.start_pos.y),
            ball_pos: (self.ball_pos.x, self.ball_pos.y),
            goal_pos: (self.goal_pos.x, self.goal_pos.y),
            control_points: [
                (self.control_points[0].x, self.control_points[0].y),
                (self.control_points[1].x, self.control_points[1].y),
                (self.control_points[2].x, self.control_points[2].y),
                (self.control_points[3].x, self.control_points[3].y),
            ],
        }
    }

    /// Whether `obstacle` obstructs the curve: whether any of `samples`
    /// evenly spread points of it, both ends included, lies strictly closer
    /// to `obstacle` than `clearance_radius`. The samples are taken exactly,
    /// and are those of the straight segment from the start to the ball.
    pub fn is_path_blocked(&self, obstacle: &Vec2, clearance_radius: i32, samples: u16) -> (blocked:
        bool)
        ensures
            blocked == self@.path_blocked(*obstacle, clearance_radius as int, samples as int),
            blocked == segment_blocked(
                self.start(),
                self.ball(),
                *obstacle,
                clearance_radius as int,
                samples as int,
            ),
    {
        proof {
            lemma_flattened_check_is_segment_check(
                self.start_pos,
                self.ball_pos,
                *obstacle,
                clearance_radius as int,
                samples as int,
            );
        }
        is_segment_blocked(&self.start_pos, &self.ball_pos, obstacle, clearance_radius, samples)
    }
}

} // verus!
