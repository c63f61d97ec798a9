//! Decision core for a defending agent in a planar ball game.
//!
//! Each tick the goalie forecasts where the ball will be, compares the
//! time it needs to get there with the time its opponent needs, and either
//! intercepts toward a target or retreats.
//!
//! Every quantity is a fixed-point number: an integer count of thousandths
//! of its unit (see [`fixed::SCALE`]). Positions, velocities, durations and
//! the unit-less tuning factors all share that grid.
//!
//! What is stored or handed out as a value is rounded toward zero to the
//! grid: the derivatives of the motion, the forecast, a point of a path, a
//! time to reach a point. What is decided is decided without rounding, on
//! the values on the grid that it is given: the race between the goalie and
//! its opponent compares squares and products of distances and speeds, not
//! the two rounded times, and the path check measures from the exact
//! samples of the path, not from grid points near them.
//!
//! - [`fixed`]: rounding division and integer square root.
//! - [`vector`]: points, distances and lengths.
//! - [`motion`]: the kinematic model of the ball and its forecast.
//! - [`arrival`]: time for an agent to reach a point.
//! - [`bezier`] and [`trajectory`]: the cubic path to a target and the
//!   check whether an obstacle stands too close to it.
//! - [`goalie`]: the decision taken each tick.

pub mod arrival;
pub mod bezier;
pub mod fixed;
pub mod goalie;
pub mod motion;
pub mod trajectory;
pub mod vector;
