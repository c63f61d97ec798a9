//! Decision engine: each tick, intercept toward a target or retreat.

use vstd::prelude::*;
use crate::arrival::{
    arrival_time, nominal_speed_sq, outruns, rest_factor, speed_divisor, time_to_reach, Enemy,
    MAX_TIME,
};
use crate::fixed::{lemma_product_bound, product_le};
use crate::motion::Ball;
use crate::trajectory::{flattened, is_segment_blocked, segment_blocked, RobotTrajectory};
use crate::vector::{dist_sq, displacement, length_sq, lemma_length_bound, norm_squared, Vec2};

verus! {

/// How the engine checks whether the way to the primary target is free.
#[derive(Clone, Copy, Debug, PartialEq, Eq, Structural)]
pub enum PathCheck {
    /// Sample the flattened cubic curve to the target.
    Curve,
    /// Sample the straight segment to the target.
    Straight,
    /// Take every way to be free.
    AlwaysClear,
}

/// The tunable parameters of the engine, all on the fixed-point grid.
#[derive(Clone, Copy, Debug, PartialEq, Eq, Structural)]
pub struct Config {
    /// How much slower than the opponent the goalie may be and still
    /// intercept: it goes when its time is at most this many times the
    /// opponent's.
    pub intercept_threshold: i32,
    /// Fraction by which a forecast is pushed along its own displacement.
    pub error_correction_factor: i32,
    /// Nominal speed of the goalie.
    pub goalie_speed: i32,
    /// Distance from an obstacle below which a sampled point of a path
    /// counts as blocked.
    pub clearance_radius: i32,
    /// Half the width of the zone of relevance, centred on the origin.
    pub zone_half_width: i32,
    /// Half the height of the zone of relevance, centred on the origin.
    pub zone_half_height: i32,
    /// Number of points sampled on a path, both ends included.
    pub path_samples: u16,
    /// Where the goalie retreats to.
    pub home: Vec2,
    /// How the way to the primary target is checked.
    pub path_check: PathCheck,
}

/// What the goalie does in a tick in which it acts.
#[derive(Clone, Copy, Debug, PartialEq, Eq, Structural)]
pub enum Action {
    /// Go to the given target.
    Intercept(Vec2),
    /// Retreat to the home position.
    SafeMode,
}

/// A decision with the values that go with it. The two times are rounded
/// down to the grid; the race itself is decided on the exact times, so a
/// race that is a tie is an interception even where the rounded times
/// differ.
#[derive(Clone, Copy, Debug, PartialEq, Eq)]
pub struct Evaluation {
    /// Where the ball is expected to be.
    pub forecast: Vec2,
    /// Time the goalie needs to get there.
    pub goalie_time: u64,
    /// Time the opponent needs to get there.
    pub enemy_time: u64,
    /// Whether the way to the primary target was found blocked; `None`
    /// where the race was lost and the way was not looked at.
    pub path_blocked: Option<bool>,
    /// The action chosen.
    pub action: Action,
}

/// What happened in one tick.
#[derive(Clone, Copy, Debug, PartialEq, Eq)]
pub enum Tick {
    /// The ball was outside the zone of relevance: nothing was done.
    Idle,
    /// The ball was in the zone but its forecast left the range of
    /// coordinates: the goalie retreated.
    Unforecastable,
    /// The ball was in the zone and the race was evaluated.
    Decided(Evaluation),
}

/// The goalie: the agent whose position the engine owns.
#[derive(Clone, Copy, Debug, PartialEq, Eq, Structural)]
pub struct Goalie {
    pub position: Vec2,
}

/// The point `p` lies in the zone of relevance, borders included.
pub open spec fn in_zone(p: Vec2, cfg: Config) -> bool {
    &&& -(cfg.zone_half_width as int) <= p.x <= cfg.zone_half_width
    &&& -(cfg.zone_half_height as int) <= p.y <= cfg.zone_half_height
}

impl Default for Config {
    /// The usual tuning: threshold 1.2, correction 0.1, goalie speed 2,
    /// clearance radius 1, a zone reaching 10 by 20 either side of the
    /// origin, eleven samples on the curve, and the origin as home.
    fn default() -> (cfg: Config)
        ensures
            cfg == (Config {
                intercept_threshold: 1200,
                error_correction_factor: 100,
                goalie_speed: 2000,
                clearance_radius: 1000,
                zone_half_width: 10_000,
                zone_half_height: 20_000,
                path_samples: 11,
                home: Vec2 { x: 0, y: 0 },
                path_check: PathCheck::Curve,
            }),
    {
        Config {
            intercept_threshold: 1200,
            error_correction_factor: 100,
            goalie_speed: 2000,
            clearance_radius: 1000,
            zone_half_width: 10_000,
            zone_half_height: 20_000,
            path_samples: 11,
            home: Vec2 { x: 0, y: 0 },
            path_check: PathCheck::Curve,
        }
    }
}

impl Action {
    /// Where the goalie stands after the action.
    pub open spec fn destination(self, cfg: Config) -> Vec2 {
        match self {
            Action::Intercept(target) => target,
            Action::SafeMode => cfg.home,
        }
    }
}

impl Tick {
    /// The action taken in the tick, if any.
    pub open spec fn taken(self) -> Option<Action> {
        match self {
            Tick::Idle => None,
            Tick::Unforecastable => Some(Action::SafeMode),
            Tick::Decided(e) => Some(e.action),
        }
    }

    /// The action taken in the tick, if any.
    pub fn action(&self) -> (a: Option<Action>)
        ensures
            a == self.taken(),
    {
        match self {
            Tick::Idle => None,
            Tick::Unforecastable => Some(Action::SafeMode),
            Tick::Decided(e) => Some(e.action),
        }
    }
}

impl Goalie {
    /// Time the goalie needs to reach `target` at its nominal speed.
    pub open spec fn arrival(self, target: Vec2, cfg: Config) -> int {
        arrival_time(dist_sq(self.position, target), nominal_speed_sq(cfg.goalie_speed as int))
    }

    /// The goalie wins the race to `forecast`: it is there no later than
    /// the threshold times the time the opponent needs, neither time
    /// rounded. A tie goes to the goalie.
    pub open spec fn wins_race(self, forecast: Vec2, enemy: Enemy, cfg: Config) -> bool {
        outruns(
            dist_sq(self.position, forecast),
            nominal_speed_sq(cfg.goalie_speed as int),
            dist_sq(enemy.position, forecast),
            length_sq(enemy.velocity.x as int, enemy.velocity.y as int),
            cfg.intercept_threshold as int,
        )
    }

    /// The way from the goalie to `target` is obstructed by the opponent,
    /// by the check that the configuration selects.
    pub open spec fn route_blocked(self, target: Vec2, enemy: Enemy, cfg: Config) -> bool {
        match cfg.path_check {
            PathCheck::Curve => flattened(self.position, target).path_blocked(
                enemy.position,
                cfg.clearance_radius as int,
                cfg.path_samples as int,
            ),
            PathCheck::Straight => segment_blocked(
                self.position,
                target,
                enemy.position,
                cfg.clearance_radius as int,
                cfg.path_samples as int,
            ),
            PathCheck::AlwaysClear => false,
        }
    }

    /// The decision for a ball forecast at `forecast`: intercept if the
    /// goalie wins the race to it, toward `shoot_target` if the way there
    /// is free and toward `pass_target` if not; retreat otherwise.
    pub open spec fn evaluation(
        self,
        forecast: Vec2,
        enemy: Enemy,
        pass_target: Vec2,
        shoot_target: Vec2,
        cfg: Config,
    ) -> Evaluation {
        let goalie_time = self.arrival(forecast, cfg);
        let enemy_time = enemy.arrival(forecast);
        if self.wins_race(forecast, enemy, cfg) {
            let blocked = self.route_blocked(shoot_target, enemy, cfg);
            Evaluation {
                forecast,
                goalie_time: goalie_time as u64,
                enemy_time: enemy_time as u64,
                path_blocked: Some(blocked),
                action: Action::Intercept(
                    if blocked {
                        pass_target
                    } else {
                        shoot_target
                    },
                ),
            }
        } else {
            Evaluation {
                forecast,
                goalie_time: goalie_time as u64,
                enemy_time: enemy_time as u64,
                path_blocked: None,
                action: Action::SafeMode,
            }
        }
    }

    /// What a tick yields for a ball in the zone: the evaluation of its
    /// forecast, or the retreat where there is no forecast.
    pub open spec fn considered(
        self,
        ball: Ball,
        enemy: Enemy,
        teammate_position: Vec2,
        goal_position: Vec2,
        delta_time: int,
        cfg: Config,
    ) -> Tick {
        match ball.forecast(delta_time, cfg.error_correction_factor as int) {
            Some(forecast) => Tick::Decided(
                self.evaluation(forecast, enemy, teammate_position, goal_position, cfg),
            ),
            None => Tick::Unforecastable,
        }
    }

    /// What a tick yields: nothing for a ball outside the zone, and what
    /// [`Goalie::considered`] says for one inside.
    pub open spec fn ticked(
        self,
        ball: Ball,
        enemy: Enemy,
        teammate_position: Vec2,
        goal_position: Vec2,
        delta_time: int,
        cfg: Config,
    ) -> Tick {
        if in_zone(ball.position, cfg) {
            self.considered(ball, enemy, teammate_position, goal_position, delta_time, cfg)
        } else {
            Tick::Idle
        }
    }

    /// The goalie after a tick that yielded `tick`.
    pub open spec fn after(self, tick: Tick, cfg: Config) -> Goalie {
        match tick.taken() {
            Some(action) => Goalie { position: action.destination(cfg) },
            None => self,
        }
    }

    /// A goalie standing at `position`.
    pub fn new(position: Vec2) -> (g: Goalie)
        ensures
            g.position == position,
    {
        Goalie { position }
    }

    /// Time the goalie needs to reach `target` at its nominal speed.
    pub fn time_to_reach(&self, target: &Vec2, cfg: &Config) -> (t: u64)
        ensures
            t == self.arrival(*target, *cfg),
            t <= MAX_TIME,
    {
        time_to_reach(&self.position, cfg.goalie_speed as i64, target)
    }

    /// Decides whether the goalie wins the race to `forecast`. The
    /// comparison is made on squares and products of the distances and
    /// speeds themselves, so it is the one of the exact times.
    pub fn can_intercept(&self, forecast: &Vec2, enemy: &Enemy, cfg: &Config) -> (go: bool)
        ensures
            go == self.wins_race(*forecast, *enemy, *cfg),
    {
        let own: (i64, i64) = displacement(&self.position, forecast);
        let other: (i64, i64) = displacement(&enemy.position, forecast);
        let own_dist_sq: u128 = norm_squared(own.0, own.1);
        let other_dist_sq: u128 = norm_squared(other.0, other.1);
        let other_speed_sq: u128 = norm_squared(enemy.velocity.x as i64, enemy.velocity.y as i64);
        proof {
            lemma_length_bound(own.0 as int, own.1 as int);
            lemma_length_bound(other.0 as int, other.1 as int);
            lemma_length_bound(enemy.velocity.x as int, enemy.velocity.y as int);
        }
        if cfg.intercept_threshold < 0 {
            return own_dist_sq == 0 && other_dist_sq == 0;
        }
        let threshold: u128 = cfg.intercept_threshold as u128;
        let speed: u128 = if cfg.goalie_speed >= 1 {
            cfg.goalie_speed as u128
        } else {
            0
        };
        proof {
            lemma_product_bound(speed as int, speed as int, 0x8000_0000, 0x8000_0000);
            lemma_product_bound(threshold as int, threshold as int, 0x8000_0000, 0x8000_0000);
            lemma_product_bound(
                (threshold * threshold) as int,
                other_dist_sq as int,
                0x4000_0000_0000_0000,
                0x2_0000_0000_0000_0000,
            );
        }
        let own_speed_sq: u128 = speed * speed;
        let own_rest: u128 = if own_speed_sq >= 1 {
            1
        } else {
            1_000_000
        };
        let own_divisor: u128 = if own_speed_sq >= 1 {
            own_speed_sq
        } else {
            1
        };
        let other_rest: u128 = if other_speed_sq >= 1 {
            1
        } else {
            1_000_000
        };
        let other_divisor: u128 = if other_speed_sq >= 1 {
            other_speed_sq
        } else {
            1
        };
        assert(own_speed_sq == nominal_speed_sq(cfg.goalie_speed as int));
        let left: u128 = 1_000_000 * own_dist_sq * own_rest;
        let right: u128 = threshold * threshold * other_dist_sq;
        product_le(left, other_divisor, right, other_rest * own_divisor)
    }

    /// Whether the opponent obstructs the way from the goalie to `target`.
    pub fn bezier_path_blocked(&self, target: &Vec2, enemy: &Enemy, cfg: &Config) -> (blocked: bool)
        ensures
            blocked == self.route_blocked(*target, *enemy, *cfg),
            cfg.path_check != PathCheck::AlwaysClear ==> blocked == segment_blocked(
                self.position,
                *target,
                enemy.position,
                cfg.clearance_radius as int,
                cfg.path_samples as int,
            ),
    {
        match cfg.path_check {
            PathCheck::Curve => {
                let path = RobotTrajectory::new(
                    (self.position.x, self.position.y),
                    (target.x, target.y),
                    (target.x, target.y),
                );
                path.is_path_blocked(&enemy.position, cfg.clearance_radius, cfg.path_samples)
            },
            PathCheck::Straight => is_segment_blocked(
                &self.position,
                target,
                &enemy.position,
                cfg.clearance_radius,
                cfg.path_samples,
            ),
            PathCheck::AlwaysClear => false,
        }
    }

    /// Moves the goalie to `target`.
    pub fn intercept(&mut self, target: Vec2)
        ensures
            final(self).position == target,
    {
        self.position = target;
    }

    /// Sends the goalie back to its home position.
    pub fn safe_mode(&mut self, cfg: &Config)
        ensures
            final(self).position == cfg.home,
    {
        self.position = cfg.home;
    }

    /// Carries out `action`.
    pub fn apply(&mut self, action: &Action, cfg: &Config)
        ensures
            final(self).position == action.destination(*cfg),
    {
        match action {
            Action::Intercept(target) => self.intercept(*target),
            Action::SafeMode => self.safe_mode(cfg),
        }
    }

    /// Decides what to do about a ball forecast at `forecast`, without
    /// moving.
    pub fn decide(
        &self,
        forecast: &Vec2,
        enemy: &Enemy,
        pass_target: &Vec2,
        shoot_target: &Vec2,
        cfg: &Config,
    ) -> (e: Evaluation)
        ensures
            e == self.evaluation(*forecast, *enemy, *pass_target, *shoot_target, *cfg),
    {
        let goalie_time: u64 = self.time_to_reach(forecast, cfg);
        let enemy_time: u64 = enemy.time_to_reach(forecast);
        if self.can_intercept(forecast, enemy, cfg) {
            let blocked = self.bezier_path_blocked(shoot_target, enemy, cfg);
            let target = if blocked {
                *pass_target
            } else {
                *shoot_target
            };
            Evaluation {
                forecast: *forecast,
                goalie_time,
                enemy_time,
                path_blocked: Some(blocked),
                action: Action::Intercept(target),
            }
        } else {
            Evaluation {
                forecast: *forecast,
                goalie_time,
                enemy_time,
                path_blocked: None,
                action: Action::SafeMode,
            }
        }
    }

    /// Forecasts the ball `delta_time` ahead, decides and moves. Where the
    /// forecast leaves the range of coordinates the goalie retreats.
    pub fn decide_action(
        &mut self,
        ball: &Ball,
        enemy: &Enemy,
        teammate_position: Vec2,
        goal_position: Vec2,
        delta_time: i32,
        cfg: &Config,
    ) -> (tick: Tick)
        ensures
            tick == old(self).considered(
                *ball,
                *enemy,
                teammate_position,
                goal_position,
                delta_time as int,
                *cfg,
            ),
            *final(self) == old(self).after(tick, *cfg),
    {
        match ball.predict_position(delta_time, cfg.error_correction_factor) {
            Some(forecast) => {
                let e = self.decide(&forecast, enemy, &teammate_position, &goal_position, cfg);
                self.apply(&e.action, cfg);
                Tick::Decided(e)
            },
            None => {
                self.safe_mode(cfg);
                Tick::Unforecastable
            },
        }
    }

    /// Whether the ball is in the zone of relevance.
    pub fn in_target_box(ball: &Ball, cfg: &Config) -> (inside: bool)
        ensures
            inside == in_zone(ball.position, *cfg),
    {
        let x: i64 = ball.position.x as i64;
        let y: i64 = ball.position.y as i64;
        let w: i64 = cfg.zone_half_width as i64;
        let h: i64 = cfg.zone_half_height as i64;
        -w <= x && x <= w && -h <= y && y <= h
    }

    /// One tick of the engine: nothing happens while the ball, where it was
    /// last seen, is outside the zone of relevance; otherwise the goalie
    /// decides and moves.
    pub fn tick(
        &mut self,
        ball: &Ball,
        enemy: &Enemy,
        teammate_position: Vec2,
        goal_position: Vec2,
        delta_time: i32,
        cfg: &Config,
    ) -> (tick: Tick)
        ensures
            tick == old(self).ticked(
                *ball,
                *enemy,
                teammate_position,
                goal_position,
                delta_time as int,
                *cfg,
            ),
            *final(self) == old(self).after(tick, *cfg),
    {
        if Goalie::in_target_box(ball, cfg) {
            self.decide_action(ball, enemy, teammate_position, goal_position, delta_time, cfg)
        } else {
            Tick::Idle
        }
    }
}

/// Where the goalie's exact time equals the opponent's exact time
/// multiplied by the threshold, the goalie intercepts: the comparison is
/// not strict. The equality is stated as the race states it, on the squares
/// of the two sides cleared of their divisors.
pub proof fn lemma_tie_goes_to_interception(
    goalie: Goalie,
    forecast: Vec2,
    enemy: Enemy,
    pass_target: Vec2,
    shoot_target: Vec2,
    cfg: Config,
)
    requires
        cfg.intercept_threshold >= 0,
        ({
            let own_speed_sq = nominal_speed_sq(cfg.goalie_speed as int);
            let other_speed_sq = length_sq(enemy.velocity.x as int, enemy.velocity.y as int);
            (1_000_000 * dist_sq(goalie.position, forecast) * rest_factor(own_speed_sq))
                * speed_divisor(other_speed_sq) == (cfg.intercept_threshold
                * cfg.intercept_threshold * dist_sq(enemy.position, forecast)) * (rest_factor(
                other_speed_sq,
            ) * speed_divisor(own_speed_sq))
        }),
    ensures
        goalie.wins_race(forecast, enemy, cfg),
        goalie.evaluation(forecast, enemy, pass_target, shoot_target, cfg).action is Intercept,
{
}

/// While the ball is outside the zone of relevance a tick does nothing and
/// leaves the goalie where it is, whatever else it is given.
pub proof fn lemma_idle_outside_zone(
    goalie: Goalie,
    ball: Ball,
    enemy: Enemy,
    teammate_position: Vec2,
    goal_position: Vec2,
    delta_time: int,
    cfg: Config,
)
    requires
        !in_zone(ball.position, cfg),
    ensures
        goalie.ticked(ball, enemy, teammate_position, goal_position, delta_time, cfg) == Tick::Idle,
        goalie.after(
            goalie.ticked(ball, enemy, teammate_position, goal_position, delta_time, cfg),
            cfg,
        ) == goalie,
{
}

} // verus!
