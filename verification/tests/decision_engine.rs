use goalie_core::arrival::Enemy;
use goalie_core::goalie::{Action, Config, Evaluation, Goalie, PathCheck, Tick};
use goalie_core::motion::Ball;
use goalie_core::vector::Vec2;

fn v(x: i32, y: i32) -> Vec2 {
    Vec2 { x, y }
}

const PASS: Vec2 = Vec2 { x: -5000, y: 10_000 };
const SHOOT: Vec2 = Vec2 { x: 0, y: -20_000 };

#[test]
fn default_configuration() {
    let cfg = Config::default();
    assert_eq!(cfg.intercept_threshold, 1200);
    assert_eq!(cfg.error_correction_factor, 100);
    assert_eq!(cfg.goalie_speed, 2000);
    assert_eq!(cfg.clearance_radius, 1000);
    assert_eq!(cfg.zone_half_width, 10_000);
    assert_eq!(cfg.zone_half_height, 20_000);
    assert_eq!(cfg.path_samples, 11);
    assert_eq!(cfg.home, v(0, 0));
    assert_eq!(cfg.path_check, PathCheck::Curve);
}

#[test]
fn goalie_time_uses_the_nominal_speed() {
    let cfg = Config::default();
    let g = Goalie::new(v(0, 0));
    assert_eq!(g.position, v(0, 0));
    assert_eq!(g.time_to_reach(&v(2000, 2000), &cfg), 1414);
    let mut slow = cfg;
    slow.goalie_speed = 0;
    assert_eq!(g.time_to_reach(&v(2000, 2000), &slow), 2_828_427_124);
}

#[test]
fn race_is_won_up_to_the_threshold() {
    let cfg = Config::default();
    let g = Goalie::new(v(0, 0));
    let enemy = Enemy::new(v(4400, 0), v(2000, 0));
    // The opponent needs 1 to reach each of these points.
    assert!(g.can_intercept(&v(2400, 0), &enemy, &cfg));
    assert!(g.can_intercept(&v(2399, 0), &Enemy::new(v(4399, 0), v(2000, 0)), &cfg));
    assert!(!g.can_intercept(&v(2401, 0), &Enemy::new(v(4401, 0), v(2000, 0)), &cfg));
    assert!(g.can_intercept(&v(0, 0), &enemy, &cfg));
}

#[test]
fn race_is_decided_on_the_exact_times() {
    // Both are the square root of 8 from the ball; 2.4 is 1.2 times 2, so
    // the race is a tie, though the times round to 1.414 and 1.178.
    let cfg = Config::default();
    let g = Goalie::new(v(0, 0));
    let enemy = Enemy::new(v(4000, 4000), v(2400, 0));
    assert!(g.can_intercept(&v(2000, 2000), &enemy, &cfg));
    let e = g.decide(&v(2000, 2000), &enemy, &PASS, &SHOOT, &cfg);
    assert_eq!(e.goalie_time, 1414);
    assert_eq!(e.enemy_time, 1178);
    assert_eq!(e.action, Action::Intercept(SHOOT));
    let faster = Enemy::new(v(4000, 4000), v(2401, 0));
    assert!(!g.can_intercept(&v(2000, 2000), &faster, &cfg));
    let slower = Enemy::new(v(4000, 4000), v(2399, 0));
    assert!(g.can_intercept(&v(2000, 2000), &slower, &cfg));
}

#[test]
fn race_with_unusual_thresholds() {
    let mut cfg = Config::default();
    let g = Goalie::new(v(0, 0));
    let enemy = Enemy::new(v(4000, 0), v(2000, 0));
    cfg.intercept_threshold = 0;
    assert!(g.can_intercept(&v(0, 0), &enemy, &cfg));
    assert!(!g.can_intercept(&v(1, 0), &enemy, &cfg));
    cfg.intercept_threshold = -1;
    assert!(!g.can_intercept(&v(0, 0), &enemy, &cfg));
    assert!(g.can_intercept(&v(0, 0), &Enemy::new(v(0, 0), v(2000, 0)), &cfg));
    cfg.intercept_threshold = i32::MIN;
    assert!(!g.can_intercept(&v(1, 0), &Enemy::new(v(1, 0), v(2000, 0)), &cfg));
    cfg.intercept_threshold = i32::MAX;
    assert!(g.can_intercept(&v(3999, 0), &enemy, &cfg));
    assert!(!g.can_intercept(&v(4000, 0), &enemy, &cfg));
}

#[test]
fn race_between_agents_at_rest() {
    let mut cfg = Config::default();
    cfg.goalie_speed = 0;
    cfg.intercept_threshold = 1000;
    let g = Goalie::new(v(0, 0));
    let resting = Enemy::new(v(2000, 0), v(0, 0));
    assert!(g.can_intercept(&v(1000, 0), &resting, &cfg));
    assert!(!g.can_intercept(&v(1001, 0), &resting, &cfg));
    // A moving opponent, however slow, is a thousand times faster than one
    // at rest or more.
    let crawling = Enemy::new(v(2_000_000, 0), v(1, 0));
    assert!(g.can_intercept(&v(1000, 0), &crawling, &cfg));
    assert!(!g.can_intercept(&v(2000, 0), &crawling, &cfg));
    cfg.goalie_speed = -5;
    assert!(g.can_intercept(&v(1000, 0), &resting, &cfg));
}

#[test]
fn race_across_the_whole_grid() {
    let mut cfg = Config::default();
    let g = Goalie::new(v(i32::MIN, i32::MIN));
    let enemy = Enemy::new(v(i32::MIN, i32::MIN), v(i32::MIN, i32::MIN));
    let far = v(i32::MAX, i32::MAX);
    cfg.goalie_speed = i32::MAX;
    cfg.intercept_threshold = i32::MAX;
    assert!(g.can_intercept(&far, &enemy, &cfg));
    cfg.intercept_threshold = 1000;
    assert!(!g.can_intercept(&far, &enemy, &cfg));
    cfg.intercept_threshold = 1415;
    assert!(g.can_intercept(&far, &enemy, &cfg));
    cfg.goalie_speed = 0;
    cfg.intercept_threshold = i32::MAX;
    assert!(!g.can_intercept(&far, &enemy, &cfg));
    assert!(g.can_intercept(&far, &Enemy::new(v(i32::MIN, i32::MIN), v(0, 0)), &cfg));
}

#[test]
fn zone_gate_leaves_the_goalie_alone() {
    let cfg = Config::default();
    let ball = Ball::new(v(15_000, 0));
    assert!(!Goalie::in_target_box(&ball, &cfg));
    let enemies = [
        Enemy::new(v(1000, 5000), v(200, -100)),
        Enemy::new(v(15_000, 0), v(0, 0)),
        Enemy::new(v(0, -10_000), v(50_000, 0)),
    ];
    for enemy in enemies.iter() {
        for start in [v(0, 0), v(3000, -4000), v(15_000, 0)] {
            let mut g = Goalie::new(start);
            let tick = g.tick(&ball, enemy, PASS, SHOOT, 100, &cfg);
            assert_eq!(tick, Tick::Idle);
            assert_eq!(tick.action(), None);
            assert_eq!(g.position, start);
        }
    }
}

#[test]
fn zone_borders_belong_to_the_zone() {
    let cfg = Config::default();
    assert!(Goalie::in_target_box(&Ball::new(v(10_000, 20_000)), &cfg));
    assert!(Goalie::in_target_box(&Ball::new(v(-10_000, -20_000)), &cfg));
    assert!(Goalie::in_target_box(&Ball::new(v(0, 6000)), &cfg));
    assert!(!Goalie::in_target_box(&Ball::new(v(10_001, 0)), &cfg));
    assert!(!Goalie::in_target_box(&Ball::new(v(-10_001, 0)), &cfg));
    assert!(!Goalie::in_target_box(&Ball::new(v(0, 20_001)), &cfg));
    assert!(!Goalie::in_target_box(&Ball::new(v(0, -20_001)), &cfg));
    assert!(!Goalie::in_target_box(&Ball::new(v(i32::MIN, i32::MIN)), &cfg));
}

#[test]
fn zone_is_judged_by_where_the_ball_is_not_where_it_will_be() {
    let cfg = Config::default();
    let leaving = Ball::with_state(v(9000, 0), v(100_000, 0), v(0, 0), v(0, 0));
    assert!(Goalie::in_target_box(&leaving, &cfg));
    let entering = Ball::with_state(v(11_000, 0), v(-100_000, 0), v(0, 0), v(0, 0));
    assert!(!Goalie::in_target_box(&entering, &cfg));
}

#[test]
fn an_empty_zone_keeps_the_goalie_idle() {
    let mut cfg = Config::default();
    cfg.zone_half_width = -1;
    assert!(!Goalie::in_target_box(&Ball::new(v(0, 0)), &cfg));
    cfg.zone_half_width = i32::MIN;
    assert!(!Goalie::in_target_box(&Ball::new(v(0, 0)), &cfg));
    cfg.zone_half_width = 0;
    assert!(Goalie::in_target_box(&Ball::new(v(0, 0)), &cfg));
}

#[test]
fn clear_path_shoots() {
    let cfg = Config::default();
    let mut g = Goalie::new(v(0, 0));
    let enemy = Enemy::new(v(100_000, 100_000), v(100, 0));
    let e = g.decide(&v(2000, 2000), &enemy, &PASS, &SHOOT, &cfg);
    assert_eq!(
        e,
        Evaluation {
            forecast: v(2000, 2000),
            goalie_time: 1414,
            enemy_time: 1_385_929,
            path_blocked: Some(false),
            action: Action::Intercept(SHOOT),
        }
    );
    assert_eq!(g.position, v(0, 0));
    g.apply(&e.action, &cfg);
    assert_eq!(g.position, SHOOT);
}

#[test]
fn blocked_path_redirects_to_the_pass_target() {
    let cfg = Config::default();
    let mut g = Goalie::new(v(0, 0));
    let enemy = Enemy::new(v(0, -10_000), v(100, 0));
    assert!(g.bezier_path_blocked(&SHOOT, &enemy, &cfg));
    let e = g.decide(&v(2000, 2000), &enemy, &PASS, &SHOOT, &cfg);
    assert_eq!(
        e,
        Evaluation {
            forecast: v(2000, 2000),
            goalie_time: 1414,
            enemy_time: 121_655,
            path_blocked: Some(true),
            action: Action::Intercept(PASS),
        }
    );
    g.apply(&e.action, &cfg);
    assert_eq!(g.position, PASS);
}

#[test]
fn fast_opponent_sends_the_goalie_home() {
    let cfg = Config::default();
    let mut g = Goalie::new(v(0, 0));
    let enemy = Enemy::new(v(3000, 3000), v(50_000, 0));
    let e = g.decide(&v(2000, 2000), &enemy, &PASS, &SHOOT, &cfg);
    assert_eq!(
        e,
        Evaluation {
            forecast: v(2000, 2000),
            goalie_time: 1414,
            enemy_time: 28,
            path_blocked: None,
            action: Action::SafeMode,
        }
    );
    g.apply(&e.action, &cfg);
    assert_eq!(g.position, v(0, 0));
}

#[test]
fn safe_mode_returns_from_anywhere_to_home() {
    let mut cfg = Config::default();
    let mut g = Goalie::new(v(4000, -3000));
    let enemy = Enemy::new(v(3000, 3000), v(50_000, 0));
    let ball = Ball::new(v(2000, 2000));
    let tick = g.tick(&ball, &enemy, PASS, SHOOT, 100, &cfg);
    assert_eq!(tick.action(), Some(Action::SafeMode));
    assert_eq!(g.position, v(0, 0));
    cfg.home = v(-1, 7);
    g.safe_mode(&cfg);
    assert_eq!(g.position, v(-1, 7));
}

#[test]
fn a_tie_goes_to_interception() {
    let cfg = Config::default();
    let g = Goalie::new(v(0, 0));
    let enemy = Enemy::new(v(4400, 0), v(2000, 0));
    let e = g.decide(&v(2400, 0), &enemy, &PASS, &SHOOT, &cfg);
    assert_eq!(e.goalie_time, 1200);
    assert_eq!(e.enemy_time, 1000);
    assert_eq!(e.goalie_time * 1000, e.enemy_time * 1200);
    assert_eq!(e.action, Action::Intercept(SHOOT));
}

#[test]
fn just_past_the_tie_the_goalie_retreats() {
    let cfg = Config::default();
    let g = Goalie::new(v(0, 0));
    let enemy = Enemy::new(v(4402, 0), v(2000, 0));
    let e = g.decide(&v(2402, 0), &enemy, &PASS, &SHOOT, &cfg);
    assert_eq!(e.goalie_time, 1201);
    assert_eq!(e.enemy_time, 1000);
    assert_eq!(e.path_blocked, None);
    assert_eq!(e.action, Action::SafeMode);
}

#[test]
fn intercept_moves_at_once() {
    let mut g = Goalie::new(v(1, 1));
    g.intercept(v(-700, 900));
    assert_eq!(g.position, v(-700, 900));
    g.intercept(v(i32::MAX, i32::MIN));
    assert_eq!(g.position, v(i32::MAX, i32::MIN));
}

#[test]
fn apply_carries_out_either_action() {
    let cfg = Config::default();
    let mut g = Goalie::new(v(1, 1));
    g.apply(&Action::Intercept(v(5, 6)), &cfg);
    assert_eq!(g.position, v(5, 6));
    g.apply(&Action::SafeMode, &cfg);
    assert_eq!(g.position, v(0, 0));
}

#[test]
fn tick_forecasts_decides_and_moves() {
    let cfg = Config::default();
    let mut g = Goalie::new(v(0, 0));
    let mut ball = Ball::new(v(0, 6000));
    assert_eq!(ball.update(v(100, 5800), 100), Ok(()));
    let enemy = Enemy::new(v(1000, 5000), v(200, -100));
    let tick = g.tick(&ball, &enemy, PASS, SHOOT, 100, &cfg);
    assert_eq!(
        tick,
        Tick::Decided(Evaluation {
            forecast: v(283, 5434),
            goalie_time: 2720,
            enemy_time: 3748,
            path_blocked: Some(false),
            action: Action::Intercept(SHOOT),
        })
    );
    assert_eq!(tick.action(), Some(Action::Intercept(SHOOT)));
    assert_eq!(g.position, SHOOT);
}

#[test]
fn decide_action_does_not_look_at_the_zone() {
    let cfg = Config::default();
    let mut g = Goalie::new(v(0, 0));
    let ball = Ball::new(v(15_000, 0));
    let enemy = Enemy::new(v(100_000, 100_000), v(100, 0));
    let tick = g.decide_action(&ball, &enemy, PASS, SHOOT, 100, &cfg);
    assert_eq!(tick.action(), Some(Action::Intercept(SHOOT)));
    assert_eq!(g.position, SHOOT);
}

#[test]
fn a_ball_that_cannot_be_forecast_sends_the_goalie_home() {
    let cfg = Config::default();
    let mut g = Goalie::new(v(4000, 4000));
    let ball = Ball::with_state(v(0, 0), v(i32::MAX, 0), v(0, 0), v(0, 0));
    let enemy = Enemy::new(v(100_000, 100_000), v(100, 0));
    let tick = g.tick(&ball, &enemy, PASS, SHOOT, i32::MAX, &cfg);
    assert_eq!(tick, Tick::Unforecastable);
    assert_eq!(tick.action(), Some(Action::SafeMode));
    assert_eq!(g.position, v(0, 0));
}

#[test]
fn straight_check_sees_the_same_obstacle() {
    let mut cfg = Config::default();
    cfg.path_check = PathCheck::Straight;
    let g = Goalie::new(v(0, 0));
    let on_the_way = Enemy::new(v(0, -10_000), v(100, 0));
    let far = Enemy::new(v(100_000, 100_000), v(100, 0));
    assert!(g.bezier_path_blocked(&SHOOT, &on_the_way, &cfg));
    assert!(!g.bezier_path_blocked(&SHOOT, &far, &cfg));
    let e = g.decide(&v(2000, 2000), &on_the_way, &PASS, &SHOOT, &cfg);
    assert_eq!(e.action, Action::Intercept(PASS));
}

#[test]
fn without_a_path_check_the_goalie_always_shoots() {
    let mut cfg = Config::default();
    cfg.path_check = PathCheck::AlwaysClear;
    let g = Goalie::new(v(0, 0));
    let on_the_way = Enemy::new(v(0, -10_000), v(100, 0));
    assert!(!g.bezier_path_blocked(&SHOOT, &on_the_way, &cfg));
    let e = g.decide(&v(2000, 2000), &on_the_way, &PASS, &SHOOT, &cfg);
    assert_eq!(e.path_blocked, Some(false));
    assert_eq!(e.action, Action::Intercept(SHOOT));
}

#[test]
fn a_wider_clearance_blocks_sooner() {
    let mut cfg = Config::default();
    let g = Goalie::new(v(0, 0));
    let beside = Enemy::new(v(1500, -10_000), v(100, 0));
    assert!(!g.bezier_path_blocked(&SHOOT, &beside, &cfg));
    cfg.clearance_radius = 1501;
    assert!(g.bezier_path_blocked(&SHOOT, &beside, &cfg));
}
