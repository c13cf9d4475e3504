//! Behavioral tests of the control core on concrete values.

use mpc_core::accel_diff_drive::{AccelDiffDriveAgent, AccelState};
use mpc_core::agent::{Action2, Agent, Pose};
use mpc_core::diff_drive::DiffDriveAgent;
use mpc_core::fixed;

const SCALE: i64 = 1_000_000;

fn drive_agent(state: (i64, i64, i64), goal: (i64, i64, i64)) -> DiffDriveAgent {
    DiffDriveAgent {
        state: Pose { x: state.0, y: state.1, th: state.2 },
        goal: Pose { x: goal.0, y: goal.1, th: goal.2 },
    }
}

fn accel_agent(state: (i64, i64, i64, i64, i64), goal: (i64, i64, i64)) -> AccelDiffDriveAgent {
    AccelDiffDriveAgent {
        state: AccelState { x: state.0, y: state.1, th: state.2, v: state.3, w: state.4 },
        goal: Pose { x: goal.0, y: goal.1, th: goal.2 },
    }
}

#[test]
fn fixed_point_products_truncate_toward_zero() {
    assert_eq!(fixed::fmul(2_500_000, 2_000_000), 5_000_000);
    assert_eq!(fixed::fmul(-2_500_000, 2_000_000), -5_000_000);
    assert_eq!(fixed::fmul(1, 1), 0);
    assert_eq!(fixed::fmul(-1, 1), 0);
    assert_eq!(fixed::fmul(999_999, 1), 0);
}

#[test]
fn saturating_addition_clips_at_the_i64_range() {
    assert_eq!(fixed::sat_add(i64::MAX, 1), i64::MAX);
    assert_eq!(fixed::sat_add(i64::MIN, -1), i64::MIN);
    assert_eq!(fixed::sat_add(40, 2), 42);
    assert_eq!(fixed::sat_sub(i64::MIN, 1), i64::MIN);
    assert_eq!(fixed::sat_sub(40, -2), 42);
}

#[test]
fn trig_polynomials_match_their_expected_values() {
    assert_eq!(fixed::cos_fp(0), SCALE);
    assert_eq!(fixed::sin_fp(0), 0);
    // cos(1) by the degree-six polynomial with truncating division.
    assert_eq!(fixed::cos_fp(SCALE), 540_278);
    // sin(1) by the degree-five polynomial with truncating division.
    assert_eq!(fixed::sin_fp(SCALE), 841_667);
    // Even and odd symmetry.
    assert_eq!(fixed::cos_fp(-700_000), fixed::cos_fp(700_000));
    assert_eq!(fixed::sin_fp(-700_000), -fixed::sin_fp(700_000));
    // Arguments beyond one radian are clamped to one radian.
    assert_eq!(fixed::cos_fp(5 * SCALE), fixed::cos_fp(SCALE));
    assert_eq!(fixed::sin_fp(-5 * SCALE), fixed::sin_fp(-SCALE));
}

#[test]
fn pose_distance_is_the_euclidean_norm() {
    let a = Pose { x: 0, y: 0, th: 0 };
    let b = Pose { x: 3_000_000, y: 4_000_000, th: 0 };
    assert_eq!(mpc_core::agent::pose_dist(&a, &b), 5_000_000);
    assert_eq!(mpc_core::agent::pose_dist(&b, &a), 5_000_000);
    // Rounded down when the sum of squares is no perfect square.
    let c = Pose { x: 1, y: 1, th: 1 };
    assert_eq!(mpc_core::agent::pose_dist(&a, &c), 1);
}

#[test]
fn drive_query_integrates_the_commanded_velocities() {
    let a = drive_agent((0, 0, 0), (SCALE, 0, 0));
    // Full speed ahead with no rotation for dt = 0.01.
    let next = a.query(
        &Pose { x: 0, y: 0, th: 0 },
        &Action2 { lin: SCALE, ang: 0 },
        10_000,
    );
    assert_eq!(next, Pose { x: 10_000, y: 0, th: 0 });
    // The position update is rotated by the action's angular component.
    let turned = a.query(
        &Pose { x: 0, y: 0, th: 0 },
        &Action2 { lin: SCALE, ang: SCALE },
        10_000,
    );
    assert_eq!(turned.x, fixed::fmul(fixed::fmul(SCALE, 540_278), 10_000));
    assert_eq!(turned.y, fixed::fmul(fixed::fmul(SCALE, 841_667), 10_000));
    assert_eq!(turned.th, 10_000);
}

#[test]
fn take_applies_one_query_step_in_place() {
    let mut a = drive_agent((100, 200, 300), (SCALE, 0, 0));
    let act = Action2 { lin: SCALE, ang: 0 };
    let expected = a.query(&a.get_state(), &act, 10_000);
    a.take(&act, 10_000);
    assert_eq!(a.get_state(), expected);
}

#[test]
fn accel_query_clamps_velocities_for_any_input() {
    let a = accel_agent((0, 0, 0, 0, 0), (SCALE, 0, 0));
    // Velocities far outside the valid box, plus the largest action.
    let wild = AccelState { x: 0, y: 0, th: 0, v: i64::MAX, w: i64::MIN };
    let act = Action2 { lin: 100_000, ang: -100_000 };
    let next = a.query(&wild, &act, 10_000);
    assert!(-SCALE <= next.v && next.v <= SCALE);
    assert!(-SCALE <= next.w && next.w <= SCALE);
    // And from an ordinary state as well.
    let next2 = a.query(&AccelState { x: 0, y: 0, th: 0, v: SCALE, w: SCALE }, &act, 10_000);
    assert!(-SCALE <= next2.v && next2.v <= SCALE);
    assert!(-SCALE <= next2.w && next2.w <= SCALE);
    assert_eq!(next2.v, SCALE);
    assert_eq!(next2.w, SCALE - 1_000);
}

#[test]
fn accel_clamp_state_touches_only_the_velocities() {
    let a = accel_agent((0, 0, 0, 0, 0), (0, 0, 0));
    let mut s = AccelState { x: 7, y: -9, th: 11, v: 5_000_000, w: -5_000_000 };
    a.clamp_state(&mut s);
    assert_eq!(s, AccelState { x: 7, y: -9, th: 11, v: SCALE, w: -SCALE });
}

#[test]
fn zero_rollout_cost_equals_goal_dist() {
    let a = drive_agent((250_000, -250_000, 0), (SCALE, 0, 0));
    let any = Action2 { lin: -SCALE, ang: SCALE };
    assert_eq!(a.cost(&any, 0, 10_000), a.goal_dist());
    let b = accel_agent((0, 0, 0, SCALE, -SCALE), (SCALE, SCALE, 0));
    assert_eq!(b.cost(&any, 0, 10_000), b.goal_dist());
    let c = b.get_random_action();
    assert_eq!(b.cost(&c, 0, 10_000), b.goal_dist());
}

#[test]
fn at_goal_holds_exactly_on_the_boundary() {
    // dist((0,0,0), (300,400,0)) == 500 exactly.
    let a = drive_agent((0, 0, 0), (300, 400, 0));
    assert_eq!(a.goal_dist(), 500);
    assert!(a.at_goal(500));
    assert!(!a.at_goal(499));
    assert!(a.at_goal(501));
    assert!(!a.at_goal(-1));
}

#[test]
fn random_actions_stay_in_each_variant_action_box() {
    let a = drive_agent((0, 0, 0), (SCALE, 0, 0));
    let b = accel_agent((0, 0, 0, 0, 0), (SCALE, 0, 0));
    let mut distinct = false;
    let first = a.get_random_action();
    for _ in 0..200 {
        let act = a.get_random_action();
        assert!(-SCALE <= act.lin && act.lin <= SCALE);
        assert!(-SCALE <= act.ang && act.ang <= SCALE);
        if act != first {
            distinct = true;
        }
        let bct = b.get_random_action();
        assert!(-100_000 <= bct.lin && bct.lin <= 100_000);
        assert!(-100_000 <= bct.ang && bct.ang <= 100_000);
    }
    // 201 identical draws would mean the sampler is not sampling.
    assert!(distinct);
}

#[test]
fn degenerate_search_returns_its_single_sample() {
    let a = drive_agent((0, 0, 0), (SCALE, 0, 0));
    for _ in 0..20 {
        let (act, cost) = a.get_next_best_action(0, 5, 10_000);
        assert!(-SCALE <= act.lin && act.lin <= SCALE);
        assert!(-SCALE <= act.ang && act.ang <= SCALE);
        assert_eq!(cost, a.cost(&act, 5, 10_000));
    }
}

#[test]
fn best_of_keeps_the_earliest_minimum() {
    let a = drive_agent((0, 0, 0), (SCALE, 0, 0));
    // Standing still scores the current distance; driving forward scores
    // better; a duplicate of the best later on must not displace it.
    let stand = Action2 { lin: 0, ang: 0 };
    let ahead = Action2 { lin: SCALE, ang: 0 };
    let back = Action2 { lin: -SCALE, ang: 0 };
    let cands = vec![stand, ahead, back, ahead];
    let (best, cost) = a.best_of(&cands, 10, 10_000);
    assert_eq!(best, ahead);
    assert_eq!(cost, a.cost(&ahead, 10, 10_000));
    assert!(cost < a.cost(&stand, 10, 10_000));
    let single = vec![back];
    let (only, only_cost) = a.best_of(&single, 10, 10_000);
    assert_eq!(only, back);
    assert_eq!(only_cost, a.cost(&back, 10, 10_000));
}

#[test]
fn more_samples_give_no_worse_costs_on_average() {
    let a = drive_agent((0, 0, 0), (SCALE, 0, 0));
    let trials: u32 = 30;
    let mut sum_few: u128 = 0;
    let mut sum_many: u128 = 0;
    for _ in 0..trials {
        sum_few += a.get_next_best_action(0, 10, 10_000).1 as u128;
        sum_many += a.get_next_best_action(60, 10, 10_000).1 as u128;
    }
    assert!(sum_many <= sum_few);
}

#[test]
fn drive_agent_reaches_a_straight_ahead_goal() {
    let mut a = drive_agent((0, 0, 0), (SCALE, 0, 0));
    let eps: i64 = 10_000;
    let eps_u: u64 = 10_000;
    let mut steps = 0u32;
    let start = a.goal_dist();
    let mut best_seen = start;
    while !a.at_goal(eps) && steps < 2000 {
        let (act, _) = a.get_next_best_action(100, 10, 10_000);
        a.take(&act, 10_000);
        let d = a.goal_dist();
        if d < best_seen {
            best_seen = d;
        }
        steps += 1;
    }
    assert!(steps < 2000, "agent failed to arrive; best distance {}", best_seen);
    assert!(a.goal_dist() <= eps_u);
    assert!(best_seen < start);
}
