//! Acceleration-augmented differential-drive dynamics.
//!
//! The state carries the pose plus a linear and an angular velocity; an
//! action commands two accelerations. Both velocity components are clamped
//! to `[-1, 1]` after every update, so one dynamics step always returns a
//! state with in-range velocities, whatever state it was queried on.

use vstd::prelude::*;

use crate::agent::{Action2, Agent, AgentModel, Pose};
use crate::fixed;
use crate::fixed::SCALE;
use crate::rng;

verus! {

/// State of an acceleration-augmented agent: planar position, heading,
/// linear velocity and angular velocity, in micro-units.
#[derive(Clone, Copy, PartialEq, Eq, Structural, Debug)]
pub struct AccelState {
    pub x: i64,
    pub y: i64,
    pub th: i64,
    pub v: i64,
    pub w: i64,
}

/// Differential-drive agent driven by acceleration commands, each in
/// `[-0.1, 0.1]`.
#[derive(Clone, Copy, PartialEq, Eq, Structural, Debug)]
pub struct AccelDiffDriveAgent {
    pub state: AccelState,
    pub goal: Pose,
}

impl AccelDiffDriveAgent {
    /// Lower bound of each action component.
    pub const ACTION_LB: i64 = -100_000;

    /// Upper bound of each action component.
    pub const ACTION_UB: i64 = 100_000;

    /// Clamp the velocity components of a state to `[-1, 1]`, leaving the
    /// pose components untouched.
    pub fn clamp_state(&self, state: &mut AccelState)
        ensures
            final(state).x == old(state).x,
            final(state).y == old(state).y,
            final(state).th == old(state).th,
            final(state).v as int == fixed::clamp_unit_spec(old(state).v as int),
            final(state).w as int == fixed::clamp_unit_spec(old(state).w as int),
    {
        state.v = fixed::clamp_unit(state.v);
        state.w = fixed::clamp_unit(state.w);
    }
}

impl AgentModel<AccelState, Action2> for AccelDiffDriveAgent {
    open spec fn goal_spec(&self) -> Pose {
        self.goal
    }

    open spec fn state_spec(&self) -> AccelState {
        self.state
    }

    open spec fn action_ok(a: Action2) -> bool {
        &&& Self::ACTION_LB <= a.lin <= Self::ACTION_UB
        &&& Self::ACTION_LB <= a.ang <= Self::ACTION_UB
    }

    open spec fn pose_spec(s: AccelState) -> Pose {
        Pose { x: s.x, y: s.y, th: s.th }
    }

    /// The position update is rotated by the state's angular velocity, the
    /// heading integrates that same velocity, and the velocities integrate
    /// the commanded accelerations before being clamped to `[-1, 1]`.
    open spec fn query_spec(s: AccelState, a: Action2, dt: i64) -> AccelState {
        AccelState {
            x: fixed::sat_add_spec(
                s.x as int,
                fixed::fmul_spec(
                    fixed::fmul_spec(s.v as int, fixed::cos_fp_spec(s.w as int)),
                    dt as int,
                ),
            ) as i64,
            y: fixed::sat_add_spec(
                s.y as int,
                fixed::fmul_spec(
                    fixed::fmul_spec(s.v as int, fixed::sin_fp_spec(s.w as int)),
                    dt as int,
                ),
            ) as i64,
            th: fixed::sat_add_spec(
                s.th as int,
                fixed::fmul_spec(s.w as int, dt as int),
            ) as i64,
            v: fixed::clamp_unit_spec(
                fixed::sat_add_spec(s.v as int, fixed::fmul_spec(a.lin as int, dt as int)),
            ) as i64,
            w: fixed::clamp_unit_spec(
                fixed::sat_add_spec(s.w as int, fixed::fmul_spec(a.ang as int, dt as int)),
            ) as i64,
        }
    }
}

impl Agent<AccelState, Action2> for AccelDiffDriveAgent {
    fn get_goal_pose(&self) -> (r: Pose) {
        self.goal
    }

    fn get_state(&self) -> (r: AccelState) {
        self.state
    }

    fn pose_from_state(&self, state: &AccelState) -> (r: Pose) {
        Pose { x: state.x, y: state.y, th: state.th }
    }

    fn get_random_action(&self) -> (r: Action2) {
        Action2 {
            lin: rng::sample_uniform(Self::ACTION_LB, Self::ACTION_UB),
            ang: rng::sample_uniform(Self::ACTION_LB, Self::ACTION_UB),
        }
    }

    fn query(&self, state: &AccelState, action: &Action2, dt: i64) -> (r: AccelState) {
        let c = fixed::cos_fp(state.w);
        let s = fixed::sin_fp(state.w);
        let mut next = AccelState {
            x: fixed::sat_add(state.x, fixed::fmul(fixed::fmul(state.v, c), dt)),
            y: fixed::sat_add(state.y, fixed::fmul(fixed::fmul(state.v, s), dt)),
            th: fixed::sat_add(state.th, fixed::fmul(state.w, dt)),
            v: fixed::sat_add(state.v, fixed::fmul(action.lin, dt)),
            w: fixed::sat_add(state.w, fixed::fmul(action.ang, dt)),
        };
        self.clamp_state(&mut next);
        next
    }

    fn take(&mut self, action: &Action2, dt: i64) {
        let s = self.state;
        let next = self.query(&s, action, dt);
        self.state = next;
    }
}

/// Clamp invariant of the one-step dynamics: whatever state and action it
/// is queried on, and whatever the time increment, the velocity components
/// of the returned state lie in `[-1, 1]`.
pub proof fn lemma_query_velocity_clamped(s: AccelState, a: Action2, dt: i64)
    ensures
        -SCALE <= <AccelDiffDriveAgent as AgentModel<AccelState, Action2>>::query_spec(
            s,
            a,
            dt,
        ).v <= SCALE,
        -SCALE <= <AccelDiffDriveAgent as AgentModel<AccelState, Action2>>::query_spec(
            s,
            a,
            dt,
        ).w <= SCALE,
{
}

} // verus!
