//! Kinematic differential-drive dynamics: the state is the pose itself.

use vstd::prelude::*;

use crate::agent::{Action2, Agent, AgentModel, Pose};
use crate::fixed;
use crate::fixed::SCALE;
use crate::rng;

verus! {

/// Kinematic differential-drive agent. Its state is its pose; an action
/// commands a linear and an angular velocity, each in `[-1, 1]`.
#[derive(Clone, Copy, PartialEq, Eq, Structural, Debug)]
pub struct DiffDriveAgent {
    pub state: Pose,
    pub goal: Pose,
}

impl DiffDriveAgent {
    /// Lower bound of each action component.
    pub const ACTION_LB: i64 = -SCALE;

    /// Upper bound of each action component.
    pub const ACTION_UB: i64 = SCALE;
}

impl AgentModel<Pose, Action2> for DiffDriveAgent {
    open spec fn goal_spec(&self) -> Pose {
        self.goal
    }

    open spec fn state_spec(&self) -> Pose {
        self.state
    }

    open spec fn action_ok(a: Action2) -> bool {
        &&& Self::ACTION_LB <= a.lin <= Self::ACTION_UB
        &&& Self::ACTION_LB <= a.ang <= Self::ACTION_UB
    }

    open spec fn pose_spec(s: Pose) -> Pose {
        s
    }

    /// The position update is rotated by the action's own angular component,
    /// not by the state's heading. That asymmetry is deliberate and is kept
    /// exactly; only the position update is rotated, the heading integrates
    /// the angular command directly.
    open spec fn query_spec(s: Pose, a: Action2, dt: i64) -> Pose {
        Pose {
            x: fixed::sat_add_spec(
                s.x as int,
                fixed::fmul_spec(
                    fixed::fmul_spec(a.lin as int, fixed::cos_fp_spec(a.ang as int)),
                    dt as int,
                ),
            ) as i64,
            y: fixed::sat_add_spec(
                s.y as int,
                fixed::fmul_spec(
                    fixed::fmul_spec(a.lin as int, fixed::sin_fp_spec(a.ang as int)),
                    dt as int,
                ),
            ) as i64,
            th: fixed::sat_add_spec(
                s.th as int,
                fixed::fmul_spec(a.ang as int, dt as int),
            ) as i64,
        }
    }
}

impl Agent<Pose, Action2> for DiffDriveAgent {
    fn get_goal_pose(&self) -> (r: Pose) {
        self.goal
    }

    fn get_state(&self) -> (r: Pose) {
        self.state
    }

    fn pose_from_state(&self, state: &Pose) -> (r: Pose) {
        Pose { x: state.x, y: state.y, th: state.th }
    }

    fn get_random_action(&self) -> (r: Action2) {
        Action2 {
            lin: rng::sample_uniform(Self::ACTION_LB, Self::ACTION_UB),
            ang: rng::sample_uniform(Self::ACTION_LB, Self::ACTION_UB),
        }
    }

    fn query(&self, state: &Pose, action: &Action2, dt: i64) -> (r: Pose) {
        let c = fixed::cos_fp(action.ang);
        let s = fixed::sin_fp(action.ang);
        Pose {
            x: fixed::sat_add(state.x, fixed::fmul(fixed::fmul(action.lin, c), dt)),
            y: fixed::sat_add(state.y, fixed::fmul(fixed::fmul(action.lin, s), dt)),
            th: fixed::sat_add(state.th, fixed::fmul(action.ang, dt)),
        }
    }

    fn take(&mut self, action: &Action2, dt: i64) {
        let s = self.state;
        let next = self.query(&s, action, dt);
        self.state = next;
    }
}

} // verus!
