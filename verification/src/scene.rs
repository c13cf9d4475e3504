//! The simulation loop: a collection of agents driven until one arrives.

use vstd::prelude::*;

use crate::accel_diff_drive::{AccelDiffDriveAgent, AccelState};
use crate::agent::{goal_dist_spec, Action2, Agent, AgentModel, Pose};
use crate::diff_drive::DiffDriveAgent;

verus! {

/// One member of a scene: an agent of either dynamics variant.
#[derive(Clone, Copy, PartialEq, Eq, Structural, Debug)]
pub enum SceneAgent {
    Drive(DiffDriveAgent),
    Accel(AccelDiffDriveAgent),
}

impl SceneAgent {
    /// The member's fixed goal pose.
    pub open spec fn goal_of(self) -> Pose {
        match self {
            SceneAgent::Drive(a) => a.goal,
            SceneAgent::Accel(a) => a.goal,
        }
    }

    /// Distance from the member's goal pose to its current pose.
    pub open spec fn goal_dist_of(self) -> nat {
        match self {
            SceneAgent::Drive(a) => goal_dist_spec::<Pose, Action2, DiffDriveAgent>(a),
            SceneAgent::Accel(a) => goal_dist_spec::<AccelState, Action2, AccelDiffDriveAgent>(a),
        }
    }

    /// `post` is `pre` advanced by one step of its own dynamics under some
    /// action of the model's action box, with the goal untouched.
    pub open spec fn advanced(pre: SceneAgent, post: SceneAgent, dt: i64) -> bool {
        match (pre, post) {
            (SceneAgent::Drive(p), SceneAgent::Drive(q)) => {
                &&& q.goal == p.goal
                &&& exists|act: Action2|
                    {
                        &&& #[trigger] DiffDriveAgent::action_ok(act)
                        &&& q.state == DiffDriveAgent::query_spec(p.state, act, dt)
                    }
            },
            (SceneAgent::Accel(p), SceneAgent::Accel(q)) => {
                &&& q.goal == p.goal
                &&& exists|act: Action2|
                    {
                        &&& #[trigger] AccelDiffDriveAgent::action_ok(act)
                        &&& q.state == AccelDiffDriveAgent::query_spec(p.state, act, dt)
                    }
            },
            _ => false,
        }
    }

    /// Whether the member is within `eps` of its goal.
    fn member_at_goal(&self, eps: i64) -> (r: bool)
        ensures
            r == (self.goal_dist_of() <= eps as int),
    {
        match self {
            SceneAgent::Drive(a) => a.at_goal(eps),
            SceneAgent::Accel(a) => a.at_goal(eps),
        }
    }

    /// Ask the member for its best sampled action and apply it.
    fn step(self, control_iters: u32, rollout_iters: u32, dt: i64) -> (r: SceneAgent)
        ensures
            SceneAgent::advanced(self, r, dt),
    {
        match self {
            SceneAgent::Drive(a) => {
                let mut a = a;
                let best = a.get_next_best_action(control_iters, rollout_iters, dt);
                a.take(&best.0, dt);
                SceneAgent::Drive(a)
            },
            SceneAgent::Accel(a) => {
                let mut a = a;
                let best = a.get_next_best_action(control_iters, rollout_iters, dt);
                a.take(&best.0, dt);
                SceneAgent::Accel(a)
            },
        }
    }
}

/// An ordered collection of agents sharing one set of run constants.
pub struct Scene {
    pub agents: Vec<SceneAgent>,
}

impl Scene {
    /// Simulation time step: 0.01 in micro-units.
    pub const DT: i64 = 10_000;

    /// Goal tolerance: 0.1 in micro-units.
    pub const GOAL_EPS: i64 = 100_000;

    /// Candidate actions sampled per agent and step, beyond the seed.
    pub const CONTROL_SAMPLES: u32 = 10_000;

    /// Rollout depth used to score a candidate action.
    pub const ROLLOUT_ITERS: u32 = 10;

    /// True exactly when some agent is within the goal tolerance: one
    /// arrival finishes the run, even with several agents present.
    pub open spec fn done_spec(self) -> bool {
        exists|i: int|
            0 <= i < self.agents@.len() && (#[trigger] self.agents@[i].goal_dist_of())
                <= Self::GOAL_EPS
    }

    /// Advance every agent by one optimized step, each independently.
    pub fn run_once(&mut self)
        ensures
            final(self).agents@.len() == old(self).agents@.len(),
            forall|i: int|
                0 <= i < old(self).agents@.len() ==> SceneAgent::advanced(
                    old(self).agents@[i],
                    #[trigger] final(self).agents@[i],
                    Self::DT,
                ),
    {
        let n = self.agents.len();
        let mut i: usize = 0;
        while i < n
            invariant
                i <= n,
                n == old(self).agents@.len(),
                self.agents@.len() == n,
                forall|j: int|
                    0 <= j < i ==> SceneAgent::advanced(
                        old(self).agents@[j],
                        #[trigger] self.agents@[j],
                        Self::DT,
                    ),
                forall|j: int| i <= j < n ==> self.agents@[j] == old(self).agents@[j],
            decreases n - i,
        {
            let sa = self.agents[i];
            let stepped = sa.step(Self::CONTROL_SAMPLES, Self::ROLLOUT_ITERS, Self::DT);
            self.agents.set(i, stepped);
            i = i + 1;
        }
    }

    /// Whether the run is over: true exactly when any one agent is within
    /// the goal tolerance of its goal.
    pub fn done(&self) -> (r: bool)
        ensures
            r == self.done_spec(),
    {
        let n = self.agents.len();
        let mut found = false;
        let mut i: usize = 0;
        while i < n
            invariant
                i <= n,
                n == self.agents@.len(),
                found == exists|j: int|
                    0 <= j < i && (#[trigger] self.agents@[j].goal_dist_of()) <= Self::GOAL_EPS,
            decreases n - i,
        {
            let here = self.agents[i].member_at_goal(Self::GOAL_EPS);
            found = found || here;
            i = i + 1;
        }
        found
    }

    /// Step the scene until some agent reaches its goal, and report whether
    /// one did. The loop carries a step budget of `u64::MAX`, far beyond
    /// what any run could take, so that it provably terminates; a scene
    /// whose goals are unreachable runs the budget out instead of looping
    /// forever.
    pub fn run(&mut self) -> (r: bool)
        ensures
            r == final(self).done_spec(),
            final(self).agents@.len() == old(self).agents@.len(),
            forall|i: int|
                0 <= i < old(self).agents@.len() ==> (#[trigger] final(self).agents@[i]).goal_of()
                    == old(self).agents@[i].goal_of(),
    {
        let n = self.agents.len();
        let mut fuel: u64 = u64::MAX;
        let mut d = self.done();
        while !d && fuel > 0
            invariant
                d == self.done_spec(),
                self.agents@.len() == n == old(self).agents@.len(),
                forall|i: int|
                    0 <= i < n ==> (#[trigger] self.agents@[i]).goal_of()
                        == old(self).agents@[i].goal_of(),
            decreases fuel,
        {
            self.run_once();
            d = self.done();
            fuel = fuel - 1;
        }
        d
    }
}

} // verus!
