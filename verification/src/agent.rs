//! The agent capability contract and the random-shooting control core.
//!
//! A dynamics model implements the primitive operations of [`Agent`]; the
//! rollout cost and the sampling search are derived from those primitives
//! once, as default methods, and are shared by every model.

use vstd::prelude::*;

use crate::fixed;

verus! {

/// A pose: planar position and heading, in micro-units.
#[derive(Clone, Copy, PartialEq, Eq, Structural, Debug)]
pub struct Pose {
    pub x: i64,
    pub y: i64,
    pub th: i64,
}

/// A two-component control input, in micro-units.
#[derive(Clone, Copy, PartialEq, Eq, Structural, Debug)]
pub struct Action2 {
    pub lin: i64,
    pub ang: i64,
}

/// Squared Euclidean distance between two poses, over saturating
/// componentwise differences.
pub open spec fn dist_sq_spec(a: Pose, b: Pose) -> int {
    let dx = fixed::sat_sub_spec(a.x as int, b.x as int);
    let dy = fixed::sat_sub_spec(a.y as int, b.y as int);
    let dth = fixed::sat_sub_spec(a.th as int, b.th as int);
    dx * dx + dy * dy + dth * dth
}

/// Euclidean distance between two poses in micro-units, rounded down.
pub open spec fn dist_spec(a: Pose, b: Pose) -> nat {
    fixed::sqrt_spec(dist_sq_spec(a, b) as nat)
}

/// Square of a scalar, widened so it cannot overflow.
fn sq_u128(v: i64) -> (r: u128)
    ensures
        r as int == (v as int) * (v as int),
        r <= 0x40000000000000000000000000000000,
{
    proof {
        assert((v as int) * (v as int) >= 0 && (v as int) * (v as int)
            <= 0x40000000000000000000000000000000) by (nonlinear_arith)
            requires
                -0x8000000000000000 <= v as int <= 0x7fffffffffffffff,
        ;
    }
    let p: i128 = (v as i128) * (v as i128);
    p as u128
}

/// Euclidean distance between two poses.
pub fn pose_dist(a: &Pose, b: &Pose) -> (r: u64)
    ensures
        r as nat == dist_spec(*a, *b),
{
    let dx = fixed::sat_sub(a.x, b.x);
    let dy = fixed::sat_sub(a.y, b.y);
    let dth = fixed::sat_sub(a.th, b.th);
    let s: u128 = sq_u128(dx) + sq_u128(dy) + sq_u128(dth);
    fixed::isqrt(s)
}

/// The state reached from `a`'s current state by applying the same action
/// `n` times in a row, each step advancing time by `dt`.
pub open spec fn rollout_spec<State, Action: Copy, A: AgentModel<State, Action>>(
    a: A,
    act: Action,
    n: nat,
    dt: i64,
) -> State
    decreases n,
{
    if n == 0 {
        a.state_spec()
    } else {
        A::query_spec(rollout_spec::<State, Action, A>(a, act, (n - 1) as nat, dt), act, dt)
    }
}

/// The score of a candidate action: distance from the goal pose to the pose
/// of the state a constant-control rollout of depth `n` ends in.
pub open spec fn cost_spec<State, Action: Copy, A: AgentModel<State, Action>>(
    a: A,
    act: Action,
    n: nat,
    dt: i64,
) -> nat {
    dist_spec(a.goal_spec(), A::pose_spec(rollout_spec::<State, Action, A>(a, act, n, dt)))
}

/// Distance from the goal pose to the agent's current pose.
pub open spec fn goal_dist_spec<State, Action: Copy, A: AgentModel<State, Action>>(a: A) -> nat {
    dist_spec(a.goal_spec(), A::pose_spec(a.state_spec()))
}

/// Index of the candidate the search keeps: the earliest one of minimal
/// cost, since a later candidate replaces the incumbent only on strictly
/// lower cost.
pub open spec fn best_index_spec<State, Action: Copy, A: AgentModel<State, Action>>(
    a: A,
    cands: Seq<Action>,
    n: nat,
    dt: i64,
) -> int
    recommends
        cands.len() >= 1,
    decreases cands.len(),
{
    if cands.len() <= 1 {
        0
    } else {
        let b = best_index_spec::<State, Action, A>(a, cands.drop_last(), n, dt);
        if cost_spec::<State, Action, A>(a, cands.last(), n, dt)
            < cost_spec::<State, Action, A>(a, cands[b], n, dt) {
            cands.len() - 1
        } else {
            b
        }
    }
}

/// The kept index always points into the candidate list.
pub proof fn lemma_best_index_in_range<State, Action: Copy, A: AgentModel<State, Action>>(
    a: A,
    cands: Seq<Action>,
    n: nat,
    dt: i64,
)
    requires
        cands.len() >= 1,
    ensures
        0 <= best_index_spec::<State, Action, A>(a, cands, n, dt) < cands.len(),
    decreases cands.len(),
{
    if cands.len() > 1 {
        lemma_best_index_in_range::<State, Action, A>(a, cands.drop_last(), n, dt);
    }
}

/// The kept candidate costs no more than any candidate, and strictly less
/// than every candidate before it: ties keep the earlier one.
pub proof fn lemma_best_index_minimal<State, Action: Copy, A: AgentModel<State, Action>>(
    a: A,
    cands: Seq<Action>,
    n: nat,
    dt: i64,
)
    requires
        cands.len() >= 1,
    ensures
        forall|j: int|
            0 <= j < cands.len() ==> cost_spec::<State, Action, A>(
                a,
                cands[best_index_spec::<State, Action, A>(a, cands, n, dt)],
                n,
                dt,
            ) <= cost_spec::<State, Action, A>(a, #[trigger] cands[j], n, dt),
        forall|j: int|
            0 <= j < best_index_spec::<State, Action, A>(a, cands, n, dt)
                ==> cost_spec::<State, Action, A>(
                a,
                cands[best_index_spec::<State, Action, A>(a, cands, n, dt)],
                n,
                dt,
            ) < cost_spec::<State, Action, A>(a, #[trigger] cands[j], n, dt),
    decreases cands.len(),
{
    lemma_best_index_in_range::<State, Action, A>(a, cands, n, dt);
    if cands.len() > 1 {
        lemma_best_index_minimal::<State, Action, A>(a, cands.drop_last(), n, dt);
        lemma_best_index_in_range::<State, Action, A>(a, cands.drop_last(), n, dt);
        assert(forall|j: int|
            0 <= j < cands.len() - 1 ==> cands.drop_last()[j] == #[trigger] cands[j]);
    }
}

/// The mathematical reading of a dynamics model: the pure functions the
/// contracts of [`Agent`] are stated over. Each model defines these once;
/// they carry no executable code.
pub trait AgentModel<State, Action: Copy>: Sized {
    /// The fixed goal pose, set at construction.
    spec fn goal_spec(&self) -> Pose;

    /// The current state.
    spec fn state_spec(&self) -> State;

    /// Whether an action lies inside the model's action box.
    spec fn action_ok(a: Action) -> bool;

    /// Pure projection of a state onto the pose compared against the goal.
    spec fn pose_spec(s: State) -> Pose;

    /// One step of forward dynamics over the time increment `dt`.
    spec fn query_spec(s: State, a: Action, dt: i64) -> State;
}

/// Capability contract of a controllable agent. A dynamics model supplies
/// the primitive operations; the cost evaluator and the random-shooting
/// search below are derived from them alone and shared by every model.
pub trait Agent<State, Action: Copy>: AgentModel<State, Action> {
    fn get_goal_pose(&self) -> (r: Pose)
        ensures
            r == self.goal_spec(),
    ;

    fn get_state(&self) -> (r: State)
        ensures
            r == self.state_spec(),
    ;

    fn pose_from_state(&self, state: &State) -> (r: Pose)
        ensures
            r == Self::pose_spec(*state),
    ;

    fn get_random_action(&self) -> (r: Action)
        ensures
            Self::action_ok(r),
    ;

    fn query(&self, state: &State, action: &Action, dt: i64) -> (r: State)
        ensures
            r == Self::query_spec(*state, *action, dt),
    ;

    fn take(&mut self, action: &Action, dt: i64)
        ensures
            final(self).state_spec() == Self::query_spec(old(self).state_spec(), *action, dt),
            final(self).goal_spec() == old(self).goal_spec(),
    ;

    /// Score a candidate action by a constant-control rollout: apply it
    /// `rollout_iters` times from the current state and measure how far from
    /// the goal the final pose lands. The agent's own state is not touched.
    fn cost(&self, action: &Action, rollout_iters: u32, dt: i64) -> (r: u64)
        ensures
            r as nat == cost_spec::<State, Action, Self>(
                *self,
                *action,
                rollout_iters as nat,
                dt,
            ),
    {
        let mut rollout_state = self.get_state();
        let mut i: u32 = 0;
        while i < rollout_iters
            invariant
                i <= rollout_iters,
                rollout_state == rollout_spec::<State, Action, Self>(
                    *self,
                    *action,
                    i as nat,
                    dt,
                ),
            decreases rollout_iters - i,
        {
            rollout_state = self.query(&rollout_state, action, dt);
            i = i + 1;
        }
        pose_dist(&self.get_goal_pose(), &self.pose_from_state(&rollout_state))
    }

    /// Evaluate every candidate in order and keep the earliest one of
    /// minimal cost: a later candidate replaces the incumbent only when its
    /// cost is strictly lower.
    fn best_of(&self, candidates: &Vec<Action>, rollout_iters: u32, dt: i64) -> (r: (Action, u64))
        requires
            candidates@.len() >= 1,
        ensures
            r.0 == candidates@[best_index_spec::<State, Action, Self>(
                *self,
                candidates@,
                rollout_iters as nat,
                dt,
            )],
            r.1 as nat == cost_spec::<State, Action, Self>(*self, r.0, rollout_iters as nat, dt),
    {
        let ghost full = candidates@;
        let mut best_action: Action = candidates[0];
        let mut best_cost: u64 = self.cost(&best_action, rollout_iters, dt);
        proof {
            assert(full.take(1) =~= seq![full[0]]);
        }
        let mut i: usize = 1;
        while i < candidates.len()
            invariant
                1 <= i as int <= full.len(),
                full == candidates@,
                best_action == full[best_index_spec::<State, Action, Self>(
                    *self,
                    full.take(i as int),
                    rollout_iters as nat,
                    dt,
                )],
                best_cost as nat == cost_spec::<State, Action, Self>(
                    *self,
                    best_action,
                    rollout_iters as nat,
                    dt,
                ),
            decreases full.len() - i,
        {
            let cand: Action = candidates[i];
            let c: u64 = self.cost(&cand, rollout_iters, dt);
            proof {
                let pre = full.take(i as int);
                let pre1 = full.take(i as int + 1);
                assert(pre1.drop_last() =~= pre);
                assert(pre1.last() == full[i as int]);
                lemma_best_index_in_range::<State, Action, Self>(
                    *self,
                    pre,
                    rollout_iters as nat,
                    dt,
                );
            }
            if c < best_cost {
                best_action = cand;
                best_cost = c;
            }
            i = i + 1;
        }
        proof {
            assert(full.take(full.len() as int) =~= full);
        }
        (best_action, best_cost)
    }

    /// Random-shooting search: draw one candidate to seed the incumbent,
    /// then `control_iters` further candidates, and return the best action
    /// found together with its cost.
    fn get_next_best_action(&self, control_iters: u32, rollout_iters: u32, dt: i64) -> (r: (
        Action,
        u64,
    ))
        ensures
            Self::action_ok(r.0),
            r.1 as nat == cost_spec::<State, Action, Self>(*self, r.0, rollout_iters as nat, dt),
    {
        let mut candidates: Vec<Action> = Vec::new();
        candidates.push(self.get_random_action());
        let mut i: u32 = 0;
        while i < control_iters
            invariant
                candidates@.len() == i + 1,
                forall|j: int|
                    0 <= j < candidates@.len() ==> Self::action_ok(#[trigger] candidates@[j]),
                i <= control_iters,
            decreases control_iters - i,
        {
            candidates.push(self.get_random_action());
            i = i + 1;
        }
        let r = self.best_of(&candidates, rollout_iters, dt);
        proof {
            lemma_best_index_in_range::<State, Action, Self>(
                *self,
                candidates@,
                rollout_iters as nat,
                dt,
            );
        }
        r
    }

    /// The agent's current pose.
    fn get_pose(&self) -> (r: Pose)
        ensures
            r == Self::pose_spec(self.state_spec()),
    {
        self.pose_from_state(&self.get_state())
    }

    /// Distance from the goal pose to the current pose.
    fn goal_dist(&self) -> (r: u64)
        ensures
            r as nat == goal_dist_spec::<State, Action, Self>(*self),
    {
        pose_dist(&self.get_goal_pose(), &self.get_pose())
    }

    /// Whether the agent has arrived: true exactly when the distance to the
    /// goal is at most `eps`.
    fn at_goal(&self, eps: i64) -> (r: bool)
        ensures
            r == (goal_dist_spec::<State, Action, Self>(*self) <= eps as int),
    {
        let d = self.goal_dist();
        if eps < 0 {
            false
        } else {
            d <= eps as u64
        }
    }
}

/// With no search iterations the search keeps its single seed candidate.
pub proof fn lemma_single_candidate<State, Action: Copy, A: AgentModel<State, Action>>(
    a: A,
    cands: Seq<Action>,
    n: nat,
    dt: i64,
)
    requires
        cands.len() == 1,
    ensures
        best_index_spec::<State, Action, A>(a, cands, n, dt) == 0,
{
}

/// A rollout of depth zero scores every action by the current distance to
/// the goal.
pub proof fn lemma_zero_rollout_cost<State, Action: Copy, A: AgentModel<State, Action>>(
    a: A,
    act: Action,
    dt: i64,
)
    ensures
        cost_spec::<State, Action, A>(a, act, 0, dt) == goal_dist_spec::<State, Action, A>(a),
{
}

/// Widening the candidate list never worsens the cost of the kept
/// candidate: searching over more samples is at least as good.
pub proof fn lemma_more_candidates_no_worse<State, Action: Copy, A: AgentModel<State, Action>>(
    a: A,
    cands: Seq<Action>,
    more: Seq<Action>,
    n: nat,
    dt: i64,
)
    requires
        cands.len() >= 1,
    ensures
        cost_spec::<State, Action, A>(
            a,
            (cands + more)[best_index_spec::<State, Action, A>(a, cands + more, n, dt)],
            n,
            dt,
        ) <= cost_spec::<State, Action, A>(
            a,
            cands[best_index_spec::<State, Action, A>(a, cands, n, dt)],
            n,
            dt,
        ),
    decreases more.len(),
{
    if more.len() == 0 {
        assert(cands + more =~= cands);
    } else {
        lemma_more_candidates_no_worse::<State, Action, A>(a, cands, more.drop_last(), n, dt);
        assert((cands + more).drop_last() =~= cands + more.drop_last());
        lemma_best_index_in_range::<State, Action, A>(a, cands + more.drop_last(), n, dt);
    }
}

} // verus!
