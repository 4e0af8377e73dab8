//! The learning agent: an epsilon-greedy policy over the value store,
//! with a multiplicatively decaying exploration rate. With probability
//! epsilon the agent explores by a uniformly random action; otherwise it
//! exploits the best-known action for the observation.

use vstd::prelude::*;
use crate::num::{div_trunc, div_trunc_i64};
use crate::observe::Observation;
use crate::qlearn::{Action, QTable, REWARD_BOUND, best_action_spec, max_q_spec, q_of, table_wf,
    td_update};
use crate::rng::rand_below;

verus! {

/// Fixed-point denominator of the exploration rate: epsilon is
/// `epsilon_scaled / EPS_DEN`.
pub const EPS_DEN: i64 = 1_000_000;

/// The initial exploration rate: 1 (always exploring).
pub const EPS_START: i64 = 1_000_000;

/// The floor the exploration rate decays toward: 0.01.
pub const EPS_MIN: i64 = 10_000;

/// Numerator of the per-step decay factor: 0.995.
pub const EPS_DECAY_NUM: i64 = 995;

/// Denominator of the per-step decay factor.
pub const EPS_DECAY_DEN: i64 = 1000;

/// One decay step of the exploration rate: multiply by the decay
/// factor, rounding toward zero, and never fall below the floor.
pub open spec fn eps_decayed(e: int) -> int {
    let d = div_trunc(e * EPS_DECAY_NUM, EPS_DECAY_DEN as int);
    if d < EPS_MIN {
        EPS_MIN as int
    } else {
        d
    }
}

/// The action of each enumeration index, used for uniform exploration.
pub open spec fn action_of_index(i: int) -> Action {
    if i == 0 {
        Action::Up
    } else if i == 1 {
        Action::Down
    } else if i == 2 {
        Action::Left
    } else {
        Action::Right
    }
}

/// What the agent decides once the exploration coin and the uniform
/// pick are fixed: the picked action when exploring, the best-known
/// action otherwise.
pub open spec fn select_action_spec(
    t: Seq<crate::qlearn::QEntryV>,
    s: crate::observe::ObsView,
    explore: bool,
    pick: int,
) -> Action {
    if explore {
        action_of_index(pick % 4)
    } else {
        best_action_spec(t, s)
    }
}

/// A well-formed agent: bounded value estimates and an exploration rate
/// between its floor and its starting value.
pub open spec fn agent_wf(a: RLInterface) -> bool {
    &&& table_wf(a.table@)
    &&& EPS_MIN <= a.epsilon <= EPS_START
}

/// The decision side of the controller: the value table and the
/// exploration rate, owned for exactly as long as the session runs.
pub struct RLInterface {
    pub table: QTable,
    pub epsilon: i64,
}

impl RLInterface {
    /// A fresh agent: an empty table and a fully exploring rate.
    pub fn new() -> (a: RLInterface)
        ensures
            a.table@.len() == 0,
            a.epsilon == EPS_START,
            agent_wf(a),
    {
        RLInterface { table: QTable::new(), epsilon: EPS_START }
    }

    /// The deterministic core of action selection, taking the already
    /// drawn exploration coin and uniform pick as arguments.
    pub fn select_action(&self, s: &Observation, explore: bool, pick: u64) -> (a: Action)
        ensures
            a == select_action_spec(self.table@, s@, explore, pick as int),
    {
        if explore {
            let idx = pick % 4;
            if idx == 0 {
                Action::Up
            } else if idx == 1 {
                Action::Down
            } else if idx == 2 {
                Action::Left
            } else {
                Action::Right
            }
        } else {
            self.table.best_action(s)
        }
    }

    /// Choose the action for observation `s` by the epsilon-greedy
    /// policy. The exploration coin and the pick are random draws, so
    /// only this much holds of every outcome: the choice is what
    /// `select_action` decides for some coin and pick, and an agent
    /// whose rate has a zero chance of exploring would exploit.
    pub fn compute_action(&self, s: &Observation) -> (a: Action)
        requires
            agent_wf(*self),
        ensures
            exists|explore: bool, pick: int|
                0 <= pick < 4 && a == select_action_spec(self.table@, s@, explore, pick),
    {
        let coin = rand_below(EPS_DEN as u64);
        let explore = (coin as i64) < self.epsilon;
        if explore {
            let pick = rand_below(4);
            let a = self.select_action(s, true, pick);
            proof {
                assert(pick as int % 4 == pick as int);
                assert(a == select_action_spec(self.table@, s@, true, pick as int));
            }
            a
        } else {
            let a = self.select_action(s, false, 0);
            proof {
                assert(a == select_action_spec(self.table@, s@, false, 0));
            }
            a
        }
    }

    /// Learn from the transition `(s, a, reward, next)`: one TD update
    /// of the value store. The exploration rate is untouched.
    pub fn learn(&mut self, s: &Observation, a: Action, reward: i64, next: &Observation)
        requires
            agent_wf(*old(self)),
            -REWARD_BOUND <= reward <= REWARD_BOUND,
        ensures
            agent_wf(*final(self)),
            final(self).epsilon == old(self).epsilon,
            q_of(final(self).table@, s@, a) == td_update(
                q_of(old(self).table@, s@, a),
                reward as int,
                max_q_spec(old(self).table@, next@),
            ),
            forall|s2: crate::observe::ObsView, a2: Action|
                !(s2 == s@ && a2 == a) ==> q_of(final(self).table@, s2, a2) == q_of(
                    old(self).table@,
                    s2,
                    a2,
                ),
    {
        self.table.update(s, a, reward, next);
    }

    /// Decay the exploration rate by the fixed factor, toward its floor.
    pub fn decay_epsilon(&mut self)
        requires
            agent_wf(*old(self)),
        ensures
            agent_wf(*final(self)),
            final(self).epsilon == eps_decayed(old(self).epsilon as int),
            final(self).table == old(self).table,
    {
        let scaled = div_trunc_i64(self.epsilon * EPS_DECAY_NUM, EPS_DECAY_DEN);
        proof {
            crate::num::lemma_div_trunc_magnitude(
                old(self).epsilon as int * EPS_DECAY_NUM as int,
                EPS_DECAY_DEN as int,
            );
        }
        if scaled < EPS_MIN {
            self.epsilon = EPS_MIN;
        } else {
            self.epsilon = scaled;
        }
    }
}

} // verus!
