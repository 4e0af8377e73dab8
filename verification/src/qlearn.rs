//! The policy/value store: a table of value estimates keyed by
//! (observation, action), with default-on-lookup, a best-action query
//! with a fixed tie-break, and the temporal-difference update
//!
//! `Q(s,a) <- Q(s,a) + alpha * (reward + gamma * max_a' Q(s',a') - Q(s,a))`
//!
//! with `alpha = 1/ALPHA_DEN` and `gamma = GAMMA_NUM/GAMMA_DEN`, in
//! fixed-point arithmetic rounded toward zero. The next-action term is
//! deliberately the maximum over the next observation's actions,
//! computed by the same best-action query that drives exploitation; it
//! is not resampled through the epsilon-greedy policy.

use vstd::prelude::*;
use crate::num::{div_trunc, div_trunc_i64, lemma_div_trunc_bounds, lemma_div_trunc_magnitude};
use crate::observe::{Observation, ObsView, obs_eq};

verus! {

/// The four movement actions; `Up` is the first enumerated and the
/// tie-break default.
#[derive(Clone, Copy, Debug, PartialEq, Eq, Structural)]
pub enum Action {
    Up,
    Down,
    Left,
    Right,
}

/// Fixed-point scale of value estimates: one unit of reward is this
/// many value units.
pub const QSCALE: i64 = 1_000_000;

/// Reciprocal of the learning rate alpha: alpha = 1/10.
pub const ALPHA_DEN: i64 = 10;

/// Numerator of the discount factor gamma: gamma = 9/10.
pub const GAMMA_NUM: i64 = 9;

/// Denominator of the discount factor gamma.
pub const GAMMA_DEN: i64 = 10;

/// Magnitude bound on every reward accepted per update.
pub const REWARD_BOUND: i64 = 1_000_000;

/// Magnitude bound on every stored value estimate; closed under the TD
/// update for rewards within `REWARD_BOUND`.
pub const Q_BOUND: i64 = 10_000_000_000_000;

/// One stored estimate.
#[derive(Clone, Debug)]
pub struct QEntry {
    pub obs: Observation,
    pub action: Action,
    pub value: i64,
}

/// The mathematical content of one stored estimate.
#[verifier::ext_equal]
pub ghost struct QEntryV {
    pub obs: ObsView,
    pub action: Action,
    pub value: int,
}

impl View for QEntry {
    type V = QEntryV;

    open spec fn view(&self) -> QEntryV {
        QEntryV { obs: self.obs@, action: self.action, value: self.value as int }
    }
}

/// An entry holds the estimate for the pair `(s, a)`.
pub open spec fn entry_matches(e: QEntryV, s: ObsView, a: Action) -> bool {
    e.obs == s && e.action == a
}

/// The stored estimate for `(s, a)`: the first matching entry's value,
/// and the neutral default 0 when no entry matches.
pub open spec fn q_of(t: Seq<QEntryV>, s: ObsView, a: Action) -> int
    decreases t.len(),
{
    if t.len() == 0 {
        0
    } else if entry_matches(t[0], s, a) {
        t[0].value
    } else {
        q_of(t.drop_first(), s, a)
    }
}

/// Every stored estimate is within `Q_BOUND`.
pub open spec fn table_wf(t: Seq<QEntryV>) -> bool {
    forall|i: int| 0 <= i < t.len() ==> -Q_BOUND <= (#[trigger] t[i]).value <= Q_BOUND
}

/// The default-on-lookup estimate of a well-formed table is bounded.
pub proof fn lemma_q_of_bounded(t: Seq<QEntryV>, s: ObsView, a: Action)
    requires
        table_wf(t),
    ensures
        -Q_BOUND <= q_of(t, s, a) <= Q_BOUND,
    decreases t.len(),
{
    if t.len() > 0 && !entry_matches(t[0], s, a) {
        assert(table_wf(t.drop_first()));
        lemma_q_of_bounded(t.drop_first(), s, a);
    }
}

/// The greatest stored estimate for `s` over the four actions.
pub open spec fn max_q_spec(t: Seq<QEntryV>, s: ObsView) -> int {
    let qu = q_of(t, s, Action::Up);
    let qd = q_of(t, s, Action::Down);
    let ql = q_of(t, s, Action::Left);
    let qr = q_of(t, s, Action::Right);
    let m2 = if qd > qu {
        qd
    } else {
        qu
    };
    let m3 = if ql > m2 {
        ql
    } else {
        m2
    };
    if qr > m3 {
        qr
    } else {
        m3
    }
}

/// The action with the greatest stored estimate for `s`; among equals
/// the earliest in enumeration order wins, so an observation with no
/// entries yields `Up`.
pub open spec fn best_action_spec(t: Seq<QEntryV>, s: ObsView) -> Action {
    let qu = q_of(t, s, Action::Up);
    let qd = q_of(t, s, Action::Down);
    let ql = q_of(t, s, Action::Left);
    let qr = q_of(t, s, Action::Right);
    let b2 = if qd > qu {
        Action::Down
    } else {
        Action::Up
    };
    let m2 = if qd > qu {
        qd
    } else {
        qu
    };
    let b3 = if ql > m2 {
        Action::Left
    } else {
        b2
    };
    let m3 = if ql > m2 {
        ql
    } else {
        m2
    };
    if qr > m3 {
        Action::Right
    } else {
        b3
    }
}

/// The target of one TD update: the reward plus the discounted estimate
/// of the next observation.
pub open spec fn td_target(r: int, next_max: int) -> int {
    r * QSCALE + div_trunc(GAMMA_NUM * next_max, GAMMA_DEN as int)
}

/// One application of the TD rule to the estimate `q`, with reward `r`
/// and next-observation maximum `next_max`.
pub open spec fn td_update(q: int, r: int, next_max: int) -> int {
    q + div_trunc(td_target(r, next_max) - q, ALPHA_DEN as int)
}

/// The value table. Entries are looked up by observation/action
/// equality; absent pairs read as the neutral default 0.
pub struct QTable {
    pub entries: Vec<QEntry>,
}

impl View for QTable {
    type V = Seq<QEntryV>;

    open spec fn view(&self) -> Seq<QEntryV> {
        self.entries@.map_values(|e: QEntry| e@)
    }
}

impl QTable {
    /// An empty table: every pair reads as the default 0.
    pub fn new() -> (t: QTable)
        ensures
            t@.len() == 0,
            table_wf(t@),
    {
        QTable { entries: Vec::new() }
    }

    /// Read the estimate for `(s, a)`, defaulting to 0 for an absent
    /// pair rather than failing.
    pub fn lookup(&self, s: &Observation, a: Action) -> (r: i64)
        ensures
            r == q_of(self@, s@, a),
    {
        let n = self.entries.len();
        let mut i: usize = 0;
        proof {
            assert(self@.skip(0) =~= self@);
        }
        while i < n
            invariant
                i <= n,
                n == self.entries@.len(),
                q_of(self@, s@, a) == q_of(self@.skip(i as int), s@, a),
            decreases n - i,
        {
            let e = &self.entries[i];
            proof {
                assert(self@.skip(i as int)[0] == self@[i as int]);
            }
            if obs_eq(&e.obs, s) && action_eq(e.action, a) {
                return e.value;
            }
            proof {
                assert(self@.skip(i as int).drop_first() =~= self@.skip(i + 1));
            }
            i = i + 1;
        }
        proof {
            assert(self@.skip(n as int).len() == 0);
        }
        0
    }

    /// The greatest estimate for `s` over the four actions.
    pub fn max_q(&self, s: &Observation) -> (r: i64)
        ensures
            r == max_q_spec(self@, s@),
    {
        let qu = self.lookup(s, Action::Up);
        let qd = self.lookup(s, Action::Down);
        let ql = self.lookup(s, Action::Left);
        let qr = self.lookup(s, Action::Right);
        let mut best = qu;
        if qd > best {
            best = qd;
        }
        if ql > best {
            best = ql;
        }
        if qr > best {
            best = qr;
        }
        best
    }

    /// The action with the greatest estimate for `s`; ties, and in
    /// particular an observation with no entries, yield the first
    /// enumerated action `Up`.
    pub fn best_action(&self, s: &Observation) -> (r: Action)
        ensures
            r == best_action_spec(self@, s@),
    {
        let qu = self.lookup(s, Action::Up);
        let qd = self.lookup(s, Action::Down);
        let ql = self.lookup(s, Action::Left);
        let qr = self.lookup(s, Action::Right);
        let mut best = Action::Up;
        let mut best_q = qu;
        if qd > best_q {
            best = Action::Down;
            best_q = qd;
        }
        if ql > best_q {
            best = Action::Left;
            best_q = ql;
        }
        if qr > best_q {
            best = Action::Right;
            best_q = qr;
        }
        best
    }

    /// Apply one TD update for the transition `(s, a, reward, next)`:
    /// the estimate of `(s, a)` moves toward the target
    /// `reward + gamma * max_a' Q(next, a')` by the factor alpha; every
    /// other pair is untouched.
    pub fn update(&mut self, s: &Observation, a: Action, reward: i64, next: &Observation)
        requires
            table_wf(old(self)@),
            -REWARD_BOUND <= reward <= REWARD_BOUND,
        ensures
            table_wf(final(self)@),
            q_of(final(self)@, s@, a) == td_update(
                q_of(old(self)@, s@, a),
                reward as int,
                max_q_spec(old(self)@, next@),
            ),
            forall|s2: ObsView, a2: Action|
                !(s2 == s@ && a2 == a) ==> q_of(final(self)@, s2, a2) == q_of(old(self)@, s2, a2),
    {
        let next_max = self.max_q(next);
        let q = self.lookup(s, a);
        proof {
            lemma_q_of_bounded(self@, s@, a);
            lemma_q_of_bounded(self@, next@, Action::Up);
            lemma_q_of_bounded(self@, next@, Action::Down);
            lemma_q_of_bounded(self@, next@, Action::Left);
            lemma_q_of_bounded(self@, next@, Action::Right);
            lemma_div_trunc_magnitude(GAMMA_NUM as int * next_max as int, GAMMA_DEN as int);
            lemma_div_trunc_magnitude(
                (reward as int * QSCALE as int + div_trunc(
                    GAMMA_NUM as int * next_max as int,
                    GAMMA_DEN as int,
                )) - q as int,
                ALPHA_DEN as int,
            );
        }
        let discounted = div_trunc_i64(GAMMA_NUM * next_max, GAMMA_DEN);
        let target = reward * QSCALE + discounted;
        let delta = div_trunc_i64(target - q, ALPHA_DEN);
        let v = q + delta;
        proof {
            lemma_td_update_within(q as int, reward as int, next_max as int);
            assert(v == td_update(q as int, reward as int, max_q_spec(old(self)@, next@)));
        }
        let n = self.entries.len();
        let mut i: usize = 0;
        while i < n
            invariant
                i <= n,
                n == self.entries@.len(),
                self@ == old(self)@,
                table_wf(self@),
                -Q_BOUND <= v <= Q_BOUND,
                v as int == td_update(
                    q_of(old(self)@, s@, a),
                    reward as int,
                    max_q_spec(old(self)@, next@),
                ),
                forall|j: int| 0 <= j < i ==> !entry_matches(self@[j], s@, a),
            decreases n - i,
        {
            let e = &self.entries[i];
            if obs_eq(&e.obs, s) && action_eq(e.action, a) {
                let updated = QEntry { obs: clone_observation(s), action: a, value: v };
                proof {
                    assert(entry_matches(self@[i as int], s@, a));
                    assert(updated@ == (QEntryV { obs: s@, action: a, value: v as int }));
                    lemma_q_of_set(self@, i as int, v as int, s@, a);
                }
                self.entries.set(i, updated);
                proof {
                    assert(self@ =~= old(self)@.update(
                        i as int,
                        QEntryV { obs: s@, action: a, value: v as int },
                    ));
                }
                return ;
            }
            i = i + 1;
        }
        let entry = QEntry { obs: clone_observation(s), action: a, value: v };
        proof {
            assert(entry@ == (QEntryV { obs: s@, action: a, value: v as int }));
            lemma_q_of_push(self@, QEntryV { obs: s@, action: a, value: v as int }, s@, a);
        }
        self.entries.push(entry);
        proof {
            assert(self@ =~= old(self)@.push(QEntryV { obs: s@, action: a, value: v as int }));
        }
    }
}

/// Equality of actions.
pub fn action_eq(a: Action, b: Action) -> (r: bool)
    ensures
        r == (a == b),
{
    match (a, b) {
        (Action::Up, Action::Up) => true,
        (Action::Down, Action::Down) => true,
        (Action::Left, Action::Left) => true,
        (Action::Right, Action::Right) => true,
        _ => false,
    }
}

/// Deep copy of an observation.
fn clone_observation(s: &Observation) -> (r: Observation)
    ensures
        r@ == s@,
{
    let mut enemies: Vec<crate::observe::RelEnemy> = Vec::new();
    let mut i: usize = 0;
    while i < s.enemies.len()
        invariant
            i <= s.enemies@.len(),
            enemies@ =~= s.enemies@.subrange(0, i as int),
        decreases s.enemies@.len() - i,
    {
        enemies.push(s.enemies[i]);
        proof {
            assert(enemies@ =~= s.enemies@.subrange(0, i + 1));
        }
        i = i + 1;
    }
    let mut projectiles: Vec<(i64, i64)> = Vec::new();
    let mut j: usize = 0;
    while j < s.projectiles.len()
        invariant
            j <= s.projectiles@.len(),
            projectiles@ =~= s.projectiles@.subrange(0, j as int),
        decreases s.projectiles@.len() - j,
    {
        projectiles.push(s.projectiles[j]);
        proof {
            assert(projectiles@ =~= s.projectiles@.subrange(0, j + 1));
        }
        j = j + 1;
    }
    proof {
        assert(enemies@ =~= s.enemies@);
        assert(projectiles@ =~= s.projectiles@);
    }
    let r = Observation {
        player_x: s.player_x,
        player_y: s.player_y,
        enemies,
        projectiles,
    };
    proof {
        assert(r@ =~= s@);
    }
    r
}

/// Updating the first matching entry in place changes exactly the
/// estimate of that pair.
proof fn lemma_q_of_set(t: Seq<QEntryV>, i: int, v: int, s: ObsView, a: Action)
    requires
        0 <= i < t.len(),
        entry_matches(t[i], s, a),
        forall|j: int| 0 <= j < i ==> !entry_matches(t[j], s, a),
    ensures
        q_of(t.update(i, QEntryV { obs: s, action: a, value: v }), s, a) == v,
        forall|s2: ObsView, a2: Action|
            !(s2 == s && a2 == a) ==> q_of(t.update(i, QEntryV { obs: s, action: a, value: v }), s2, a2)
                == q_of(t, s2, a2),
    decreases t.len(),
{
    let e = QEntryV { obs: s, action: a, value: v };
    let t2 = t.update(i, e);
    if i == 0 {
        assert(t2[0] == e);
        assert(entry_matches(t2[0], s, a));
        assert(q_of(t2, s, a) == v);
        assert forall|s2: ObsView, a2: Action| !(s2 == s && a2 == a) implies q_of(t2, s2, a2)
            == q_of(t, s2, a2) by {
            assert(!entry_matches(t2[0], s2, a2));
            assert(!entry_matches(t[0], s2, a2));
            assert(t2.drop_first() =~= t.drop_first());
        }
    } else {
        assert(t2[0] == t[0]);
        assert(!entry_matches(t[0], s, a));
        assert(t2.drop_first() =~= t.drop_first().update(i - 1, e));
        assert(forall|j: int| 0 <= j < i - 1 ==> !entry_matches(t.drop_first()[j], s, a));
        lemma_q_of_set(t.drop_first(), i - 1, v, s, a);
        assert(q_of(t2.drop_first(), s, a) == q_of(t.drop_first().update(i - 1, e), s, a));
        assert(q_of(t2, s, a) == q_of(t2.drop_first(), s, a));
        assert forall|s2: ObsView, a2: Action| !(s2 == s && a2 == a) implies q_of(t2, s2, a2)
            == q_of(t, s2, a2) by {
            if entry_matches(t[0], s2, a2) {
                assert(q_of(t2, s2, a2) == t2[0].value);
                assert(q_of(t, s2, a2) == t[0].value);
            } else {
                assert(q_of(t.drop_first().update(i - 1, e), s2, a2) == q_of(
                    t.drop_first(),
                    s2,
                    a2,
                ));
                assert(q_of(t2, s2, a2) == q_of(t2.drop_first(), s2, a2));
                assert(q_of(t2.drop_first(), s2, a2) == q_of(
                    t.drop_first().update(i - 1, e),
                    s2,
                    a2,
                ));
                assert(q_of(t, s2, a2) == q_of(t.drop_first(), s2, a2));
            }
        }
    }
}

/// Appending an entry for a pair with no existing entry changes exactly
/// the estimate of that pair.
proof fn lemma_q_of_push(t: Seq<QEntryV>, e: QEntryV, s: ObsView, a: Action)
    requires
        entry_matches(e, s, a),
        forall|j: int| 0 <= j < t.len() ==> !entry_matches(t[j], s, a),
    ensures
        q_of(t.push(e), s, a) == e.value,
        forall|s2: ObsView, a2: Action|
            !(s2 == s && a2 == a) ==> q_of(t.push(e), s2, a2) == q_of(t, s2, a2),
    decreases t.len(),
{
    let t2 = t.push(e);
    if t.len() == 0 {
        assert(t2[0] == e);
        assert(q_of(t2, s, a) == e.value);
        assert forall|s2: ObsView, a2: Action| !(s2 == s && a2 == a) implies q_of(t2, s2, a2)
            == q_of(t, s2, a2) by {
            if entry_matches(t2[0], s2, a2) {
                assert(s2 == e.obs && a2 == e.action);
                assert(false);
            } else {
                assert(t2.drop_first() =~= Seq::<QEntryV>::empty());
                assert(q_of(t2, s2, a2) == q_of(t2.drop_first(), s2, a2));
                assert(q_of(t2.drop_first(), s2, a2) == 0);
                assert(q_of(t, s2, a2) == 0);
            }
        }
    } else {
        assert(t2[0] == t[0]);
        assert(!entry_matches(t[0], s, a));
        assert(t2.drop_first() =~= t.drop_first().push(e));
        assert(forall|j: int|
            0 <= j < t.drop_first().len() ==> !entry_matches(t.drop_first()[j], s, a));
        lemma_q_of_push(t.drop_first(), e, s, a);
        assert(q_of(t2.drop_first(), s, a) == q_of(t.drop_first().push(e), s, a));
        assert(q_of(t2, s, a) == q_of(t2.drop_first(), s, a));
        assert forall|s2: ObsView, a2: Action| !(s2 == s && a2 == a) implies q_of(t2, s2, a2)
            == q_of(t, s2, a2) by {
            if entry_matches(t[0], s2, a2) {
                assert(q_of(t2, s2, a2) == t2[0].value);
                assert(q_of(t, s2, a2) == t[0].value);
            } else {
                assert(q_of(t.drop_first().push(e), s2, a2) == q_of(t.drop_first(), s2, a2));
                assert(q_of(t2, s2, a2) == q_of(t2.drop_first(), s2, a2));
                assert(q_of(t2.drop_first(), s2, a2) == q_of(t.drop_first().push(e), s2, a2));
                assert(q_of(t, s2, a2) == q_of(t.drop_first(), s2, a2));
            }
        }
    }
}

/// One TD update stays within `Q_BOUND`: the new estimate lies between
/// the old estimate and the target, which are both bounded.
pub proof fn lemma_td_update_within(q: int, r: int, next_max: int)
    requires
        -Q_BOUND <= q <= Q_BOUND,
        -Q_BOUND <= next_max <= Q_BOUND,
        -REWARD_BOUND <= r <= REWARD_BOUND,
    ensures
        -Q_BOUND <= td_update(q, r, next_max) <= Q_BOUND,
        td_target(r, next_max) >= q ==> q <= td_update(q, r, next_max) <= td_target(r, next_max),
        td_target(r, next_max) < q ==> td_target(r, next_max) <= td_update(q, r, next_max) <= q,
{
    let nm9 = GAMMA_NUM * next_max;
    assert(nm9 == 9 * next_max);
    let disc = div_trunc(nm9, GAMMA_DEN as int);
    lemma_div_trunc_bounds(nm9, GAMMA_DEN as int);
    assert(-9_000_000_000_000 <= disc <= 9_000_000_000_000) by {
        if nm9 >= 0 {
            assert(10 * disc <= nm9);
            assert(disc >= 0);
        } else {
            assert(10 * disc >= nm9);
            assert(disc <= 0);
        }
    }
    let tgt = td_target(r, next_max);
    assert(r * QSCALE == 1_000_000 * r);
    assert(tgt == 1_000_000 * r + disc);
    assert(-Q_BOUND <= tgt <= Q_BOUND);
    let delta = div_trunc(tgt - q, ALPHA_DEN as int);
    lemma_div_trunc_bounds(tgt - q, ALPHA_DEN as int);
    lemma_div_trunc_magnitude(tgt - q, ALPHA_DEN as int);
    if tgt >= q {
        assert(0 <= delta <= tgt - q);
    } else {
        assert(tgt - q <= delta <= 0);
    }
}


/// An observation with no entry in the table reads as the neutral
/// default 0, for every action.
pub proof fn lemma_q_of_absent(t: Seq<QEntryV>, s: ObsView, a: Action)
    requires
        forall|i: int| 0 <= i < t.len() ==> (#[trigger] t[i]).obs != s,
    ensures
        q_of(t, s, a) == 0,
    decreases t.len(),
{
    if t.len() > 0 {
        assert(!entry_matches(t[0], s, a));
        assert(forall|i: int|
            0 <= i < t.drop_first().len() ==> (#[trigger] t.drop_first()[i]).obs != s);
        lemma_q_of_absent(t.drop_first(), s, a);
    }
}

/// For an observation with no prior entries, the best-action query
/// returns the configured default: the first enumerated action, `Up`.
pub proof fn lemma_best_action_default(t: Seq<QEntryV>, s: ObsView)
    requires
        forall|i: int| 0 <= i < t.len() ==> (#[trigger] t[i]).obs != s,
    ensures
        best_action_spec(t, s) == Action::Up,
        max_q_spec(t, s) == 0,
{
    lemma_q_of_absent(t, s, Action::Up);
    lemma_q_of_absent(t, s, Action::Down);
    lemma_q_of_absent(t, s, Action::Left);
    lemma_q_of_absent(t, s, Action::Right);
}

/// When the four estimates of an observation are all equal, the
/// best-action query returns the first enumerated action, `Up`.
pub proof fn lemma_best_action_all_equal(t: Seq<QEntryV>, s: ObsView)
    requires
        q_of(t, s, Action::Up) == q_of(t, s, Action::Down),
        q_of(t, s, Action::Up) == q_of(t, s, Action::Left),
        q_of(t, s, Action::Up) == q_of(t, s, Action::Right),
    ensures
        best_action_spec(t, s) == Action::Up,
{
}

/// The best-action query returns an action whose estimate is the
/// maximum over all four actions.
pub proof fn lemma_best_action_is_max(t: Seq<QEntryV>, s: ObsView)
    ensures
        q_of(t, s, best_action_spec(t, s)) == max_q_spec(t, s),
        forall|a: Action| #[trigger] q_of(t, s, a) <= max_q_spec(t, s),
{
    assert forall|a: Action| #[trigger] q_of(t, s, a) <= max_q_spec(t, s) by {
        match a {
            Action::Up => {},
            Action::Down => {},
            Action::Left => {},
            Action::Right => {},
        }
    }
}

/// One TD update is a fixed point exactly when the estimate already
/// equals its target up to the update's resolution `ALPHA_DEN`;
/// otherwise the estimate moves strictly toward the target by the
/// factor alpha, never overshooting it. With reward 0 and the next
/// observation equal to the current one, the target is the estimate's
/// own discounted self-estimate `gamma * max_a' Q(s, a')`.
pub proof fn lemma_td_fixpoint_or_moves(q: int, r: int, m: int)
    ensures
        (td_update(q, r, m) == q) <==> (-ALPHA_DEN < td_target(r, m) - q < ALPHA_DEN),
        td_target(r, m) - q >= ALPHA_DEN ==> q < td_update(q, r, m) <= td_target(r, m),
        q - td_target(r, m) >= ALPHA_DEN ==> td_target(r, m) <= td_update(q, r, m) < q,
{
    let tgt = td_target(r, m);
    let diff = tgt - q;
    let delta = div_trunc(diff, ALPHA_DEN as int);
    lemma_div_trunc_bounds(diff, ALPHA_DEN as int);
    if diff >= 0 {
        assert(10 * delta <= diff < 10 * delta + 10);
    } else {
        assert(10 * delta >= diff > 10 * delta - 10);
    }
}

/// The self-estimate form of the fixed-point law, over the table: an
/// update for `(s, a)` with reward 0 and next observation `s` leaves
/// the estimate of `(s, a)` unchanged exactly when that estimate is
/// already within the update resolution of its discounted self-estimate.
pub proof fn lemma_update_self_fixpoint(t: Seq<QEntryV>, s: ObsView, a: Action)
    ensures
        (td_update(q_of(t, s, a), 0, max_q_spec(t, s)) == q_of(t, s, a)) <==> (-ALPHA_DEN
            < td_target(0, max_q_spec(t, s)) - q_of(t, s, a) < ALPHA_DEN),
        td_target(0, max_q_spec(t, s)) - q_of(t, s, a) >= ALPHA_DEN ==> q_of(t, s, a) < td_update(
            q_of(t, s, a),
            0,
            max_q_spec(t, s),
        ) <= td_target(0, max_q_spec(t, s)),
        q_of(t, s, a) - td_target(0, max_q_spec(t, s)) >= ALPHA_DEN ==> td_target(
            0,
            max_q_spec(t, s),
        ) <= td_update(q_of(t, s, a), 0, max_q_spec(t, s)) < q_of(t, s, a),
{
    lemma_td_fixpoint_or_moves(q_of(t, s, a), 0, max_q_spec(t, s));
}

} // verus!
