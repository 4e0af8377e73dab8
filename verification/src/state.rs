//! The per-tick controller: the arena state, the decision cycle
//! (observe, select, act, advance, reward, learn, decay), and the
//! collision passes. A paused state is quiescent: a tick leaves it
//! untouched.

use vstd::prelude::*;
use crate::SCALE;
use crate::encode::{encode_state, parse_action, parse_action_spec, state_json};
use crate::enemy::{Enemy, Spawner, TARGET_ENEMIES, enemies_wf, enemy_stepped, surviving};
use crate::geom::{ARENA_H, ARENA_W, ENTITY_SIZE, MAX_X, MAX_Y, PROJECTILE_SIZE, Rect,
    in_entity_bounds};
use crate::num::{clamp_i64, clamp_spec};
use crate::observe::{Observation, observe, observe_spec};
use crate::projectile::{Projectile, flight_step, lemma_flight_step_wf, proj_wf};
use crate::qlearn::{Action, REWARD_BOUND, max_q_spec, q_of, td_update};
use crate::rl_interface::{RLInterface, agent_wf, eps_decayed};

verus! {

/// How far one action moves the player (5 pixels).
pub const PLAYER_STEP: i64 = 5_000;

/// Half an entity: the offset from the player's corner to its center,
/// where projectiles are fired from (25 pixels).
pub const PLAYER_CENTER: i64 = 25_000;

/// Scores above this cap are not simulated further; it keeps every
/// per-tick increment far from machine limits.
pub const SCORE_CAP: i64 = 1_000_000_000;

/// Every projectile of the list is well-formed.
pub open spec fn projs_wf(s: Seq<Projectile>) -> bool {
    forall|i: int| 0 <= i < s.len() ==> proj_wf(#[trigger] s[i])
}

/// The collision rectangle of a projectile: a 5-pixel square.
pub open spec fn proj_rect_spec(p: Projectile) -> Rect {
    Rect { x: p.x, y: p.y, w: PROJECTILE_SIZE, h: PROJECTILE_SIZE }
}

/// The result of the projectile collision passes, run in firing order:
/// each projectile in turn removes every enemy its rectangle overlaps,
/// and a projectile that hit at least one enemy is destroyed with it;
/// the others fly on, keeping their order.
pub open spec fn projectile_pass(enemies: Seq<Enemy>, projs: Seq<Projectile>) -> (
    Seq<Enemy>,
    Seq<Projectile>,
)
    decreases projs.len(),
{
    if projs.len() == 0 {
        (enemies, Seq::empty())
    } else {
        let rest = projectile_pass(enemies, projs.drop_last());
        let before = rest.0;
        let after = surviving(before, proj_rect_spec(projs.last()));
        if after.len() < before.len() {
            (after, rest.1)
        } else {
            (after, rest.1.push(projs.last()))
        }
    }
}

/// The projectile passes never grow either list.
pub proof fn lemma_projectile_pass_bounds(enemies: Seq<Enemy>, projs: Seq<Projectile>)
    ensures
        projectile_pass(enemies, projs).0.len() <= enemies.len(),
        projectile_pass(enemies, projs).1.len() <= projs.len(),
    decreases projs.len(),
{
    if projs.len() > 0 {
        lemma_projectile_pass_bounds(enemies, projs.drop_last());
        crate::enemy::lemma_surviving_len(
            projectile_pass(enemies, projs.drop_last()).0,
            proj_rect_spec(projs.last()),
        );
    }
}

/// The projectile passes keep both lists well-formed.
pub proof fn lemma_projectile_pass_wf(enemies: Seq<Enemy>, projs: Seq<Projectile>)
    requires
        enemies_wf(enemies),
        projs_wf(projs),
    ensures
        enemies_wf(projectile_pass(enemies, projs).0),
        projs_wf(projectile_pass(enemies, projs).1),
    decreases projs.len(),
{
    if projs.len() > 0 {
        assert(projs_wf(projs.drop_last()));
        lemma_projectile_pass_wf(enemies, projs.drop_last());
        crate::enemy::lemma_surviving_wf(
            projectile_pass(enemies, projs.drop_last()).0,
            proj_rect_spec(projs.last()),
        );
        assert(proj_wf(projs.last()));
    }
}

/// Where an action puts the player: one step in its direction, clamped
/// into the arena.
pub open spec fn apply_action(px: int, py: int, a: Action) -> (int, int) {
    match a {
        Action::Up => (px, clamp_spec(py - PLAYER_STEP, 0, MAX_Y as int)),
        Action::Down => (px, clamp_spec(py + PLAYER_STEP, 0, MAX_Y as int)),
        Action::Left => (clamp_spec(px - PLAYER_STEP, 0, MAX_X as int), py),
        Action::Right => (clamp_spec(px + PLAYER_STEP, 0, MAX_X as int), py),
    }
}

/// The environment advance of one tick, witnessed by the enemy list
/// right after the spawn top-up (`spawned`) and right after the
/// per-enemy movement (`moved`): the spawn kept every existing enemy
/// and topped the population to the target; each enemy then stepped by
/// its behavior against the moved player; the projectiles flew one
/// tick, those leaving the arena dropped; and the two collision passes
/// removed exactly the overlapping enemies, destroyed the projectiles
/// that hit, and scored one point per removed enemy.
pub open spec fn env_advanced(
    pre: MainState,
    post: MainState,
    spawned: Seq<Enemy>,
    moved: Seq<Enemy>,
) -> bool {
    let flown = flight_step(pre.projectiles@);
    let player = Rect { x: post.pos_x, y: post.pos_y, w: ENTITY_SIZE, h: ENTITY_SIZE };
    let after_player = surviving(moved, player);
    let pass = projectile_pass(after_player, flown);
    &&& (pre.spawner.enemies@.len() >= TARGET_ENEMIES ==> spawned == pre.spawner.enemies@)
    &&& (pre.spawner.enemies@.len() < TARGET_ENEMIES ==> spawned.len() == TARGET_ENEMIES)
    &&& forall|i: int|
        0 <= i < pre.spawner.enemies@.len() ==> spawned[i] == pre.spawner.enemies@[i]
    &&& moved.len() == spawned.len()
    &&& forall|i: int|
        0 <= i < spawned.len() ==> enemy_stepped(
            spawned[i],
            #[trigger] moved[i],
            post.pos_x as int,
            post.pos_y as int,
        )
    &&& post.spawner.enemies@ == pass.0
    &&& post.projectiles@ == pass.1
    &&& post.score == pre.score + moved.len() - post.spawner.enemies@.len()
}

/// The whole session state: the arena entities, the score, and the
/// learning agent that drives the player.
pub struct MainState {
    pub pos_x: i64,
    pub pos_y: i64,
    pub score: i64,
    pub previous_score: i64,
    pub spawner: Spawner,
    pub paused: bool,
    pub projectiles: Vec<Projectile>,
    pub rl_interface: RLInterface,
    pub running: bool,
}

/// A well-formed session: all entities inside the arena, a bounded
/// agent, and a score that never ran past its cap nor behind the
/// last reward baseline.
pub open spec fn state_wf(s: MainState) -> bool {
    &&& in_entity_bounds(s.pos_x as int, s.pos_y as int)
    &&& enemies_wf(s.spawner.enemies@)
    &&& projs_wf(s.projectiles@)
    &&& agent_wf(s.rl_interface)
    &&& 0 <= s.previous_score <= s.score <= SCORE_CAP
}

/// One completed decision cycle, as the controller saw it: the
/// observation before acting, the chosen action, the reward, and the
/// observation after the environment advanced.
pub struct Transition {
    pub state: Observation,
    pub action: Action,
    pub reward: i64,
    pub next_state: Observation,
}

impl MainState {
    /// A fresh session: the player at the arena center, score zero, no
    /// entities, and the given agent.
    pub fn new(rl_interface: RLInterface) -> (s: MainState)
        requires
            agent_wf(rl_interface),
        ensures
            s.pos_x == 350 * SCALE,
            s.pos_y == 250 * SCALE,
            s.score == 0,
            s.previous_score == 0,
            s.spawner.enemies@.len() == 0,
            !s.paused,
            s.projectiles@.len() == 0,
            s.rl_interface == rl_interface,
            s.running,
            state_wf(s),
    {
        MainState {
            pos_x: 350 * SCALE,
            pos_y: 250 * SCALE,
            score: 0,
            previous_score: 0,
            spawner: Spawner::new(),
            paused: false,
            projectiles: Vec::new(),
            rl_interface,
            running: true,
        }
    }

    /// Fly every projectile one tick and drop exactly those that left
    /// the arena.
    pub fn update_projectiles(&mut self)
        requires
            projs_wf(old(self).projectiles@),
        ensures
            final(self).projectiles@ == flight_step(old(self).projectiles@),
            projs_wf(final(self).projectiles@),
            final(self).pos_x == old(self).pos_x,
            final(self).pos_y == old(self).pos_y,
            final(self).score == old(self).score,
            final(self).previous_score == old(self).previous_score,
            final(self).spawner == old(self).spawner,
            final(self).paused == old(self).paused,
            final(self).rl_interface == old(self).rl_interface,
            final(self).running == old(self).running,
    {
        let ghost orig = self.projectiles@;
        let n = self.projectiles.len();
        let mut kept: Vec<Projectile> = Vec::new();
        let mut i: usize = 0;
        while i < n
            invariant
                i <= n,
                n == self.projectiles@.len(),
                self.projectiles@ == orig,
                projs_wf(orig),
                kept@ == flight_step(orig.subrange(0, i as int)),
            decreases n - i,
        {
            let mut p = self.projectiles[i];
            p.update();
            let ghost sub1 = orig.subrange(0, i + 1);
            proof {
                assert(sub1.drop_last() =~= orig.subrange(0, i as int));
                assert(sub1.last() == orig[i as int]);
                assert(p == crate::projectile::proj_moved(orig[i as int]));
            }
            if p.x >= 0 && p.x <= ARENA_W && p.y >= 0 && p.y <= ARENA_H {
                kept.push(p);
            }
            proof {
                assert(kept@ =~= flight_step(sub1));
            }
            i = i + 1;
        }
        proof {
            assert(orig.subrange(0, n as int) =~= orig);
            lemma_flight_step_wf(orig);
        }
        self.projectiles = kept;
    }

    /// Run one collision pass per projectile, in firing order: every
    /// enemy hit is removed and scores one point, and a projectile that
    /// hit an enemy is destroyed with it; the others fly on.
    pub fn check_projectile_collisions(&mut self)
        requires
            enemies_wf(old(self).spawner.enemies@),
            projs_wf(old(self).projectiles@),
            0 <= old(self).score,
            old(self).score + old(self).spawner.enemies@.len() <= SCORE_CAP,
        ensures
            final(self).spawner.enemies@ == projectile_pass(
                old(self).spawner.enemies@,
                old(self).projectiles@,
            ).0,
            final(self).projectiles@ == projectile_pass(
                old(self).spawner.enemies@,
                old(self).projectiles@,
            ).1,
            enemies_wf(final(self).spawner.enemies@),
            projs_wf(final(self).projectiles@),
            final(self).score == old(self).score + old(self).spawner.enemies@.len() - final(self).spawner.enemies@.len(),
            final(self).pos_x == old(self).pos_x,
            final(self).pos_y == old(self).pos_y,
            final(self).previous_score == old(self).previous_score,
            final(self).paused == old(self).paused,
            final(self).rl_interface == old(self).rl_interface,
            final(self).running == old(self).running,
    {
        let ghost orig_enemies = old(self).spawner.enemies@;
        let ghost projs = old(self).projectiles@;
        let n = self.projectiles.len();
        let mut kept: Vec<Projectile> = Vec::new();
        let mut k: usize = 0;
        proof {
            assert(projectile_pass(orig_enemies, projs.subrange(0, 0)).0 =~= orig_enemies);
            assert(projectile_pass(orig_enemies, projs.subrange(0, 0)).1 =~= Seq::<
                Projectile,
            >::empty());
        }
        while k < n
            invariant
                k <= n,
                n == self.projectiles@.len(),
                self.projectiles@ == projs,
                projs_wf(projs),
                enemies_wf(self.spawner.enemies@),
                self.spawner.enemies@ == projectile_pass(
                    orig_enemies,
                    projs.subrange(0, k as int),
                ).0,
                kept@ == projectile_pass(orig_enemies, projs.subrange(0, k as int)).1,
                self.score == old(self).score + orig_enemies.len() - self.spawner.enemies@.len(),
                0 <= old(self).score,
                old(self).score + orig_enemies.len() <= SCORE_CAP,
                self.pos_x == old(self).pos_x,
                self.pos_y == old(self).pos_y,
                self.previous_score == old(self).previous_score,
                self.paused == old(self).paused,
                self.rl_interface == old(self).rl_interface,
                self.running == old(self).running,
            decreases n - k,
        {
            let p = self.projectiles[k];
            let r = Rect::new(p.x, p.y, PROJECTILE_SIZE, PROJECTILE_SIZE);
            let before_len = self.spawner.enemies.len();
            proof {
                crate::enemy::lemma_surviving_len(
                    projectile_pass(orig_enemies, projs.subrange(0, k as int)).0,
                    proj_rect_spec(projs[k as int]),
                );
                lemma_projectile_pass_bounds(orig_enemies, projs.subrange(0, k as int));
            }
            self.spawner.check_collisions(&r, &mut self.score);
            if self.spawner.enemies.len() == before_len {
                kept.push(p);
            }
            proof {
                let sub1 = projs.subrange(0, k + 1);
                assert(sub1.drop_last() =~= projs.subrange(0, k as int));
                assert(sub1.last() == projs[k as int]);
                assert(self.spawner.enemies@ == projectile_pass(orig_enemies, sub1).0);
                assert(kept@ =~= projectile_pass(orig_enemies, sub1).1);
            }
            k = k + 1;
        }
        proof {
            assert(projs.subrange(0, n as int) =~= projs);
            lemma_projectile_pass_wf(orig_enemies, projs);
        }
        self.projectiles = kept;
    }

    /// The canonical state string of the current configuration, as
    /// handed to an external policy.
    pub fn get_state(&self) -> (s: String)
        requires
            state_wf(*self),
        ensures
            s@ == state_json(
                self.pos_x as int,
                self.pos_y as int,
                self.score as int,
                self.spawner.enemies@,
            ),
    {
        encode_state(self.pos_x, self.pos_y, self.score, &self.spawner.enemies)
    }

    /// The typed observation of the current configuration.
    pub fn observe_state(&self) -> (o: Observation)
        requires
            state_wf(*self),
        ensures
            o@ == observe_spec(
                self.pos_x as int,
                self.pos_y as int,
                self.spawner.enemies@,
                self.projectiles@,
            ),
    {
        observe(self.pos_x, self.pos_y, &self.spawner.enemies, &self.projectiles)
    }

    /// Move the player one step in the direction of the action, clamped
    /// into the arena.
    pub fn step_player(&mut self, a: Action)
        requires
            in_entity_bounds(old(self).pos_x as int, old(self).pos_y as int),
        ensures
            (final(self).pos_x as int, final(self).pos_y as int) == apply_action(
                old(self).pos_x as int,
                old(self).pos_y as int,
                a,
            ),
            in_entity_bounds(final(self).pos_x as int, final(self).pos_y as int),
            final(self).score == old(self).score,
            final(self).previous_score == old(self).previous_score,
            final(self).spawner == old(self).spawner,
            final(self).paused == old(self).paused,
            final(self).projectiles == old(self).projectiles,
            final(self).rl_interface == old(self).rl_interface,
            final(self).running == old(self).running,
    {
        match a {
            Action::Up => {
                self.pos_y = clamp_i64(self.pos_y - PLAYER_STEP, 0, MAX_Y);
            },
            Action::Down => {
                self.pos_y = clamp_i64(self.pos_y + PLAYER_STEP, 0, MAX_Y);
            },
            Action::Left => {
                self.pos_x = clamp_i64(self.pos_x - PLAYER_STEP, 0, MAX_X);
            },
            Action::Right => {
                self.pos_x = clamp_i64(self.pos_x + PLAYER_STEP, 0, MAX_X);
            },
        }
    }

    /// Apply a wire action token: a recognized token moves the player,
    /// anything else is a no-op.
    pub fn perform_action(&mut self, action: &str)
        requires
            in_entity_bounds(old(self).pos_x as int, old(self).pos_y as int),
        ensures
            match parse_action_spec(action@) {
                Some(a) => (final(self).pos_x as int, final(self).pos_y as int) == apply_action(
                    old(self).pos_x as int,
                    old(self).pos_y as int,
                    a,
                ),
                None => final(self).pos_x == old(self).pos_x && final(self).pos_y == old(self).pos_y,
            },
            in_entity_bounds(final(self).pos_x as int, final(self).pos_y as int),
            final(self).score == old(self).score,
            final(self).previous_score == old(self).previous_score,
            final(self).spawner == old(self).spawner,
            final(self).paused == old(self).paused,
            final(self).projectiles == old(self).projectiles,
            final(self).rl_interface == old(self).rl_interface,
            final(self).running == old(self).running,
    {
        let parsed = parse_action(action);
        match parsed {
            Some(a) => self.step_player(a),
            None => (),
        }
    }

    /// The reward of the tick: the change in score since the last
    /// reading; the baseline moves up to the current score.
    pub fn get_reward(&mut self) -> (r: i64)
        requires
            0 <= old(self).previous_score <= old(self).score,
        ensures
            r == old(self).score - old(self).previous_score,
            final(self).previous_score == old(self).score,
            final(self).score == old(self).score,
            final(self).pos_x == old(self).pos_x,
            final(self).pos_y == old(self).pos_y,
            final(self).spawner == old(self).spawner,
            final(self).paused == old(self).paused,
            final(self).projectiles == old(self).projectiles,
            final(self).rl_interface == old(self).rl_interface,
            final(self).running == old(self).running,
    {
        let reward = self.score - self.previous_score;
        self.previous_score = self.score;
        reward
    }

    /// Toggle the quiescent state: a paused session ticks to itself.
    pub fn toggle_pause(&mut self)
        ensures
            final(self).paused == !old(self).paused,
            final(self).pos_x == old(self).pos_x,
            final(self).pos_y == old(self).pos_y,
            final(self).score == old(self).score,
            final(self).previous_score == old(self).previous_score,
            final(self).spawner == old(self).spawner,
            final(self).projectiles == old(self).projectiles,
            final(self).rl_interface == old(self).rl_interface,
            final(self).running == old(self).running,
    {
        self.paused = !self.paused;
    }

    /// Fire a projectile from the player's center toward a target point.
    pub fn fire_projectile(&mut self, target_x: i64, target_y: i64)
        requires
            state_wf(*old(self)),
            0 <= target_x <= ARENA_W,
            0 <= target_y <= ARENA_H,
        ensures
            final(self).projectiles@.len() == old(self).projectiles@.len() + 1,
            final(self).projectiles@.drop_last() == old(self).projectiles@,
            ({
                let p = final(self).projectiles@.last();
                &&& p.x == old(self).pos_x + PLAYER_CENTER
                &&& p.y == old(self).pos_y + PLAYER_CENTER
                &&& (p.dx as int, p.dy as int) == crate::projectile::projectile_velocity(
                    old(self).pos_x + PLAYER_CENTER,
                    old(self).pos_y + PLAYER_CENTER,
                    target_x as int,
                    target_y as int,
                )
            }),
            projs_wf(final(self).projectiles@),
            state_wf(*final(self)),
            final(self).pos_x == old(self).pos_x,
            final(self).pos_y == old(self).pos_y,
            final(self).score == old(self).score,
            final(self).previous_score == old(self).previous_score,
            final(self).spawner == old(self).spawner,
            final(self).paused == old(self).paused,
            final(self).rl_interface == old(self).rl_interface,
            final(self).running == old(self).running,
    {
        let p = Projectile::new(
            self.pos_x + PLAYER_CENTER,
            self.pos_y + PLAYER_CENTER,
            target_x,
            target_y,
        );
        self.projectiles.push(p);
        proof {
            assert(final(self).projectiles@.drop_last() =~= old(self).projectiles@);
        }
    }

    /// One full tick of the session: spawn up to the target, then
    /// observe, select by the epsilon-greedy policy, act, advance the
    /// environment (enemies, projectiles, both collision passes),
    /// compute the reward, learn by one TD update, and decay the
    /// exploration rate. A paused session is left untouched and yields
    /// no transition.
    pub fn update(&mut self) -> (t: Option<Transition>)
        requires
            state_wf(*old(self)),
            old(self).score + old(self).spawner.enemies@.len() + TARGET_ENEMIES <= SCORE_CAP,
            old(self).score - old(self).previous_score + old(self).spawner.enemies@.len()
                + TARGET_ENEMIES <= REWARD_BOUND,
        ensures
            state_wf(*final(self)),
            old(self).paused ==> *final(self) == *old(self) && t is None,
            !old(self).paused ==> t is Some,
            !old(self).paused ==> ({
                let tr = t->Some_0;
                &&& (final(self).pos_x as int, final(self).pos_y as int) == apply_action(
                    old(self).pos_x as int,
                    old(self).pos_y as int,
                    tr.action,
                )
                &&& old(self).score <= final(self).score
                &&& tr.reward == final(self).score - old(self).previous_score
                &&& tr.reward >= 0
                &&& final(self).previous_score == final(self).score
                &&& tr.next_state@ == observe_spec(
                    final(self).pos_x as int,
                    final(self).pos_y as int,
                    final(self).spawner.enemies@,
                    final(self).projectiles@,
                )
                &&& q_of(final(self).rl_interface.table@, tr.state@, tr.action) == td_update(
                    q_of(old(self).rl_interface.table@, tr.state@, tr.action),
                    tr.reward as int,
                    max_q_spec(old(self).rl_interface.table@, tr.next_state@),
                )
                &&& forall|s2: crate::observe::ObsView, a2: Action|
                    !(s2 == tr.state@ && a2 == tr.action) ==> q_of(
                        final(self).rl_interface.table@,
                        s2,
                        a2,
                    ) == q_of(old(self).rl_interface.table@, s2, a2)
                &&& final(self).rl_interface.epsilon == eps_decayed(
                    old(self).rl_interface.epsilon as int,
                )
            }),
            !old(self).paused ==> exists|spawned: Seq<Enemy>, moved: Seq<Enemy>|
                env_advanced(*old(self), *final(self), spawned, moved),
    {
        if self.paused {
            return None;
        }
        self.spawner.spawn();
        let ghost spawned = self.spawner.enemies@;
        proof {
            assert(spawned.len() <= old(self).spawner.enemies@.len() + TARGET_ENEMIES);
        }
        let state = self.observe_state();
        let action = self.rl_interface.compute_action(&state);
        self.step_player(action);
        self.spawner.update_enemies(self.pos_x, self.pos_y);
        let ghost moved = self.spawner.enemies@;
        self.update_projectiles();
        let main_rect = Rect::new(self.pos_x, self.pos_y, ENTITY_SIZE, ENTITY_SIZE);
        proof {
            crate::enemy::lemma_surviving_len(moved, main_rect);
        }
        self.spawner.check_collisions(&main_rect, &mut self.score);
        let ghost enemies_mid = self.spawner.enemies@;
        let ghost projs_now = self.projectiles@;
        self.check_projectile_collisions();
        proof {
            lemma_projectile_pass_bounds(enemies_mid, projs_now);
        }
        let reward = self.get_reward();
        let next_state = self.observe_state();
        self.rl_interface.learn(&state, action, reward, &next_state);
        self.rl_interface.decay_epsilon();
        proof {
            assert(env_advanced(*old(self), *self, spawned, moved));
        }
        Some(Transition { state, action, reward, next_state })
    }
}

} // verus!
