//! Enemies and their three movement behaviors. The behavior of an enemy
//! is fixed at spawn time from its shape: squares chase the player,
//! circles drift with a random velocity and bounce off the arena edges,
//! and triangles back away from a player that comes too close.

use vstd::prelude::*;
use crate::SCALE;
use crate::geom::{ENTITY_SIZE, MAX_X, MAX_Y, Rect, bounce_axis, in_entity_bounds, rect_wf,
    rects_overlap};
use crate::geom::dist2;
use crate::num::{clamp_i64, clamp_spec, div_trunc, div_trunc_i64, isqrt_i64, isqrt_spec,
    lemma_div_trunc_bounds, lemma_div_trunc_magnitude, lemma_isqrt_exists};
use vstd::math::abs;
use crate::rng::rand_below;

verus! {

/// The drawn shape of an enemy; it also determines the behavior.
#[derive(Clone, Copy, Debug, PartialEq, Eq, Structural)]
pub enum Shape {
    Square,
    Circle,
    Triangle,
}

/// The movement behavior of an enemy, assigned once at spawn.
#[derive(Clone, Copy, Debug, PartialEq, Eq, Structural)]
pub enum EnemyType {
    Chaser,
    Random,
    Avoider,
}

/// The behavior that each shape is assigned at spawn.
pub open spec fn behavior_of(s: Shape) -> EnemyType {
    match s {
        Shape::Square => EnemyType::Chaser,
        Shape::Circle => EnemyType::Random,
        Shape::Triangle => EnemyType::Avoider,
    }
}

/// Magnitude bound on the per-tick velocity of a bouncing enemy
/// (2 pixels).
pub const VEL_MAX: i64 = 2_000;

/// An avoider backs away only while the player is nearer than this
/// radius (100 pixels).
pub const AVOID_RADIUS: i64 = 100_000;

/// An enemy of the arena.
#[derive(Clone, Copy, Debug)]
pub struct Enemy {
    pub x: i64,
    pub y: i64,
    pub shape: Shape,
    pub enemy_type: EnemyType,
    pub dx: i64,
    pub dy: i64,
}

/// Well-formed enemy: inside the arena, behavior matching its shape,
/// velocity bounded.
pub open spec fn enemy_wf(e: Enemy) -> bool {
    &&& in_entity_bounds(e.x as int, e.y as int)
    &&& e.enemy_type == behavior_of(e.shape)
    &&& -VEL_MAX <= e.dx <= VEL_MAX
    &&& -VEL_MAX <= e.dy <= VEL_MAX
}

/// One tick of a chaser at `(x, y)` toward the player at `(px, py)`:
/// a step of one pixel along the straight line to the player, rounded
/// toward zero, then clamped into the arena. A chaser already on the
/// player does not move.
pub open spec fn chaser_step(x: int, y: int, px: int, py: int) -> (int, int) {
    let dx = px - x;
    let dy = py - y;
    let d2 = dx * dx + dy * dy;
    if d2 == 0 {
        (x, y)
    } else {
        let d = isqrt_spec(d2);
        (
            clamp_spec(x + div_trunc(dx * SCALE, d), 0, MAX_X as int),
            clamp_spec(y + div_trunc(dy * SCALE, d), 0, MAX_Y as int),
        )
    }
}

/// One tick of an avoider at `(x, y)` away from the player at
/// `(px, py)`: a step of one pixel along the straight line away from
/// the player, taken only while the player is strictly nearer than
/// `AVOID_RADIUS` and not exactly on the avoider.
pub open spec fn avoider_step(x: int, y: int, px: int, py: int) -> (int, int) {
    let dx = x - px;
    let dy = y - py;
    let d2 = dx * dx + dy * dy;
    if d2 == 0 || d2 >= AVOID_RADIUS * AVOID_RADIUS {
        (x, y)
    } else {
        let d = isqrt_spec(d2);
        (
            clamp_spec(x + div_trunc(dx * SCALE, d), 0, MAX_X as int),
            clamp_spec(y + div_trunc(dy * SCALE, d), 0, MAX_Y as int),
        )
    }
}

/// The relation between an enemy before and after one tick against the
/// player at `(px, py)`: behavior and shape are kept, and the position
/// and velocity change exactly as the behavior prescribes.
pub open spec fn enemy_stepped(pre: Enemy, post: Enemy, px: int, py: int) -> bool {
    &&& post.shape == pre.shape
    &&& post.enemy_type == pre.enemy_type
    &&& (pre.enemy_type == EnemyType::Chaser ==> {
        let p = chaser_step(pre.x as int, pre.y as int, px, py);
        post.x == p.0 && post.y == p.1 && post.dx == pre.dx && post.dy == pre.dy
    })
    &&& (pre.enemy_type == EnemyType::Avoider ==> {
        let p = avoider_step(pre.x as int, pre.y as int, px, py);
        post.x == p.0 && post.y == p.1 && post.dx == pre.dx && post.dy == pre.dy
    })
    &&& (pre.enemy_type == EnemyType::Random ==> {
        let bx = bounce_axis(pre.x as int, pre.dx as int, MAX_X as int);
        let by = bounce_axis(pre.y as int, pre.dy as int, MAX_Y as int);
        post.x == bx.0 && post.dx == bx.1 && post.y == by.0 && post.dy == by.1
    })
}

impl Enemy {
    /// Spawn an enemy at a position; the behavior is derived from the
    /// shape and a bouncing velocity is drawn at random.
    pub fn new(x: i64, y: i64, shape: Shape) -> (e: Enemy)
        requires
            in_entity_bounds(x as int, y as int),
        ensures
            e.x == x,
            e.y == y,
            e.shape == shape,
            e.enemy_type == behavior_of(shape),
            enemy_wf(e),
    {
        let enemy_type = match shape {
            Shape::Square => EnemyType::Chaser,
            Shape::Circle => EnemyType::Random,
            Shape::Triangle => EnemyType::Avoider,
        };
        let dx = rand_below((2 * VEL_MAX) as u64) as i64 - VEL_MAX;
        let dy = rand_below((2 * VEL_MAX) as u64) as i64 - VEL_MAX;
        Enemy { x, y, shape, enemy_type, dx, dy }
    }

    /// Advance this enemy one tick against the player at
    /// `(player_x, player_y)`, according to its behavior.
    pub fn update(&mut self, player_x: i64, player_y: i64)
        requires
            enemy_wf(*old(self)),
            in_entity_bounds(player_x as int, player_y as int),
        ensures
            enemy_wf(*final(self)),
            enemy_stepped(*old(self), *final(self), player_x as int, player_y as int),
    {
        match self.enemy_type {
            EnemyType::Chaser => {
                let dx = player_x - self.x;
                let dy = player_y - self.y;
                proof {
                    assert(0 <= dx * dx <= 750_000i64 * 750_000i64) by (nonlinear_arith)
                        requires
                            -750_000 <= dx <= 750_000,
                    ;
                    assert(0 <= dy * dy <= 750_000i64 * 750_000i64) by (nonlinear_arith)
                        requires
                            -750_000 <= dy <= 750_000,
                    ;
                }
                let d2 = dx * dx + dy * dy;
                if d2 > 0 {
                    let d = isqrt_i64(d2);
                    proof {
                        assert(d >= 1) by (nonlinear_arith)
                            requires
                                d >= 0,
                                d2 > 0,
                                d2 < (d + 1) * (d + 1),
                        ;
                        lemma_div_trunc_magnitude(dx as int * SCALE as int, d as int);
                        lemma_div_trunc_magnitude(dy as int * SCALE as int, d as int);
                    }
                    let mx = div_trunc_i64(dx * SCALE, d);
                    let my = div_trunc_i64(dy * SCALE, d);
                    self.x = clamp_i64(self.x + mx, 0, MAX_X);
                    self.y = clamp_i64(self.y + my, 0, MAX_Y);
                }
            },
            EnemyType::Random => {
                let mx = self.x + self.dx;
                let my = self.y + self.dy;
                if mx <= 0 || mx >= MAX_X {
                    self.dx = -self.dx;
                }
                if my <= 0 || my >= MAX_Y {
                    self.dy = -self.dy;
                }
                self.x = clamp_i64(mx, 0, MAX_X);
                self.y = clamp_i64(my, 0, MAX_Y);
            },
            EnemyType::Avoider => {
                let dx = self.x - player_x;
                let dy = self.y - player_y;
                proof {
                    assert(0 <= dx * dx <= 750_000i64 * 750_000i64) by (nonlinear_arith)
                        requires
                            -750_000 <= dx <= 750_000,
                    ;
                    assert(0 <= dy * dy <= 750_000i64 * 750_000i64) by (nonlinear_arith)
                        requires
                            -750_000 <= dy <= 750_000,
                    ;
                }
                let d2 = dx * dx + dy * dy;
                if d2 > 0 && d2 < AVOID_RADIUS * AVOID_RADIUS {
                    let d = isqrt_i64(d2);
                    proof {
                        assert(d >= 1) by (nonlinear_arith)
                            requires
                                d >= 0,
                                d2 > 0,
                                d2 < (d + 1) * (d + 1),
                        ;
                        lemma_div_trunc_magnitude(dx as int * SCALE as int, d as int);
                        lemma_div_trunc_magnitude(dy as int * SCALE as int, d as int);
                    }
                    let mx = div_trunc_i64(dx * SCALE, d);
                    let my = div_trunc_i64(dy * SCALE, d);
                    self.x = clamp_i64(self.x + mx, 0, MAX_X);
                    self.y = clamp_i64(self.y + my, 0, MAX_Y);
                }
            },
        }
    }
}


/// Number of live enemies the spawner tops the arena up to.
pub const TARGET_ENEMIES: usize = 5;

/// Every enemy of the sequence is well-formed.
pub open spec fn enemies_wf(s: Seq<Enemy>) -> bool {
    forall|i: int| 0 <= i < s.len() ==> enemy_wf(#[trigger] s[i])
}

/// The collision rectangle of an enemy: a 50-pixel square at its
/// position.
pub open spec fn enemy_rect_spec(e: Enemy) -> Rect {
    Rect { x: e.x, y: e.y, w: ENTITY_SIZE, h: ENTITY_SIZE }
}

/// The collision rectangle of an enemy.
pub fn enemy_rect(e: &Enemy) -> (r: Rect)
    ensures
        r == enemy_rect_spec(*e),
{
    Rect::new(e.x, e.y, ENTITY_SIZE, ENTITY_SIZE)
}

/// The enemies that survive one collision pass against the rectangle
/// `r`, in their original order: exactly those whose rectangle does not
/// overlap `r`.
pub open spec fn surviving(s: Seq<Enemy>, r: Rect) -> Seq<Enemy>
    decreases s.len(),
{
    if s.len() == 0 {
        Seq::empty()
    } else {
        let rest = surviving(s.drop_last(), r);
        if rects_overlap(r, enemy_rect_spec(s.last())) {
            rest
        } else {
            rest.push(s.last())
        }
    }
}

/// A collision pass never grows the enemy list.
pub proof fn lemma_surviving_len(s: Seq<Enemy>, r: Rect)
    ensures
        surviving(s, r).len() <= s.len(),
    decreases s.len(),
{
    if s.len() > 0 {
        lemma_surviving_len(s.drop_last(), r);
    }
}

/// A collision pass keeps every enemy well-formed.
pub proof fn lemma_surviving_wf(s: Seq<Enemy>, r: Rect)
    requires
        enemies_wf(s),
    ensures
        enemies_wf(surviving(s, r)),
    decreases s.len(),
{
    if s.len() > 0 {
        assert(enemies_wf(s.drop_last()));
        lemma_surviving_wf(s.drop_last(), r);
    }
}

/// Owner of the live enemy list: spawns enemies up to the target count,
/// advances them, and resolves their collisions with the player.
pub struct Spawner {
    pub enemies: Vec<Enemy>,
}

impl Spawner {
    /// A spawner with no live enemies.
    pub fn new() -> (s: Spawner)
        ensures
            s.enemies@.len() == 0,
    {
        Spawner { enemies: Vec::new() }
    }

    /// Top the enemy population up to `TARGET_ENEMIES` at random
    /// positions and shapes; a population already at or above the
    /// target is left as it is.
    pub fn spawn(&mut self)
        requires
            enemies_wf(old(self).enemies@),
        ensures
            enemies_wf(final(self).enemies@),
            forall|i: int|
                0 <= i < old(self).enemies@.len() ==> final(self).enemies@[i] == old(self).enemies@[i],
            old(self).enemies@.len() >= TARGET_ENEMIES ==> final(self).enemies@ == old(self).enemies@,
            old(self).enemies@.len() < TARGET_ENEMIES ==> final(self).enemies@.len()
                == TARGET_ENEMIES,
    {
        while self.enemies.len() < TARGET_ENEMIES
            invariant
                enemies_wf(self.enemies@),
                self.enemies@.len() >= old(self).enemies@.len(),
                forall|i: int|
                    0 <= i < old(self).enemies@.len() ==> self.enemies@[i] == old(self).enemies@[i],
                old(self).enemies@.len() >= TARGET_ENEMIES ==> self.enemies@ == old(self).enemies@,
                old(self).enemies@.len() < TARGET_ENEMIES ==> self.enemies@.len()
                    <= TARGET_ENEMIES,
            decreases TARGET_ENEMIES - self.enemies.len(),
        {
            let x = rand_below(MAX_X as u64) as i64;
            let y = rand_below(MAX_Y as u64) as i64;
            let pick = rand_below(3);
            let shape = if pick == 0 {
                Shape::Square
            } else if pick == 1 {
                Shape::Circle
            } else {
                Shape::Triangle
            };
            let e = Enemy::new(x, y, shape);
            self.enemies.push(e);
        }
    }

    /// Advance every enemy one tick against the player.
    pub fn update_enemies(&mut self, player_x: i64, player_y: i64)
        requires
            enemies_wf(old(self).enemies@),
            in_entity_bounds(player_x as int, player_y as int),
        ensures
            final(self).enemies@.len() == old(self).enemies@.len(),
            enemies_wf(final(self).enemies@),
            forall|i: int|
                0 <= i < old(self).enemies@.len() ==> enemy_stepped(
                    old(self).enemies@[i],
                    #[trigger] final(self).enemies@[i],
                    player_x as int,
                    player_y as int,
                ),
    {
        let n = self.enemies.len();
        let mut i: usize = 0;
        while i < n
            invariant
                i <= n,
                n == self.enemies@.len(),
                n == old(self).enemies@.len(),
                in_entity_bounds(player_x as int, player_y as int),
                forall|j: int|
                    i <= j < n ==> #[trigger] self.enemies@[j] == old(self).enemies@[j],
                forall|j: int| i <= j < n ==> enemy_wf(#[trigger] self.enemies@[j]),
                forall|j: int| 0 <= j < i ==> enemy_wf(#[trigger] self.enemies@[j]),
                forall|j: int|
                    0 <= j < i ==> enemy_stepped(
                        old(self).enemies@[j],
                        #[trigger] self.enemies@[j],
                        player_x as int,
                        player_y as int,
                    ),
            decreases n - i,
        {
            let mut e = self.enemies[i];
            e.update(player_x, player_y);
            self.enemies.set(i, e);
            i = i + 1;
        }
    }

    /// Resolve collisions between the enemies and the given rectangle:
    /// every overlapping enemy is removed and scores one point.
    pub fn check_collisions(&mut self, main_rect: &Rect, score: &mut i64)
        requires
            enemies_wf(old(self).enemies@),
            rect_wf(*main_rect),
            *old(score) + old(self).enemies@.len() <= i64::MAX,
        ensures
            final(self).enemies@ == surviving(old(self).enemies@, *main_rect),
            *final(score) == *old(score) + old(self).enemies@.len() - final(self).enemies@.len(),
            enemies_wf(final(self).enemies@),
    {
        let ghost orig = self.enemies@;
        let n = self.enemies.len();
        let mut kept: Vec<Enemy> = Vec::new();
        let mut i: usize = 0;
        while i < n
            invariant
                i <= n,
                n == self.enemies@.len(),
                self.enemies@ == orig,
                enemies_wf(orig),
                rect_wf(*main_rect),
                *old(score) + n <= i64::MAX,
                kept@ == surviving(orig.subrange(0, i as int), *main_rect),
                kept@.len() <= i,
                *score == *old(score) + i - kept@.len(),
            decreases n - i,
        {
            let e = self.enemies[i];
            let ghost sub1 = orig.subrange(0, i + 1);
            proof {
                assert(sub1.drop_last() =~= orig.subrange(0, i as int));
                assert(sub1.last() == orig[i as int]);
            }
            let er = enemy_rect(&e);
            if main_rect.overlaps(&er) {
                *score = *score + 1;
            } else {
                kept.push(e);
            }
            i = i + 1;
        }
        proof {
            assert(orig.subrange(0, n as int) =~= orig);
            lemma_surviving_wf(orig, *main_rect);
        }
        self.enemies = kept;
    }
}


/// A bouncing enemy's velocity component reverses sign exactly when the
/// moved coordinate reaches the corresponding arena edge.
pub proof fn lemma_random_reverses_at_edge(pre: Enemy, post: Enemy, px: int, py: int)
    requires
        pre.enemy_type == EnemyType::Random,
        enemy_stepped(pre, post, px, py),
    ensures
        pre.dx != 0 ==> ((post.dx == -pre.dx) <==> (pre.x + pre.dx <= 0 || pre.x + pre.dx
            >= MAX_X)),
        pre.dy != 0 ==> ((post.dy == -pre.dy) <==> (pre.y + pre.dy <= 0 || pre.y + pre.dy
            >= MAX_Y)),
{
}

/// An avoider whose distance to the player is at least the proximity
/// radius does not move.
pub proof fn lemma_avoider_static_beyond_radius(pre: Enemy, post: Enemy, px: int, py: int)
    requires
        pre.enemy_type == EnemyType::Avoider,
        enemy_stepped(pre, post, px, py),
        dist2(pre.x as int, pre.y as int, px, py) >= AVOID_RADIUS * AVOID_RADIUS,
    ensures
        post.x == pre.x,
        post.y == pre.y,
{
    let dx = pre.x as int - px;
    let dy = pre.y as int - py;
    assert(dx * dx + dy * dy == dist2(pre.x as int, pre.y as int, px, py));
}

/// Facts about one axis of a normalized chase step of `SCALE` units:
/// the dot-product contribution is near `u * u * SCALE`, the squared
/// component is at most its exact value, and the component never
/// overshoots the axis gap `u`.
proof fn lemma_axis_facts(u: int, d: int)
    requires
        d >= SCALE,
        d >= 1,
    ensures
        d * (u * div_trunc(u * (SCALE as int), d)) >= u * u * (SCALE as int) - abs(u) * (d - 1),
        d * d * (div_trunc(u * (SCALE as int), d) * div_trunc(u * (SCALE as int), d)) <= (u * u)
            * ((SCALE as int) * (SCALE as int)),
        u >= 0 ==> 0 <= div_trunc(u * (SCALE as int), d) <= u,
        u < 0 ==> u <= div_trunc(u * (SCALE as int), d) <= 0,
{
    let cs = SCALE as int;
    let a = u * cs;
    let mu = div_trunc(a, d);
    lemma_div_trunc_bounds(a, d);
    if u >= 0 {
        assert(a >= 0) by (nonlinear_arith)
            requires
                u >= 0,
                cs > 0,
                a == u * cs,
        ;
        assert(d * mu <= a && a < d * mu + d);
        assert(mu >= 0);
        assert(u * (d * mu) >= u * u * cs - u * (d - 1)) by (nonlinear_arith)
            requires
                u >= 0,
                d * mu >= u * cs - (d - 1),
        ;
        assert(d * (u * mu) == u * (d * mu)) by (nonlinear_arith);
        assert(abs(u) == u);
        assert(d * d * (mu * mu) <= (u * u) * (cs * cs)) by (nonlinear_arith)
            requires
                0 <= d * mu,
                d * mu <= u * cs,
                u >= 0,
                cs >= 0,
        ;
        assert(mu <= u) by (nonlinear_arith)
            requires
                d * mu <= u * cs,
                cs <= d,
                u >= 0,
                d >= 1,
                mu >= 0,
        ;
    } else {
        assert(a < 0) by (nonlinear_arith)
            requires
                u < 0,
                cs > 0,
                a == u * cs,
        ;
        assert(d * mu >= a && a > d * mu - d);
        assert(mu <= 0);
        assert(u * (d * mu) >= u * u * cs - (-u) * (d - 1)) by (nonlinear_arith)
            requires
                u < 0,
                d * mu <= u * cs + (d - 1),
        ;
        assert(d * (u * mu) == u * (d * mu)) by (nonlinear_arith);
        assert(abs(u) == -u);
        assert(d * mu <= 0) by (nonlinear_arith)
            requires
                mu <= 0,
                d >= 1,
        ;
        assert(d * d * (mu * mu) <= (u * u) * (cs * cs)) by (nonlinear_arith)
            requires
                d * mu <= 0,
                u * cs <= d * mu,
                u < 0,
                cs >= 0,
        ;
        assert(u <= mu) by (nonlinear_arith)
            requires
                u * cs <= d * mu,
                cs <= d,
                u < 0,
                d >= 1,
                mu <= 0,
        ;
    }
}

/// While a chaser stands at least one pixel from a stationary player,
/// each tick strictly decreases its squared distance to the player.
pub proof fn lemma_chaser_distance_decreases(pre: Enemy, post: Enemy, px: int, py: int)
    requires
        pre.enemy_type == EnemyType::Chaser,
        enemy_wf(pre),
        0 <= px <= MAX_X,
        0 <= py <= MAX_Y,
        enemy_stepped(pre, post, px, py),
        dist2(pre.x as int, pre.y as int, px, py) >= SCALE * SCALE,
    ensures
        dist2(post.x as int, post.y as int, px, py) < dist2(pre.x as int, pre.y as int, px, py),
{
    let cs = SCALE as int;
    let x = pre.x as int;
    let y = pre.y as int;
    let dx = px - x;
    let dy = py - y;
    let d2 = dx * dx + dy * dy;
    assert(d2 == dist2(x, y, px, py)) by (nonlinear_arith)
        requires
            d2 == dx * dx + dy * dy,
            dx == px - x,
            dy == py - y,
    ;
    assert(d2 >= cs * cs);
    assert(d2 > 0) by (nonlinear_arith)
        requires
            d2 >= cs * cs,
            cs >= 1,
    ;
    let d = isqrt_spec(d2);
    lemma_isqrt_exists(d2);
    assert(d >= cs) by (nonlinear_arith)
        requires
            d >= 0,
            d2 < (d + 1) * (d + 1),
            d2 >= cs * cs,
            cs >= 1,
    ;
    let mx = div_trunc(dx * cs, d);
    let my = div_trunc(dy * cs, d);
    lemma_axis_facts(dx, d);
    lemma_axis_facts(dy, d);
    // the clamp does not fire: the step stays between the chaser and the player
    assert(0 <= x + mx <= MAX_X);
    assert(0 <= y + my <= MAX_Y);
    assert(post.x == x + mx && post.y == y + my) by {
        assert(chaser_step(x, y, px, py) == (
            crate::num::clamp_spec(x + mx, 0, MAX_X as int),
            crate::num::clamp_spec(y + my, 0, MAX_Y as int),
        ));
    }
    // expansion of the new squared distance
    let dot = dx * mx + dy * my;
    let m2 = mx * mx + my * my;
    let nd2 = dist2(post.x as int, post.y as int, px, py);
    assert(nd2 == d2 - 2 * dot + m2) by (nonlinear_arith)
        requires
            nd2 == (((x + mx) - px) * ((x + mx) - px)) + (((y + my) - py) * ((y + my) - py)),
            dx == px - x,
            dy == py - y,
            d2 == dx * dx + dy * dy,
            dot == dx * mx + dy * my,
            m2 == mx * mx + my * my,
    ;
    // dot-product lower bound
    let ab = abs(dx) + abs(dy);
    assert(d * dot >= d2 * cs - ab * (d - 1)) by (nonlinear_arith)
        requires
            dot == dx * mx + dy * my,
            d2 == dx * dx + dy * dy,
            ab == abs(dx) + abs(dy),
            d * (dx * mx) >= dx * dx * cs - abs(dx) * (d - 1),
            d * (dy * my) >= dy * dy * cs - abs(dy) * (d - 1),
    ;
    // |dx| + |dy| is at most sqrt(2) times the distance
    assert(ab * ab <= 2 * d2) by (nonlinear_arith)
        requires
            ab == abs(dx) + abs(dy),
            d2 == dx * dx + dy * dy,
    ;
    assert(2 * ab < 3 * (d + 1)) by (nonlinear_arith)
        requires
            ab >= 0,
            ab * ab <= 2 * d2,
            d2 < (d + 1) * (d + 1),
            d >= 0,
    ;
    // the step wins against the rounding error: compare everything
    // scaled by d * d
    let big1 = 2 * d * (d * dot);
    let big2 = 2 * d * (d2 * cs);
    let big3 = 2 * d * (ab * (d - 1));
    let big4 = 3 * d * d2;
    let big5 = d2 * (cs * cs);
    let big6 = d * d * m2;
    assert(big6 <= big5) by (nonlinear_arith)
        requires
            big6 == d * d * m2,
            big5 == d2 * (cs * cs),
            m2 == mx * mx + my * my,
            d2 == dx * dx + dy * dy,
            d * d * (mx * mx) <= (dx * dx) * (cs * cs),
            d * d * (my * my) <= (dy * dy) * (cs * cs),
    ;
    assert(big1 >= big2 - big3) by (nonlinear_arith)
        requires
            big1 == 2 * d * (d * dot),
            big2 == 2 * d * (d2 * cs),
            big3 == 2 * d * (ab * (d - 1)),
            d * dot >= d2 * cs - ab * (d - 1),
            d >= 1,
    ;
    assert(big3 <= big4) by (nonlinear_arith)
        requires
            big3 == 2 * d * (ab * (d - 1)),
            big4 == 3 * d * d2,
            ab >= 0,
            2 * ab <= 3 * d + 2,
            d >= 1,
            d * d <= d2,
    ;
    assert(big2 - big4 > big5) by (nonlinear_arith)
        requires
            big2 == 2 * d * (d2 * cs),
            big4 == 3 * d * d2,
            big5 == d2 * (cs * cs),
            d >= cs,
            cs >= 100,
            d2 > 0,
    ;
    assert(big1 > big6);
    assert(2 * dot - m2 > 0) by (nonlinear_arith)
        requires
            2 * d * (d * dot) > d * d * m2,
            d >= 1,
    ;
    assert(nd2 < d2);
}

} // verus!
