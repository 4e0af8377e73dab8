//! Projectiles: fired from the player toward a target point, they fly
//! with a fixed speed along the straight line to the target and are
//! removed once they leave the arena.

use vstd::prelude::*;
use crate::geom::{ARENA_H, ARENA_W};
use crate::num::{div_trunc, div_trunc_i64, isqrt_i64, isqrt_spec, lemma_div_trunc_magnitude};

verus! {

/// Speed of a projectile in coordinate units per tick (5 pixels).
pub const PROJ_SPEED: i64 = 5_000;

/// A projectile in flight.
#[derive(Clone, Copy, Debug)]
pub struct Projectile {
    pub x: i64,
    pub y: i64,
    pub dx: i64,
    pub dy: i64,
}

/// The velocity a projectile is created with: the vector from
/// `(x, y)` to the target, normalized to length `PROJ_SPEED` and
/// rounded toward zero. A projectile aimed exactly at its own
/// position does not move.
pub open spec fn projectile_velocity(x: int, y: int, tx: int, ty: int) -> (int, int) {
    let dx = tx - x;
    let dy = ty - y;
    let d2 = dx * dx + dy * dy;
    if d2 == 0 {
        (0, 0)
    } else {
        let d = isqrt_spec(d2);
        (div_trunc(dx * PROJ_SPEED, d), div_trunc(dy * PROJ_SPEED, d))
    }
}

/// A projectile whose position may still be inside the arena and whose
/// velocity is bounded by the fixed speed.
pub open spec fn proj_wf(p: Projectile) -> bool {
    &&& 0 <= p.x <= ARENA_W
    &&& 0 <= p.y <= ARENA_H
    &&& -PROJ_SPEED <= p.dx <= PROJ_SPEED
    &&& -PROJ_SPEED <= p.dy <= PROJ_SPEED
}

/// A component of a normalized vector is no longer than the whole:
/// `|a| <= isqrt_spec(a * a + b * b)`.
proof fn lemma_component_le_norm(a: int, b: int)
    ensures
        -isqrt_spec(a * a + b * b) <= a <= isqrt_spec(a * a + b * b),
{
    let d2 = a * a + b * b;
    let d = isqrt_spec(d2);
    assert(a * a >= 0 && b * b >= 0) by (nonlinear_arith);
    crate::num::lemma_isqrt_exists(d2);
    assert(crate::num::is_isqrt(d2, d));
    assert(-d <= a <= d) by (nonlinear_arith)
        requires
            d >= 0,
            d * d <= d2,
            d2 < (d + 1) * (d + 1),
            d2 == a * a + b * b,
    ;
}

impl Projectile {
    /// Create a projectile at `(x, y)` aimed at `(target_x, target_y)`.
    pub fn new(x: i64, y: i64, target_x: i64, target_y: i64) -> (p: Projectile)
        requires
            0 <= x <= ARENA_W,
            0 <= y <= ARENA_H,
            0 <= target_x <= ARENA_W,
            0 <= target_y <= ARENA_H,
        ensures
            p.x == x,
            p.y == y,
            (p.dx as int, p.dy as int) == projectile_velocity(
                x as int,
                y as int,
                target_x as int,
                target_y as int,
            ),
            proj_wf(p),
    {
        let dx = target_x - x;
        let dy = target_y - y;
        proof {
            assert(0 <= dx * dx <= 800_000i64 * 800_000i64) by (nonlinear_arith)
                requires
                    -800_000 <= dx <= 800_000,
            ;
            assert(0 <= dy * dy <= 800_000i64 * 800_000i64) by (nonlinear_arith)
                requires
                    -800_000 <= dy <= 800_000,
            ;
        }
        let d2 = dx * dx + dy * dy;
        if d2 == 0 {
            Projectile { x, y, dx: 0, dy: 0 }
        } else {
            let d = isqrt_i64(d2);
            proof {
                assert(d >= 1) by (nonlinear_arith)
                    requires
                        d >= 0,
                        d2 > 0,
                        d2 < (d + 1) * (d + 1),
                ;
                lemma_component_le_norm(dx as int, dy as int);
                lemma_component_le_norm(dy as int, dx as int);
                lemma_div_trunc_magnitude(dx as int * PROJ_SPEED as int, d as int);
                lemma_div_trunc_magnitude(dy as int * PROJ_SPEED as int, d as int);
            }
            let vx = div_trunc_i64(dx * PROJ_SPEED, d);
            let vy = div_trunc_i64(dy * PROJ_SPEED, d);
            proof {
                lemma_velocity_component_bounded(dx as int, d as int);
                lemma_velocity_component_bounded(dy as int, d as int);
            }
            Projectile { x, y, dx: vx, dy: vy }
        }
    }

    /// Fly one tick: move by the velocity.
    pub fn update(&mut self)
        requires
            proj_wf(*old(self)),
        ensures
            final(self).x == old(self).x + old(self).dx,
            final(self).y == old(self).y + old(self).dy,
            final(self).dx == old(self).dx,
            final(self).dy == old(self).dy,
    {
        self.x = self.x + self.dx;
        self.y = self.y + self.dy;
    }
}

/// A normalized component scaled by the speed is bounded by the speed:
/// `|div_trunc(a * PROJ_SPEED, d)| <= PROJ_SPEED` when `|a| <= d`.
proof fn lemma_velocity_component_bounded(a: int, d: int)
    requires
        d >= 1,
        -d <= a <= d,
    ensures
        -PROJ_SPEED <= div_trunc(a * PROJ_SPEED, d) <= PROJ_SPEED,
{
    let q = div_trunc(a * PROJ_SPEED, d);
    crate::num::lemma_div_trunc_bounds(a * PROJ_SPEED, d);
    if a >= 0 {
        assert(a * PROJ_SPEED <= d * PROJ_SPEED) by (nonlinear_arith)
            requires
                0 <= a <= d,
        ;
        assert(d * q <= a * PROJ_SPEED);
        assert(q <= PROJ_SPEED) by (nonlinear_arith)
            requires
                d >= 1,
                d * q <= d * PROJ_SPEED,
        ;
        assert(q >= 0);
    } else {
        assert(d * PROJ_SPEED * -1 <= a * PROJ_SPEED) by (nonlinear_arith)
            requires
                -d <= a <= 0,
        ;
        assert(d * q >= a * PROJ_SPEED);
        assert(q >= -PROJ_SPEED) by (nonlinear_arith)
            requires
                d >= 1,
                d * q >= d * (-PROJ_SPEED),
                d * PROJ_SPEED * -1 == d * (-PROJ_SPEED),
        ;
        assert(q <= 0);
    }
}

/// The projectile one tick later: moved by its velocity.
pub open spec fn proj_moved(p: Projectile) -> Projectile {
    Projectile { x: (p.x + p.dx) as i64, y: (p.y + p.dy) as i64, dx: p.dx, dy: p.dy }
}

/// A moved projectile that is still within the arena.
pub open spec fn proj_in_arena(p: Projectile) -> bool {
    &&& 0 <= p.x <= ARENA_W
    &&& 0 <= p.y <= ARENA_H
}

/// One flight tick of the whole projectile list: every projectile moves
/// by its velocity, and exactly those that leave the arena are removed,
/// the rest keeping their order.
pub open spec fn flight_step(s: Seq<Projectile>) -> Seq<Projectile>
    decreases s.len(),
{
    if s.len() == 0 {
        Seq::empty()
    } else {
        let rest = flight_step(s.drop_last());
        let q = proj_moved(s.last());
        if proj_in_arena(q) {
            rest.push(q)
        } else {
            rest
        }
    }
}

/// Every projectile that survives a flight tick is well-formed.
pub proof fn lemma_flight_step_wf(s: Seq<Projectile>)
    requires
        forall|i: int| 0 <= i < s.len() ==> proj_wf(#[trigger] s[i]),
    ensures
        forall|i: int| 0 <= i < flight_step(s).len() ==> proj_wf(#[trigger] flight_step(s)[i]),
        flight_step(s).len() <= s.len(),
    decreases s.len(),
{
    if s.len() > 0 {
        assert(forall|i: int| 0 <= i < s.drop_last().len() ==> proj_wf(#[trigger] s.drop_last()[i]));
        lemma_flight_step_wf(s.drop_last());
        let q = proj_moved(s.last());
        assert(proj_wf(s.last()));
        if proj_in_arena(q) {
            assert(proj_wf(q));
        }
    }
}


/// A projectile aimed straight down moves only along increasing `y`,
/// at exactly the configured speed per tick.
pub proof fn lemma_projectile_straight_down(x: int, y: int, k: int)
    requires
        k > 0,
    ensures
        projectile_velocity(x, y, x, y + k) == (0int, PROJ_SPEED as int),
{
    let d2 = k * k;
    assert(d2 > 0) by (nonlinear_arith)
        requires
            k > 0,
            d2 == k * k,
    ;
    assert(crate::num::is_isqrt(d2, k)) by (nonlinear_arith)
        requires
            k > 0,
            d2 == k * k,
    ;
    crate::num::lemma_isqrt_unique(d2, k);
    assert((x - x) * (x - x) + ((y + k) - y) * ((y + k) - y) == d2) by (nonlinear_arith)
        requires
            d2 == k * k,
    ;
    let sp = PROJ_SPEED as int;
    assert(div_trunc(0 * sp, k) == 0) by {
        assert(0 * sp == 0) by (nonlinear_arith);
        assert(0int / k == 0) by {
            vstd::arithmetic::div_mod::lemma_basic_div(0, k);
        }
    }
    assert(div_trunc(k * sp, k) == sp) by {
        assert(k * sp >= 0) by (nonlinear_arith)
            requires
                k > 0,
                sp > 0,
        ;
        assert((k * sp) / k == sp) by {
            vstd::arithmetic::div_mod::lemma_div_multiples_vanish(sp, k);
        }
    }
}

} // verus!
