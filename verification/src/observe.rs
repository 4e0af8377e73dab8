//! The state encoder: a deterministic, discretized snapshot of the
//! arena. Coordinates are rounded down to whole pixels so that
//! configurations that differ only below the pixel granularity collapse
//! to the same observation, which lets the value table generalize.

use vstd::prelude::*;
use crate::SCALE;
use crate::enemy::{Enemy, EnemyType, enemies_wf};
use crate::geom::in_entity_bounds;
use crate::num::{div_trunc, div_trunc_i64};
use crate::projectile::{Projectile, proj_wf};

verus! {

/// A discretized enemy as the agent sees it: whole-pixel position
/// relative to the player, and the behavior kind.
#[derive(Clone, Copy, Debug, PartialEq, Eq, Structural)]
pub struct RelEnemy {
    pub x: i64,
    pub y: i64,
    pub kind: EnemyType,
}

/// A discretized snapshot of the arena, used as the lookup key of the
/// value table.
#[derive(Clone, Debug)]
pub struct Observation {
    pub player_x: i64,
    pub player_y: i64,
    pub enemies: Vec<RelEnemy>,
    pub projectiles: Vec<(i64, i64)>,
}

/// The mathematical content of an observation.
#[verifier::ext_equal]
pub ghost struct ObsView {
    pub player_x: int,
    pub player_y: int,
    pub enemies: Seq<RelEnemy>,
    pub projectiles: Seq<(i64, i64)>,
}

impl View for Observation {
    type V = ObsView;

    open spec fn view(&self) -> ObsView {
        ObsView {
            player_x: self.player_x as int,
            player_y: self.player_y as int,
            enemies: self.enemies@,
            projectiles: self.projectiles@,
        }
    }
}

/// Round a scaled coordinate down to whole pixels (toward zero).
pub open spec fn to_pixels(v: int) -> int {
    div_trunc(v, SCALE as int)
}

/// The discretized relative view of one enemy.
pub open spec fn rel_enemy_of(e: Enemy, px: int, py: int) -> RelEnemy {
    RelEnemy {
        x: to_pixels(e.x - px) as i64,
        y: to_pixels(e.y - py) as i64,
        kind: e.enemy_type,
    }
}

/// The discretized view of one projectile.
pub open spec fn rel_proj_of(p: Projectile) -> (i64, i64) {
    (to_pixels(p.x as int) as i64, to_pixels(p.y as int) as i64)
}

/// The observation of a whole arena configuration: a pure function of
/// the player position and the entity lists, so equal configurations
/// always produce equal observations.
pub open spec fn observe_spec(px: int, py: int, enemies: Seq<Enemy>, projs: Seq<Projectile>) -> ObsView {
    ObsView {
        player_x: to_pixels(px),
        player_y: to_pixels(py),
        enemies: enemies.map_values(|e: Enemy| rel_enemy_of(e, px, py)),
        projectiles: projs.map_values(|p: Projectile| rel_proj_of(p)),
    }
}

/// Encode the current arena configuration as an observation.
pub fn observe(px: i64, py: i64, enemies: &Vec<Enemy>, projs: &Vec<Projectile>) -> (o: Observation)
    requires
        in_entity_bounds(px as int, py as int),
        enemies_wf(enemies@),
        forall|i: int| 0 <= i < projs@.len() ==> proj_wf(#[trigger] projs@[i]),
    ensures
        o@ == observe_spec(px as int, py as int, enemies@, projs@),
{
    let mut rel_enemies: Vec<RelEnemy> = Vec::new();
    let mut i: usize = 0;
    while i < enemies.len()
        invariant
            i <= enemies@.len(),
            in_entity_bounds(px as int, py as int),
            enemies_wf(enemies@),
            rel_enemies@ =~= enemies@.subrange(0, i as int).map_values(
                |e: Enemy| rel_enemy_of(e, px as int, py as int),
            ),
        decreases enemies@.len() - i,
    {
        let e = &enemies[i];
        let rx = div_trunc_i64(e.x - px, SCALE);
        let ry = div_trunc_i64(e.y - py, SCALE);
        rel_enemies.push(RelEnemy { x: rx, y: ry, kind: e.enemy_type });
        proof {
            assert(enemies@.subrange(0, i + 1).drop_last() =~= enemies@.subrange(0, i as int));
            assert(rel_enemies@ =~= enemies@.subrange(0, i + 1).map_values(
                |e: Enemy| rel_enemy_of(e, px as int, py as int),
            ));
        }
        i = i + 1;
    }
    let mut rel_projs: Vec<(i64, i64)> = Vec::new();
    let mut j: usize = 0;
    while j < projs.len()
        invariant
            j <= projs@.len(),
            forall|k: int| 0 <= k < projs@.len() ==> proj_wf(#[trigger] projs@[k]),
            rel_projs@ =~= projs@.subrange(0, j as int).map_values(|p: Projectile| rel_proj_of(p)),
        decreases projs@.len() - j,
    {
        let p = &projs[j];
        let rx = div_trunc_i64(p.x, SCALE);
        let ry = div_trunc_i64(p.y, SCALE);
        rel_projs.push((rx, ry));
        proof {
            assert(projs@.subrange(0, j + 1).drop_last() =~= projs@.subrange(0, j as int));
            assert(rel_projs@ =~= projs@.subrange(0, j + 1).map_values(
                |p: Projectile| rel_proj_of(p),
            ));
        }
        j = j + 1;
    }
    let o = Observation { player_x: div_trunc_i64(px, SCALE), player_y: div_trunc_i64(py, SCALE), enemies: rel_enemies, projectiles: rel_projs };
    proof {
        assert(enemies@.subrange(0, enemies@.len() as int) =~= enemies@);
        assert(projs@.subrange(0, projs@.len() as int) =~= projs@);
        assert(o@ =~= observe_spec(px as int, py as int, enemies@, projs@));
    }
    o
}

/// Element-wise equality of two observations, usable as a table key
/// comparison.
pub fn obs_eq(a: &Observation, b: &Observation) -> (r: bool)
    ensures
        r == (a@ == b@),
{
    if a.player_x != b.player_x || a.player_y != b.player_y {
        return false;
    }
    if a.enemies.len() != b.enemies.len() || a.projectiles.len() != b.projectiles.len() {
        return false;
    }
    let mut i: usize = 0;
    while i < a.enemies.len()
        invariant
            i <= a.enemies@.len(),
            a.enemies@.len() == b.enemies@.len(),
            forall|k: int| 0 <= k < i ==> a.enemies@[k] == b.enemies@[k],
        decreases a.enemies@.len() - i,
    {
        let ea = a.enemies[i];
        let eb = b.enemies[i];
        if ea != eb {
            return false;
        }
        i = i + 1;
    }
    let mut j: usize = 0;
    while j < a.projectiles.len()
        invariant
            j <= a.projectiles@.len(),
            a.projectiles@.len() == b.projectiles@.len(),
            forall|k: int| 0 <= k < a.enemies@.len() ==> a.enemies@[k] == b.enemies@[k],
            a.enemies@.len() == b.enemies@.len(),
            forall|k: int| 0 <= k < j ==> a.projectiles@[k] == b.projectiles@[k],
        decreases a.projectiles@.len() - j,
    {
        let pa = &a.projectiles[j];
        let pb = &b.projectiles[j];
        if pa.0 != pb.0 || pa.1 != pb.1 {
            return false;
        }
        j = j + 1;
    }
    proof {
        assert(a.enemies@ =~= b.enemies@);
        assert(a.projectiles@ =~= b.projectiles@);
        assert(a@ =~= b@);
    }
    true
}

} // verus!
