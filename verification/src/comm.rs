//! The snapshot sent to an external policy over a text transport, and
//! its wire encoding. The library builds and proves the frame; the
//! socket that carries it lives outside the library.

use vstd::prelude::*;
use crate::SCALE;
use crate::encode::{int_str, push_int, shape_token};
use crate::enemy::{Enemy, EnemyType, Shape, enemies_wf};
use crate::geom::in_entity_bounds;
use crate::num::div_trunc_i64;
use crate::observe::to_pixels;
use vstd::string::StringExecFns;

verus! {

/// One enemy of the wire snapshot: whole-pixel position, shape and
/// behavior.
#[derive(Clone, Copy, Debug, PartialEq, Eq, Structural)]
pub struct EnemyState {
    pub x: i64,
    pub y: i64,
    pub shape: Shape,
    pub enemy_type: EnemyType,
}

/// The wire snapshot: the player's whole-pixel position and the enemy
/// list.
#[derive(Clone, Debug)]
pub struct GameState {
    pub player_x: i64,
    pub player_y: i64,
    pub enemies: Vec<EnemyState>,
}

/// Coordinates of a snapshot stay within one arena of pixels.
pub open spec fn enemy_state_wf(e: EnemyState) -> bool {
    &&& -1000 <= e.x <= 1000
    &&& -1000 <= e.y <= 1000
}

/// A well-formed snapshot.
pub open spec fn game_state_wf(g: GameState) -> bool {
    &&& -1000 <= g.player_x <= 1000
    &&& -1000 <= g.player_y <= 1000
    &&& forall|i: int| 0 <= i < g.enemies@.len() ==> enemy_state_wf(#[trigger] g.enemies@[i])
}

/// The behavior token of an enemy kind on the wire.
pub open spec fn kind_token(k: EnemyType) -> Seq<char> {
    match k {
        EnemyType::Chaser => "chaser"@,
        EnemyType::Random => "random"@,
        EnemyType::Avoider => "avoider"@,
    }
}

/// The wire JSON object of one enemy of the snapshot.
pub open spec fn enemy_state_json(e: EnemyState) -> Seq<char> {
    "{\"x\":"@ + int_str(e.x as int) + ",\"y\":"@ + int_str(e.y as int) + ",\"shape\":\""@
        + shape_token(e.shape) + "\",\"enemy_type\":\""@ + kind_token(e.enemy_type) + "\"}"@
}

/// The wire JSON array elements of the snapshot's enemies, joined by
/// commas.
pub open spec fn enemies_state_json(es: Seq<EnemyState>) -> Seq<char>
    decreases es.len(),
{
    if es.len() == 0 {
        Seq::empty()
    } else if es.len() == 1 {
        enemy_state_json(es[0])
    } else {
        enemies_state_json(es.drop_last()) + ","@ + enemy_state_json(es.last())
    }
}

/// The whole wire frame of a snapshot.
pub open spec fn game_state_json(g: GameState) -> Seq<char> {
    "{\"player_x\":"@ + int_str(g.player_x as int) + ",\"player_y\":"@ + int_str(
        g.player_y as int,
    ) + ",\"enemies\":["@ + enemies_state_json(g.enemies@) + "]}"@
}

impl GameState {
    /// Take the wire snapshot of the current arena: whole-pixel player
    /// position and one entry per live enemy.
    pub fn from_arena(px: i64, py: i64, enemies: &Vec<Enemy>) -> (g: GameState)
        requires
            in_entity_bounds(px as int, py as int),
            enemies_wf(enemies@),
        ensures
            game_state_wf(g),
            g.player_x == to_pixels(px as int),
            g.player_y == to_pixels(py as int),
            g.enemies@.len() == enemies@.len(),
            forall|i: int|
                0 <= i < enemies@.len() ==> #[trigger] g.enemies@[i] == (EnemyState {
                    x: to_pixels(enemies@[i].x as int) as i64,
                    y: to_pixels(enemies@[i].y as int) as i64,
                    shape: enemies@[i].shape,
                    enemy_type: enemies@[i].enemy_type,
                }),
    {
        let mut list: Vec<EnemyState> = Vec::new();
        let mut i: usize = 0;
        while i < enemies.len()
            invariant
                i <= enemies@.len(),
                enemies_wf(enemies@),
                list@.len() == i,
                forall|j: int|
                    0 <= j < i ==> #[trigger] list@[j] == (EnemyState {
                        x: to_pixels(enemies@[j].x as int) as i64,
                        y: to_pixels(enemies@[j].y as int) as i64,
                        shape: enemies@[j].shape,
                        enemy_type: enemies@[j].enemy_type,
                    }),
                forall|j: int| 0 <= j < i ==> enemy_state_wf(#[trigger] list@[j]),
            decreases enemies@.len() - i,
        {
            let e = &enemies[i];
            let es = EnemyState {
                x: div_trunc_i64(e.x, SCALE),
                y: div_trunc_i64(e.y, SCALE),
                shape: e.shape,
                enemy_type: e.enemy_type,
            };
            list.push(es);
            i = i + 1;
        }
        GameState {
            player_x: div_trunc_i64(px, SCALE),
            player_y: div_trunc_i64(py, SCALE),
            enemies: list,
        }
    }

    /// Encode this snapshot as its wire frame.
    pub fn to_json(&self) -> (s: String)
        requires
            game_state_wf(*self),
        ensures
            s@ == game_state_json(*self),
    {
        let mut out = String::new();
        out.append("{\"player_x\":");
        push_int(&mut out, self.player_x);
        out.append(",\"player_y\":");
        push_int(&mut out, self.player_y);
        out.append(",\"enemies\":[");
        let n = self.enemies.len();
        let mut i: usize = 0;
        proof {
            assert(enemies_state_json(self.enemies@.subrange(0, 0)) =~= Seq::<char>::empty());
        }
        let ghost mid = out@;
        while i < n
            invariant
                i <= n,
                n == self.enemies@.len(),
                game_state_wf(*self),
                out@ == mid + enemies_state_json(self.enemies@.subrange(0, i as int)),
            decreases n - i,
        {
            if i > 0 {
                out.append(",");
            }
            push_enemy_state_json(&mut out, &self.enemies[i]);
            proof {
                let sub1 = self.enemies@.subrange(0, i + 1);
                assert(sub1.drop_last() =~= self.enemies@.subrange(0, i as int));
                assert(sub1.last() == self.enemies@[i as int]);
                assert(out@ =~= mid + enemies_state_json(sub1));
            }
            i = i + 1;
        }
        out.append("]}");
        proof {
            assert(self.enemies@.subrange(0, n as int) =~= self.enemies@);
            assert(out@ =~= game_state_json(*self));
        }
        out
    }
}

/// Append the wire JSON object of one snapshot enemy.
fn push_enemy_state_json(out: &mut String, e: &EnemyState)
    requires
        enemy_state_wf(*e),
    ensures
        final(out)@ == old(out)@ + enemy_state_json(*e),
{
    out.append("{\"x\":");
    push_int(out, e.x);
    out.append(",\"y\":");
    push_int(out, e.y);
    out.append(",\"shape\":\"");
    match e.shape {
        Shape::Square => out.append("square"),
        Shape::Circle => out.append("circle"),
        Shape::Triangle => out.append("triangle"),
    }
    out.append("\",\"enemy_type\":\"");
    match e.enemy_type {
        EnemyType::Chaser => out.append("chaser"),
        EnemyType::Random => out.append("random"),
        EnemyType::Avoider => out.append("avoider"),
    }
    out.append("\"}");
    proof {
        assert(final(out)@ =~= old(out)@ + enemy_state_json(*e));
    }
}

} // verus!
