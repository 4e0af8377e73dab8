//! Canonical text encodings: decimal numbers, action tokens, and the
//! JSON snapshots sent to an external policy over the wire. Encoding is
//! the library's own logic, specified character by character; the
//! transport that carries the text is outside it.

use vstd::prelude::*;
use crate::SCALE;
use crate::enemy::{Enemy, Shape, enemies_wf, enemy_wf};
use crate::geom::in_entity_bounds;
use crate::num::{div_trunc_i64, isqrt_i64, isqrt_spec};
use crate::observe::to_pixels;
use crate::qlearn::Action;
use vstd::string::StringExecFns;

verus! {

/// The character of one decimal digit.
pub open spec fn dec_digit(d: int) -> char {
    if d == 0 {
        '0'
    } else if d == 1 {
        '1'
    } else if d == 2 {
        '2'
    } else if d == 3 {
        '3'
    } else if d == 4 {
        '4'
    } else if d == 5 {
        '5'
    } else if d == 6 {
        '6'
    } else if d == 7 {
        '7'
    } else if d == 8 {
        '8'
    } else {
        '9'
    }
}

/// The decimal digits of a non-negative number, most significant first.
pub open spec fn dec_str(n: int) -> Seq<char>
    recommends
        n >= 0,
    decreases n,
{
    if n < 10 {
        seq![dec_digit(n)]
    } else {
        dec_str(n / 10).push(dec_digit(n % 10))
    }
}

/// The decimal text of an integer, with a leading minus sign when
/// negative.
pub open spec fn int_str(n: int) -> Seq<char> {
    if n < 0 {
        seq!['-'] + dec_str(-n)
    } else {
        dec_str(n)
    }
}

/// Append one decimal digit.
fn push_digit(out: &mut String, d: u64)
    requires
        d < 10,
    ensures
        final(out)@ == old(out)@ + seq![dec_digit(d as int)],
{
    let s: &str = match d {
        0 => "0",
        1 => "1",
        2 => "2",
        3 => "3",
        4 => "4",
        5 => "5",
        6 => "6",
        7 => "7",
        8 => "8",
        _ => "9",
    };
    proof {
        reveal_strlit("0");
        reveal_strlit("1");
        reveal_strlit("2");
        reveal_strlit("3");
        reveal_strlit("4");
        reveal_strlit("5");
        reveal_strlit("6");
        reveal_strlit("7");
        reveal_strlit("8");
        reveal_strlit("9");
        assert(s@ =~= seq![dec_digit(d as int)]);
    }
    out.append(s);
}

/// Append the decimal digits of a non-negative number.
fn push_dec(out: &mut String, n: u64)
    ensures
        final(out)@ == old(out)@ + dec_str(n as int),
    decreases n,
{
    if n < 10 {
        push_digit(out, n);
    } else {
        push_dec(out, n / 10);
        push_digit(out, n % 10);
        proof {
            assert(final(out)@ =~= old(out)@ + dec_str(n as int));
        }
    }
}

/// Append the decimal text of an integer.
pub fn push_int(out: &mut String, n: i64)
    requires
        n > i64::MIN,
    ensures
        final(out)@ == old(out)@ + int_str(n as int),
{
    if n < 0 {
        let m = (-n) as u64;
        proof {
            reveal_strlit("-");
            assert("-"@ =~= seq!['-']);
        }
        out.append("-");
        push_dec(out, m);
        proof {
            assert(final(out)@ =~= old(out)@ + int_str(n as int));
        }
    } else {
        push_dec(out, n as u64);
    }
}

/// The wire token of an action.
pub open spec fn action_token(a: Action) -> Seq<char> {
    match a {
        Action::Up => "up"@,
        Action::Down => "down"@,
        Action::Left => "left"@,
        Action::Right => "right"@,
    }
}

/// The wire token of an action, as an owned string.
pub fn action_to_string(a: Action) -> (s: String)
    ensures
        s@ == action_token(a),
{
    match a {
        Action::Up => String::from_str("up"),
        Action::Down => String::from_str("down"),
        Action::Left => String::from_str("left"),
        Action::Right => String::from_str("right"),
    }
}

/// The action named by a wire token; any unrecognized token is no
/// action at all.
pub open spec fn parse_action_spec(s: Seq<char>) -> Option<Action> {
    if s == "up"@ {
        Some(Action::Up)
    } else if s == "down"@ {
        Some(Action::Down)
    } else if s == "left"@ {
        Some(Action::Left)
    } else if s == "right"@ {
        Some(Action::Right)
    } else {
        None
    }
}

/// Parse a wire token into an action; unrecognized text parses to
/// `None`, which the controller treats as a no-op.
pub fn parse_action(s: &str) -> (r: Option<Action>)
    ensures
        r == parse_action_spec(s@),
{
    let t = s.to_owned();
    if t == String::from_str("up") {
        Some(Action::Up)
    } else if t == String::from_str("down") {
        Some(Action::Down)
    } else if t == String::from_str("left") {
        Some(Action::Left)
    } else if t == String::from_str("right") {
        Some(Action::Right)
    } else {
        None
    }
}

/// The token of a shape.
pub open spec fn shape_token(s: Shape) -> Seq<char> {
    match s {
        Shape::Square => "square"@,
        Shape::Circle => "circle"@,
        Shape::Triangle => "triangle"@,
    }
}

/// Append the token of a shape.
fn push_shape(out: &mut String, s: Shape)
    ensures
        final(out)@ == old(out)@ + shape_token(s),
{
    match s {
        Shape::Square => out.append("square"),
        Shape::Circle => out.append("circle"),
        Shape::Triangle => out.append("triangle"),
    }
}

/// The whole-pixel distance between an enemy and the player, from the
/// discretized relative offsets.
pub open spec fn rel_distance(rx: int, ry: int) -> int {
    isqrt_spec(rx * rx + ry * ry)
}

/// The JSON object of one enemy in the state string: whole-pixel
/// offsets relative to the player, the shape token, and the whole-pixel
/// distance.
pub open spec fn enemy_json(e: Enemy, px: int, py: int) -> Seq<char> {
    let rx = to_pixels(e.x - px);
    let ry = to_pixels(e.y - py);
    "{\"x\": "@ + int_str(rx) + ", \"y\": "@ + int_str(ry) + ", \"type\": \""@ + shape_token(
        e.shape,
    ) + "\", \"distance\": "@ + int_str(rel_distance(rx, ry)) + "}"@
}

/// The enemy objects of the state string, joined by commas.
pub open spec fn enemies_json(es: Seq<Enemy>, px: int, py: int) -> Seq<char>
    decreases es.len(),
{
    if es.len() == 0 {
        Seq::empty()
    } else if es.len() == 1 {
        enemy_json(es[0], px, py)
    } else {
        enemies_json(es.drop_last(), px, py) + ", "@ + enemy_json(es.last(), px, py)
    }
}

/// The whole state string: player position in whole pixels, score, and
/// the enemy list.
pub open spec fn state_json(px: int, py: int, score: int, es: Seq<Enemy>) -> Seq<char> {
    "{\"player_x\": "@ + int_str(to_pixels(px)) + ", \"player_y\": "@ + int_str(to_pixels(py))
        + ", \"score\": "@ + int_str(score) + ", \"enemies\": ["@ + enemies_json(es, px, py)
        + "]}"@
}

/// Append the JSON object of one enemy of the state string.
fn push_enemy_json(out: &mut String, e: &Enemy, px: i64, py: i64)
    requires
        enemy_wf(*e),
        in_entity_bounds(px as int, py as int),
    ensures
        final(out)@ == old(out)@ + enemy_json(*e, px as int, py as int),
{
    let rx = div_trunc_i64(e.x - px, SCALE);
    let ry = div_trunc_i64(e.y - py, SCALE);
    proof {
        assert(0 <= rx * rx <= 750i64 * 750i64) by (nonlinear_arith)
            requires
                -750 <= rx <= 750,
        ;
        assert(0 <= ry * ry <= 750i64 * 750i64) by (nonlinear_arith)
            requires
                -750 <= ry <= 750,
        ;
    }
    let dist = isqrt_i64(rx * rx + ry * ry);
    out.append("{\"x\": ");
    push_int(out, rx);
    out.append(", \"y\": ");
    push_int(out, ry);
    out.append(", \"type\": \"");
    push_shape(out, e.shape);
    out.append("\", \"distance\": ");
    push_int(out, dist);
    out.append("}");
    proof {
        assert(final(out)@ =~= old(out)@ + enemy_json(*e, px as int, py as int));
    }
}

/// Append the comma-joined enemy objects of the state string.
fn push_enemies_json(out: &mut String, es: &Vec<Enemy>, px: i64, py: i64)
    requires
        enemies_wf(es@),
        in_entity_bounds(px as int, py as int),
    ensures
        final(out)@ == old(out)@ + enemies_json(es@, px as int, py as int),
{
    let n = es.len();
    let mut i: usize = 0;
    proof {
        assert(enemies_json(es@.subrange(0, 0), px as int, py as int) =~= Seq::<char>::empty());
    }
    while i < n
        invariant
            i <= n,
            n == es@.len(),
            enemies_wf(es@),
            in_entity_bounds(px as int, py as int),
            out@ == old(out)@ + enemies_json(es@.subrange(0, i as int), px as int, py as int),
        decreases n - i,
    {
        if i > 0 {
            out.append(", ");
        }
        let e = &es[i];
        push_enemy_json(out, e, px, py);
        proof {
            let sub1 = es@.subrange(0, i + 1);
            assert(sub1.drop_last() =~= es@.subrange(0, i as int));
            assert(sub1.last() == es@[i as int]);
            if i == 0 {
                assert(sub1.len() == 1);
                assert(sub1[0] == es@[0]);
                assert(out@ =~= old(out)@ + enemies_json(sub1, px as int, py as int));
            } else {
                assert(out@ =~= old(out)@ + enemies_json(sub1, px as int, py as int));
            }
        }
        i = i + 1;
    }
    proof {
        assert(es@.subrange(0, n as int) =~= es@);
    }
}

/// Build the state string for the player position, score and enemy
/// list, as handed to an external policy.
pub fn encode_state(px: i64, py: i64, score: i64, es: &Vec<Enemy>) -> (s: String)
    requires
        in_entity_bounds(px as int, py as int),
        enemies_wf(es@),
        score > i64::MIN,
    ensures
        s@ == state_json(px as int, py as int, score as int, es@),
{
    let mut out = String::new();
    out.append("{\"player_x\": ");
    push_int(&mut out, div_trunc_i64(px, SCALE));
    out.append(", \"player_y\": ");
    push_int(&mut out, div_trunc_i64(py, SCALE));
    out.append(", \"score\": ");
    push_int(&mut out, score);
    out.append(", \"enemies\": [");
    push_enemies_json(&mut out, es, px, py);
    out.append("]}");
    proof {
        assert(out@ =~= state_json(px as int, py as int, score as int, es@));
    }
    out
}

} // verus!
