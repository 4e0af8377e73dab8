use squaro::observe::Observation;
use squaro::qlearn::{Action, QTable};

fn obs(px: i64, py: i64) -> Observation {
    Observation { player_x: px, player_y: py, enemies: vec![], projectiles: vec![] }
}

#[test]
fn best_action_defaults_to_up_on_empty_table() {
    let t = QTable::new();
    let s = obs(3, 4);
    assert_eq!(t.best_action(&s), Action::Up);
    assert_eq!(t.lookup(&s, Action::Up), 0);
    assert_eq!(t.lookup(&s, Action::Down), 0);
    assert_eq!(t.max_q(&s), 0);
}

#[test]
fn update_applies_td_rule_exactly_once() {
    // alpha = 1/10, gamma = 9/10, one reward unit is 1_000_000 value units
    let mut t = QTable::new();
    let s = obs(0, 0);
    let s2 = obs(1, 0);
    t.update(&s, Action::Up, 1, &s2);
    // target = 1*1_000_000 + 0.9*0 = 1_000_000; delta = 1_000_000/10
    assert_eq!(t.lookup(&s, Action::Up), 100_000);
    t.update(&s, Action::Up, 1, &s2);
    // target = 1_000_000; delta = (1_000_000 - 100_000)/10 = 90_000
    assert_eq!(t.lookup(&s, Action::Up), 190_000);
}

#[test]
fn update_touches_only_its_own_pair() {
    let mut t = QTable::new();
    let s = obs(0, 0);
    let other = obs(9, 9);
    t.update(&other, Action::Left, 1, &obs(1, 1));
    let before = t.lookup(&other, Action::Left);
    t.update(&s, Action::Up, 1, &obs(1, 1));
    assert_eq!(t.lookup(&other, Action::Left), before);
    assert_eq!(t.lookup(&s, Action::Down), 0);
}

#[test]
fn update_with_zero_reward_and_same_state_is_fixpoint_at_default() {
    // Q(s,a) = 0 and max_a' Q(s,a') = 0: the estimate already equals its
    // discounted self-estimate, so the update leaves it unchanged.
    let mut t = QTable::new();
    let s = obs(2, 2);
    t.update(&s, Action::Up, 0, &s);
    assert_eq!(t.lookup(&s, Action::Up), 0);
}

#[test]
fn update_with_zero_reward_moves_toward_discounted_self_estimate() {
    let mut t = QTable::new();
    let s = obs(2, 2);
    t.update(&s, Action::Up, 1, &s);
    // established estimate: 100_000 (the max over actions of s)
    assert_eq!(t.lookup(&s, Action::Up), 100_000);
    t.update(&s, Action::Up, 0, &s);
    // target = 0.9 * 100_000 = 90_000; delta = (90_000 - 100_000)/10
    assert_eq!(t.lookup(&s, Action::Up), 99_000);
}

#[test]
fn best_action_breaks_ties_by_enumeration_order() {
    let mut t = QTable::new();
    let s = obs(1, 2);
    let s2 = obs(3, 4);
    // give Down and Right the same positive value
    t.update(&s, Action::Down, 1, &s2);
    t.update(&s, Action::Right, 1, &s2);
    assert_eq!(t.lookup(&s, Action::Down), 100_000);
    assert_eq!(t.lookup(&s, Action::Right), 100_000);
    assert_eq!(t.best_action(&s), Action::Down);
    // and a strictly larger value wins regardless of order
    t.update(&s, Action::Right, 2, &s2);
    assert_eq!(t.best_action(&s), Action::Right);
    assert_eq!(t.max_q(&s), t.lookup(&s, Action::Right));
}

#[test]
fn negative_rewards_are_learned() {
    let mut t = QTable::new();
    let s = obs(0, 1);
    let s2 = obs(0, 2);
    t.update(&s, Action::Left, -1, &s2);
    assert_eq!(t.lookup(&s, Action::Left), -100_000);
}

#[test]
fn observations_differ_by_projectiles_too() {
    let mut t = QTable::new();
    let a = Observation { player_x: 1, player_y: 1, enemies: vec![], projectiles: vec![(2, 3)] };
    let b = Observation { player_x: 1, player_y: 1, enemies: vec![], projectiles: vec![] };
    t.update(&a, Action::Up, 1, &b);
    assert_eq!(t.lookup(&a, Action::Up), 100_000);
    assert_eq!(t.lookup(&b, Action::Up), 0);
}
