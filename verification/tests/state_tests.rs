use squaro::enemy::{Enemy, EnemyType, Shape};
use squaro::geom::Rect;
use squaro::rl_interface::RLInterface;
use squaro::state::MainState;

fn fresh() -> MainState {
    MainState::new(RLInterface::new())
}

#[test]
fn new_session_starts_centered_with_zero_score() {
    let ms = fresh();
    assert_eq!(ms.pos_x, 350_000);
    assert_eq!(ms.pos_y, 250_000);
    assert_eq!(ms.score, 0);
    assert_eq!(ms.previous_score, 0);
    assert!(!ms.paused);
    assert!(ms.running);
    assert_eq!(ms.spawner.enemies.len(), 0);
    assert_eq!(ms.projectiles.len(), 0);
}

#[test]
fn enemy_on_the_player_is_removed_and_scores_in_one_step() {
    // one enemy exactly at the player's position, then one full
    // environment step: movement, collision passes
    let mut ms = fresh();
    ms.spawner.enemies.push(Enemy {
        x: ms.pos_x,
        y: ms.pos_y,
        shape: Shape::Square,
        enemy_type: EnemyType::Chaser,
        dx: 0,
        dy: 0,
    });
    ms.spawner.update_enemies(ms.pos_x, ms.pos_y);
    ms.update_projectiles();
    let player = Rect::new(ms.pos_x, ms.pos_y, 50_000, 50_000);
    ms.spawner.check_collisions(&player, &mut ms.score);
    ms.check_projectile_collisions();
    assert_eq!(ms.score, 1);
    assert_eq!(ms.spawner.enemies.len(), 0);
}

#[test]
fn perform_action_moves_the_player_and_clamps() {
    let mut ms = fresh();
    ms.perform_action("up");
    assert_eq!(ms.pos_y, 245_000);
    ms.perform_action("left");
    assert_eq!(ms.pos_x, 345_000);
    ms.perform_action("down");
    ms.perform_action("down");
    assert_eq!(ms.pos_y, 255_000);
    ms.perform_action("right");
    assert_eq!(ms.pos_x, 350_000);
    // clamped at the arena edge
    for _ in 0..200 {
        ms.perform_action("up");
    }
    assert_eq!(ms.pos_y, 0);
}

#[test]
fn unrecognized_action_token_is_a_noop() {
    let mut ms = fresh();
    ms.perform_action("jump");
    ms.perform_action("");
    ms.perform_action("UP");
    assert_eq!(ms.pos_x, 350_000);
    assert_eq!(ms.pos_y, 250_000);
}

#[test]
fn get_reward_returns_the_score_delta_and_moves_the_baseline() {
    let mut ms = fresh();
    ms.score = 7;
    ms.previous_score = 4;
    let r = ms.get_reward();
    assert_eq!(r, 3);
    assert_eq!(ms.previous_score, 7);
    let r2 = ms.get_reward();
    assert_eq!(r2, 0);
}

#[test]
fn paused_session_ticks_to_itself() {
    let mut ms = fresh();
    ms.toggle_pause();
    assert!(ms.paused);
    let t = ms.update();
    assert!(t.is_none());
    assert_eq!(ms.score, 0);
    assert_eq!(ms.spawner.enemies.len(), 0);
    assert_eq!(ms.rl_interface.epsilon, 1_000_000);
    ms.toggle_pause();
    assert!(!ms.paused);
}

#[test]
fn one_tick_spawns_learns_and_decays() {
    let mut ms = fresh();
    let t = ms.update();
    let tr = t.expect("an unpaused tick yields a transition");
    // spawn topped the arena up to five; collisions may have removed some
    assert!(ms.spawner.enemies.len() <= 5);
    assert!(ms.score >= 0);
    assert_eq!(ms.previous_score, ms.score);
    assert_eq!(tr.reward, ms.score);
    // exploration decayed by exactly one step: 1.0 * 0.995
    assert_eq!(ms.rl_interface.epsilon, 995_000);
    // the learned estimate of the visited pair reflects one TD update
    let q = ms.rl_interface.table.lookup(&tr.state, tr.action);
    assert_eq!(q, tr.reward * 100_000);
}

#[test]
fn epsilon_decays_toward_its_floor_and_stops_there() {
    let mut agent = RLInterface::new();
    assert_eq!(agent.epsilon, 1_000_000);
    agent.decay_epsilon();
    assert_eq!(agent.epsilon, 995_000);
    agent.decay_epsilon();
    assert_eq!(agent.epsilon, 990_025);
    for _ in 0..2_000 {
        agent.decay_epsilon();
    }
    assert_eq!(agent.epsilon, 10_000);
}

#[test]
fn many_ticks_keep_the_session_sound() {
    let mut ms = fresh();
    for _ in 0..50 {
        let t = ms.update();
        assert!(t.is_some());
        assert!(ms.spawner.enemies.len() <= 5);
        assert!(0 <= ms.pos_x && ms.pos_x <= 750_000);
        assert!(0 <= ms.pos_y && ms.pos_y <= 550_000);
        assert_eq!(ms.previous_score, ms.score);
    }
}
